//! The library's general guarantees, stated and proved over the same
//! models that the rendering contracts use.

use vstd::prelude::*;
use crate::errors::ErrV;
use crate::graphviz::{
    Direction, br_char, br_from, enc_char, enc_from, escape_spec, find_colon_from, goal_req_from,
    goals_req_from, group_req_from, groups_items_from, groups_req_from, is_ok, item_req_all,
    item_req_from, items_req_from, quote, render_spec, reqs, resolve_spec, spec_find_colon,
    token_base,
};
use crate::tree::{GoalV, GroupV, ItemV, StyleV, TreeV, spec_lookup_style};
use crate::validate::{
    goal_tokens_exist, goal_wf, group_tokens_exist, group_wf, ident_char, item_wf, token_exists,
    tree_wf, valid_ident,
};

verus! {

/// A character that escaping leaves alone: not markup-sensitive and
/// not a newline.
pub open spec fn safe_char(c: char) -> bool {
    !(c == '"' || c == '&' || c == '\'' || c == '<' || c == '>' || c == '\n')
}

/// The header anchor of a group is a function of the group's name
/// alone: a bare token naming a group always resolves to the group's
/// quoted name with its collective `all` port, whatever the direction
/// and whatever else the tree holds.
pub proof fn lemma_header_anchor(t: TreeV, name: Seq<char>, d: Direction)
    requires
        t.spec_is_group(name),
        !t.spec_is_goal(name),
        spec_find_colon(name) == name.len(),
    ensures
        resolve_spec(t, name, d) == Result::<Seq<char>, ErrV>::Ok(quote(name) + ":all"@),
{
}

/// An item with requirement tokens and no declared port makes its
/// edge rendering fail with a missing port error naming that item.
pub proof fn lemma_missing_port_item(t: TreeV, gname: Seq<char>, it: ItemV)
    requires
        reqs(it.requires).len() > 0,
        it.port is None,
    ensures
        item_req_all(t, gname, it) == Result::<Seq<char>, ErrV>::Err(
            ErrV::MissingPortError { label: it.label },
        ),
{
}

proof fn lemma_items_req_err(t: TreeV, g: GroupV, k0: int, k: int)
    requires
        0 <= k0 <= k < g.items.len(),
        reqs(g.items[k].requires).len() > 0,
        g.items[k].port is None,
    ensures
        !is_ok(items_req_from(t, g, k0)),
    decreases k - k0,
{
    if k0 == k {
        lemma_missing_port_item(t, g.name, g.items[k]);
    } else {
        lemma_items_req_err(t, g, k0 + 1, k);
    }
}

proof fn lemma_groups_items_err(t: TreeV, i0: int, i: int, k: int)
    requires
        0 <= i0 <= i < t.group.len(),
        0 <= k < t.group[i].items.len(),
        reqs(t.group[i].items[k].requires).len() > 0,
        t.group[i].items[k].port is None,
    ensures
        !is_ok(groups_items_from(t, i0)),
    decreases i - i0,
{
    if i0 == i {
        lemma_items_req_err(t, t.group[i], 0, k);
    } else {
        lemma_groups_items_err(t, i0 + 1, i, k);
    }
}

/// If any item of any group has requirement tokens but no declared
/// port, rendering the tree fails.
pub proof fn lemma_missing_port_fails_render(t: TreeV, i: int, k: int)
    requires
        0 <= i < t.group.len(),
        0 <= k < t.group[i].items.len(),
        reqs(t.group[i].items[k].requires).len() > 0,
        t.group[i].items[k].port is None,
    ensures
        render_spec(t) matches Result::Err(_),
{
    lemma_groups_items_err(t, 0, i, k);
}

/// Status resolution is strictly cascading: the item's own status name
/// wins; absent that, the owning group's; absent that, the tree's
/// default; and an unset or unknown name resolves to the inert style.
pub proof fn lemma_status_cascade(t: TreeV, g: GroupV, it: ItemV)
    ensures
        it.status is Some ==> t.cascade_status(g, it) == it.status,
        it.status is None && g.status is Some ==> t.cascade_status(g, it) == g.status,
        it.status is None && g.status is None ==> t.cascade_status(g, it) == t.default_status,
        t.cascade_status(g, it) is None ==> t.resolved_style(g, it) == StyleV::inert(),
        forall|name: Seq<char>|
            t.cascade_status(g, it) == Option::Some(name) && spec_lookup_style(t, name) is None
                ==> t.resolved_style(g, it) == StyleV::inert(),
{
}

proof fn lemma_enc_safe_identity(s: Seq<char>, i: int)
    requires
        0 <= i <= s.len(),
        forall|j: int| 0 <= j < s.len() ==> safe_char(#[trigger] s[j]),
    ensures
        enc_from(s, i) == s.skip(i),
    decreases s.len() - i,
{
    if i >= s.len() {
        assert(enc_from(s, i) =~= s.skip(i));
    } else {
        lemma_enc_safe_identity(s, i + 1);
        assert(enc_char(s[i]) == seq![s[i]]);
        assert(seq![s[i]] + s.skip(i + 1) =~= s.skip(i));
    }
}

proof fn lemma_br_safe_identity(s: Seq<char>, i: int)
    requires
        0 <= i <= s.len(),
        forall|j: int| 0 <= j < s.len() ==> #[trigger] s[j] != '\n',
    ensures
        br_from(s, i) == s.skip(i),
    decreases s.len() - i,
{
    if i >= s.len() {
        assert(br_from(s, i) =~= s.skip(i));
    } else {
        lemma_br_safe_identity(s, i + 1);
        assert(br_char(s[i]) == seq![s[i]]);
        assert(seq![s[i]] + s.skip(i + 1) =~= s.skip(i));
    }
}

/// Escaping is the identity on already-safe text: a sequence without
/// markup-sensitive characters and without newlines comes back
/// unchanged, so escaping it twice is the same as escaping it once.
pub proof fn lemma_escape_safe_identity(s: Seq<char>)
    requires
        forall|j: int| 0 <= j < s.len() ==> safe_char(#[trigger] s[j]),
    ensures
        escape_spec(s) == s,
{
    lemma_enc_safe_identity(s, 0);
    assert(s.skip(0) =~= s);
    lemma_br_safe_identity(s, 0);
}

proof fn lemma_br_no_newline(s: Seq<char>, i: int)
    requires
        0 <= i,
    ensures
        forall|k: int| 0 <= k < br_from(s, i).len() ==> #[trigger] br_from(s, i)[k] != '\n',
    decreases s.len() - i,
{
    if i < s.len() {
        lemma_br_no_newline(s, i + 1);
        let head = br_char(s[i]);
        if s[i] == '\n' {
            reveal_strlit("<br/>");
            assert(forall|k: int| 0 <= k < head.len() ==> #[trigger] head[k] != '\n');
        } else {
            assert(forall|k: int| 0 <= k < head.len() ==> #[trigger] head[k] != '\n');
        }
        assert(forall|k: int|
            0 <= k < br_from(s, i).len() ==> #[trigger] br_from(s, i)[k] != '\n') by {
            assert(br_from(s, i) == head + br_from(s, i + 1));
        }
    }
}

/// Escaped text never contains a literal newline: embedded newlines
/// become visual line breaks instead.
pub proof fn lemma_escape_no_newline(s: Seq<char>)
    ensures
        forall|k: int| 0 <= k < escape_spec(s).len() ==> #[trigger] escape_spec(s)[k] != '\n',
{
    lemma_br_no_newline(enc_from(s, 0), 0);
}

proof fn lemma_ident_no_colon(s: Seq<char>, i: int)
    requires
        0 <= i <= s.len(),
        forall|j: int| 0 <= j < s.len() ==> ident_char(#[trigger] s[j]),
    ensures
        find_colon_from(s, i) == s.len(),
    decreases s.len() - i,
{
    if i < s.len() {
        assert(ident_char(s[i]));
        assert(s[i] != ':');
        lemma_ident_no_colon(s, i + 1);
    }
}

proof fn lemma_resolve_token_ok(t: TreeV, tok: Seq<char>, d: Direction)
    requires
        token_exists(t, tok),
    ensures
        resolve_spec(t, tok, d) matches Result::Ok(_),
{
    let i = spec_find_colon(tok);
    if i < tok.len() {
        assert(token_base(tok) == tok.subrange(0, i));
    }
}

proof fn lemma_resolve_name_ok(t: TreeV, name: Seq<char>, d: Direction)
    requires
        valid_ident(name),
        t.spec_is_group(name) || t.spec_is_goal(name),
    ensures
        resolve_spec(t, name, d) matches Result::Ok(_),
{
    lemma_ident_no_colon(name, 0);
}

proof fn lemma_group_req_ok(t: TreeV, g: GroupV, j: int)
    requires
        0 <= j,
        group_wf(g),
        t.spec_is_group(g.name),
        forall|j2: int|
            0 <= j2 < reqs(g.requires).len() ==> token_exists(t, #[trigger] reqs(g.requires)[j2]),
    ensures
        group_req_from(t, g, j) matches Result::Ok(_),
    decreases reqs(g.requires).len() - j,
{
    if j < reqs(g.requires).len() {
        lemma_resolve_token_ok(t, reqs(g.requires)[j], Direction::Outgoing);
        lemma_resolve_name_ok(t, g.name, Direction::Incoming);
        lemma_group_req_ok(t, g, j + 1);
    }
}

proof fn lemma_item_req_ok(t: TreeV, gname: Seq<char>, it: ItemV, j: int)
    requires
        0 <= j,
        item_wf(it),
        forall|j2: int|
            0 <= j2 < reqs(it.requires).len() ==> token_exists(t, #[trigger] reqs(it.requires)[j2]),
    ensures
        item_req_from(t, gname, it, j) matches Result::Ok(_),
    decreases reqs(it.requires).len() - j,
{
    if j < reqs(it.requires).len() {
        lemma_resolve_token_ok(t, reqs(it.requires)[j], Direction::Outgoing);
        lemma_item_req_ok(t, gname, it, j + 1);
    }
}

proof fn lemma_items_ok(t: TreeV, g: GroupV, k: int)
    requires
        0 <= k,
        group_wf(g),
        group_tokens_exist(t, g),
    ensures
        items_req_from(t, g, k) matches Result::Ok(_),
    decreases g.items.len() - k,
{
    if k < g.items.len() {
        assert(item_wf(g.items[k]));
        lemma_item_req_ok(t, g.name, g.items[k], 0);
        lemma_items_ok(t, g, k + 1);
    }
}

proof fn lemma_goal_req_ok(t: TreeV, gl: GoalV, j: int)
    requires
        0 <= j,
        goal_wf(gl),
        t.spec_is_goal(gl.name),
        goal_tokens_exist(t, gl),
    ensures
        goal_req_from(t, gl, j) matches Result::Ok(_),
    decreases reqs(gl.requires).len() - j,
{
    if j < reqs(gl.requires).len() {
        lemma_resolve_token_ok(t, reqs(gl.requires)[j], Direction::Outgoing);
        lemma_resolve_name_ok(t, gl.name, Direction::Incoming);
        lemma_goal_req_ok(t, gl, j + 1);
    }
}

proof fn lemma_groups_req_all_ok(t: TreeV, i: int)
    requires
        0 <= i,
        tree_wf(t),
    ensures
        groups_req_from(t, i) matches Result::Ok(_),
    decreases t.group.len() - i,
{
    if i < t.group.len() {
        assert(t.spec_is_group(t.group[i].name));
        lemma_group_req_ok(t, t.group[i], 0);
        lemma_groups_req_all_ok(t, i + 1);
    }
}

proof fn lemma_groups_items_all_ok(t: TreeV, i: int)
    requires
        0 <= i,
        tree_wf(t),
    ensures
        groups_items_from(t, i) matches Result::Ok(_),
    decreases t.group.len() - i,
{
    if i < t.group.len() {
        lemma_items_ok(t, t.group[i], 0);
        lemma_groups_items_all_ok(t, i + 1);
    }
}

proof fn lemma_goals_req_all_ok(t: TreeV, i: int)
    requires
        0 <= i,
        tree_wf(t),
    ensures
        goals_req_from(t, i) matches Result::Ok(_),
    decreases t.goals_seq().len() - i,
{
    if i < t.goals_seq().len() {
        assert(t.spec_is_goal(t.goals_seq()[i].name));
        lemma_goal_req_ok(t, t.goals_seq()[i], 0);
        lemma_goals_req_all_ok(t, i + 1);
    }
}

/// A well-formed tree always renders: when validation succeeds,
/// rendering cannot fail.
pub proof fn lemma_wf_renders(t: TreeV)
    requires
        tree_wf(t),
    ensures
        render_spec(t) matches Result::Ok(_),
{
    lemma_groups_req_all_ok(t, 0);
    lemma_groups_items_all_ok(t, 0);
    lemma_goals_req_all_ok(t, 0);
}

} // verus!
