//! Structural validation: identifier syntax, requirement-token shape,
//! name uniqueness, the port rule, and resolvability of every
//! requirement token.

use vstd::prelude::*;
use crate::errors::{Error, ErrV};
use crate::graphviz::{find_colon, reqs, spec_find_colon, token_base};
use crate::tree::{Goal, GoalV, Group, GroupV, Item, ItemV, SkillTree, TreeV, str_eq};

verus! {

/// Whether `c` may appear in a graph-node identifier: a letter, a
/// digit, or an underscore.
pub open spec fn ident_char(c: char) -> bool {
    ('a' as u32) <= (c as u32) && (c as u32) <= ('z' as u32) || ('A' as u32) <= (c as u32) && (
    c as u32) <= ('Z' as u32) || ('0' as u32) <= (c as u32) && (c as u32) <= ('9' as u32) || c
        == '_'
}

/// Whether `c` is a decimal digit.
pub open spec fn digit_char(c: char) -> bool {
    ('0' as u32) <= (c as u32) && (c as u32) <= ('9' as u32)
}

/// A syntactically valid graph-node identifier: non-empty, made of
/// letters, digits and underscores, not starting with a digit.
pub open spec fn valid_ident(s: Seq<char>) -> bool {
    s.len() > 0 && !digit_char(s[0]) && (forall|i: int|
        0 <= i < s.len() ==> ident_char(#[trigger] s[i]))
}

/// A well-formed requirement token: `identifier` or `identifier:port`.
pub open spec fn valid_token_shape(tok: Seq<char>) -> bool {
    let i = spec_find_colon(tok);
    if i < tok.len() {
        valid_ident(tok.subrange(0, i)) && valid_ident(tok.subrange(i + 1, tok.len() as int))
    } else {
        valid_ident(tok)
    }
}

/// Whether a token's base name maps to a group or a goal of the tree.
pub open spec fn token_exists(t: TreeV, tok: Seq<char>) -> bool {
    t.spec_is_group(token_base(tok)) || t.spec_is_goal(token_base(tok))
}

/// Whether every token of a list is well-formed.
pub open spec fn all_shapes(toks: Seq<Seq<char>>) -> bool {
    forall|j: int| 0 <= j < toks.len() ==> valid_token_shape(#[trigger] toks[j])
}

/// A structurally well-formed item: well-formed tokens, and a port
/// whenever there are requirement tokens.
pub open spec fn item_wf(it: ItemV) -> bool {
    all_shapes(reqs(it.requires)) && (reqs(it.requires).len() > 0 ==> it.port is Some)
}

/// A structurally well-formed group: a valid identifier as name,
/// well-formed tokens, and well-formed items.
pub open spec fn group_wf(g: GroupV) -> bool {
    valid_ident(g.name) && all_shapes(reqs(g.requires)) && (forall|k: int|
        0 <= k < g.items.len() ==> item_wf(#[trigger] g.items[k]))
}

/// A structurally well-formed goal: a valid identifier as name and
/// well-formed tokens.
pub open spec fn goal_wf(gl: GoalV) -> bool {
    valid_ident(gl.name) && all_shapes(reqs(gl.requires))
}

/// Group names are pairwise distinct.
pub open spec fn unique_group_names(t: TreeV) -> bool {
    forall|i: int, j: int|
        0 <= i < j < t.group.len() ==> #[trigger] t.group[i].name != #[trigger] t.group[j].name
}

/// Goal names are pairwise distinct.
pub open spec fn unique_goal_names(t: TreeV) -> bool {
    forall|i: int, j: int|
        0 <= i < j < t.goals_seq().len() ==> #[trigger] t.goals_seq()[i].name
            != #[trigger] t.goals_seq()[j].name
}

/// No goal shares a name with a group.
pub open spec fn no_name_collision(t: TreeV) -> bool {
    forall|i: int, j: int|
        0 <= i < t.group.len() && 0 <= j < t.goals_seq().len() ==> #[trigger] t.group[i].name
            != #[trigger] t.goals_seq()[j].name
}

/// Every requirement token of `g` and of its items resolves to an
/// existing entity.
pub open spec fn group_tokens_exist(t: TreeV, g: GroupV) -> bool {
    (forall|j: int|
        0 <= j < reqs(g.requires).len() ==> token_exists(t, #[trigger] reqs(g.requires)[j]))
        && (forall|k: int, j: int|
        0 <= k < g.items.len() && 0 <= j < reqs(g.items[k].requires).len() ==> token_exists(
            t,
            #[trigger] reqs(g.items[k].requires)[j],
        ))
}

/// Every requirement token of `gl` resolves to an existing entity.
pub open spec fn goal_tokens_exist(t: TreeV, gl: GoalV) -> bool {
    forall|j: int|
        0 <= j < reqs(gl.requires).len() ==> token_exists(t, #[trigger] reqs(gl.requires)[j])
}

/// A well-formed tree: structurally well-formed groups and goals,
/// unique and non-colliding names, and no dangling reference anywhere.
pub open spec fn tree_wf(t: TreeV) -> bool {
    (forall|i: int| 0 <= i < t.group.len() ==> group_wf(#[trigger] t.group[i]))
        && unique_group_names(t) && (forall|i: int|
        0 <= i < t.goals_seq().len() ==> goal_wf(#[trigger] t.goals_seq()[i]))
        && unique_goal_names(t) && no_name_collision(t) && (forall|i: int|
        0 <= i < t.group.len() ==> group_tokens_exist(t, #[trigger] t.group[i])) && (forall|i: int|
        0 <= i < t.goals_seq().len() ==> goal_tokens_exist(t, #[trigger] t.goals_seq()[i]))
}

/// Whether `s` is a syntactically valid graph-node identifier.
pub fn is_valid_ident(s: &str) -> (r: bool)
    ensures
        r == valid_ident(s@),
{
    let n = s.unicode_len();
    if n == 0 {
        return false;
    }
    let first = s.get_char(0);
    if ('0' as u32) <= (first as u32) && (first as u32) <= ('9' as u32) {
        return false;
    }
    let mut i: usize = 0;
    while i < n
        invariant
            n == s@.len(),
            0 <= i <= n,
            forall|j: int| 0 <= j < i ==> ident_char(#[trigger] s@[j]),
        decreases n - i,
    {
        let c = s.get_char(i);
        let u = c as u32;
        let ok = ('a' as u32) <= u && u <= ('z' as u32) || ('A' as u32) <= u && u <= ('Z' as u32)
            || ('0' as u32) <= u && u <= ('9' as u32) || c == '_';
        if !ok {
            return false;
        }
        i += 1;
    }
    true
}

/// Whether `s` is a well-formed requirement token.
pub fn is_valid_token(s: &str) -> (r: bool)
    ensures
        r == valid_token_shape(s@),
{
    let n = s.unicode_len();
    let i = find_colon(s);
    if i < n {
        let name = s.substring_char(0, i);
        let port = s.substring_char(i + 1, n);
        is_valid_ident(name) && is_valid_ident(port)
    } else {
        is_valid_ident(s)
    }
}

impl SkillTree {
    /// Whether the base name of requirement token `tok` maps to one of
    /// the tree's groups or goals.
    pub fn has_target(&self, tok: &str) -> (r: bool)
        ensures
            r == token_exists(self@, tok@),
    {
        let n = tok.unicode_len();
        let i = find_colon(tok);
        let base: &str = if i < n {
            tok.substring_char(0, i)
        } else {
            tok
        };
        self.is_group(base) || self.is_goal(base)
    }
}

impl SkillTree {
    /// Checks that every requirement token of `group` and of its items
    /// resolves to an existing group or goal.
    fn group_targets_ok(&self, group: &Group) -> (r: Result<(), Error>)
        ensures
            (r matches Result::Ok(_)) <==> group_tokens_exist(self@, group@),
            r matches Result::Err(e) ==> (e@ matches ErrV::InvalidReferenceError { token }
                && !token_exists(self@, token)),
    {
        match &group.requires {
            Option::None => {},
            Option::Some(toks) => {
                let n = toks.len();
                let mut j: usize = 0;
                while j < n
                    invariant
                        n == toks.len(),
                        group.requires == Option::Some(*toks),
                        0 <= j <= n,
                        forall|j2: int|
                            0 <= j2 < j ==> token_exists(
                                self@,
                                #[trigger] reqs(group@.requires)[j2],
                            ),
                    decreases n - j,
                {
                    if !self.has_target(toks[j].as_str()) {
                        assert(!token_exists(self@, reqs(group@.requires)[j as int]));
                        return Result::Err(
                            Error::InvalidReferenceError { token: toks[j].clone() },
                        );
                    }
                    j += 1;
                }
            },
        }
        let nitems = group.items.len();
        let mut k: usize = 0;
        while k < nitems
            invariant
                nitems == group.items.len(),
                0 <= k <= nitems,
                forall|j2: int|
                    0 <= j2 < reqs(group@.requires).len() ==> token_exists(
                        self@,
                        #[trigger] reqs(group@.requires)[j2],
                    ),
                forall|k2: int, j2: int|
                    0 <= k2 < k && 0 <= j2 < reqs(group@.items[k2].requires).len()
                        ==> token_exists(
                        self@,
                        #[trigger] reqs(group@.items[k2].requires)[j2],
                    ),
            decreases nitems - k,
        {
            match &group.items[k].requires {
                Option::None => {},
                Option::Some(toks) => {
                    let n = toks.len();
                    let mut j: usize = 0;
                    while j < n
                        invariant
                            n == toks.len(),
                            0 <= k < nitems,
                            nitems == group.items.len(),
                            group.items[k as int].requires == Option::Some(*toks),
                            0 <= j <= n,
                            forall|j2: int|
                                0 <= j2 < j ==> token_exists(
                                    self@,
                                    #[trigger] reqs(group@.items[k as int].requires)[j2],
                                ),
                        decreases n - j,
                    {
                        if !self.has_target(toks[j].as_str()) {
                            assert(!token_exists(
                                self@,
                                reqs(group@.items[k as int].requires)[j as int],
                            ));
                            return Result::Err(
                                Error::InvalidReferenceError { token: toks[j].clone() },
                            );
                        }
                        j += 1;
                    }
                },
            }
            k += 1;
        }
        Result::Ok(())
    }

    /// Checks that every requirement token of `goal` resolves to an
    /// existing group or goal.
    fn goal_targets_ok(&self, goal: &Goal) -> (r: Result<(), Error>)
        ensures
            (r matches Result::Ok(_)) <==> goal_tokens_exist(self@, goal@),
            r matches Result::Err(e) ==> (e@ matches ErrV::InvalidReferenceError { token }
                && !token_exists(self@, token)),
    {
        match &goal.requires {
            Option::None => {},
            Option::Some(toks) => {
                let n = toks.len();
                let mut j: usize = 0;
                while j < n
                    invariant
                        n == toks.len(),
                        goal.requires == Option::Some(*toks),
                        0 <= j <= n,
                        forall|j2: int|
                            0 <= j2 < j ==> token_exists(
                                self@,
                                #[trigger] reqs(goal@.requires)[j2],
                            ),
                    decreases n - j,
                {
                    if !self.has_target(toks[j].as_str()) {
                        assert(!token_exists(self@, reqs(goal@.requires)[j as int]));
                        return Result::Err(
                            Error::InvalidReferenceError { token: toks[j].clone() },
                        );
                    }
                    j += 1;
                }
            },
        }
        Result::Ok(())
    }

    /// Checks the whole tree: each group and goal is structurally
    /// well-formed, names are unique and do not collide, and every
    /// requirement token resolves to an existing entity.
    pub fn validate(&self) -> (r: Result<(), Error>)
        ensures
            (r matches Result::Ok(_)) <==> tree_wf(self@),
            r matches Result::Err(e) ==> match e@ {
                ErrV::ParseError { detail } => true,
                ErrV::MissingPortError { label } => true,
                ErrV::InvalidReferenceError { token } => !token_exists(self@, token),
                _ => false,
            },
    {
        let ngroups = self.group.len();
        let mut i: usize = 0;
        while i < ngroups
            invariant
                ngroups == self.group.len(),
                0 <= i <= ngroups,
                forall|i2: int| 0 <= i2 < i ==> group_wf(#[trigger] self@.group[i2]),
            decreases ngroups - i,
        {
            match self.group[i].validate() {
                Result::Ok(_) => {},
                Result::Err(e) => {
                    assert(!group_wf(self@.group[i as int]));
                    return Result::Err(e);
                },
            }
            i += 1;
        }
        let mut i: usize = 0;
        while i < ngroups
            invariant
                ngroups == self.group.len(),
                0 <= i <= ngroups,
                forall|i2: int, j2: int|
                    0 <= j2 < i2 < i ==> #[trigger] self@.group[i2].name
                        != #[trigger] self@.group[j2].name,
            decreases ngroups - i,
        {
            let mut j: usize = 0;
            while j < i
                invariant
                    ngroups == self.group.len(),
                    0 <= j <= i < ngroups,
                    forall|j2: int|
                        0 <= j2 < j ==> #[trigger] self@.group[j2].name
                            != self@.group[i as int].name,
            decreases i - j,
            {
                if str_eq(self.group[j].name.as_str(), self.group[i].name.as_str()) {
                    assert(self@.group[j as int].name == self@.group[i as int].name);
                    assert(!unique_group_names(self@));
                    return Result::Err(
                        Error::ParseError { detail: self.group[i].name.clone() },
                    );
                }
                j += 1;
            }
            i += 1;
        }
        match &self.goal {
            Option::None => {},
            Option::Some(goals) => {
                let ngoals = goals.len();
                let mut i: usize = 0;
                while i < ngoals
                    invariant
                        ngoals == goals.len(),
                        self.goal == Option::Some(*goals),
                        0 <= i <= ngoals,
                        forall|i2: int| 0 <= i2 < i ==> goal_wf(#[trigger] self@.goals_seq()[i2]),
                        forall|i2: int, j2: int|
                            0 <= j2 < i2 < i ==> #[trigger] self@.goals_seq()[i2].name
                                != #[trigger] self@.goals_seq()[j2].name,
                        forall|g2: int, i2: int|
                            0 <= g2 < self@.group.len() && 0 <= i2 < i
                                ==> #[trigger] self@.group[g2].name
                                != #[trigger] self@.goals_seq()[i2].name,
                    decreases ngoals - i,
                {
                    if !is_valid_ident(goals[i].name.as_str()) {
                        assert(!goal_wf(self@.goals_seq()[i as int]));
                        return Result::Err(
                            Error::ParseError { detail: goals[i].name.clone() },
                        );
                    }
                    match &goals[i].requires {
                        Option::None => {},
                        Option::Some(toks) => {
                            let n = toks.len();
                            let mut j: usize = 0;
                            while j < n
                                invariant
                                    n == toks.len(),
                                    ngoals == goals.len(),
                                    self.goal == Option::Some(*goals),
                                    0 <= i < ngoals,
                                    goals[i as int].requires == Option::Some(*toks),
                                    0 <= j <= n,
                                    forall|j2: int|
                                        0 <= j2 < j ==> valid_token_shape(
                                            #[trigger] reqs(
                                                self@.goals_seq()[i as int].requires,
                                            )[j2],
                                        ),
                                decreases n - j,
                            {
                                if !is_valid_token(toks[j].as_str()) {
                                    assert(!valid_token_shape(
                                        reqs(self@.goals_seq()[i as int].requires)[j as int],
                                    ));
                                    assert(!goal_wf(self@.goals_seq()[i as int]));
                                    return Result::Err(
                                        Error::ParseError { detail: toks[j].clone() },
                                    );
                                }
                                j += 1;
                            }
                        },
                    }
                    if self.is_group(goals[i].name.as_str()) {
                        proof {
                            let g2 = choose|g2: int|
                                0 <= g2 < self@.group.len() && #[trigger] self@.group[g2].name
                                    == self@.goals_seq()[i as int].name;
                            assert(!no_name_collision(self@));
                        }
                        return Result::Err(
                            Error::ParseError { detail: goals[i].name.clone() },
                        );
                    }
                    let mut j: usize = 0;
                    while j < i
                        invariant
                            ngoals == goals.len(),
                            self.goal == Option::Some(*goals),
                            0 <= j <= i < ngoals,
                            forall|j2: int|
                                0 <= j2 < j ==> #[trigger] self@.goals_seq()[j2].name
                                    != self@.goals_seq()[i as int].name,
                        decreases i - j,
                    {
                        if str_eq(goals[j].name.as_str(), goals[i].name.as_str()) {
                            assert(self@.goals_seq()[j as int].name
                                == self@.goals_seq()[i as int].name);
                            assert(!unique_goal_names(self@));
                            return Result::Err(
                                Error::ParseError { detail: goals[i].name.clone() },
                            );
                        }
                        j += 1;
                    }
                    i += 1;
                }
            },
        }
        let mut i: usize = 0;
        while i < ngroups
            invariant
                ngroups == self.group.len(),
                0 <= i <= ngroups,
                forall|i2: int|
                    0 <= i2 < i ==> group_tokens_exist(self@, #[trigger] self@.group[i2]),
            decreases ngroups - i,
        {
            match self.group_targets_ok(&self.group[i]) {
                Result::Ok(_) => {},
                Result::Err(e) => {
                    assert(!group_tokens_exist(self@, self@.group[i as int]));
                    return Result::Err(e);
                },
            }
            i += 1;
        }
        match &self.goal {
            Option::None => {},
            Option::Some(goals) => {
                let ngoals = goals.len();
                let mut i: usize = 0;
                while i < ngoals
                    invariant
                        ngoals == goals.len(),
                        self.goal == Option::Some(*goals),
                        0 <= i <= ngoals,
                        forall|i2: int|
                            0 <= i2 < i ==> goal_tokens_exist(
                                self@,
                                #[trigger] self@.goals_seq()[i2],
                            ),
                    decreases ngoals - i,
                {
                    match self.goal_targets_ok(&goals[i]) {
                        Result::Ok(_) => {},
                        Result::Err(e) => {
                            assert(!goal_tokens_exist(self@, self@.goals_seq()[i as int]));
                            return Result::Err(e);
                        },
                    }
                    i += 1;
                }
            },
        }
        Result::Ok(())
    }
}

impl Item {
    /// Checks this item's structure: every requirement token has the
    /// form `identifier` or `identifier:port`, and an item with
    /// requirement tokens declares a port.
    pub fn validate(&self) -> (r: Result<(), Error>)
        ensures
            (r matches Result::Ok(_)) <==> item_wf(self@),
            r matches Result::Err(e) ==> match e@ {
                ErrV::ParseError { detail } => exists|j: int|
                    0 <= j < reqs(self@.requires).len() && !valid_token_shape(
                        #[trigger] reqs(self@.requires)[j],
                    ) && detail == reqs(self@.requires)[j],
                ErrV::MissingPortError { label } => label == self@.label && reqs(
                    self@.requires,
                ).len() > 0 && self@.port is None,
                _ => false,
            },
    {
        match &self.requires {
            Option::None => Result::Ok(()),
            Option::Some(toks) => {
                let n = toks.len();
                let mut j: usize = 0;
                while j < n
                    invariant
                        n == toks.len(),
                        self.requires == Option::Some(*toks),
                        0 <= j <= n,
                        forall|j2: int|
                            0 <= j2 < j ==> valid_token_shape(
                                #[trigger] reqs(self@.requires)[j2],
                            ),
                    decreases n - j,
                {
                    if !is_valid_token(toks[j].as_str()) {
                        assert(!valid_token_shape(reqs(self@.requires)[j as int]));
                        return Result::Err(
                            Error::ParseError { detail: toks[j].clone() },
                        );
                    }
                    j += 1;
                }
                if n > 0 && self.port.is_none() {
                    return Result::Err(
                        Error::MissingPortError { label: self.label.clone() },
                    );
                }
                Result::Ok(())
            },
        }
    }
}

impl Group {
    /// Checks this group's structure: its name is a valid graph-node
    /// identifier, its requirement tokens are well-formed, and each of
    /// its items is well-formed.
    pub fn validate(&self) -> (r: Result<(), Error>)
        ensures
            (r matches Result::Ok(_)) <==> group_wf(self@),
            r matches Result::Err(e) ==> match e@ {
                ErrV::ParseError { detail } => true,
                ErrV::MissingPortError { label } => true,
                _ => false,
            },
    {
        if !is_valid_ident(self.name.as_str()) {
            return Result::Err(Error::ParseError { detail: self.name.clone() });
        }
        match &self.requires {
            Option::None => {},
            Option::Some(toks) => {
                let n = toks.len();
                let mut j: usize = 0;
                while j < n
                    invariant
                        n == toks.len(),
                        self.requires == Option::Some(*toks),
                        0 <= j <= n,
                        forall|j2: int|
                            0 <= j2 < j ==> valid_token_shape(
                                #[trigger] reqs(self@.requires)[j2],
                            ),
                    decreases n - j,
                {
                    if !is_valid_token(toks[j].as_str()) {
                        assert(!valid_token_shape(reqs(self@.requires)[j as int]));
                        return Result::Err(
                            Error::ParseError { detail: toks[j].clone() },
                        );
                    }
                    j += 1;
                }
            },
        }
        let n = self.items.len();
        let mut k: usize = 0;
        while k < n
            invariant
                n == self.items.len(),
                0 <= k <= n,
                all_shapes(reqs(self@.requires)),
                valid_ident(self@.name),
                forall|k2: int| 0 <= k2 < k ==> item_wf(#[trigger] self@.items[k2]),
            decreases n - k,
        {
            match self.items[k].validate() {
                Result::Ok(_) => {},
                Result::Err(e) => {
                    assert(!item_wf(self@.items[k as int]));
                    return Result::Err(e);
                },
            }
            k += 1;
        }
        Result::Ok(())
    }
}

} // verus!
