//! Rendering: reference resolution into graph anchors, escaping,
//! per-node labels, and the deterministic emission of the textual graph
//! description.

use vstd::prelude::*;
use crate::errors::{Error, ErrV};
use crate::tree::{Goal, GoalV, Group, GroupV, Item, ItemV, SkillTree, TreeV, view_opt_string};

verus! {

// ---------------------------------------------------------------------
// Escaping
// ---------------------------------------------------------------------
/// What one character becomes under minimal entity encoding: each of
/// `"`, `&`, `'`, `<`, `>` turns into its entity; all else is unchanged.
pub open spec fn enc_char(c: char) -> Seq<char> {
    if c == '"' {
        "&quot;"@
    } else if c == '&' {
        "&amp;"@
    } else if c == '\'' {
        "&#x27;"@
    } else if c == '<' {
        "&lt;"@
    } else if c == '>' {
        "&gt;"@
    } else {
        seq![c]
    }
}

/// Entity encoding of the suffix of `s` that starts at `i`.
pub open spec fn enc_from(s: Seq<char>, i: int) -> Seq<char>
    decreases s.len() - i,
{
    if i < 0 || i >= s.len() {
        Seq::<char>::empty()
    } else {
        enc_char(s[i]) + enc_from(s, i + 1)
    }
}

/// Entity encoding of a whole character sequence.
pub open spec fn enc_seq(s: Seq<char>) -> Seq<char> {
    enc_from(s, 0)
}

/// What one character becomes under line-break conversion: a literal
/// newline turns into a visual line break; all else is unchanged.
pub open spec fn br_char(c: char) -> Seq<char> {
    if c == '\n' {
        "<br/>"@
    } else {
        seq![c]
    }
}

/// Line-break conversion of the suffix of `s` that starts at `i`.
pub open spec fn br_from(s: Seq<char>, i: int) -> Seq<char>
    decreases s.len() - i,
{
    if i < 0 || i >= s.len() {
        Seq::<char>::empty()
    } else {
        br_char(s[i]) + br_from(s, i + 1)
    }
}

/// Line-break conversion of a whole character sequence.
pub open spec fn br_seq(s: Seq<char>) -> Seq<char> {
    br_from(s, 0)
}

/// Model of [`escape`]: minimal entity encoding, then conversion of
/// literal newlines into visual line breaks.
pub open spec fn escape_spec(s: Seq<char>) -> Seq<char> {
    br_seq(enc_seq(s))
}

/// Relies on htmlescape::encode_minimal: each of `"`, `&`, `'`, `<`,
/// `>` becomes its entity, every other character is passed through
/// unchanged, in input order.
#[verifier::external_body]
fn encode_minimal(s: &str) -> (r: String)
    ensures
        r@ == enc_seq(s@),
{
    htmlescape::encode_minimal(s)
}

/// Escapes text for safe embedding in the graph description:
/// markup-sensitive characters are neutralized into entities and
/// embedded newlines become visual line breaks.
pub fn escape(s: &str) -> (r: String)
    ensures
        r@ == escape_spec(s@),
{
    let enc = encode_minimal(s);
    let n = enc.as_str().unicode_len();
    let mut out = String::new();
    let mut i: usize = 0;
    while i < n
        invariant
            n == enc@.len(),
            0 <= i <= n,
            br_from(enc@, 0) == out@ + br_from(enc@, i as int),
        decreases n - i,
    {
        let c = enc.as_str().get_char(i);
        proof {
            crate::concat::lemma_cat_assoc(out@, br_char(enc@[i as int]), br_from(enc@, i + 1));
        }
        if c == '\n' {
            out.append("<br/>");
        } else {
            let piece = enc.as_str().substring_char(i, i + 1);
            proof {
                assert(piece@ =~= br_char(enc@[i as int]));
            }
            out.append(piece);
        }
        i += 1;
    }
    proof {
        assert(out@ + br_from(enc@, n as int) =~= out@);
    }
    out
}

// ---------------------------------------------------------------------
// Attribute strings
// ---------------------------------------------------------------------
/// Model of [`attribute_str`]: nothing when the text is absent, else
/// ` label="textsuffix"`.
pub open spec fn attribute_spec(label: Seq<char>, text: Option<Seq<char>>, suffix: Seq<char>)
    -> Seq<char> {
    match text {
        Option::None => Seq::<char>::empty(),
        Option::Some(t) => " "@ + label + "=\""@ + t + suffix + "\""@,
    }
}

/// Renders one optional node or cell attribute: the empty string when
/// `text` is absent, else ` label="textsuffix"`.
pub fn attribute_str(label: &str, text: &Option<String>, suffix: &str) -> (r: String)
    ensures
        r@ == attribute_spec(label@, view_opt_string(*text), suffix@),
{
    match text {
        Option::None => String::new(),
        Option::Some(t) => {
            let mut s = String::from_str(" ");
            s.append(label);
            s.append("=\"");
            s.append(t.as_str());
            s.append(suffix);
            s.append("\"");
            s
        },
    }
}

// ---------------------------------------------------------------------
// Reference resolution
// ---------------------------------------------------------------------
/// The role an entity plays on a dependency edge: the target of the
/// edge, or its source.
#[derive(Clone, Copy, Debug, PartialEq, Eq, Structural)]
pub enum Direction {
    Incoming,
    Outgoing,
}

/// The anchor suffix of a direction.
pub open spec fn dir_str(d: Direction) -> Seq<char> {
    match d {
        Direction::Incoming => "in"@,
        Direction::Outgoing => "out"@,
    }
}

/// Index of the first port separator at or after `i`, or the length of
/// `s` if there is none.
pub open spec fn find_colon_from(s: Seq<char>, i: int) -> int
    decreases s.len() - i,
{
    if i < 0 || i >= s.len() {
        s.len() as int
    } else if s[i] == ':' {
        i
    } else {
        find_colon_from(s, i + 1)
    }
}

/// Index of the first port separator of `s`, or its length.
pub open spec fn spec_find_colon(s: Seq<char>) -> int {
    find_colon_from(s, 0)
}

/// Index of the first `:` of `s`, or its character length if none.
pub fn find_colon(s: &str) -> (r: usize)
    ensures
        r == spec_find_colon(s@),
{
    let n = s.unicode_len();
    let mut i: usize = 0;
    while i < n
        invariant
            n == s@.len(),
            0 <= i <= n,
            spec_find_colon(s@) == find_colon_from(s@, i as int),
        decreases n - i,
    {
        if s.get_char(i) == ':' {
            return i;
        }
        i += 1;
    }
    n
}

/// The base entity name of a requirement token: what precedes the
/// first port separator, or the whole token if there is none.
pub open spec fn token_base(tok: Seq<char>) -> Seq<char> {
    let i = spec_find_colon(tok);
    if i < tok.len() {
        tok.subrange(0, i)
    } else {
        tok
    }
}

/// A name wrapped in double quotes, as graph node references are written.
pub open spec fn quote(name: Seq<char>) -> Seq<char> {
    "\""@ + name + "\""@
}

/// Model of [`SkillTree::port_name`]: a `name:port` token resolves to
/// the named sub-port suffixed with the direction; a bare goal name to
/// the goal node itself; a bare group name to the group's collective
/// `all` port. A token whose base name exists in neither the group set
/// nor the goal set is an invalid reference.
pub open spec fn resolve_spec(t: TreeV, tok: Seq<char>, d: Direction) -> Result<Seq<char>, ErrV> {
    let i = spec_find_colon(tok);
    if i < tok.len() {
        let name = tok.subrange(0, i);
        let port = tok.subrange(i + 1, tok.len() as int);
        if t.spec_is_group(name) || t.spec_is_goal(name) {
            Result::Ok(quote(name) + ":_"@ + port + "_"@ + dir_str(d))
        } else {
            Result::Err(ErrV::InvalidReferenceError { token: tok })
        }
    } else if t.spec_is_goal(tok) {
        Result::Ok(quote(tok))
    } else if t.spec_is_group(tok) {
        Result::Ok(quote(tok) + ":all"@)
    } else {
        Result::Err(ErrV::InvalidReferenceError { token: tok })
    }
}

/// Whether an executable rendering result matches its model: same
/// success or failure, and the same text on either side.
pub open spec fn matches_result(r: Result<String, Error>, sp: Result<Seq<char>, ErrV>) -> bool {
    match (r, sp) {
        (Result::Ok(s), Result::Ok(m)) => s@ == m,
        (Result::Err(e), Result::Err(m)) => e@ == m,
        _ => false,
    }
}

impl SkillTree {
    /// Resolves a requirement token into a graph anchor for the given
    /// direction, per [`resolve_spec`].
    pub fn port_name(&self, token: &str, direction: Direction) -> (r: Result<String, Error>)
        ensures
            matches_result(r, resolve_spec(self@, token@, direction)),
    {
        let n = token.unicode_len();
        let i = find_colon(token);
        if i < n {
            let name = token.substring_char(0, i);
            let port = token.substring_char(i + 1, n);
            if self.is_group(name) || self.is_goal(name) {
                let mut s = String::from_str("\"");
                s.append(name);
                s.append("\"");
                s.append(":_");
                s.append(port);
                s.append("_");
                match direction {
                    Direction::Incoming => s.append("in"),
                    Direction::Outgoing => s.append("out"),
                }
                Result::Ok(s)
            } else {
                Result::Err(Error::InvalidReferenceError { token: String::from_str(token) })
            }
        } else if self.is_goal(token) {
            let mut s = String::from_str("\"");
            s.append(token);
            s.append("\"");
            proof {
                assert(s@ =~= quote(token@));
            }
            Result::Ok(s)
        } else if self.is_group(token) {
            let mut s = String::from_str("\"");
            s.append(token);
            s.append("\"");
            s.append(":all");
            Result::Ok(s)
        } else {
            Result::Err(Error::InvalidReferenceError { token: String::from_str(token) })
        }
    }
}

// ---------------------------------------------------------------------
// Labels and node declarations
// ---------------------------------------------------------------------
/// The display label of a goal: its label if present, else its name.
pub open spec fn goal_display(g: GoalV) -> Seq<char> {
    match g.label {
        Option::Some(l) => l,
        Option::None => g.name,
    }
}

/// The display label of a group: its label if present, else its name.
pub open spec fn group_display(g: GroupV) -> Seq<char> {
    match g.label {
        Option::Some(l) => l,
        Option::None => g.name,
    }
}

/// Model of [`goal_label`]: the escaped display label as a quoted
/// `label` attribute line.
pub open spec fn goal_label_spec(g: GoalV) -> Seq<char> {
    "  label = \""@ + escape_spec(goal_display(g)) + "\"\n"@
}

/// Renders a goal's label attribute line.
pub fn goal_label(goal: &Goal) -> (r: String)
    ensures
        r@ == goal_label_spec(goal@),
{
    let label = match &goal.label {
        Option::Some(l) => l.as_str(),
        Option::None => goal.name.as_str(),
    };
    let esc = escape(label);
    let mut s = String::from_str("  label = \"");
    s.append(esc.as_str());
    s.append("\"\n");
    s
}

/// The color of a group's header row: its declared header color, else
/// a warm amber.
pub open spec fn header_color_of(g: GroupV) -> Seq<char> {
    match g.header_color {
        Option::Some(c) => c,
        Option::None => "darkgoldenrod"@,
    }
}

/// Model of a group's header row: spans both columns, colored by the
/// header color, carries the group's hyperlink if present, shows the
/// escaped group label, and exposes the `all` port.
pub open spec fn group_header_spec(g: GroupV) -> Seq<char> {
    "    <tr><td bgcolor=\""@ + header_color_of(g) + "\" port=\"all\" colspan=\"2\""@
        + attribute_spec("href"@, g.href, ""@) + ">"@ + escape_spec(group_display(g))
        + "</td></tr>\n"@
}

/// Model of one item row: a left cell with the style glyph and the
/// `<port>_in` anchor, and a right cell with the decorated, escaped
/// item label, its colors and hyperlink, and the `<port>_out` anchor.
pub open spec fn item_row_spec(t: TreeV, g: GroupV, it: ItemV) -> Seq<char> {
    let style = t.effective_style(g, it);
    let bgcolor = attribute_spec("bgcolor"@, style.bgcolor, ""@);
    let fontcolor = attribute_spec("fontcolor"@, style.fontcolor, ""@);
    let href = attribute_spec("href"@, it.href, ""@);
    let port_pref = match it.port {
        Option::None => Option::<Seq<char>>::None,
        Option::Some(p) => Option::Some("_"@ + p),
    };
    let port_in = attribute_spec("port"@, port_pref, "_in"@);
    let port_out = attribute_spec("port"@, port_pref, "_out"@);
    let emoji = match style.emoji {
        Option::None => Seq::<char>::empty(),
        Option::Some(e) => e,
    };
    "    <tr><td"@ + bgcolor + port_in + ">"@ + emoji + "</td><td"@ + fontcolor + bgcolor + href
        + port_out + ">"@ + style.start_tag + escape_spec(it.label) + style.end_tag
        + "</td></tr>\n"@
}

/// Renders one item row of a group's table.
pub fn item_row(tree: &SkillTree, group: &Group, item: &Item) -> (r: String)
    ensures
        r@ == item_row_spec(tree@, group@, item@),
{
    let style = tree.item_style(group, item);
    let bgcolor = attribute_str("bgcolor", &style.bgcolor, "");
    let fontcolor = attribute_str("fontcolor", &style.fontcolor, "");
    let href = attribute_str("href", &item.href, "");
    let port_pref: Option<String> = match &item.port {
        Option::None => Option::None,
        Option::Some(p) => {
            let mut s = String::from_str("_");
            s.append(p.as_str());
            Option::Some(s)
        },
    };
    let port_in = attribute_str("port", &port_pref, "_in");
    let port_out = attribute_str("port", &port_pref, "_out");
    let esc_label = escape(item.label.as_str());
    let mut s = String::from_str("    <tr><td");
    s.append(bgcolor.as_str());
    s.append(port_in.as_str());
    s.append(">");
    match &style.emoji {
        Option::Some(e) => s.append(e.as_str()),
        Option::None => {
            proof {
                crate::concat::lemma_cat_empty(s@);
            }
        },
    }
    s.append("</td><td");
    s.append(fontcolor.as_str());
    s.append(bgcolor.as_str());
    s.append(href.as_str());
    s.append(port_out.as_str());
    s.append(">");
    s.append(style.start_tag.as_str());
    s.append(esc_label.as_str());
    s.append(style.end_tag.as_str());
    s.append("</td></tr>\n");
    s
}

/// The item rows of `g` from index `i` on, in declaration order.
pub open spec fn item_rows_from(t: TreeV, g: GroupV, i: int) -> Seq<char>
    decreases g.items.len() - i,
{
    if i < 0 || i >= g.items.len() {
        Seq::<char>::empty()
    } else {
        item_row_spec(t, g, g.items[i]) + item_rows_from(t, g, i + 1)
    }
}

/// Model of [`group_label`]: a table with the header row and one row
/// per item, in declaration order.
pub open spec fn group_label_spec(t: TreeV, g: GroupV) -> Seq<char> {
    "  label = <<table>\n"@ + group_header_spec(g) + item_rows_from(t, g, 0) + "  </table>>\n"@
}

/// Renders a group's table label: header row, then one row per item.
pub fn group_label(tree: &SkillTree, group: &Group) -> (r: String)
    ensures
        r@ == group_label_spec(tree@, group@),
{
    let esc_label = escape(match &group.label {
        Option::Some(l) => l.as_str(),
        Option::None => group.name.as_str(),
    });
    let group_href = attribute_str("href", &group.href, "");
    let mut header = String::from_str("    <tr><td bgcolor=\"");
    match &group.header_color {
        Option::Some(c) => header.append(c.as_str()),
        Option::None => header.append("darkgoldenrod"),
    }
    header.append("\" port=\"all\" colspan=\"2\"");
    header.append(group_href.as_str());
    header.append(">");
    header.append(esc_label.as_str());
    header.append("</td></tr>\n");
    let mut s = String::from_str("  label = <<table>\n");
    s.append(header.as_str());
    let ghost mid = s@;
    let n = group.items.len();
    let mut i: usize = 0;
    while i < n
        invariant
            n == group.items.len(),
            0 <= i <= n,
            s@ + item_rows_from(tree@, group@, i as int) == mid + item_rows_from(
                tree@,
                group@,
                0,
            ),
        decreases n - i,
    {
        let row = item_row(tree, group, &group.items[i]);
        proof {
            crate::concat::lemma_cat_assoc(
                s@,
                row@,
                item_rows_from(tree@, group@, i + 1),
            );
        }
        s.append(row.as_str());
        i += 1;
    }
    proof {
        crate::concat::lemma_cat_empty(s@);
    }
    s.append("  </table>>\n");
    s
}

/// Model of one group's node declaration: the quoted name, the table
/// label, a borderless shape, zero margin.
pub open spec fn group_node_spec(t: TreeV, g: GroupV) -> Seq<char> {
    quote(g.name) + " [\n"@ + group_label_spec(t, g) + "  shape = \"none\"\n"@ + "  margin = 0\n"@
        + "]\n"@
}

/// Renders one group's node declaration.
pub fn group_node(tree: &SkillTree, group: &Group) -> (r: String)
    ensures
        r@ == group_node_spec(tree@, group@),
{
    let lbl = group_label(tree, group);
    let mut s = String::from_str("\"");
    s.append(group.name.as_str());
    s.append("\"");
    s.append(" [\n");
    s.append(lbl.as_str());
    s.append("  shape = \"none\"\n");
    s.append("  margin = 0\n");
    s.append("]\n");
    s
}

/// Model of one goal's node declaration: the quoted name, the escaped
/// label, a filled amber note shape.
pub open spec fn goal_node_spec(g: GoalV) -> Seq<char> {
    quote(g.name) + " [\n"@ + goal_label_spec(g) + "  shape = \"note\"\n"@ + "  margin = 0\n"@
        + "  style = \"filled\"\n"@ + "  fillcolor = \"darkgoldenrod\"\n"@ + "]\n"@
}

/// Renders one goal's node declaration.
pub fn goal_node(goal: &Goal) -> (r: String)
    ensures
        r@ == goal_node_spec(goal@),
{
    let lbl = goal_label(goal);
    let mut s = String::from_str("\"");
    s.append(goal.name.as_str());
    s.append("\"");
    s.append(" [\n");
    s.append(lbl.as_str());
    s.append("  shape = \"note\"\n");
    s.append("  margin = 0\n");
    s.append("  style = \"filled\"\n");
    s.append("  fillcolor = \"darkgoldenrod\"\n");
    s.append("]\n");
    s
}

// ---------------------------------------------------------------------
// Edge emission
// ---------------------------------------------------------------------
/// Whether a rendering result is a success.
pub open spec fn is_ok(r: Result<Seq<char>, ErrV>) -> bool {
    match r {
        Result::Ok(_) => true,
        Result::Err(_) => false,
    }
}

/// The text of a successful rendering result.
pub open spec fn ok_of(r: Result<Seq<char>, ErrV>) -> Seq<char> {
    match r {
        Result::Ok(s) => s,
        Result::Err(_) => Seq::<char>::empty(),
    }
}

/// The requirement tokens of an optional token list: absent means none.
pub open spec fn reqs(o: Option<Seq<Seq<char>>>) -> Seq<Seq<char>> {
    match o {
        Option::None => Seq::<Seq<char>>::empty(),
        Option::Some(v) => v,
    }
}

/// One edge of the graph, from a source anchor to a target anchor.
pub open spec fn edge_line(src: Seq<char>, dst: Seq<char>) -> Seq<char> {
    src + " -> "@ + dst + ";\n"@
}

/// The group-requirement edges of `g` from token index `j` on: each
/// token resolved as a source, the group's own anchor as the target.
pub open spec fn group_req_from(t: TreeV, g: GroupV, j: int) -> Result<Seq<char>, ErrV>
    decreases reqs(g.requires).len() - j,
{
    let toks = reqs(g.requires);
    if j < 0 || j >= toks.len() {
        Result::Ok(Seq::<char>::empty())
    } else {
        match resolve_spec(t, toks[j], Direction::Outgoing) {
            Result::Err(e) => Result::Err(e),
            Result::Ok(src) => match resolve_spec(t, g.name, Direction::Incoming) {
                Result::Err(e) => Result::Err(e),
                Result::Ok(dst) => match group_req_from(t, g, j + 1) {
                    Result::Err(e) => Result::Err(e),
                    Result::Ok(rest) => Result::Ok(edge_line(src, dst) + rest),
                },
            },
        }
    }
}

/// All group-requirement edges of `g`.
pub open spec fn group_req_all(t: TreeV, g: GroupV) -> Result<Seq<char>, ErrV> {
    group_req_from(t, g, 0)
}

/// The anchor an item-requirement edge points at: the item's `_in`
/// port on its group's node.
pub open spec fn item_target(gname: Seq<char>, port: Seq<char>) -> Seq<char> {
    quote(gname) + ":_"@ + port + "_in"@
}

/// The item-requirement edges of `it` from token index `j` on. An item
/// with requirement tokens but no declared port fails with a missing
/// port error naming the item's label.
pub open spec fn item_req_from(t: TreeV, gname: Seq<char>, it: ItemV, j: int) -> Result<
    Seq<char>,
    ErrV,
>
    decreases reqs(it.requires).len() - j,
{
    let toks = reqs(it.requires);
    if j < 0 || j >= toks.len() {
        Result::Ok(Seq::<char>::empty())
    } else {
        match it.port {
            Option::None => Result::Err(ErrV::MissingPortError { label: it.label }),
            Option::Some(p) => match resolve_spec(t, toks[j], Direction::Outgoing) {
                Result::Err(e) => Result::Err(e),
                Result::Ok(src) => match item_req_from(t, gname, it, j + 1) {
                    Result::Err(e) => Result::Err(e),
                    Result::Ok(rest) => Result::Ok(edge_line(src, item_target(gname, p)) + rest),
                },
            },
        }
    }
}

/// All item-requirement edges of `it` within the group named `gname`.
pub open spec fn item_req_all(t: TreeV, gname: Seq<char>, it: ItemV) -> Result<Seq<char>, ErrV> {
    item_req_from(t, gname, it, 0)
}

/// The item-requirement edges of the items of `g` from index `k` on.
pub open spec fn items_req_from(t: TreeV, g: GroupV, k: int) -> Result<Seq<char>, ErrV>
    decreases g.items.len() - k,
{
    if k < 0 || k >= g.items.len() {
        Result::Ok(Seq::<char>::empty())
    } else {
        match item_req_all(t, g.name, g.items[k]) {
            Result::Err(e) => Result::Err(e),
            Result::Ok(s) => match items_req_from(t, g, k + 1) {
                Result::Err(e) => Result::Err(e),
                Result::Ok(rest) => Result::Ok(s + rest),
            },
        }
    }
}

/// All item-requirement edges of the items of `g`.
pub open spec fn items_req_all(t: TreeV, g: GroupV) -> Result<Seq<char>, ErrV> {
    items_req_from(t, g, 0)
}

/// The goal-requirement edges of `gl` from token index `j` on.
pub open spec fn goal_req_from(t: TreeV, gl: GoalV, j: int) -> Result<Seq<char>, ErrV>
    decreases reqs(gl.requires).len() - j,
{
    let toks = reqs(gl.requires);
    if j < 0 || j >= toks.len() {
        Result::Ok(Seq::<char>::empty())
    } else {
        match resolve_spec(t, toks[j], Direction::Outgoing) {
            Result::Err(e) => Result::Err(e),
            Result::Ok(src) => match resolve_spec(t, gl.name, Direction::Incoming) {
                Result::Err(e) => Result::Err(e),
                Result::Ok(dst) => match goal_req_from(t, gl, j + 1) {
                    Result::Err(e) => Result::Err(e),
                    Result::Ok(rest) => Result::Ok(edge_line(src, dst) + rest),
                },
            },
        }
    }
}

/// All goal-requirement edges of `gl`.
pub open spec fn goal_req_all(t: TreeV, gl: GoalV) -> Result<Seq<char>, ErrV> {
    goal_req_from(t, gl, 0)
}

/// Builds one edge's text onto `s`.
fn push_edge(s: &mut String, src: &str, dst: &str)
    ensures
        final(s)@ == old(s)@ + edge_line(src@, dst@),
{
    proof {
        crate::concat::lemma_cat_assoc(old(s)@, src@, " -> "@);
        crate::concat::lemma_cat_assoc(old(s)@, src@ + " -> "@, dst@);
        crate::concat::lemma_cat_assoc(old(s)@, src@ + " -> "@ + dst@, ";\n"@);
    }
    s.append(src);
    s.append(" -> ");
    s.append(dst);
    s.append(";\n");
}

/// Renders the group-requirement edges of one group, in token order.
pub fn group_req_edges(tree: &SkillTree, group: &Group) -> (r: Result<String, Error>)
    ensures
        matches_result(r, group_req_all(tree@, group@)),
{
    let mut s = String::new();
    let toks: &Vec<String> = match &group.requires {
        Option::None => {
            return Result::Ok(s);
        },
        Option::Some(v) => v,
    };
    let n = toks.len();
    let mut j: usize = 0;
    while j < n
        invariant
            n == toks.len(),
            0 <= j <= n,
            group.requires == Option::Some(*toks),
            match group_req_from(tree@, group@, j as int) {
                Result::Ok(rest) => is_ok(group_req_all(tree@, group@)) && s@ + rest == ok_of(
                    group_req_all(tree@, group@),
                ),
                Result::Err(e) => group_req_all(tree@, group@) == Result::<Seq<char>, ErrV>::Err(
                    e,
                ),
            },
        decreases n - j,
    {
        let src = match tree.port_name(toks[j].as_str(), Direction::Outgoing) {
            Result::Ok(v) => v,
            Result::Err(e) => {
                return Result::Err(e);
            },
        };
        let dst = match tree.port_name(group.name.as_str(), Direction::Incoming) {
            Result::Ok(v) => v,
            Result::Err(e) => {
                return Result::Err(e);
            },
        };
        proof {
            crate::concat::lemma_cat_assoc(
                s@,
                edge_line(src@, dst@),
                ok_of(group_req_from(tree@, group@, j + 1)),
            );
        }
        push_edge(&mut s, src.as_str(), dst.as_str());
        j += 1;
    }
    proof {
        crate::concat::lemma_cat_empty(s@);
    }
    Result::Ok(s)
}

/// Renders the item-requirement edges of one item, in token order;
/// fails with a missing port error if the item has tokens but no port.
pub fn item_req_edges(tree: &SkillTree, group: &Group, item: &Item) -> (r: Result<String, Error>)
    ensures
        matches_result(r, item_req_all(tree@, group@.name, item@)),
{
    let mut s = String::new();
    let toks: &Vec<String> = match &item.requires {
        Option::None => {
            return Result::Ok(s);
        },
        Option::Some(v) => v,
    };
    let n = toks.len();
    let mut j: usize = 0;
    while j < n
        invariant
            n == toks.len(),
            0 <= j <= n,
            item.requires == Option::Some(*toks),
            match item_req_from(tree@, group@.name, item@, j as int) {
                Result::Ok(rest) => is_ok(item_req_all(tree@, group@.name, item@)) && s@ + rest
                    == ok_of(item_req_all(tree@, group@.name, item@)),
                Result::Err(e) => item_req_all(tree@, group@.name, item@) == Result::<
                    Seq<char>,
                    ErrV,
                >::Err(e),
            },
        decreases n - j,
    {
        let port: &String = match &item.port {
            Option::None => {
                return Result::Err(Error::MissingPortError { label: item.label.clone() });
            },
            Option::Some(p) => p,
        };
        let src = match tree.port_name(toks[j].as_str(), Direction::Outgoing) {
            Result::Ok(v) => v,
            Result::Err(e) => {
                return Result::Err(e);
            },
        };
        let mut dst = String::from_str("\"");
        dst.append(group.name.as_str());
        dst.append("\"");
        dst.append(":_");
        dst.append(port.as_str());
        dst.append("_in");
        proof {
            crate::concat::lemma_cat_assoc(
                s@,
                edge_line(src@, dst@),
                ok_of(item_req_from(tree@, group@.name, item@, j + 1)),
            );
        }
        push_edge(&mut s, src.as_str(), dst.as_str());
        j += 1;
    }
    proof {
        crate::concat::lemma_cat_empty(s@);
    }
    Result::Ok(s)
}

/// Renders the item-requirement edges of all items of one group, in
/// declaration order.
pub fn group_items_edges(tree: &SkillTree, group: &Group) -> (r: Result<String, Error>)
    ensures
        matches_result(r, items_req_all(tree@, group@)),
{
    let mut s = String::new();
    let n = group.items.len();
    let mut k: usize = 0;
    while k < n
        invariant
            n == group.items.len(),
            0 <= k <= n,
            match items_req_from(tree@, group@, k as int) {
                Result::Ok(rest) => is_ok(items_req_all(tree@, group@)) && s@ + rest == ok_of(
                    items_req_all(tree@, group@),
                ),
                Result::Err(e) => items_req_all(tree@, group@) == Result::<Seq<char>, ErrV>::Err(
                    e,
                ),
            },
        decreases n - k,
    {
        let seg = match item_req_edges(tree, group, &group.items[k]) {
            Result::Ok(v) => v,
            Result::Err(e) => {
                return Result::Err(e);
            },
        };
        proof {
            crate::concat::lemma_cat_assoc(
                s@,
                seg@,
                ok_of(items_req_from(tree@, group@, k + 1)),
            );
        }
        s.append(seg.as_str());
        k += 1;
    }
    proof {
        crate::concat::lemma_cat_empty(s@);
    }
    Result::Ok(s)
}

/// Renders the goal-requirement edges of one goal, in token order.
pub fn goal_req_edges(tree: &SkillTree, goal: &Goal) -> (r: Result<String, Error>)
    ensures
        matches_result(r, goal_req_all(tree@, goal@)),
{
    let mut s = String::new();
    let toks: &Vec<String> = match &goal.requires {
        Option::None => {
            return Result::Ok(s);
        },
        Option::Some(v) => v,
    };
    let n = toks.len();
    let mut j: usize = 0;
    while j < n
        invariant
            n == toks.len(),
            0 <= j <= n,
            goal.requires == Option::Some(*toks),
            match goal_req_from(tree@, goal@, j as int) {
                Result::Ok(rest) => is_ok(goal_req_all(tree@, goal@)) && s@ + rest == ok_of(
                    goal_req_all(tree@, goal@),
                ),
                Result::Err(e) => goal_req_all(tree@, goal@) == Result::<Seq<char>, ErrV>::Err(
                    e,
                ),
            },
        decreases n - j,
    {
        let src = match tree.port_name(toks[j].as_str(), Direction::Outgoing) {
            Result::Ok(v) => v,
            Result::Err(e) => {
                return Result::Err(e);
            },
        };
        let dst = match tree.port_name(goal.name.as_str(), Direction::Incoming) {
            Result::Ok(v) => v,
            Result::Err(e) => {
                return Result::Err(e);
            },
        };
        proof {
            crate::concat::lemma_cat_assoc(
                s@,
                edge_line(src@, dst@),
                ok_of(goal_req_from(tree@, goal@, j + 1)),
            );
        }
        push_edge(&mut s, src.as_str(), dst.as_str());
        j += 1;
    }
    proof {
        crate::concat::lemma_cat_empty(s@);
    }
    Result::Ok(s)
}

// ---------------------------------------------------------------------
// The full pass
// ---------------------------------------------------------------------
/// The fixed opening lines of the graph description.
pub open spec fn preamble_spec() -> Seq<char> {
    "digraph g {\n"@ + "graph [ rankdir = \"LR\" ];\n"@
        + "node [ fontsize=\"16\", shape = \"ellipse\" ];\n"@ + "edge [ ];\n"@
}

/// The group node declarations from index `i` on, in declaration order.
pub open spec fn group_nodes_from(t: TreeV, i: int) -> Seq<char>
    decreases t.group.len() - i,
{
    if i < 0 || i >= t.group.len() {
        Seq::<char>::empty()
    } else {
        group_node_spec(t, t.group[i]) + group_nodes_from(t, i + 1)
    }
}

/// The goal node declarations from index `i` on, in declaration order.
pub open spec fn goal_nodes_from(t: TreeV, i: int) -> Seq<char>
    decreases t.goals_seq().len() - i,
{
    if i < 0 || i >= t.goals_seq().len() {
        Seq::<char>::empty()
    } else {
        goal_node_spec(t.goals_seq()[i]) + goal_nodes_from(t, i + 1)
    }
}

/// The group-requirement edges of all groups from index `i` on.
pub open spec fn groups_req_from(t: TreeV, i: int) -> Result<Seq<char>, ErrV>
    decreases t.group.len() - i,
{
    if i < 0 || i >= t.group.len() {
        Result::Ok(Seq::<char>::empty())
    } else {
        match group_req_all(t, t.group[i]) {
            Result::Err(e) => Result::Err(e),
            Result::Ok(s) => match groups_req_from(t, i + 1) {
                Result::Err(e) => Result::Err(e),
                Result::Ok(rest) => Result::Ok(s + rest),
            },
        }
    }
}

/// The item-requirement edges of all groups from index `i` on.
pub open spec fn groups_items_from(t: TreeV, i: int) -> Result<Seq<char>, ErrV>
    decreases t.group.len() - i,
{
    if i < 0 || i >= t.group.len() {
        Result::Ok(Seq::<char>::empty())
    } else {
        match items_req_all(t, t.group[i]) {
            Result::Err(e) => Result::Err(e),
            Result::Ok(s) => match groups_items_from(t, i + 1) {
                Result::Err(e) => Result::Err(e),
                Result::Ok(rest) => Result::Ok(s + rest),
            },
        }
    }
}

/// The goal-requirement edges of all goals from index `i` on.
pub open spec fn goals_req_from(t: TreeV, i: int) -> Result<Seq<char>, ErrV>
    decreases t.goals_seq().len() - i,
{
    if i < 0 || i >= t.goals_seq().len() {
        Result::Ok(Seq::<char>::empty())
    } else {
        match goal_req_all(t, t.goals_seq()[i]) {
            Result::Err(e) => Result::Err(e),
            Result::Ok(s) => match goals_req_from(t, i + 1) {
                Result::Err(e) => Result::Err(e),
                Result::Ok(rest) => Result::Ok(s + rest),
            },
        }
    }
}

/// Model of the whole pass, in its fixed phase order: the preamble,
/// one node per group, one node per goal, then the group-requirement,
/// item-requirement and goal-requirement edges, each category in
/// declaration order, and the closing brace. The first error aborts
/// everything.
pub open spec fn render_spec(t: TreeV) -> Result<Seq<char>, ErrV> {
    match groups_req_from(t, 0) {
        Result::Err(e) => Result::Err(e),
        Result::Ok(e3) => match groups_items_from(t, 0) {
            Result::Err(e) => Result::Err(e),
            Result::Ok(e4) => match goals_req_from(t, 0) {
                Result::Err(e) => Result::Err(e),
                Result::Ok(e5) => Result::Ok(
                    preamble_spec() + group_nodes_from(t, 0) + goal_nodes_from(t, 0) + e3 + e4 + e5
                        + "}\n"@,
                ),
            },
        },
    }
}

/// Renders the whole tree onto `output`: node declarations, then every
/// edge category, in declaration order. On failure the text already
/// appended stays in `output`; the caller must discard it.
pub fn write_graphviz(tree: &SkillTree, output: &mut String) -> (r: Result<(), Error>)
    ensures
        match (r, render_spec(tree@)) {
            (Result::Ok(u), Result::Ok(m)) => final(output)@ == old(output)@ + m,
            (Result::Err(e), Result::Err(m)) => e@ == m,
            _ => false,
        },
{
    let ghost t = tree@;
    let mut p = String::from_str("digraph g {\n");
    p.append("graph [ rankdir = \"LR\" ];\n");
    p.append("node [ fontsize=\"16\", shape = \"ellipse\" ];\n");
    p.append("edge [ ];\n");
    output.append(p.as_str());
    let ghost base1 = output@;

    let ngroups = tree.group.len();
    let mut i: usize = 0;
    while i < ngroups
        invariant
            ngroups == tree.group.len(),
            0 <= i <= ngroups,
            t == tree@,
            output@ + group_nodes_from(t, i as int) == base1 + group_nodes_from(t, 0),
        decreases ngroups - i,
    {
        let node = group_node(tree, &tree.group[i]);
        proof {
            crate::concat::lemma_cat_assoc(output@, node@, group_nodes_from(t, i + 1));
        }
        output.append(node.as_str());
        i += 1;
    }
    proof {
        crate::concat::lemma_cat_empty(output@);
    }
    let ghost base2 = output@;

    match &tree.goal {
        Option::None => {
            proof {
                crate::concat::lemma_cat_empty(base2);
            }
        },
        Option::Some(goals) => {
            let ngoals = goals.len();
            let mut k: usize = 0;
            while k < ngoals
                invariant
                    ngoals == goals.len(),
                    0 <= k <= ngoals,
                    t == tree@,
                    tree.goal == Option::Some(*goals),
                    output@ + goal_nodes_from(t, k as int) == base2 + goal_nodes_from(t, 0),
                decreases ngoals - k,
            {
                let node = goal_node(&goals[k]);
                proof {
                    crate::concat::lemma_cat_assoc(output@, node@, goal_nodes_from(t, k + 1));
                }
                output.append(node.as_str());
                k += 1;
            }
            proof {
                crate::concat::lemma_cat_empty(output@);
            }
        },
    }
    let ghost base3 = output@;

    let mut i: usize = 0;
    while i < ngroups
        invariant
            ngroups == tree.group.len(),
            0 <= i <= ngroups,
            t == tree@,
            match groups_req_from(t, i as int) {
                Result::Ok(rest) => is_ok(groups_req_from(t, 0)) && output@ + rest == base3
                    + ok_of(groups_req_from(t, 0)),
                Result::Err(e) => groups_req_from(t, 0) == Result::<Seq<char>, ErrV>::Err(e),
            },
        decreases ngroups - i,
    {
        let seg = match group_req_edges(tree, &tree.group[i]) {
            Result::Ok(v) => v,
            Result::Err(e) => {
                return Result::Err(e);
            },
        };
        proof {
            crate::concat::lemma_cat_assoc(output@, seg@, ok_of(groups_req_from(t, i + 1)));
        }
        output.append(seg.as_str());
        i += 1;
    }
    proof {
        crate::concat::lemma_cat_empty(output@);
    }
    let ghost base4 = output@;

    let mut i: usize = 0;
    while i < ngroups
        invariant
            ngroups == tree.group.len(),
            0 <= i <= ngroups,
            t == tree@,
            is_ok(groups_req_from(t, 0)),
            match groups_items_from(t, i as int) {
                Result::Ok(rest) => is_ok(groups_items_from(t, 0)) && output@ + rest == base4
                    + ok_of(groups_items_from(t, 0)),
                Result::Err(e) => groups_items_from(t, 0) == Result::<Seq<char>, ErrV>::Err(e),
            },
        decreases ngroups - i,
    {
        let seg = match group_items_edges(tree, &tree.group[i]) {
            Result::Ok(v) => v,
            Result::Err(e) => {
                return Result::Err(e);
            },
        };
        proof {
            crate::concat::lemma_cat_assoc(output@, seg@, ok_of(groups_items_from(t, i + 1)));
        }
        output.append(seg.as_str());
        i += 1;
    }
    proof {
        crate::concat::lemma_cat_empty(output@);
    }
    let ghost base5 = output@;

    match &tree.goal {
        Option::None => {
            proof {
                crate::concat::lemma_cat_empty(base5);
            }
        },
        Option::Some(goals) => {
            let ngoals = goals.len();
            let mut k: usize = 0;
            while k < ngoals
                invariant
                    ngoals == goals.len(),
                    0 <= k <= ngoals,
                    t == tree@,
                    tree.goal == Option::Some(*goals),
                    is_ok(groups_req_from(t, 0)),
                    is_ok(groups_items_from(t, 0)),
                    match goals_req_from(t, k as int) {
                        Result::Ok(rest) => is_ok(goals_req_from(t, 0)) && output@ + rest == base5
                            + ok_of(goals_req_from(t, 0)),
                        Result::Err(e) => goals_req_from(t, 0) == Result::<Seq<char>, ErrV>::Err(
                            e,
                        ),
                    },
                decreases ngoals - k,
            {
                let seg = match goal_req_edges(tree, &goals[k]) {
                    Result::Ok(v) => v,
                    Result::Err(e) => {
                        return Result::Err(e);
                    },
                };
                proof {
                    crate::concat::lemma_cat_assoc(output@, seg@, ok_of(goals_req_from(t, k + 1)));
                }
                output.append(seg.as_str());
                k += 1;
            }
            proof {
                crate::concat::lemma_cat_empty(output@);
            }
        },
    }
    output.append("}\n");

    proof {
        let pre = preamble_spec();
        let gn = group_nodes_from(t, 0);
        let gl = goal_nodes_from(t, 0);
        let e3 = ok_of(groups_req_from(t, 0));
        let e4 = ok_of(groups_items_from(t, 0));
        let e5 = ok_of(goals_req_from(t, 0));
        crate::concat::lemma_cat_assoc(old(output)@, pre, gn);
        crate::concat::lemma_cat_assoc(old(output)@, pre + gn, gl);
        crate::concat::lemma_cat_assoc(old(output)@, pre + gn + gl, e3);
        crate::concat::lemma_cat_assoc(old(output)@, pre + gn + gl + e3, e4);
        crate::concat::lemma_cat_assoc(old(output)@, pre + gn + gl + e3 + e4, e5);
        crate::concat::lemma_cat_assoc(old(output)@, pre + gn + gl + e3 + e4 + e5, "}\n"@);
    }
    Result::Ok(())
}

impl SkillTree {
    /// Generates the graph description for this tree as an owned
    /// string; identical trees always yield byte-identical output.
    pub fn to_graphviz(&self) -> (r: Result<String, Error>)
        ensures
            matches_result(r, render_spec(self@)),
    {
        let mut out = String::new();
        match write_graphviz(self, &mut out) {
            Result::Ok(u) => {
                proof {
                    crate::concat::lemma_cat_empty_left(ok_of(render_spec(self@)));
                }
                Result::Ok(out)
            },
            Result::Err(e) => Result::Err(e),
        }
    }
}

} // verus!
