//! The data model: style registry, groups, items, goals, and their
//! cross-references. All entities are read-only after construction;
//! rendering is a pure projection from the tree to text.

use vstd::prelude::*;

verus! {

/// Visual style attached to a status name: an optional emoji glyph,
/// optional colors, and a pair of markup tags wrapped around the label.
pub struct StatusStyle {
    pub emoji: Option<String>,
    pub bgcolor: Option<String>,
    pub fontcolor: Option<String>,
    pub start_tag: String,
    pub end_tag: String,
}

/// Mathematical model of a [`StatusStyle`]: every text field as a
/// sequence of characters.
pub struct StyleV {
    pub emoji: Option<Seq<char>>,
    pub bgcolor: Option<Seq<char>>,
    pub fontcolor: Option<Seq<char>>,
    pub start_tag: Seq<char>,
    pub end_tag: Seq<char>,
}

pub open spec fn view_opt_string(s: Option<String>) -> Option<Seq<char>> {
    match s {
        Option::None => Option::None,
        Option::Some(t) => Option::Some(t@),
    }
}

pub open spec fn view_opt_vec_string(s: Option<Vec<String>>) -> Option<Seq<Seq<char>>> {
    match s {
        Option::None => Option::None,
        Option::Some(v) => Option::Some(v@.map_values(|t: String| t@)),
    }
}

impl View for StatusStyle {
    type V = StyleV;

    open spec fn view(&self) -> StyleV {
        StyleV {
            emoji: view_opt_string(self.emoji),
            bgcolor: view_opt_string(self.bgcolor),
            fontcolor: view_opt_string(self.fontcolor),
            start_tag: self.start_tag@,
            end_tag: self.end_tag@,
        }
    }
}

impl StatusStyle {
    /// The inert style: no glyph, no colors, no decoration. Used when a
    /// status name is unset or unknown; style resolution never fails.
    pub fn inert() -> (r: StatusStyle)
        ensures
            r@ == StyleV::inert(),
    {
        StatusStyle {
            emoji: Option::None,
            bgcolor: Option::None,
            fontcolor: Option::None,
            start_tag: String::new(),
            end_tag: String::new(),
        }
    }
}

impl StyleV {
    /// Model of the inert style.
    pub open spec fn inert() -> StyleV {
        StyleV {
            emoji: Option::None,
            bgcolor: Option::None,
            fontcolor: Option::None,
            start_tag: Seq::<char>::empty(),
            end_tag: Seq::<char>::empty(),
        }
    }
}

/// One entry of a group's table: a display label, and optionally a
/// hyperlink, a port identifier, requirement tokens, and a status name.
pub struct Item {
    pub label: String,
    pub href: Option<String>,
    pub port: Option<String>,
    pub requires: Option<Vec<String>>,
    pub status: Option<String>,
}

/// Mathematical model of an [`Item`].
pub struct ItemV {
    pub label: Seq<char>,
    pub href: Option<Seq<char>>,
    pub port: Option<Seq<char>>,
    pub requires: Option<Seq<Seq<char>>>,
    pub status: Option<Seq<char>>,
}

impl View for Item {
    type V = ItemV;

    open spec fn view(&self) -> ItemV {
        ItemV {
            label: self.label@,
            href: view_opt_string(self.href),
            port: view_opt_string(self.port),
            requires: view_opt_vec_string(self.requires),
            status: view_opt_string(self.status),
        }
    }
}

/// A named group of ordered items; a single node of the emitted graph.
pub struct Group {
    pub name: String,
    pub label: Option<String>,
    pub requires: Option<Vec<String>>,
    pub items: Vec<Item>,
    pub status: Option<String>,
    pub href: Option<String>,
    pub header_color: Option<String>,
}

/// Mathematical model of a [`Group`].
pub struct GroupV {
    pub name: Seq<char>,
    pub label: Option<Seq<char>>,
    pub requires: Option<Seq<Seq<char>>>,
    pub items: Seq<ItemV>,
    pub status: Option<Seq<char>>,
    pub href: Option<Seq<char>>,
    pub header_color: Option<Seq<char>>,
}

impl View for Group {
    type V = GroupV;

    open spec fn view(&self) -> GroupV {
        GroupV {
            name: self.name@,
            label: view_opt_string(self.label),
            requires: view_opt_vec_string(self.requires),
            items: self.items@.map_values(|it: Item| it@),
            status: view_opt_string(self.status),
            href: view_opt_string(self.href),
            header_color: view_opt_string(self.header_color),
        }
    }
}

/// A top-level goal: a leaf node with no internal ports.
pub struct Goal {
    pub name: String,
    pub label: Option<String>,
    pub requires: Option<Vec<String>>,
    pub href: Option<String>,
}

/// Mathematical model of a [`Goal`].
pub struct GoalV {
    pub name: Seq<char>,
    pub label: Option<Seq<char>>,
    pub requires: Option<Seq<Seq<char>>>,
    pub href: Option<Seq<char>>,
}

impl View for Goal {
    type V = GoalV;

    open spec fn view(&self) -> GoalV {
        GoalV {
            name: self.name@,
            label: view_opt_string(self.label),
            requires: view_opt_vec_string(self.requires),
            href: view_opt_string(self.href),
        }
    }
}

/// Position of a group within the tree's declaration order.
#[derive(Copy, Clone, Debug, PartialOrd, Ord, PartialEq, Eq, Hash, Structural)]
pub struct GroupIndex(pub usize);

/// Position of an item within its group's declaration order.
#[derive(Copy, Clone, Debug, PartialOrd, Ord, PartialEq, Eq, Hash, Structural)]
pub struct ItemIndex(pub usize);

/// The whole tree: a style registry, an optional tree-wide default status
/// name, the groups in declaration order, and optionally the goals.
pub struct SkillTree {
    pub status: Vec<(String, StatusStyle)>,
    pub default_status: Option<String>,
    pub group: Vec<Group>,
    pub goal: Option<Vec<Goal>>,
}

/// Mathematical model of a [`SkillTree`].
pub struct TreeV {
    pub status: Seq<(Seq<char>, StyleV)>,
    pub default_status: Option<Seq<char>>,
    pub group: Seq<GroupV>,
    pub goal: Option<Seq<GoalV>>,
}

impl View for SkillTree {
    type V = TreeV;

    open spec fn view(&self) -> TreeV {
        TreeV {
            status: self.status@.map_values(|p: (String, StatusStyle)| (p.0@, p.1@)),
            default_status: view_opt_string(self.default_status),
            group: self.group@.map_values(|g: Group| g@),
            goal: match self.goal {
                Option::None => Option::None,
                Option::Some(v) => Option::Some(v@.map_values(|g: Goal| g@)),
            },
        }
    }
}

impl TreeV {
    /// The goals as a sequence; an absent goal list models as empty.
    pub open spec fn goals_seq(self) -> Seq<GoalV> {
        match self.goal {
            Option::None => Seq::<GoalV>::empty(),
            Option::Some(v) => v,
        }
    }

    /// Whether `name` names one of the tree's goals.
    pub open spec fn spec_is_goal(self, name: Seq<char>) -> bool {
        exists|i: int| 0 <= i < self.goals_seq().len() && #[trigger] self.goals_seq()[i].name == name
    }

    /// Whether `name` names one of the tree's groups.
    pub open spec fn spec_is_group(self, name: Seq<char>) -> bool {
        exists|i: int| 0 <= i < self.group.len() && #[trigger] self.group[i].name == name
    }

    /// The status cascade, first present wins: the item's own status
    /// name, else its group's, else the tree's default, else none.
    pub open spec fn cascade_status(self, g: GroupV, it: ItemV) -> Option<Seq<char>> {
        if it.status is Some {
            it.status
        } else if g.status is Some {
            g.status
        } else {
            self.default_status
        }
    }

    /// The concrete style an item resolves to: the cascaded status name
    /// looked up in the registry; an unset or unknown name yields the
    /// inert style rather than failing.
    pub open spec fn resolved_style(self, g: GroupV, it: ItemV) -> StyleV {
        match self.cascade_status(g, it) {
            Option::None => StyleV::inert(),
            Option::Some(name) => match spec_lookup_style(self, name) {
                Option::None => StyleV::inert(),
                Option::Some(s) => s,
            },
        }
    }

    /// The style an item is rendered with: as resolved, except that a
    /// linked item whose style has no decoration tags is underlined.
    pub open spec fn effective_style(self, g: GroupV, it: ItemV) -> StyleV {
        let s = self.resolved_style(g, it);
        if it.href is Some && s.start_tag.len() == 0 {
            StyleV { start_tag: "<u>"@, end_tag: "</u>"@, ..s }
        } else {
            s
        }
    }
}

/// Model of the built-in `Blocked` style: watch glyph, muted italics.
pub open spec fn style_blocked() -> StyleV {
    StyleV {
        emoji: Option::Some("⌚"@),
        bgcolor: Option::Some("cornsilk"@),
        fontcolor: Option::None,
        start_tag: "<i><font color=\"lightgrey\">"@,
        end_tag: "</font></i>"@,
    }
}

/// Model of the built-in `Unassigned` style: raised-hand glyph, red text.
pub open spec fn style_unassigned() -> StyleV {
    StyleV {
        emoji: Option::Some("🙋"@),
        bgcolor: Option::Some("cornsilk"@),
        fontcolor: Option::Some("red"@),
        start_tag: ""@,
        end_tag: ""@,
    }
}

/// Model of the built-in `Assigned` style: hammer-and-wrench glyph, plain.
pub open spec fn style_assigned() -> StyleV {
    StyleV {
        emoji: Option::Some("🛠️"@),
        bgcolor: Option::Some("cornsilk"@),
        fontcolor: Option::None,
        start_tag: ""@,
        end_tag: ""@,
    }
}

/// Model of the built-in `Complete` style: checked-box glyph, strikethrough.
pub open spec fn style_complete() -> StyleV {
    StyleV {
        emoji: Option::Some("☑️"@),
        bgcolor: Option::Some("cornsilk"@),
        fontcolor: Option::None,
        start_tag: "<s>"@,
        end_tag: "</s>"@,
    }
}

/// Model of the built-in style table, in its fixed order.
pub open spec fn builtin_styles() -> Seq<(Seq<char>, StyleV)> {
    seq![
        ("Blocked"@, style_blocked()),
        ("Unassigned"@, style_unassigned()),
        ("Assigned"@, style_assigned()),
        ("Complete"@, style_complete()),
    ]
}

/// Model of a style table: each registry entry as key and style model.
pub open spec fn view_styles(v: Seq<(String, StatusStyle)>) -> Seq<(Seq<char>, StyleV)> {
    v.map_values(|p: (String, StatusStyle)| (p.0@, p.1@))
}

/// First entry of `tab` at or after `i` whose key is `name`, if any.
pub open spec fn table_lookup_from(tab: Seq<(Seq<char>, StyleV)>, name: Seq<char>, i: int)
    -> Option<StyleV>
    decreases tab.len() - i,
{
    if i < 0 || i >= tab.len() {
        Option::None
    } else if tab[i].0 == name {
        Option::Some(tab[i].1)
    } else {
        table_lookup_from(tab, name, i + 1)
    }
}

/// First entry of `tab` whose key is `name`, if any.
pub open spec fn spec_table_lookup(tab: Seq<(Seq<char>, StyleV)>, name: Seq<char>)
    -> Option<StyleV> {
    table_lookup_from(tab, name, 0)
}

/// Model of [`SkillTree::lookup_style`]: a user-supplied entry shadows
/// a built-in entry of the same key; an unknown name yields nothing.
pub open spec fn spec_lookup_style(t: TreeV, name: Seq<char>) -> Option<StyleV> {
    match spec_table_lookup(t.status, name) {
        Option::Some(s) => Option::Some(s),
        Option::None => spec_table_lookup(builtin_styles(), name),
    }
}

/// The built-in style table: `Blocked`, `Unassigned`, `Assigned`,
/// `Complete`, each with its glyph, colors, and decoration tags. Input
/// entries of the same key override these.
pub fn default_status_kinds() -> (r: Vec<(String, StatusStyle)>)
    ensures
        view_styles(r@) == builtin_styles(),
{
    let mut v: Vec<(String, StatusStyle)> = Vec::new();
    v.push(
        (
            String::from_str("Blocked"),
            StatusStyle {
                emoji: Option::Some(String::from_str("⌚")),
                bgcolor: Option::Some(String::from_str("cornsilk")),
                fontcolor: Option::None,
                start_tag: String::from_str("<i><font color=\"lightgrey\">"),
                end_tag: String::from_str("</font></i>"),
            },
        ),
    );
    v.push(
        (
            String::from_str("Unassigned"),
            StatusStyle {
                emoji: Option::Some(String::from_str("🙋")),
                bgcolor: Option::Some(String::from_str("cornsilk")),
                fontcolor: Option::Some(String::from_str("red")),
                start_tag: String::from_str(""),
                end_tag: String::from_str(""),
            },
        ),
    );
    v.push(
        (
            String::from_str("Assigned"),
            StatusStyle {
                emoji: Option::Some(String::from_str("🛠️")),
                bgcolor: Option::Some(String::from_str("cornsilk")),
                fontcolor: Option::None,
                start_tag: String::from_str(""),
                end_tag: String::from_str(""),
            },
        ),
    );
    v.push(
        (
            String::from_str("Complete"),
            StatusStyle {
                emoji: Option::Some(String::from_str("☑️")),
                bgcolor: Option::Some(String::from_str("cornsilk")),
                fontcolor: Option::None,
                start_tag: String::from_str("<s>"),
                end_tag: String::from_str("</s>"),
            },
        ),
    );
    proof {
        assert(view_styles(v@) =~= builtin_styles());
    }
    v
}

/// The tree-wide default status name used when input supplies none.
pub fn default_status() -> (r: Option<String>)
    ensures
        view_opt_string(r) == Option::Some("Unassigned"@),
{
    Option::Some(String::from_str("Unassigned"))
}

/// Copies a style field by field.
pub fn clone_style(s: &StatusStyle) -> (r: StatusStyle)
    ensures
        r@ == s@,
{
    StatusStyle {
        emoji: match &s.emoji {
            Option::None => Option::None,
            Option::Some(t) => Option::Some(t.clone()),
        },
        bgcolor: match &s.bgcolor {
            Option::None => Option::None,
            Option::Some(t) => Option::Some(t.clone()),
        },
        fontcolor: match &s.fontcolor {
            Option::None => Option::None,
            Option::Some(t) => Option::Some(t.clone()),
        },
        start_tag: s.start_tag.clone(),
        end_tag: s.end_tag.clone(),
    }
}

/// Model of an optional style as an optional style model.
pub open spec fn view_opt_style(r: Option<StatusStyle>) -> Option<StyleV> {
    match r {
        Option::None => Option::None,
        Option::Some(s) => Option::Some(s@),
    }
}

/// First entry of `tab` keyed by `name`, copied out.
pub fn table_lookup(tab: &Vec<(String, StatusStyle)>, name: &str) -> (r: Option<StatusStyle>)
    ensures
        view_opt_style(r) == spec_table_lookup(view_styles(tab@), name@),
{
    let n = tab.len();
    let mut i: usize = 0;
    while i < n
        invariant
            n == tab.len(),
            0 <= i <= n,
            spec_table_lookup(view_styles(tab@), name@) == table_lookup_from(
                view_styles(tab@),
                name@,
                i as int,
            ),
        decreases n - i,
    {
        if str_eq(tab[i].0.as_str(), name) {
            return Option::Some(clone_style(&tab[i].1));
        }
        i += 1;
    }
    Option::None
}

impl Group {
    /// The items of this group, in declaration order.
    pub fn items(&self) -> (r: &Vec<Item>)
        ensures
            r == &self.items,
    {
        &self.items
    }
}

/// Compares two string slices by their character sequences.
pub fn str_eq(a: &str, b: &str) -> (r: bool)
    ensures
        r == (a@ == b@),
{
    let sa = String::from_str(a);
    let sb = String::from_str(b);
    sa == sb
}

impl SkillTree {
    /// Whether `name` names one of the tree's goals.
    pub fn is_goal(&self, name: &str) -> (r: bool)
        ensures
            r == self@.spec_is_goal(name@),
    {
        match &self.goal {
            Option::None => false,
            Option::Some(goals) => {
                let n = goals.len();
                let mut i: usize = 0;
                while i < n
                    invariant
                        n == goals.len(),
                        0 <= i <= n,
                        self.goal == Option::Some(*goals),
                        forall|j: int| 0 <= j < i ==> #[trigger] goals@[j].name@ != name@,
                    decreases n - i,
                {
                    if str_eq(goals[i].name.as_str(), name) {
                        assert(self@.goals_seq()[i as int].name == name@);
                        return true;
                    }
                    i += 1;
                }
                assert(forall|j: int|
                    0 <= j < self@.goals_seq().len() ==> #[trigger] self@.goals_seq()[j].name
                        != name@);
                false
            },
        }
    }

    /// Whether `name` names one of the tree's groups.
    pub fn is_group(&self, name: &str) -> (r: bool)
        ensures
            r == self@.spec_is_group(name@),
    {
        let n = self.group.len();
        let mut i: usize = 0;
        while i < n
            invariant
                n == self.group.len(),
                0 <= i <= n,
                forall|j: int| 0 <= j < i ==> #[trigger] self.group@[j].name@ != name@,
            decreases n - i,
        {
            if str_eq(self.group[i].name.as_str(), name) {
                assert(self@.group[i as int].name == name@);
                return true;
            }
            i += 1;
        }
        assert(forall|j: int|
            0 <= j < self@.group.len() ==> #[trigger] self@.group[j].name != name@);
        false
    }

    /// The groups, in declaration order.
    pub fn groups(&self) -> (r: &Vec<Group>)
        ensures
            r == &self.group,
    {
        &self.group
    }

    /// The goals, in declaration order; an absent goal list yields
    /// nothing.
    pub fn goals(&self) -> (r: &[Goal])
        ensures
            r@.map_values(|g: Goal| g@) == self@.goals_seq(),
    {
        match &self.goal {
            Option::Some(v) => {
                let s = v.as_slice();
                proof {
                    assert(s@.map_values(|g: Goal| g@) =~= self@.goals_seq());
                }
                s
            },
            Option::None => {
                let s: &[Goal] = &[];
                proof {
                    assert(s@.map_values(|g: Goal| g@) =~= self@.goals_seq());
                }
                s
            },
        }
    }

    /// Looks a status name up in the registry: a user-supplied entry
    /// first, else the built-in table.
    pub fn lookup_style(&self, name: &str) -> (r: Option<StatusStyle>)
        ensures
            view_opt_style(r) == spec_lookup_style(self@, name@),
    {
        match table_lookup(&self.status, name) {
            Option::Some(s) => Option::Some(s),
            Option::None => {
                let builtin = default_status_kinds();
                table_lookup(&builtin, name)
            },
        }
    }

    /// Resolves the style an item is rendered with: the status cascade,
    /// the registry lookup, and the underline rule for linked items.
    pub fn item_style(&self, group: &Group, item: &Item) -> (r: StatusStyle)
        ensures
            r@ == self@.effective_style(group@, item@),
    {
        let looked_up: Option<StatusStyle> = match &item.status {
            Option::Some(s) => self.lookup_style(s.as_str()),
            Option::None => match &group.status {
                Option::Some(s) => self.lookup_style(s.as_str()),
                Option::None => match &self.default_status {
                    Option::Some(s) => self.lookup_style(s.as_str()),
                    Option::None => Option::None,
                },
            },
        };
        let mut style = match looked_up {
            Option::Some(s) => s,
            Option::None => StatusStyle::inert(),
        };
        if item.href.is_some() && style.start_tag.as_str().is_empty() {
            style.start_tag = String::from_str("<u>");
            style.end_tag = String::from_str("</u>");
        }
        style
    }
}

} // verus!
