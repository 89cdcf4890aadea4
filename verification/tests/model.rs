use skill_tree::errors::Error;
use skill_tree::graphviz::{attribute_str, escape};
use skill_tree::tree::{
    Goal, Group, Item, SkillTree, StatusStyle, default_status, default_status_kinds,
};
use skill_tree::validate::{is_valid_ident, is_valid_token};

fn plain_item(label: &str) -> Item {
    Item { label: label.to_string(), href: None, port: None, requires: None, status: None }
}

fn plain_group(name: &str) -> Group {
    Group {
        name: name.to_string(),
        label: None,
        requires: None,
        items: vec![],
        status: None,
        href: None,
        header_color: None,
    }
}

fn plain_tree(groups: Vec<Group>, goals: Option<Vec<Goal>>) -> SkillTree {
    SkillTree { status: Vec::new(), default_status: None, group: groups, goal: goals }
}

#[test]
fn escape_neutralizes_markup() {
    assert_eq!(escape("<em>&\"'x\"</em>"), "&lt;em&gt;&amp;&quot;&#x27;x&quot;&lt;/em&gt;");
}

#[test]
fn escape_converts_newlines() {
    assert_eq!(escape("two\nlines"), "two<br/>lines");
}

#[test]
fn escape_is_identity_on_safe_text() {
    assert_eq!(escape("plain text 123"), "plain text 123");
    let once = escape("plain text 123");
    assert_eq!(escape(&once), once);
}

#[test]
fn attribute_str_renders_or_vanishes() {
    assert_eq!(attribute_str("port", &Some("_a".to_string()), "_in"), " port=\"_a_in\"");
    assert_eq!(attribute_str("href", &None, ""), "");
}

#[test]
fn builtin_styles_are_four_in_order() {
    let kinds = default_status_kinds();
    assert_eq!(kinds.len(), 4);
    let names: Vec<&str> = kinds.iter().map(|p| p.0.as_str()).collect();
    assert_eq!(names, vec!["Blocked", "Unassigned", "Assigned", "Complete"]);
    assert_eq!(kinds[3].1.start_tag, "<s>");
    assert_eq!(kinds[3].1.end_tag, "</s>");
    assert_eq!(kinds[0].1.start_tag, "<i><font color=\"lightgrey\">");
    assert_eq!(default_status(), Some("Unassigned".to_string()));
}

#[test]
fn cascade_prefers_item_then_group_then_default() {
    let mut g = plain_group("basics");
    let mut it = plain_item("task");
    it.status = Some("Complete".to_string());
    g.status = Some("Assigned".to_string());
    let mut t = plain_tree(vec![], None);
    t.default_status = Some("Blocked".to_string());

    let style = t.item_style(&g, &it);
    assert_eq!(style.emoji, Some("☑️".to_string()));

    it.status = None;
    let style = t.item_style(&g, &it);
    assert_eq!(style.emoji, Some("🛠️".to_string()));

    g.status = None;
    let style = t.item_style(&g, &it);
    assert_eq!(style.emoji, Some("⌚".to_string()));

    t.default_status = None;
    let style = t.item_style(&g, &it);
    assert_eq!(style.emoji, None);
    assert_eq!(style.start_tag, "");
    assert_eq!(style.end_tag, "");
}

#[test]
fn unknown_status_resolves_inert() {
    let g = plain_group("basics");
    let mut it = plain_item("task");
    it.status = Some("NoSuchStatus".to_string());
    let t = plain_tree(vec![], None);
    let style = t.item_style(&g, &it);
    assert_eq!(style.emoji, None);
    assert_eq!(style.bgcolor, None);
    assert_eq!(style.fontcolor, None);
}

#[test]
fn is_goal_and_is_group_search_names() {
    let t = plain_tree(
        vec![plain_group("basics")],
        Some(vec![Goal { name: "done".to_string(), label: None, requires: None, href: None }]),
    );
    assert!(t.is_goal("done"));
    assert!(!t.is_goal("basics"));
    assert!(t.is_group("basics"));
    assert!(!t.is_group("done"));
    assert_eq!(t.groups().len(), 1);
    assert_eq!(t.goals().len(), 1);
    assert_eq!(t.groups()[0].items().len(), 0);
}

#[test]
fn identifier_and_token_syntax() {
    assert!(is_valid_ident("abc_123"));
    assert!(!is_valid_ident(""));
    assert!(!is_valid_ident("1abc"));
    assert!(!is_valid_ident("a-b"));
    assert!(is_valid_token("name"));
    assert!(is_valid_token("name:port"));
    assert!(!is_valid_token("name:"));
    assert!(!is_valid_token(":port"));
    assert!(!is_valid_token("a:b:c"));
}

#[test]
fn validate_accepts_well_formed_tree() {
    let mut g = plain_group("basics");
    let mut it = plain_item("task");
    it.port = Some("task".to_string());
    it.requires = Some(vec!["basics".to_string()]);
    g.items.push(it);
    let t = plain_tree(
        vec![g],
        Some(vec![Goal {
            name: "done".to_string(),
            label: None,
            requires: Some(vec!["basics:task".to_string()]),
            href: None,
        }]),
    );
    assert!(t.validate().is_ok());
}

#[test]
fn validate_rejects_missing_port() {
    let mut it = plain_item("task");
    it.requires = Some(vec!["basics".to_string()]);
    match it.validate() {
        Err(Error::MissingPortError { label }) => assert_eq!(label, "task"),
        _ => panic!("expected a missing port error"),
    }
    let mut g = plain_group("basics");
    g.items.push(it);
    assert!(g.validate().is_err());
    assert!(plain_tree(vec![g], None).validate().is_err());
}

#[test]
fn validate_rejects_bad_names_and_tokens() {
    assert!(plain_group("not a name").validate().is_err());
    let mut g = plain_group("basics");
    g.requires = Some(vec!["bad token".to_string()]);
    assert!(g.validate().is_err());
}

#[test]
fn validate_rejects_duplicates_and_collisions() {
    let t = plain_tree(vec![plain_group("basics"), plain_group("basics")], None);
    match t.validate() {
        Err(Error::ParseError { detail }) => assert_eq!(detail, "basics"),
        _ => panic!("expected a parse error"),
    }
    let t = plain_tree(
        vec![plain_group("basics")],
        Some(vec![Goal { name: "basics".to_string(), label: None, requires: None, href: None }]),
    );
    assert!(t.validate().is_err());
}

#[test]
fn validate_rejects_dangling_reference() {
    let mut g = plain_group("basics");
    g.requires = Some(vec!["ghost".to_string()]);
    let t = plain_tree(vec![g], None);
    match t.validate() {
        Err(Error::InvalidReferenceError { token }) => assert_eq!(token, "ghost"),
        _ => panic!("expected an invalid reference error"),
    }
}

#[test]
fn error_messages_name_the_context() {
    let e = Error::MissingPortError { label: "task".to_string() };
    assert_eq!(e.message(), "missing port for: task");
    let e = Error::InvalidReferenceError { token: "ghost".to_string() };
    assert_eq!(e.message(), "invalid reference: ghost");
    assert_eq!(Error::IoError.message(), "input/output error");
}
