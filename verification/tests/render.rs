use skill_tree::errors::Error;
use skill_tree::graphviz::Direction;
use skill_tree::tree::{Goal, Group, Item, SkillTree, StatusStyle};

fn item(label: &str, port: Option<&str>, requires: Option<Vec<&str>>) -> Item {
    Item {
        label: label.to_string(),
        href: None,
        port: port.map(|p| p.to_string()),
        requires: requires.map(|v| v.into_iter().map(|s| s.to_string()).collect()),
        status: None,
    }
}

fn group(name: &str, items: Vec<Item>, requires: Option<Vec<&str>>) -> Group {
    Group {
        name: name.to_string(),
        label: None,
        requires: requires.map(|v| v.into_iter().map(|s| s.to_string()).collect()),
        items,
        status: None,
        href: None,
        header_color: None,
    }
}

fn goal(name: &str, requires: Option<Vec<&str>>) -> Goal {
    Goal {
        name: name.to_string(),
        label: None,
        requires: requires.map(|v| v.into_iter().map(|s| s.to_string()).collect()),
        href: None,
    }
}

fn tree(groups: Vec<Group>, goals: Option<Vec<Goal>>) -> SkillTree {
    SkillTree { status: Vec::new(), default_status: None, group: groups, goal: goals }
}

#[test]
fn single_empty_group_exact_output() {
    let t = tree(vec![group("basics", vec![], None)], None);
    let out = t.to_graphviz().ok().unwrap();
    let expected = "digraph g {\n\
                    graph [ rankdir = \"LR\" ];\n\
                    node [ fontsize=\"16\", shape = \"ellipse\" ];\n\
                    edge [ ];\n\
                    \"basics\" [\n  \
                    label = <<table>\n    \
                    <tr><td bgcolor=\"darkgoldenrod\" port=\"all\" colspan=\"2\">basics</td></tr>\n  \
                    </table>>\n  \
                    shape = \"none\"\n  \
                    margin = 0\n\
                    ]\n\
                    }\n";
    assert_eq!(out, expected);
}

#[test]
fn scenario_ported_item_edge() {
    let t = tree(
        vec![group(
            "basics",
            vec![
                item("a", Some("a"), None),
                item("b", Some("b"), Some(vec!["basics:a"])),
            ],
            None,
        )],
        None,
    );
    let out = t.to_graphviz().ok().unwrap();
    assert!(out.contains("\"basics\":_a_out -> \"basics\":_b_in;\n"));
    assert_eq!(out.matches(" -> ").count(), 1);
}

#[test]
fn scenario_goal_requires_group() {
    let t = tree(
        vec![group("basics", vec![], None)],
        Some(vec![goal("done", Some(vec!["basics"]))]),
    );
    let out = t.to_graphviz().ok().unwrap();
    assert!(out.contains("\"basics\":all -> \"done\";\n"));
    assert_eq!(out.matches(" -> ").count(), 1);
}

#[test]
fn scenario_unknown_entity_fails() {
    let t = tree(vec![group("basics", vec![], Some(vec!["ghost"]))], None);
    match t.to_graphviz() {
        Err(Error::InvalidReferenceError { token }) => assert_eq!(token, "ghost"),
        _ => panic!("expected an invalid reference error"),
    }
}

#[test]
fn port_name_resolves_anchors() {
    let t = tree(
        vec![group("basics", vec![item("a", Some("a"), None)], None)],
        Some(vec![goal("done", None)]),
    );
    assert_eq!(t.port_name("basics:a", Direction::Outgoing).ok().unwrap(), "\"basics\":_a_out");
    assert_eq!(t.port_name("basics:a", Direction::Incoming).ok().unwrap(), "\"basics\":_a_in");
    assert_eq!(t.port_name("basics", Direction::Outgoing).ok().unwrap(), "\"basics\":all");
    assert_eq!(t.port_name("basics", Direction::Incoming).ok().unwrap(), "\"basics\":all");
    assert_eq!(t.port_name("done", Direction::Outgoing).ok().unwrap(), "\"done\"");
    match t.port_name("ghost", Direction::Outgoing) {
        Err(Error::InvalidReferenceError { token }) => assert_eq!(token, "ghost"),
        _ => panic!("expected an invalid reference error"),
    }
}

#[test]
fn missing_port_fails_with_item_label() {
    let t = tree(
        vec![group("basics", vec![item("needs port", None, Some(vec!["basics"]))], None)],
        None,
    );
    match t.to_graphviz() {
        Err(Error::MissingPortError { label }) => assert_eq!(label, "needs port"),
        _ => panic!("expected a missing port error"),
    }
}

#[test]
fn output_is_deterministic() {
    let build = || {
        tree(
            vec![
                group("alpha", vec![item("one", Some("one"), None)], None),
                group("beta", vec![], Some(vec!["alpha:one"])),
            ],
            Some(vec![goal("done", Some(vec!["beta"]))]),
        )
    };
    let a = build().to_graphviz().ok().unwrap();
    let b = build().to_graphviz().ok().unwrap();
    assert_eq!(a, b);
}

#[test]
fn declaration_order_is_kept() {
    let t = tree(
        vec![
            group("alpha", vec![item("one", Some("one"), Some(vec!["beta"]))], None),
            group("beta", vec![], Some(vec!["alpha:one"])),
        ],
        Some(vec![goal("done", Some(vec!["beta"]))]),
    );
    let out = t.to_graphviz().ok().unwrap();
    let alpha_node = out.find("\"alpha\" [").unwrap();
    let beta_node = out.find("\"beta\" [").unwrap();
    let done_node = out.find("\"done\" [").unwrap();
    let group_edge = out.find("\"alpha\":_one_out -> \"beta\":all;").unwrap();
    let item_edge = out.find("\"beta\":all -> \"alpha\":_one_in;").unwrap();
    let goal_edge = out.find("\"beta\":all -> \"done\";").unwrap();
    assert!(alpha_node < beta_node);
    assert!(beta_node < done_node);
    assert!(done_node < group_edge);
    assert!(group_edge < item_edge);
    assert!(item_edge < goal_edge);
}

#[test]
fn goal_label_defaults_to_name_and_is_escaped() {
    let mut g = goal("done", None);
    g.label = Some("a<b\nc".to_string());
    let t = tree(vec![], Some(vec![g]));
    let out = t.to_graphviz().ok().unwrap();
    assert!(out.contains("  label = \"a&lt;b<br/>c\"\n"));
    assert!(out.contains("  shape = \"note\"\n"));
    assert!(out.contains("  fillcolor = \"darkgoldenrod\"\n"));
}

#[test]
fn item_row_carries_ports_and_style() {
    let mut it = item("learn", Some("learn"), None);
    it.status = Some("Complete".to_string());
    let t = tree(vec![group("basics", vec![it], None)], None);
    let out = t.to_graphviz().ok().unwrap();
    assert!(out.contains("<td bgcolor=\"cornsilk\" port=\"_learn_in\">☑️</td>"));
    assert!(out.contains("port=\"_learn_out\"><s>learn</s></td>"));
}

#[test]
fn linked_item_gets_underline() {
    let mut it = item("docs", Some("docs"), None);
    it.href = Some("https://example.invalid/docs".to_string());
    let t = tree(vec![group("basics", vec![it], None)], None);
    let out = t.to_graphviz().ok().unwrap();
    assert!(out.contains("href=\"https://example.invalid/docs\" port=\"_docs_out\"><u>docs</u></td>"));
}

#[test]
fn header_color_and_href_render() {
    let mut g = group("basics", vec![], None);
    g.header_color = Some("steelblue".to_string());
    g.href = Some("https://example.invalid/basics".to_string());
    g.label = Some("Basics & more".to_string());
    let t = tree(vec![g], None);
    let out = t.to_graphviz().ok().unwrap();
    assert!(out.contains(
        "<tr><td bgcolor=\"steelblue\" port=\"all\" colspan=\"2\" href=\"https://example.invalid/basics\">Basics &amp; more</td></tr>"
    ));
}

#[test]
fn custom_status_overrides_builtin() {
    let mut it = item("task", Some("task"), None);
    it.status = Some("Complete".to_string());
    let custom = StatusStyle {
        emoji: Some("X".to_string()),
        bgcolor: Some("white".to_string()),
        fontcolor: None,
        start_tag: String::new(),
        end_tag: String::new(),
    };
    let t = SkillTree {
        status: vec![("Complete".to_string(), custom)],
        default_status: None,
        group: vec![group("basics", vec![it], None)],
        goal: None,
    };
    let out = t.to_graphviz().ok().unwrap();
    assert!(out.contains("<td bgcolor=\"white\" port=\"_task_in\">X</td>"));
    assert!(!out.contains("☑️"));
}
