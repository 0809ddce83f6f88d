use swaystart::capture::{capture, derive_matcher, populate_swallows, validate};
use swaystart::error::LayoutError;
use swaystart::node::{Matcher, NodeLayout, NodeLite, NodeType, Percent, WindowPropertiesLite};
use swaystart::replay::{plan_replay, Step};

fn p_node(node_type: NodeType, name: Option<&str>, nodes: Vec<NodeLite>) -> NodeLite {
    NodeLite {
        id: 7,
        name: name.map(|s| s.to_string()),
        node_type,
        layout: NodeLayout::SplitV,
        percent: Some(Percent { bits: 0.5f64.to_bits() }),
        nodes,
        num: Some(3),
        app_id: None,
        window_properties: None,
        swallows: vec![],
    }
}

fn p_wayland(app_id: &str) -> NodeLite {
    let mut n = p_node(NodeType::Con, Some("some title"), vec![]);
    n.app_id = Some(app_id.to_string());
    n
}

fn p_x11(class: &str, instance: &str) -> NodeLite {
    let mut n = p_node(NodeType::Con, Some("other title"), vec![]);
    n.window_properties = Some(WindowPropertiesLite {
        instance: Some(instance.to_string()),
        class: Some(class.to_string()),
    });
    n
}

fn p_by_app(app_id: &str) -> Matcher {
    Matcher { app_id: Some(app_id.to_string()), class: None, instance: None, name: None }
}

#[test]
fn matcher_is_derived_from_identity_without_the_title() {
    assert_eq!(derive_matcher(&p_wayland("term")), p_by_app("term"));
    assert_eq!(
        derive_matcher(&p_x11("XTerm", "xterm")),
        Matcher {
            app_id: None,
            class: Some("XTerm".to_string()),
            instance: Some("xterm".to_string()),
            name: None,
        }
    );
    assert_eq!(
        derive_matcher(&p_node(NodeType::Con, Some("t"), vec![])),
        Matcher { app_id: None, class: None, instance: None, name: None }
    );
}

#[test]
fn leaves_get_one_matcher_and_containers_none() {
    let mut stale = p_wayland("browser");
    stale.swallows = vec![p_by_app("old"), p_by_app("older")];
    let mut con = p_node(NodeType::Con, None, vec![p_wayland("term"), stale]);
    con.swallows = vec![p_by_app("container")];
    let mut tree = p_node(NodeType::Workspace, Some("1"), vec![con, p_x11("C", "i")]);
    populate_swallows(&mut tree);
    assert_eq!(tree.swallows, vec![]);
    assert_eq!(tree.nodes[0].swallows, vec![]);
    assert_eq!(tree.nodes[0].nodes[0].swallows, vec![p_by_app("term")]);
    assert_eq!(tree.nodes[0].nodes[1].swallows, vec![p_by_app("browser")]);
    assert_eq!(
        tree.nodes[1].swallows,
        vec![Matcher {
            app_id: None,
            class: Some("C".to_string()),
            instance: Some("i".to_string()),
            name: None,
        }]
    );
}

#[test]
fn capture_changes_nothing_but_the_matchers() {
    let mut tree = p_node(
        NodeType::Workspace,
        Some("1"),
        vec![p_node(NodeType::Con, None, vec![p_wayland("a"), p_wayland("b")])],
    );
    let mut expected = p_node(
        NodeType::Workspace,
        Some("1"),
        vec![p_node(NodeType::Con, None, vec![p_wayland("a"), p_wayland("b")])],
    );
    expected.nodes[0].nodes[0].swallows = vec![p_by_app("a")];
    expected.nodes[0].nodes[1].swallows = vec![p_by_app("b")];
    populate_swallows(&mut tree);
    assert_eq!(tree, expected);
}

#[test]
fn a_lone_node_is_a_leaf() {
    let mut tree = p_node(NodeType::Workspace, Some("empty"), vec![]);
    populate_swallows(&mut tree);
    assert_eq!(tree.swallows.len(), 1);
}

#[test]
fn capturing_twice_is_capturing_once() {
    let mut once = p_node(NodeType::Workspace, Some("1"), vec![p_wayland("a"), p_x11("C", "i")]);
    populate_swallows(&mut once);
    let mut twice = p_node(NodeType::Workspace, Some("1"), vec![p_wayland("a"), p_x11("C", "i")]);
    populate_swallows(&mut twice);
    populate_swallows(&mut twice);
    assert_eq!(once, twice);
}

#[test]
fn capture_validates_names() {
    let good = p_node(
        NodeType::Root,
        None,
        vec![p_node(
            NodeType::Output,
            Some("o"),
            vec![p_node(NodeType::Workspace, Some("w"), vec![p_wayland("a")])],
        )],
    );
    assert_eq!(validate(&good), Ok(()));
    let doc = capture(good).unwrap();
    assert_eq!(doc.nodes[0].nodes[0].nodes[0].swallows, vec![p_by_app("a")]);

    let no_output_name = p_node(
        NodeType::Root,
        None,
        vec![p_node(NodeType::Output, None, vec![p_node(NodeType::Workspace, None, vec![])])],
    );
    assert_eq!(validate(&no_output_name), Err(LayoutError::OutputWithNoName));
    assert_eq!(capture(no_output_name), Err(LayoutError::OutputWithNoName));

    let no_workspace_name = p_node(
        NodeType::Root,
        None,
        vec![
            p_node(NodeType::Output, Some("o"), vec![p_node(NodeType::Workspace, None, vec![])]),
            p_node(NodeType::Output, None, vec![]),
        ],
    );
    assert_eq!(capture(no_workspace_name), Err(LayoutError::WorkspaceWithNoName));
}

#[test]
fn names_below_the_scratch_root_are_not_validated() {
    let tree = p_node(
        NodeType::Root,
        None,
        vec![
            p_node(
                NodeType::Root,
                Some("__i3"),
                vec![p_node(NodeType::Output, None, vec![p_node(NodeType::Workspace, None, vec![])])],
            ),
            p_node(NodeType::Con, None, vec![]),
        ],
    );
    assert_eq!(validate(&tree), Ok(()));
    assert!(capture(tree).is_ok());
}

#[test]
fn a_captured_document_plans_one_placeholder_per_window() {
    let live = p_node(
        NodeType::Root,
        None,
        vec![p_node(
            NodeType::Workspace,
            Some("1"),
            vec![p_node(NodeType::Con, None, vec![p_wayland("term"), p_x11("XTerm", "xterm")])],
        )],
    );
    let doc = capture(live).unwrap();
    let plan = plan_replay(&doc);
    assert_eq!(plan.failure, None);
    let placeholders: Vec<&Step> =
        plan.steps.iter().filter(|s| matches!(s, Step::Placeholder { .. })).collect();
    assert_eq!(placeholders.len(), 2);
    assert_eq!(
        placeholders[0],
        &Step::Placeholder { title: "some title".to_string(), swallows: vec![p_by_app("term")] }
    );
    assert!(matches!(plan.steps.last(), Some(Step::Arrange { layout: NodeLayout::SplitV, percents })
        if percents.len() == 2 && percents[0] == Some(Percent { bits: 0.5f64.to_bits() })));
}
