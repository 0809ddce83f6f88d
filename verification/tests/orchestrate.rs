use swaystart::command::{Command, Dimension, LayoutStyle};
use swaystart::error::LayoutError;
use swaystart::event::{Event, WindowChange};
use swaystart::node::{Matcher, NodeLayout, NodeLite, NodeType, Percent, Window};
use swaystart::orchestrate::{Action, Replay, Report};
use swaystart::replay::{plan_replay, Extent, ReplayPlan, Step};
use swaystart::swap::{Reaction, Swapper};

fn o_window(id: i64, app_id: Option<&str>) -> Window {
    Window { id, app_id: app_id.map(|s| s.to_string()), name: None, class: None, instance: None }
}

fn o_event(change: WindowChange, id: i64, app_id: Option<&str>) -> Report {
    Report::Event { event: Event::Window { change, container: o_window(id, app_id) } }
}

fn o_by_app(app_id: &str) -> Matcher {
    Matcher { app_id: Some(app_id.to_string()), class: None, instance: None, name: None }
}

fn o_run(command: Command) -> Action {
    Action::Run { command }
}

fn o_percent(p: f64) -> Option<Percent> {
    Some(Percent { bits: p.to_bits() })
}

fn o_extent(width: i32, height: i32) -> Report {
    Report::Extent { extent: Some(Extent { width, height }) }
}

fn o_finish(failure: Option<LayoutError>) -> Action {
    Action::Finish { failure }
}

#[test]
fn an_empty_plan_is_over_at_once() {
    let r = Replay::new(ReplayPlan { steps: vec![], failure: None });
    assert!(r.is_over());
    assert_eq!(r.action(), o_finish(None));
    let r = Replay::new(ReplayPlan { steps: vec![], failure: Some(LayoutError::OutputWithNoName) });
    assert!(r.is_over());
    assert_eq!(r.action(), o_finish(Some(LayoutError::OutputWithNoName)));
}

#[test]
fn commands_are_sent_one_after_the_other() {
    let mut r = Replay::new(ReplayPlan {
        steps: vec![
            Step::Run { command: Command::Workspace { name: "1".to_string() } },
            Step::Run { command: Command::SplitH },
        ],
        failure: None,
    });
    assert!(!r.is_over());
    assert_eq!(r.action(), o_run(Command::Workspace { name: "1".to_string() }));
    assert_eq!(r.action(), o_run(Command::Workspace { name: "1".to_string() }));
    r.advance(Report::Done);
    assert_eq!(r.action(), o_run(Command::SplitH));
    r.advance(Report::Done);
    assert_eq!(r.action(), o_finish(None));
    assert!(r.is_over());
    r.advance(Report::Done);
    assert_eq!(r.action(), o_finish(None));
}

#[test]
fn a_report_that_answers_nothing_changes_nothing() {
    let mut r = Replay::new(ReplayPlan {
        steps: vec![
            Step::Run { command: Command::SplitH },
            Step::Arrange { layout: NodeLayout::Tabbed, percents: vec![] },
        ],
        failure: None,
    });
    r.advance(o_extent(10, 10));
    r.advance(o_event(WindowChange::New, 1, Some("swaystart")));
    assert_eq!(r.action(), o_run(Command::SplitH));
    r.advance(Report::Done);
    assert_eq!(r.action(), Action::Measure);
    r.advance(Report::Done);
    r.advance(o_event(WindowChange::Focus, 1, Some("swaystart")));
    assert_eq!(r.action(), Action::Measure);
    r.advance(o_extent(10, 10));
    assert_eq!(r.action(), o_run(Command::FocusParent));
    r.advance(o_extent(10, 10));
    r.advance(o_event(WindowChange::Focus, 1, Some("swaystart")));
    assert_eq!(r.action(), o_run(Command::FocusParent));
    r.advance(Report::Done);
    assert!(r.is_over());
}

#[test]
fn the_plan_failure_comes_after_the_last_step() {
    let mut r = Replay::new(ReplayPlan {
        steps: vec![Step::Run { command: Command::SplitH }],
        failure: Some(LayoutError::UnsupportedLayout),
    });
    assert_eq!(r.action(), o_run(Command::SplitH));
    r.advance(Report::Done);
    assert_eq!(r.action(), o_finish(Some(LayoutError::UnsupportedLayout)));
}

#[test]
fn children_are_sized_once_the_extent_is_known() {
    let mut r = Replay::new(ReplayPlan {
        steps: vec![
            Step::Arrange {
                layout: NodeLayout::SplitV,
                percents: vec![o_percent(0.25), o_percent(0.75)],
            },
            Step::Run { command: Command::SplitH },
        ],
        failure: None,
    });
    assert_eq!(r.action(), Action::Measure);
    r.advance(o_extent(1000, 400));
    let expected = vec![
        Command::Resize { dimension: Dimension::Height, size: 300 },
        Command::FocusPrevSibling,
        Command::Resize { dimension: Dimension::Height, size: 100 },
        Command::FocusPrevSibling,
        Command::FocusParent,
    ];
    for c in expected {
        assert_eq!(r.action(), o_run(c));
        r.advance(Report::Done);
    }
    assert_eq!(r.action(), o_run(Command::SplitH));
}

#[test]
fn a_missing_percent_ends_the_replay_after_the_later_children() {
    let mut r = Replay::new(ReplayPlan {
        steps: vec![
            Step::Arrange { layout: NodeLayout::SplitH, percents: vec![None, o_percent(0.5)] },
            Step::Run { command: Command::SplitH },
        ],
        failure: None,
    });
    r.advance(o_extent(100, 100));
    assert_eq!(r.action(), o_run(Command::Resize { dimension: Dimension::Width, size: 50 }));
    r.advance(Report::Done);
    assert_eq!(r.action(), o_run(Command::FocusPrevSibling));
    assert!(!r.is_over());
    r.advance(Report::Done);
    assert!(r.is_over());
    assert_eq!(r.action(), o_finish(Some(LayoutError::MissingPercent)));
}

#[test]
fn an_arrangement_that_sends_nothing_fails_or_goes_on() {
    let mut r = Replay::new(ReplayPlan {
        steps: vec![Step::Arrange { layout: NodeLayout::SplitH, percents: vec![None] }],
        failure: None,
    });
    r.advance(o_extent(100, 100));
    assert_eq!(r.action(), o_finish(Some(LayoutError::MissingPercent)));

    let mut r = Replay::new(ReplayPlan {
        steps: vec![Step::Arrange { layout: NodeLayout::Tabbed, percents: vec![] }],
        failure: None,
    });
    r.advance(Report::Extent { extent: None });
    assert_eq!(r.action(), o_finish(Some(LayoutError::NoFocusedWindow)));

    let mut r = Replay::new(ReplayPlan {
        steps: vec![Step::Arrange { layout: NodeLayout::Output, percents: vec![] }],
        failure: None,
    });
    r.advance(o_extent(100, 100));
    assert_eq!(r.action(), o_finish(Some(LayoutError::UnsupportedLayout)));
}

#[test]
fn a_placeholder_is_registered_when_it_is_there_and_focused() {
    let mut r = Replay::new(ReplayPlan {
        steps: vec![
            Step::Placeholder { title: "notes".to_string(), swallows: vec![o_by_app("editor")] },
            Step::Run { command: Command::FocusParent },
        ],
        failure: None,
    });
    assert_eq!(
        r.action(),
        Action::Create { title: "notes".to_string(), app_id: "swaystart".to_string() }
    );
    r.advance(o_event(WindowChange::New, 5, Some("swaystart")));
    assert_eq!(
        r.action(),
        Action::Create { title: "notes".to_string(), app_id: "swaystart".to_string() }
    );
    r.advance(Report::Done);
    assert_eq!(r.action(), Action::Listen);
    r.advance(Report::Done);
    r.advance(Report::Event { event: Event::Other });
    r.advance(o_event(WindowChange::New, 4, Some("editor")));
    r.advance(o_event(WindowChange::Focus, 6, Some("swaystart")));
    assert_eq!(r.action(), Action::Listen);
    r.advance(o_event(WindowChange::New, 6, Some("swaystart")));
    assert_eq!(r.action(), Action::Listen);
    r.advance(o_event(WindowChange::Focus, 7, Some("swaystart")));
    assert_eq!(r.action(), Action::Listen);
    r.advance(o_event(WindowChange::Focus, 6, Some("swaystart")));
    assert_eq!(r.action(), o_run(Command::FocusParent));
    r.advance(Report::Done);
    assert!(r.is_over());
    let mut registry = r.into_matchers();
    assert_eq!(registry.len(), 1);
    assert_eq!(registry.consume(&o_window(50, Some("editor"))), Some(6));
}

#[test]
fn the_end_of_the_stream_ends_a_wait_with_a_failure() {
    let mut r = Replay::new(ReplayPlan {
        steps: vec![
            Step::Placeholder { title: "t".to_string(), swallows: vec![] },
            Step::Run { command: Command::FocusParent },
        ],
        failure: None,
    });
    r.advance(Report::Event { event: Event::Ended });
    assert!(!r.is_over());
    r.advance(Report::Done);
    r.advance(o_event(WindowChange::New, 6, Some("swaystart")));
    r.advance(Report::Event { event: Event::Ended });
    assert!(r.is_over());
    assert_eq!(r.action(), o_finish(Some(LayoutError::StreamEnded)));
    assert_eq!(r.into_matchers().len(), 0);
}

fn o_leaf(app_id: &str) -> NodeLite {
    NodeLite {
        id: 0,
        name: None,
        node_type: NodeType::Con,
        layout: NodeLayout::Unset,
        percent: o_percent(0.5),
        nodes: vec![],
        num: None,
        app_id: Some(app_id.to_string()),
        window_properties: None,
        swallows: vec![o_by_app(app_id)],
    }
}

fn o_parent(node_type: NodeType, name: Option<&str>, nodes: Vec<NodeLite>) -> NodeLite {
    NodeLite {
        id: 0,
        name: name.map(|s| s.to_string()),
        node_type,
        layout: NodeLayout::SplitH,
        percent: None,
        nodes,
        num: None,
        app_id: None,
        window_properties: None,
        swallows: vec![],
    }
}

#[test]
fn a_workspace_with_two_windows_from_end_to_end() {
    let document = o_parent(
        NodeType::Root,
        None,
        vec![o_parent(
            NodeType::Workspace,
            Some("1"),
            vec![o_parent(NodeType::Con, None, vec![o_leaf("term"), o_leaf("browser")])],
        )],
    );
    let mut replay = Replay::new(plan_replay(&document));

    // What the window manager reports while the replay runs.
    let mut stream = vec![
        Report::Event { event: Event::Other },
        o_event(WindowChange::New, 101, Some("swaystart")),
        o_event(WindowChange::Focus, 90, Some("other")),
        o_event(WindowChange::Focus, 101, Some("swaystart")),
        o_event(WindowChange::New, 102, Some("swaystart")),
        o_event(WindowChange::Focus, 102, Some("swaystart")),
    ]
    .into_iter();

    let mut log: Vec<String> = vec![];
    loop {
        let report = match replay.action() {
            Action::Run { command } => {
                log.push(command.render());
                Report::Done
            },
            Action::Measure => {
                log.push("measure".to_string());
                o_extent(1280, 720)
            },
            Action::Create { title, app_id } => {
                log.push(format!("create {} {}", title, app_id));
                Report::Done
            },
            Action::Listen => {
                log.push("listen".to_string());
                stream.next().unwrap()
            },
            Action::Finish { failure } => {
                assert_eq!(failure, None);
                break;
            },
        };
        replay.advance(report);
    }
    assert_eq!(
        log,
        vec![
            "workspace 1",
            "splith",
            "layout splith",
            "create swaystart swaystart",
            "listen",
            "listen",
            "listen",
            "listen",
            "create swaystart swaystart",
            "listen",
            "listen",
            "measure",
            "resize set width 640 px",
            "focus prev sibling",
            "resize set width 640 px",
            "focus prev sibling",
            "focus parent",
        ]
    );
    assert!(stream.next().is_none());

    let registry = replay.into_matchers();
    assert_eq!(registry.len(), 2);
    let mut swapper = Swapper::new(registry);
    assert_eq!(swapper.swap(&vec![]), vec![]);

    let arrival = Event::Window { change: WindowChange::New, container: o_window(200, Some("term")) };
    assert_eq!(
        swapper.on_event(&arrival),
        Reaction {
            commands: vec![
                Command::Swap { placeholder: 101, window: 200 },
                Command::Kill { con_id: 101 },
            ],
            done: false,
            failure: None,
        }
    );
    let stranger =
        Event::Window { change: WindowChange::New, container: o_window(201, Some("unrelated")) };
    assert_eq!(swapper.on_event(&stranger), Reaction { commands: vec![], done: false, failure: None });
    assert_eq!(swapper.pending(), 1);
}

#[test]
fn a_layout_style_is_set_after_the_split() {
    let document = o_parent(
        NodeType::Root,
        None,
        vec![{
            let mut c = o_parent(NodeType::Con, None, vec![o_leaf("a")]);
            c.layout = NodeLayout::Stacked;
            c
        }],
    );
    let mut replay = Replay::new(plan_replay(&document));
    assert_eq!(replay.action(), o_run(Command::SplitH));
    replay.advance(Report::Done);
    assert_eq!(replay.action(), o_run(Command::Layout { style: LayoutStyle::Stacked }));
}
