use swaystart::command::Command;
use swaystart::error::LayoutError;
use swaystart::event::{placeholder_label, Event, Wait, WindowChange};
use swaystart::matcher::Matchers;
use swaystart::node::{Matcher, NodeLayout, NodeLite, NodeType, Percent, Window};
use swaystart::replay::{arrange, plan_replay, Extent, Step};
use swaystart::swap::{Reaction, Swapper};

fn w_window(id: i64, app_id: Option<&str>) -> Window {
    Window { id, app_id: app_id.map(|s| s.to_string()), name: None, class: None, instance: None }
}

fn w_event(change: WindowChange, id: i64, app_id: Option<&str>) -> Event {
    Event::Window { change, container: w_window(id, app_id) }
}

fn w_by_app(app_id: &str) -> Matcher {
    Matcher { app_id: Some(app_id.to_string()), class: None, instance: None, name: None }
}

fn w_registry(entries: Vec<(i64, &str)>) -> Matchers {
    let mut r = Matchers::new();
    for (id, app) in entries {
        r.add(id, vec![w_by_app(app)]);
    }
    r
}

fn w_swap(placeholder: i64, window: i64) -> Vec<Command> {
    vec![Command::Swap { placeholder, window }, Command::Kill { con_id: placeholder }]
}

fn w_nothing() -> Reaction {
    Reaction { commands: vec![], done: false, failure: None }
}

#[test]
fn the_placeholder_label() {
    assert_eq!(placeholder_label(), "swaystart");
    assert!(w_window(1, Some("swaystart")).is_placeholder());
    assert!(!w_window(1, Some("swaystart2")).is_placeholder());
    assert!(!w_window(1, None).is_placeholder());
}

#[test]
fn a_swap_is_two_commands() {
    assert_eq!(Swapper::do_swap(5, 77), w_swap(5, 77));
    let texts: Vec<String> = Swapper::do_swap(5, 77).iter().map(|c| c.render()).collect();
    assert_eq!(texts, vec!["[con_id=5] swap container with con_id 77", "[con_id=5] kill"]);
}

#[test]
fn windows_that_were_there_are_resolved_first() {
    let mut s = Swapper::new(w_registry(vec![(1, "term"), (2, "browser"), (3, "term")]));
    let prev = vec![
        w_window(50, Some("browser")),
        w_window(51, Some("unrelated")),
        w_window(52, Some("term")),
        w_window(53, Some("term")),
        w_window(54, Some("term")),
    ];
    let commands = s.swap(&prev);
    let mut expected = w_swap(2, 50);
    expected.extend(w_swap(1, 52));
    expected.extend(w_swap(3, 53));
    assert_eq!(commands, expected);
    assert!(s.is_empty());
}

#[test]
fn resolving_nothing_sends_nothing() {
    let mut s = Swapper::new(w_registry(vec![(1, "term")]));
    assert_eq!(s.swap(&vec![]), vec![]);
    assert_eq!(s.swap(&vec![w_window(9, Some("other"))]), vec![]);
    assert_eq!(s.pending(), 1);
}

#[test]
fn a_new_window_is_swapped_for_its_placeholder() {
    let mut s = Swapper::new(w_registry(vec![(1, "term"), (2, "browser")]));
    let r = s.on_event(&w_event(WindowChange::New, 70, Some("browser")));
    assert_eq!(r, Reaction { commands: w_swap(2, 70), done: false, failure: None });
    assert_eq!(s.pending(), 1);
}

#[test]
fn an_unmatched_window_is_left_alone() {
    let mut s = Swapper::new(w_registry(vec![(1, "term"), (2, "browser")]));
    assert_eq!(s.on_event(&w_event(WindowChange::New, 70, Some("unrelated"))), w_nothing());
    assert_eq!(s.on_event(&w_event(WindowChange::New, 71, None)), w_nothing());
    assert_eq!(s.pending(), 2);
}

#[test]
fn other_events_are_ignored() {
    let mut s = Swapper::new(w_registry(vec![(1, "term")]));
    assert_eq!(s.on_event(&Event::Other), w_nothing());
    assert_eq!(s.on_event(&w_event(WindowChange::Focus, 70, Some("term"))), w_nothing());
    assert_eq!(s.on_event(&w_event(WindowChange::Other, 70, Some("term"))), w_nothing());
    assert_eq!(s.on_event(&w_event(WindowChange::Close, 1, Some("term"))), w_nothing());
    assert_eq!(s.on_event(&w_event(WindowChange::Close, 1, None)), w_nothing());
    assert_eq!(s.pending(), 1);
}

#[test]
fn swapping_ends_when_the_last_placeholder_is_closed() {
    let mut s = Swapper::new(w_registry(vec![(1, "term"), (2, "browser")]));
    let r = s.on_event(&w_event(WindowChange::New, 70, Some("term")));
    assert_eq!(r, Reaction { commands: w_swap(1, 70), done: false, failure: None });
    let r = s.on_event(&w_event(WindowChange::Close, 1, Some("swaystart")));
    assert_eq!(r, w_nothing());
    let r = s.on_event(&w_event(WindowChange::New, 71, Some("browser")));
    assert_eq!(r, Reaction { commands: w_swap(2, 71), done: false, failure: None });
    assert!(s.is_empty());
    let r = s.on_event(&w_event(WindowChange::Close, 2, Some("swaystart")));
    assert_eq!(r, Reaction { commands: vec![], done: true, failure: None });
}

#[test]
fn an_abandoned_placeholder_no_longer_waits() {
    let mut s = Swapper::new(w_registry(vec![(1, "term"), (2, "browser")]));
    let r = s.on_event(&w_event(WindowChange::Close, 2, Some("swaystart")));
    assert_eq!(r, w_nothing());
    assert_eq!(s.pending(), 1);
    assert_eq!(s.on_event(&w_event(WindowChange::New, 71, Some("browser"))), w_nothing());
    let r = s.on_event(&w_event(WindowChange::Close, 1, Some("swaystart")));
    assert_eq!(r, Reaction { commands: vec![], done: true, failure: None });
}

#[test]
fn an_empty_registry_ends_only_on_a_closed_placeholder() {
    let mut s = Swapper::new(Matchers::new());
    assert_eq!(s.on_event(&Event::Other), w_nothing());
    assert_eq!(s.on_event(&w_event(WindowChange::New, 5, Some("a"))), w_nothing());
    assert_eq!(s.on_event(&w_event(WindowChange::Close, 5, Some("a"))), w_nothing());
    let r = s.on_event(&w_event(WindowChange::Close, 99, Some("swaystart")));
    assert_eq!(r, Reaction { commands: vec![], done: true, failure: None });
}

#[test]
fn the_end_of_the_stream_is_a_failure() {
    let mut s = Swapper::new(w_registry(vec![(1, "term")]));
    let r = s.on_event(&Event::Ended);
    assert_eq!(
        r,
        Reaction { commands: vec![], done: true, failure: Some(LayoutError::StreamEnded) }
    );
    assert_eq!(s.pending(), 1);
    let mut s = Swapper::new(Matchers::new());
    let r = s.on_event(&Event::Ended);
    assert_eq!(r.failure, Some(LayoutError::StreamEnded));
    assert!(r.done);
}

#[test]
fn a_wait_does_not_end_with_the_stream() {
    assert_eq!(Wait::New.advance(&Event::Ended), Wait::New);
    assert_eq!((Wait::Focus { id: 3 }).advance(&Event::Ended), Wait::Focus { id: 3 });
}

#[test]
fn a_placeholder_is_waited_for_twice() {
    let mut w = Wait::New;
    assert_eq!(w.ready(), None);
    w = w.advance(&Event::Other);
    w = w.advance(&w_event(WindowChange::New, 3, Some("term")));
    w = w.advance(&w_event(WindowChange::Focus, 4, Some("swaystart")));
    w = w.advance(&w_event(WindowChange::Close, 4, Some("swaystart")));
    assert_eq!(w, Wait::New);
    w = w.advance(&w_event(WindowChange::New, 4, Some("swaystart")));
    assert_eq!(w, Wait::Focus { id: 4 });
    assert_eq!(w.ready(), None);
    w = w.advance(&w_event(WindowChange::New, 5, Some("swaystart")));
    w = w.advance(&w_event(WindowChange::Focus, 5, Some("swaystart")));
    w = w.advance(&w_event(WindowChange::Other, 4, Some("swaystart")));
    w = w.advance(&Event::Other);
    assert_eq!(w, Wait::Focus { id: 4 });
    w = w.advance(&w_event(WindowChange::Focus, 4, None));
    assert_eq!(w, Wait::Ready { id: 4 });
    assert_eq!(w.ready(), Some(4));
    w = w.advance(&w_event(WindowChange::New, 6, Some("swaystart")));
    assert_eq!(w, Wait::Ready { id: 4 });
}

fn w_leaf(app_id: &str) -> NodeLite {
    NodeLite {
        id: 0,
        name: None,
        node_type: NodeType::Con,
        layout: NodeLayout::Unset,
        percent: Some(Percent { bits: 0.5f64.to_bits() }),
        nodes: vec![],
        num: None,
        app_id: Some(app_id.to_string()),
        window_properties: None,
        swallows: vec![w_by_app(app_id)],
    }
}

#[test]
fn replay_and_swap_from_end_to_end() {
    let container = NodeLite {
        id: 0,
        name: None,
        node_type: NodeType::Con,
        layout: NodeLayout::SplitH,
        percent: Some(Percent { bits: 1.0f64.to_bits() }),
        nodes: vec![w_leaf("term"), w_leaf("browser")],
        num: None,
        app_id: None,
        window_properties: None,
        swallows: vec![],
    };
    let workspace = NodeLite {
        id: 0,
        name: Some("1".to_string()),
        node_type: NodeType::Workspace,
        layout: NodeLayout::SplitH,
        percent: None,
        nodes: vec![container],
        num: Some(1),
        app_id: None,
        window_properties: None,
        swallows: vec![],
    };
    let document = NodeLite {
        id: 0,
        name: Some("root".to_string()),
        node_type: NodeType::Root,
        layout: NodeLayout::Unset,
        percent: None,
        nodes: vec![workspace],
        num: None,
        app_id: None,
        window_properties: None,
        swallows: vec![],
    };

    // What the window manager reports while the replay runs.
    let mut stream = vec![
        Event::Other,
        w_event(WindowChange::New, 101, Some("swaystart")),
        w_event(WindowChange::Focus, 90, Some("other")),
        w_event(WindowChange::Focus, 101, Some("swaystart")),
        w_event(WindowChange::New, 102, Some("swaystart")),
        w_event(WindowChange::Focus, 102, Some("swaystart")),
    ]
    .into_iter();

    let plan = plan_replay(&document);
    assert_eq!(plan.failure, None);
    let mut sent: Vec<String> = vec![];
    let mut created: Vec<String> = vec![];
    let mut registry = Matchers::new();
    for step in plan.steps {
        match step {
            Step::Run { command } => sent.push(command.render()),
            Step::Arrange { layout, percents } => {
                let a = arrange(layout, &percents, Some(Extent { width: 1280, height: 720 }));
                assert_eq!(a.failure, None);
                for c in a.commands {
                    sent.push(c.render());
                }
            },
            Step::Placeholder { title, swallows } => {
                created.push(title);
                let mut wait = Wait::New;
                let id = loop {
                    match wait.ready() {
                        Some(id) => break id,
                        None => wait = wait.advance(&stream.next().unwrap()),
                    }
                };
                registry.add(id, swallows);
            },
        }
    }
    assert_eq!(
        sent,
        vec![
            "workspace 1",
            "splith",
            "layout splith",
            "resize set width 640 px",
            "focus prev sibling",
            "resize set width 640 px",
            "focus prev sibling",
            "focus parent",
        ]
    );
    assert_eq!(created, vec!["swaystart", "swaystart"]);
    assert_eq!(registry.len(), 2);
    assert!(stream.next().is_none());

    let mut swapper = Swapper::new(registry);
    assert_eq!(swapper.swap(&vec![]), vec![]);
    let r = swapper.on_event(&w_event(WindowChange::New, 200, Some("term")));
    assert_eq!(r, Reaction { commands: w_swap(101, 200), done: false, failure: None });
    let r = swapper.on_event(&w_event(WindowChange::New, 201, Some("unrelated")));
    assert_eq!(r, w_nothing());
    assert_eq!(swapper.pending(), 1);
    let r = swapper.on_event(&w_event(WindowChange::Close, 101, Some("swaystart")));
    assert_eq!(r, w_nothing());
    let r = swapper.on_event(&w_event(WindowChange::New, 202, Some("browser")));
    assert_eq!(r, Reaction { commands: w_swap(102, 202), done: false, failure: None });
    let r = swapper.on_event(&w_event(WindowChange::Close, 102, Some("swaystart")));
    assert_eq!(r, Reaction { commands: vec![], done: true, failure: None });
}
