//! Replaying a saved layout.
//!
//! A walk of the saved document yields a plan: the steps that rebuild the
//! layout, in their order. A step is a command for the window manager, the
//! sizing of a container's children once the container is built, or a
//! placeholder that is to be created and waited for.

use vstd::prelude::*;
use crate::command::{commands_view, Command, CommandView, Dimension, LayoutStyle};
use crate::error::LayoutError;
use crate::node::{matchers_view, Matcher, MatcherView, NodeLayout, NodeLite, NodeView, Percent};
use crate::event::{placeholder_label, placeholder_tag};
use crate::share::{share, share_of};
use crate::visit::{
    collected, lemma_run_collects, visit_node, visits, LayoutVisitor, Visit, VisitKind,
};

verus! {

impl NodeLayout {
    /// The layout as one of the four that a replay can build.
    pub open spec fn style(self) -> Option<LayoutStyle> {
        match self {
            NodeLayout::SplitH => Some(LayoutStyle::SplitH),
            NodeLayout::SplitV => Some(LayoutStyle::SplitV),
            NodeLayout::Tabbed => Some(LayoutStyle::Tabbed),
            NodeLayout::Stacked => Some(LayoutStyle::Stacked),
            _ => None,
        }
    }

    /// The layout as one of the four that a replay can build.
    pub fn layout_style(&self) -> (r: Option<LayoutStyle>)
        ensures
            r == self.style(),
    {
        match self {
            NodeLayout::SplitH => Some(LayoutStyle::SplitH),
            NodeLayout::SplitV => Some(LayoutStyle::SplitV),
            NodeLayout::Tabbed => Some(LayoutStyle::Tabbed),
            NodeLayout::Stacked => Some(LayoutStyle::Stacked),
            _ => None,
        }
    }
}

/// The extent of a container in pixels.
#[derive(Clone, Copy, Debug, PartialEq, Eq, Structural)]
pub struct Extent {
    pub width: i32,
    pub height: i32,
}

/// One step of a replay.
#[derive(Debug, PartialEq, Eq)]
pub enum Step {
    /// Send the command.
    Run { command: Command },
    /// Size the children of the container that was just built. The focus is
    /// on its last child; `percents` are the recorded shares of the children.
    Arrange { layout: NodeLayout, percents: Vec<Option<Percent>> },
    /// Create a placeholder with this title, wait until it is there and has
    /// the focus, and register it with these matchers.
    Placeholder { title: String, swallows: Vec<Matcher> },
}

pub enum StepView {
    Run { command: CommandView },
    Arrange { layout: NodeLayout, percents: Seq<Option<Percent>> },
    Placeholder { title: Seq<char>, swallows: Seq<MatcherView> },
}

impl View for Step {
    type V = StepView;

    open spec fn view(&self) -> StepView {
        match *self {
            Step::Run { command } => StepView::Run { command: command@ },
            Step::Arrange { layout, percents } => StepView::Arrange { layout, percents: percents@ },
            Step::Placeholder { title, swallows } => StepView::Placeholder {
                title: title@,
                swallows: matchers_view(swallows@),
            },
        }
    }
}

/// The view of a list of steps.
pub open spec fn steps_view(steps: Seq<Step>) -> Seq<StepView> {
    steps.map_values(|s: Step| s@)
}

/// The recorded shares of the children of a node, in their order.
pub open spec fn child_percents(n: NodeView) -> Seq<Option<Percent>> {
    n.nodes.map_values(|c: NodeView| c.percent)
}

/// The steps that one report of a walk asks for, and the failure where the
/// node cannot be replayed.
///
/// An output and a workspace are focused by their name, and fail without one.
/// A container is entered by a fresh horizontal split, which is then given
/// the container's layout; a layout that cannot be built fails after the
/// split. On the way out the container's children are sized. A window gets a
/// placeholder with its name for a title.
pub open spec fn planned(kind: VisitKind, node: NodeView) -> (Seq<StepView>, Option<LayoutError>) {
    match kind {
        VisitKind::Output => match node.name {
            Some(name) => (
                seq![StepView::Run { command: CommandView::FocusOutput { name } }],
                None,
            ),
            None => (Seq::empty(), Some(LayoutError::OutputWithNoName)),
        },
        VisitKind::Workspace => match node.name {
            Some(name) => (seq![StepView::Run { command: CommandView::Workspace { name } }], None),
            None => (Seq::empty(), Some(LayoutError::WorkspaceWithNoName)),
        },
        VisitKind::ContainerEnter => match node.layout.style() {
            Some(style) => (
                seq![
                    StepView::Run { command: CommandView::SplitH },
                    StepView::Run { command: CommandView::Layout { style } },
                ],
                None,
            ),
            None => (
                seq![StepView::Run { command: CommandView::SplitH }],
                Some(LayoutError::UnsupportedLayout),
            ),
        },
        VisitKind::ContainerExit => (
            seq![StepView::Arrange { layout: node.layout, percents: child_percents(node) }],
            None,
        ),
        VisitKind::View => (
            seq![
                StepView::Placeholder {
                    title: match node.name {
                        Some(name) => name,
                        None => placeholder_tag(),
                    },
                    swallows: node.swallows,
                },
            ],
            None,
        ),
    }
}

/// The plan for the reports of a walk: the steps of one report after those of
/// the other, up to and with those of the first report that fails, and that
/// failure.
pub open spec fn plan_of(visits: Seq<Visit>) -> (Seq<StepView>, Option<LayoutError>) {
    collected(visits, |k: VisitKind, n: NodeView| planned(k, n))
}

/// Builds the plan of a replay while it walks the saved document.
pub struct LayoutBuilder {
    steps: Vec<Step>,
}

impl View for LayoutBuilder {
    type V = Seq<StepView>;

    closed spec fn view(&self) -> Seq<StepView> {
        steps_view(self.steps@)
    }
}

impl LayoutBuilder {
    /// A builder with an empty plan.
    pub fn new() -> (r: Self)
        ensures
            r@ == Seq::<StepView>::empty(),
    {
        let r = LayoutBuilder { steps: Vec::new() };
        assert(r@ =~= Seq::<StepView>::empty());
        r
    }

    /// The steps that were planned.
    pub fn get(self) -> (steps: Vec<Step>)
        ensures
            steps_view(steps@) == self@,
    {
        self.steps
    }

    fn push(&mut self, step: Step)
        ensures
            final(self)@ == old(self)@.push(step@),
    {
        self.steps.push(step);
        assert(self@ =~= old(self)@.push(step@));
    }
}

/// The recorded shares of the children of a node, in their order.
pub fn percents_of(node: &NodeLite) -> (r: Vec<Option<Percent>>)
    ensures
        r@ == child_percents(node@),
{
    proof {
        node.lemma_view_children();
    }
    let mut r: Vec<Option<Percent>> = Vec::new();
    let mut i: usize = 0;
    while i < node.nodes.len()
        invariant
            i <= node.nodes.len(),
            node@.nodes.len() == node.nodes.len(),
            forall|j: int| 0 <= j < node.nodes.len() ==> node@.nodes[j] == node.nodes[j]@,
            r@.len() == i,
            forall|j: int| 0 <= j < i ==> r@[j] == node@.nodes[j].percent,
        decreases node.nodes.len() - i,
    {
        r.push(node.nodes[i].percent);
        i += 1;
    }
    assert(r@ =~= child_percents(node@));
    r
}

impl LayoutVisitor for LayoutBuilder {
    open spec fn step(state: Seq<StepView>, kind: VisitKind, node: NodeView) -> (
        Seq<StepView>,
        Option<LayoutError>,
    ) {
        (state + planned(kind, node).0, planned(kind, node).1)
    }

    fn on_container_enter(&mut self, con: &NodeLite) -> (r: Result<(), LayoutError>) {
        self.push(Step::Run { command: Command::SplitH });
        match con.layout.layout_style() {
            Some(style) => {
                self.push(Step::Run { command: Command::Layout { style } });
                assert(self@ =~= old(self)@ + planned(VisitKind::ContainerEnter, con@).0);
                Ok(())
            },
            None => {
                assert(self@ =~= old(self)@ + planned(VisitKind::ContainerEnter, con@).0);
                Err(LayoutError::UnsupportedLayout)
            },
        }
    }

    fn on_container_exit(&mut self, con: &NodeLite) -> (r: Result<(), LayoutError>) {
        self.push(Step::Arrange { layout: con.layout, percents: percents_of(con) });
        assert(self@ =~= old(self)@ + planned(VisitKind::ContainerExit, con@).0);
        Ok(())
    }

    fn on_view(&mut self, view: &NodeLite) -> (r: Result<(), LayoutError>) {
        let title = match &view.name {
            Some(name) => name.clone(),
            None => placeholder_label().to_owned(),
        };
        self.push(Step::Placeholder { title, swallows: view.swallows.clone() });
        assert(self@ =~= old(self)@ + planned(VisitKind::View, view@).0);
        Ok(())
    }

    fn on_workspace(&mut self, workspace: &NodeLite) -> (r: Result<(), LayoutError>) {
        match &workspace.name {
            Some(name) => {
                self.push(Step::Run { command: Command::Workspace { name: name.clone() } });
                assert(self@ =~= old(self)@ + planned(VisitKind::Workspace, workspace@).0);
                Ok(())
            },
            None => {
                assert(self@ =~= old(self)@ + planned(VisitKind::Workspace, workspace@).0);
                Err(LayoutError::WorkspaceWithNoName)
            },
        }
    }

    fn on_output(&mut self, output: &NodeLite) -> (r: Result<(), LayoutError>) {
        match &output.name {
            Some(name) => {
                self.push(Step::Run { command: Command::FocusOutput { name: name.clone() } });
                assert(self@ =~= old(self)@ + planned(VisitKind::Output, output@).0);
                Ok(())
            },
            None => {
                assert(self@ =~= old(self)@ + planned(VisitKind::Output, output@).0);
                Err(LayoutError::OutputWithNoName)
            },
        }
    }
}

/// The plan of a replay: the steps to take in their order, and the failure
/// with which the replay ends once they are taken, if the document cannot be
/// replayed to its end.
#[derive(Debug, PartialEq, Eq)]
pub struct ReplayPlan {
    pub steps: Vec<Step>,
    pub failure: Option<LayoutError>,
}

/// Plans the replay of a saved document.
pub fn plan_replay(document: &NodeLite) -> (plan: ReplayPlan)
    ensures
        (steps_view(plan.steps@), plan.failure) == plan_of(visits(document@)),
{
    let mut builder = LayoutBuilder::new();
    proof {
        lemma_run_collects::<StepView, LayoutBuilder>(
            builder@,
            visits(document@),
            |k: VisitKind, n: NodeView| planned(k, n),
        );
        assert(Seq::<StepView>::empty() + plan_of(visits(document@)).0 =~= plan_of(
            visits(document@),
        ).0);
    }
    let failure = match visit_node(&mut builder, document) {
        Ok(_) => None,
        Err(e) => Some(e),
    };
    ReplayPlan { steps: builder.get(), failure }
}

/// The commands that size children with the recorded shares `percents` along
/// one axis of a parent that is `total` pixels long.
///
/// The children are sized from the last to the first: each gets its share of
/// the total, and the focus then moves to the sibling before it. A child
/// without a recorded share ends the sizing with a failure; the children
/// after it have been sized by then.
pub open spec fn resizes(dimension: Dimension, total: int, percents: Seq<Option<Percent>>) -> (
    Seq<CommandView>,
    Option<LayoutError>,
)
    decreases percents.len(),
{
    if percents.len() == 0 {
        (Seq::empty(), None)
    } else {
        match percents.last() {
            None => (Seq::empty(), Some(LayoutError::MissingPercent)),
            Some(p) => {
                let rest = resizes(dimension, total, percents.drop_last());
                (
                    seq![
                        CommandView::Resize { dimension, size: share(p, total) },
                        CommandView::FocusPrevSibling,
                    ] + rest.0,
                    rest.1,
                )
            },
        }
    }
}

/// The sizing of the children, followed by the focus on their parent unless
/// the sizing failed.
pub open spec fn sized(resized: (Seq<CommandView>, Option<LayoutError>)) -> (
    Seq<CommandView>,
    Option<LayoutError>,
) {
    if resized.1 is Some {
        resized
    } else {
        (resized.0.push(CommandView::FocusParent), None)
    }
}

/// The commands that arrange the children of a container that was just
/// built, where `extent` is the extent of the container as the window manager
/// reports it, if it reports a focused container at all.
///
/// Without a focused container nothing can be arranged. A vertical split
/// shares out the height and a horizontal split the width. The children of a
/// tabbed or stacked container have no extent of their own: the focus goes to
/// the parent and that is all. Any other layout fails.
pub open spec fn arranged(
    layout: NodeLayout,
    percents: Seq<Option<Percent>>,
    extent: Option<Extent>,
) -> (Seq<CommandView>, Option<LayoutError>) {
    match extent {
        None => (Seq::empty(), Some(LayoutError::NoFocusedWindow)),
        Some(e) => match layout {
            NodeLayout::SplitV => sized(resizes(Dimension::Height, e.height as int, percents)),
            NodeLayout::SplitH => sized(resizes(Dimension::Width, e.width as int, percents)),
            NodeLayout::Tabbed | NodeLayout::Stacked => (seq![CommandView::FocusParent], None),
            _ => (Seq::empty(), Some(LayoutError::UnsupportedLayout)),
        },
    }
}

/// What is to be done for a step `Arrange`: the commands to send in their
/// order, and the failure with which the replay ends after them, if any.
#[derive(Debug, PartialEq, Eq)]
pub struct Arrangement {
    pub commands: Vec<Command>,
    pub failure: Option<LayoutError>,
}

fn resize_all(dimension: Dimension, total: i32, percents: &Vec<Option<Percent>>) -> (r: Arrangement)
    ensures
        (commands_view(r.commands@), r.failure) == sized(
            resizes(dimension, total as int, percents@),
        ),
{
    let mut commands: Vec<Command> = Vec::new();
    let mut i: usize = percents.len();
    assert(percents@.take(i as int) =~= percents@);
    assert(Seq::<CommandView>::empty() + resizes(dimension, total as int, percents@).0 =~= resizes(
        dimension,
        total as int,
        percents@,
    ).0);
    while i > 0
        invariant
            i <= percents.len(),
            resizes(dimension, total as int, percents@) == (
                commands_view(commands@) + resizes(
                    dimension,
                    total as int,
                    percents@.take(i as int),
                ).0,
                resizes(dimension, total as int, percents@.take(i as int)).1,
            ),
        decreases i,
    {
        let ghost done = commands_view(commands@);
        let ghost here = percents@.take(i as int);
        assert(here.drop_last() =~= percents@.take(i - 1));
        assert(here.last() == percents@[i - 1]);
        i -= 1;
        match percents[i] {
            None => {
                assert(done + Seq::<CommandView>::empty() =~= done);
                return Arrangement { commands, failure: Some(LayoutError::MissingPercent) };
            },
            Some(p) => {
                commands.push(Command::Resize { dimension, size: share_of(p, total) });
                commands.push(Command::FocusPrevSibling);
                let ghost pair = seq![
                    CommandView::Resize { dimension, size: share(p, total as int) },
                    CommandView::FocusPrevSibling,
                ];
                let ghost rest = resizes(dimension, total as int, percents@.take(i as int)).0;
                assert(commands_view(commands@) =~= done + pair);
                assert(done + (pair + rest) =~= (done + pair) + rest);
            },
        }
    }
    assert(percents@.take(0) =~= Seq::<Option<Percent>>::empty());
    let ghost all = commands_view(commands@);
    assert(all + Seq::<CommandView>::empty() =~= all);
    commands.push(Command::FocusParent);
    assert(commands_view(commands@) =~= all.push(CommandView::FocusParent));
    Arrangement { commands, failure: None }
}

/// Arranges the children of a container that was just built: says which
/// commands size them, given the extent that the window manager reports for
/// the container.
pub fn arrange(layout: NodeLayout, percents: &Vec<Option<Percent>>, extent: Option<Extent>) -> (r:
    Arrangement)
    ensures
        (commands_view(r.commands@), r.failure) == arranged(layout, percents@, extent),
{
    let e = match extent {
        None => {
            let commands: Vec<Command> = Vec::new();
            assert(commands_view(commands@) =~= Seq::<CommandView>::empty());
            return Arrangement { commands, failure: Some(LayoutError::NoFocusedWindow) };
        },
        Some(e) => e,
    };
    match layout {
        NodeLayout::SplitV => resize_all(Dimension::Height, e.height, percents),
        NodeLayout::SplitH => resize_all(Dimension::Width, e.width, percents),
        NodeLayout::Tabbed | NodeLayout::Stacked => {
            let mut commands: Vec<Command> = Vec::new();
            commands.push(Command::FocusParent);
            assert(commands_view(commands@) =~= seq![CommandView::FocusParent]);
            Arrangement { commands, failure: None }
        },
        _ => {
            let commands: Vec<Command> = Vec::new();
            assert(commands_view(commands@) =~= Seq::<CommandView>::empty());
            Arrangement { commands, failure: Some(LayoutError::UnsupportedLayout) }
        },
    }
}

/// Sizing children that all have a recorded share never fails: it sends
/// two commands for each child, from the last child to the first: the child
/// is given its share of the total, and the focus moves to the sibling before
/// it.
pub proof fn lemma_resizes_in_reverse(
    dimension: Dimension,
    total: int,
    percents: Seq<Option<Percent>>,
)
    requires
        forall|i: int| 0 <= i < percents.len() ==> percents[i] is Some,
    ensures
        resizes(dimension, total, percents).1 is None,
        resizes(dimension, total, percents).0.len() == 2 * percents.len(),
        forall|k: int|
            0 <= k < percents.len() ==> {
                &&& #[trigger] resizes(dimension, total, percents).0[2 * k]
                    == CommandView::Resize {
                    dimension,
                    size: share(percents[percents.len() - 1 - k]->0, total),
                }
                &&& resizes(dimension, total, percents).0[2 * k + 1]
                    == CommandView::FocusPrevSibling
            },
    decreases percents.len(),
{
    if percents.len() > 0 {
        let rest = percents.drop_last();
        lemma_resizes_in_reverse(dimension, total, rest);
        let all = resizes(dimension, total, percents).0;
        let tail = resizes(dimension, total, rest).0;
        assert forall|k: int| 0 <= k < percents.len() implies {
            &&& #[trigger] all[2 * k] == CommandView::Resize {
                dimension,
                size: share(percents[percents.len() - 1 - k]->0, total),
            }
            &&& all[2 * k + 1] == CommandView::FocusPrevSibling
        } by {
            if k > 0 {
                assert(all[2 * k] == tail[2 * (k - 1)]);
                assert(all[2 * k + 1] == tail[2 * (k - 1) + 1]);
                assert(rest[rest.len() - 1 - (k - 1)] == percents[percents.len() - 1 - k]);
            }
        }
    }
}

/// A tabbed or a stacked container is never resized: once it is built, the
/// focus goes to the parent and nothing else is sent.
pub proof fn lemma_tabbed_and_stacked_are_not_sized(percents: Seq<Option<Percent>>, extent: Extent)
    ensures
        arranged(NodeLayout::Tabbed, percents, Some(extent)) == (
            seq![CommandView::FocusParent],
            None::<LayoutError>,
        ),
        arranged(NodeLayout::Stacked, percents, Some(extent)) == (
            seq![CommandView::FocusParent],
            None::<LayoutError>,
        ),
{
}

/// The matchers of the placeholders among the first `upto` steps of a plan,
/// in the order of the steps.
pub open spec fn placeholder_swallows(steps: Seq<StepView>, upto: nat) -> Seq<Seq<MatcherView>>
    decreases upto,
{
    if upto == 0 || upto > steps.len() {
        Seq::empty()
    } else {
        let before = placeholder_swallows(steps, (upto - 1) as nat);
        match steps[upto - 1] {
            StepView::Placeholder { swallows, .. } => before.push(swallows),
            _ => before,
        }
    }
}

/// The matchers of the windows that a walk reports, in its order.
pub open spec fn leaf_swallows(visits: Seq<Visit>) -> Seq<Seq<MatcherView>>
    decreases visits.len(),
{
    if visits.len() == 0 {
        Seq::empty()
    } else {
        let before = leaf_swallows(visits.drop_last());
        if visits.last().kind == VisitKind::View {
            before.push(visits.last().node.swallows)
        } else {
            before
        }
    }
}

proof fn lemma_placeholders_of_prefix(a: Seq<StepView>, b: Seq<StepView>, k: nat)
    requires
        k <= a.len(),
    ensures
        placeholder_swallows(a + b, k) == placeholder_swallows(a, k),
    decreases k,
{
    if k > 0 {
        lemma_placeholders_of_prefix(a, b, (k - 1) as nat);
    }
}

proof fn lemma_placeholders_of_concat(a: Seq<StepView>, b: Seq<StepView>, k: nat)
    requires
        k <= b.len(),
    ensures
        placeholder_swallows(a + b, a.len() + k) == placeholder_swallows(a, a.len())
            + placeholder_swallows(b, k),
    decreases k,
{
    if k == 0 {
        lemma_placeholders_of_prefix(a, b, a.len());
        assert(placeholder_swallows(a, a.len()) + Seq::<Seq<MatcherView>>::empty()
            =~= placeholder_swallows(a, a.len()));
    } else {
        lemma_placeholders_of_concat(a, b, (k - 1) as nat);
        assert((a + b)[a.len() + k - 1] == b[k - 1]);
        let x = placeholder_swallows(a, a.len());
        let y = placeholder_swallows(b, (k - 1) as nat);
        match b[k - 1] {
            StepView::Placeholder { swallows, .. } => {
                assert((x + y).push(swallows) =~= x + y.push(swallows));
            },
            _ => {},
        }
    }
}

/// A plan asks for one placeholder for each window that the walk reports, in
/// the order of the walk, and gives each the matchers of its window.
pub proof fn lemma_plan_has_a_placeholder_for_each_window(visits: Seq<Visit>)
    requires
        plan_of(visits).1 is None,
    ensures
        placeholder_swallows(plan_of(visits).0, plan_of(visits).0.len()) == leaf_swallows(visits),
    decreases visits.len(),
{
    if visits.len() > 0 {
        let before = plan_of(visits.drop_last());
        let here = planned(visits.last().kind, visits.last().node);
        lemma_plan_has_a_placeholder_for_each_window(visits.drop_last());
        lemma_placeholders_of_concat(before.0, here.0, here.0.len());
        reveal_with_fuel(placeholder_swallows, 3);
        assert(placeholder_swallows(here.0, here.0.len()) =~= if visits.last().kind
            == VisitKind::View {
            seq![visits.last().node.swallows]
        } else {
            Seq::empty()
        });
        let x = leaf_swallows(visits.drop_last());
        assert(x + Seq::<Seq<MatcherView>>::empty() =~= x);
        assert(x + seq![visits.last().node.swallows] =~= x.push(visits.last().node.swallows));
    }
}

} // verus!
