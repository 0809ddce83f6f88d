//! What stands in the way of a replay: the windows that are already there.
//!
//! Before a layout is rebuilt, the workspaces that the saved document names
//! are cleared: each of their children is taken out of the tiling. Those
//! children, and every window of the live tree, are candidates for the
//! placeholders that the replay is about to create.

use vstd::prelude::*;
use crate::command::{commands_view, Command, CommandView};
use crate::error::LayoutError;
use crate::node::{windows_view, NodeLite, NodeView, Window, WindowView};
use crate::visit::{
    collected, lemma_run_collects, run, visit_node, visits, LayoutVisitor, Visit, VisitKind,
};

verus! {

/// The view of a list of names.
pub open spec fn names_view(names: Seq<String>) -> Seq<Seq<char>> {
    names.map_values(|s: String| s@)
}

/// What a report yields a finder: the name of a workspace, or a failure where
/// the workspace has none.
pub open spec fn workspace_name(kind: VisitKind, node: NodeView) -> (
    Seq<Seq<char>>,
    Option<LayoutError>,
) {
    if kind == VisitKind::Workspace {
        match node.name {
            Some(name) => (seq![name], None),
            None => (Seq::empty(), Some(LayoutError::WorkspaceWithNoName)),
        }
    } else {
        (Seq::empty(), None)
    }
}

/// The names of the workspaces of a walk, in its order, up to the first
/// workspace without a name, and the failure that this one is.
pub open spec fn workspaces_found(visits: Seq<Visit>) -> (Seq<Seq<char>>, Option<LayoutError>) {
    collected(visits, |k: VisitKind, n: NodeView| workspace_name(k, n))
}

/// Collects the names of the workspaces of a tree.
pub struct WorkspaceFinder {
    workspaces: Vec<String>,
}

impl View for WorkspaceFinder {
    type V = Seq<Seq<char>>;

    closed spec fn view(&self) -> Seq<Seq<char>> {
        names_view(self.workspaces@)
    }
}

impl WorkspaceFinder {
    /// A finder that has found nothing yet.
    pub fn new() -> (r: Self)
        ensures
            r@ == Seq::<Seq<char>>::empty(),
    {
        let r = Self { workspaces: Vec::new() };
        assert(r@ =~= Seq::<Seq<char>>::empty());
        r
    }

    /// The names that were found, in the order in which they were met.
    pub fn get(self) -> (names: Vec<String>)
        ensures
            names_view(names@) == self@,
    {
        self.workspaces
    }
}

impl LayoutVisitor for WorkspaceFinder {
    open spec fn step(state: Seq<Seq<char>>, kind: VisitKind, node: NodeView) -> (
        Seq<Seq<char>>,
        Option<LayoutError>,
    ) {
        (state + workspace_name(kind, node).0, workspace_name(kind, node).1)
    }

    fn on_container_enter(&mut self, con: &NodeLite) -> (r: Result<(), LayoutError>) {
        assert(self@ + Seq::<Seq<char>>::empty() =~= self@);
        Ok(())
    }

    fn on_container_exit(&mut self, con: &NodeLite) -> (r: Result<(), LayoutError>) {
        assert(self@ + Seq::<Seq<char>>::empty() =~= self@);
        Ok(())
    }

    fn on_view(&mut self, view: &NodeLite) -> (r: Result<(), LayoutError>) {
        assert(self@ + Seq::<Seq<char>>::empty() =~= self@);
        Ok(())
    }

    fn on_workspace(&mut self, workspace: &NodeLite) -> (r: Result<(), LayoutError>) {
        match &workspace.name {
            Some(name) => {
                self.workspaces.push(name.clone());
                assert(self@ =~= old(self)@ + seq![name@]);
                Ok(())
            },
            None => {
                assert(self@ + Seq::<Seq<char>>::empty() =~= self@);
                Err(LayoutError::WorkspaceWithNoName)
            },
        }
    }

    fn on_output(&mut self, output: &NodeLite) -> (r: Result<(), LayoutError>) {
        assert(self@ + Seq::<Seq<char>>::empty() =~= self@);
        Ok(())
    }
}

/// The names of the workspaces of a tree, in the order of a walk. Fails at
/// the first workspace without a name.
pub fn find_workspaces(tree: &NodeLite) -> (r: Result<Vec<String>, LayoutError>)
    ensures
        match r {
            Ok(names) => workspaces_found(visits(tree@)) == (
                names_view(names@),
                None::<LayoutError>,
            ),
            Err(e) => workspaces_found(visits(tree@)).1 == Some(e),
        },
{
    let mut finder = WorkspaceFinder::new();
    proof {
        lemma_run_collects::<Seq<char>, WorkspaceFinder>(
            finder@,
            visits(tree@),
            |k: VisitKind, n: NodeView| workspace_name(k, n),
        );
        assert(Seq::<Seq<char>>::empty() + workspaces_found(visits(tree@)).0
            =~= workspaces_found(visits(tree@)).0);
    }
    match visit_node(&mut finder, tree) {
        Ok(_) => Ok(finder.get()),
        Err(e) => Err(e),
    }
}

/// What a detacher knows and has gathered: the names of the workspaces that
/// are to be cleared, the commands that clear them, and the candidates.
pub struct DetachView {
    pub targets: Seq<Seq<char>>,
    pub commands: Seq<CommandView>,
    pub candidates: Seq<WindowView>,
}

/// Some window of the list has this container id.
pub open spec fn has_id(windows: Seq<WindowView>, id: int) -> bool {
    exists|i: int| 0 <= i < windows.len() && #[trigger] windows[i].id == id
}

/// No container id occurs twice in the list.
pub open spec fn distinct_ids(windows: Seq<WindowView>) -> bool {
    forall|i: int, j: int|
        0 <= i < j < windows.len() ==> #[trigger] windows[i].id != #[trigger] windows[j].id
}

/// The candidates with `w` among them: `w` is appended unless a candidate
/// with its container id is there already.
pub open spec fn recorded(windows: Seq<WindowView>, w: WindowView) -> Seq<WindowView> {
    if has_id(windows, w.id) {
        windows
    } else {
        windows.push(w)
    }
}

/// The state after the first `k` of the children have been detached: for
/// each, in their order, a command that takes it out of the tiling, and the
/// child among the candidates.
pub open spec fn detached(state: DetachView, children: Seq<NodeView>, k: nat) -> DetachView
    decreases k,
{
    if k == 0 || k > children.len() {
        state
    } else {
        let before = detached(state, children, (k - 1) as nat);
        let c = children[k - 1];
        DetachView {
            targets: before.targets,
            commands: before.commands.push(CommandView::FloatingEnable { con_id: c.id }),
            candidates: recorded(before.candidates, c.window()),
        }
    }
}

impl DetachView {
    /// The workspace is one of those that are to be cleared.
    pub open spec fn is_target(self, workspace: NodeView) -> bool {
        match workspace.name {
            Some(name) => self.targets.contains(name),
            None => false,
        }
    }

    /// What a detacher starts from.
    pub open spec fn start(targets: Seq<Seq<char>>) -> DetachView {
        DetachView { targets, commands: Seq::empty(), candidates: Seq::empty() }
    }

    /// The state after one report. A workspace that is to be cleared has all
    /// its children detached; a window becomes a candidate; nothing else
    /// counts, and nothing fails.
    pub open spec fn after(self, kind: VisitKind, node: NodeView) -> DetachView {
        match kind {
            VisitKind::Workspace => if self.is_target(node) {
                detached(self, node.nodes, node.nodes.len())
            } else {
                self
            },
            VisitKind::View => DetachView {
                targets: self.targets,
                commands: self.commands,
                candidates: recorded(self.candidates, node.window()),
            },
            _ => self,
        }
    }
}

/// Whether a window with this container id is in the list.
fn holds_id(windows: &Vec<Window>, id: i64) -> (r: bool)
    ensures
        r == has_id(windows_view(windows@), id as int),
{
    let mut i: usize = 0;
    while i < windows.len()
        invariant
            i <= windows.len(),
            forall|j: int| 0 <= j < i ==> (#[trigger] windows_view(windows@)[j]).id != id,
        decreases windows.len() - i,
    {
        if windows[i].id == id {
            assert(windows_view(windows@)[i as int].id == id);
            return true;
        }
        i += 1;
    }
    false
}

/// Puts the window among the candidates, unless one with its id is there.
fn record(windows: &mut Vec<Window>, w: Window)
    ensures
        windows_view(final(windows)@) == recorded(windows_view(old(windows)@), w@),
{
    if !holds_id(windows, w.id) {
        windows.push(w);
        assert(windows_view(windows@) =~= windows_view(old(windows)@).push(w@));
    }
}

/// Whether the name is in the list.
fn holds_name(names: &Vec<String>, name: &String) -> (r: bool)
    ensures
        r == names_view(names@).contains(name@),
{
    let mut i: usize = 0;
    while i < names.len()
        invariant
            i <= names.len(),
            forall|j: int| 0 <= j < i ==> (#[trigger] names_view(names@)[j]) != name@,
        decreases names.len() - i,
    {
        if crate::node::Matcher::match_inner(names[i].as_str(), name.as_str()) {
            assert(names_view(names@)[i as int] == name@);
            return true;
        }
        i += 1;
    }
    false
}

/// Clears the workspaces of the given names and gathers the candidates.
///
/// The detacher does not send its commands: it collects them, and they take
/// effect when they are sent in the order in which they were collected.
pub struct WorkspaceDetacher {
    workspaces: Vec<String>,
    commands: Vec<Command>,
    views: Vec<Window>,
}

impl View for WorkspaceDetacher {
    type V = DetachView;

    closed spec fn view(&self) -> DetachView {
        DetachView {
            targets: names_view(self.workspaces@),
            commands: commands_view(self.commands@),
            candidates: windows_view(self.views@),
        }
    }
}

impl WorkspaceDetacher {
    /// A detacher for the workspaces of these names.
    pub fn new(workspaces: Vec<String>) -> (r: Self)
        ensures
            r@ == DetachView::start(names_view(workspaces@)),
    {
        let r = Self { workspaces, commands: Vec::new(), views: Vec::new() };
        assert(r@.commands =~= Seq::<CommandView>::empty());
        assert(r@.candidates =~= Seq::<WindowView>::empty());
        r
    }

    /// The commands that clear the workspaces, and the candidates.
    pub fn get(self) -> (r: (Vec<Command>, Vec<Window>))
        ensures
            commands_view(r.0@) == self@.commands,
            windows_view(r.1@) == self@.candidates,
    {
        (self.commands, self.views)
    }

    fn detach_children(&mut self, workspace: &NodeLite)
        ensures
            final(self)@ == detached(old(self)@, workspace@.nodes, workspace@.nodes.len()),
    {
        proof {
            workspace.lemma_view_children();
        }
        let mut i: usize = 0;
        while i < workspace.nodes.len()
            invariant
                i <= workspace.nodes.len(),
                workspace@.nodes.len() == workspace.nodes.len(),
                forall|j: int|
                    0 <= j < workspace.nodes.len() ==> workspace@.nodes[j] == workspace.nodes[j]@,
                self@ == detached(old(self)@, workspace@.nodes, i as nat),
            decreases workspace.nodes.len() - i,
        {
            let c = &workspace.nodes[i];
            let ghost before = self@;
            self.commands.push(Command::FloatingEnable { con_id: c.id });
            record(&mut self.views, c.window());
            assert(self@.commands =~= before.commands.push(
                CommandView::FloatingEnable { con_id: c@.id },
            ));
            i += 1;
        }
    }
}

impl LayoutVisitor for WorkspaceDetacher {
    open spec fn step(state: DetachView, kind: VisitKind, node: NodeView) -> (
        DetachView,
        Option<LayoutError>,
    ) {
        (state.after(kind, node), None)
    }

    fn on_container_enter(&mut self, con: &NodeLite) -> (r: Result<(), LayoutError>) {
        Ok(())
    }

    fn on_container_exit(&mut self, con: &NodeLite) -> (r: Result<(), LayoutError>) {
        Ok(())
    }

    fn on_view(&mut self, view: &NodeLite) -> (r: Result<(), LayoutError>) {
        record(&mut self.views, view.window());
        Ok(())
    }

    fn on_workspace(&mut self, workspace: &NodeLite) -> (r: Result<(), LayoutError>) {
        let targeted = match &workspace.name {
            Some(name) => holds_name(&self.workspaces, name),
            None => false,
        };
        if targeted {
            self.detach_children(workspace);
        }
        Ok(())
    }

    fn on_output(&mut self, output: &NodeLite) -> (r: Result<(), LayoutError>) {
        Ok(())
    }
}

/// The state of a detacher after the reports `visits`.
pub open spec fn detach_all(state: DetachView, visits: Seq<Visit>) -> DetachView
    decreases visits.len(),
{
    if visits.len() == 0 {
        state
    } else {
        detach_all(state, visits.drop_last()).after(visits.last().kind, visits.last().node)
    }
}

/// A detacher never fails, and a walk leaves it in the state `detach_all`.
pub proof fn lemma_detacher_runs(state: DetachView, visits: Seq<Visit>)
    ensures
        run::<WorkspaceDetacher>(state, visits) == (detach_all(state, visits), None::<LayoutError>),
    decreases visits.len(),
{
    if visits.len() > 0 {
        lemma_detacher_runs(state, visits.drop_last());
    }
}

proof fn lemma_recorded_distinct(windows: Seq<WindowView>, w: WindowView)
    requires
        distinct_ids(windows),
    ensures
        distinct_ids(recorded(windows, w)),
        has_id(recorded(windows, w), w.id),
        forall|id: int| has_id(windows, id) ==> has_id(recorded(windows, w), id),
{
    let after = recorded(windows, w);
    if !has_id(windows, w.id) {
        assert(after[windows.len() as int].id == w.id);
        assert forall|id: int| has_id(windows, id) implies has_id(after, id) by {
            let i = choose|i: int| 0 <= i < windows.len() && #[trigger] windows[i].id == id;
            assert(after[i].id == id);
        }
    }
}

proof fn lemma_detached_distinct(state: DetachView, children: Seq<NodeView>, k: nat)
    requires
        distinct_ids(state.candidates),
    ensures
        distinct_ids(detached(state, children, k).candidates),
        detached(state, children, k).targets == state.targets,
    decreases k,
{
    if k == 0 || k > children.len() {
    } else {
        lemma_detached_distinct(state, children, (k - 1) as nat);
        lemma_recorded_distinct(
            detached(state, children, (k - 1) as nat).candidates,
            children[k - 1].window(),
        );
    }
}

/// No container is a candidate twice: whatever the tree, the candidates that
/// a detacher gathers have container ids that differ from one another.
pub proof fn lemma_candidates_distinct(state: DetachView, visits: Seq<Visit>)
    requires
        distinct_ids(state.candidates),
    ensures
        distinct_ids(detach_all(state, visits).candidates),
        detach_all(state, visits).targets == state.targets,
    decreases visits.len(),
{
    if visits.len() > 0 {
        lemma_candidates_distinct(state, visits.drop_last());
        let before = detach_all(state, visits.drop_last());
        let v = visits.last();
        lemma_detached_distinct(before, v.node.nodes, v.node.nodes.len());
        lemma_recorded_distinct(before.candidates, v.node.window());
    }
}

/// Every window that a walk reports is among the candidates afterwards.
pub proof fn lemma_every_view_is_candidate(state: DetachView, visits: Seq<Visit>, x: int)
    requires
        distinct_ids(state.candidates),
        0 <= x < visits.len(),
        visits[x].kind == VisitKind::View,
    ensures
        has_id(detach_all(state, visits).candidates, visits[x].node.id),
    decreases visits.len(),
{
    let before = detach_all(state, visits.drop_last());
    let v = visits.last();
    lemma_candidates_distinct(state, visits.drop_last());
    if x == visits.len() - 1 {
        lemma_recorded_distinct(before.candidates, v.node.window());
    } else {
        lemma_every_view_is_candidate(state, visits.drop_last(), x);
        lemma_kept(before, v.kind, v.node, visits[x].node.id);
    }
}

proof fn lemma_detached_keeps(state: DetachView, children: Seq<NodeView>, k: nat, id: int)
    requires
        distinct_ids(state.candidates),
        has_id(state.candidates, id),
    ensures
        has_id(detached(state, children, k).candidates, id),
    decreases k,
{
    if k == 0 || k > children.len() {
    } else {
        lemma_detached_keeps(state, children, (k - 1) as nat, id);
        lemma_detached_distinct(state, children, (k - 1) as nat);
        lemma_recorded_distinct(
            detached(state, children, (k - 1) as nat).candidates,
            children[k - 1].window(),
        );
    }
}

proof fn lemma_kept(state: DetachView, kind: VisitKind, node: NodeView, id: int)
    requires
        distinct_ids(state.candidates),
        has_id(state.candidates, id),
    ensures
        has_id(state.after(kind, node).candidates, id),
{
    lemma_detached_keeps(state, node.nodes, node.nodes.len(), id);
    lemma_recorded_distinct(state.candidates, node.window());
}

/// Clears the workspaces of the live tree that the saved document names, and
/// gathers the candidates: returns the commands that take each child of such
/// a workspace out of the tiling, and the windows that may fill a
/// placeholder.
pub fn detach(live: &NodeLite, workspaces: Vec<String>) -> (r: (Vec<Command>, Vec<Window>))
    ensures
        ({
            let end = detach_all(DetachView::start(names_view(workspaces@)), visits(live@));
            &&& commands_view(r.0@) == end.commands
            &&& windows_view(r.1@) == end.candidates
        }),
{
    let mut detacher = WorkspaceDetacher::new(workspaces);
    proof {
        lemma_detacher_runs(detacher@, visits(live@));
    }
    let _ = visit_node(&mut detacher, live);
    detacher.get()
}

proof fn lemma_detached_keeps_targets(state: DetachView, children: Seq<NodeView>, k: nat)
    ensures
        detached(state, children, k).targets == state.targets,
    decreases k,
{
    if k == 0 || k > children.len() {
    } else {
        lemma_detached_keeps_targets(state, children, (k - 1) as nat);
    }
}

/// A workspace that the document does not name is left untouched: a walk
/// that meets no workspace that is to be cleared sends nothing.
pub proof fn lemma_other_workspaces_untouched(state: DetachView, visits: Seq<Visit>)
    requires
        forall|x: int|
            0 <= x < visits.len() && (#[trigger] visits[x]).kind == VisitKind::Workspace
                ==> !state.is_target(visits[x].node),
    ensures
        detach_all(state, visits).commands == state.commands,
        detach_all(state, visits).targets == state.targets,
    decreases visits.len(),
{
    if visits.len() > 0 {
        let rest = visits.drop_last();
        assert forall|x: int|
            0 <= x < rest.len() && (#[trigger] rest[x]).kind
                == VisitKind::Workspace implies !state.is_target(rest[x].node) by {
            assert(rest[x] == visits[x]);
        }
        lemma_other_workspaces_untouched(state, rest);
        let before = detach_all(state, rest);
        let v = visits.last();
        assert(v == visits[visits.len() - 1]);
        lemma_detached_keeps_targets(before, v.node.nodes, v.node.nodes.len());
    }
}

/// What is to be done before a document is replayed onto a live tree, and
/// the candidates that come of it.
#[derive(Debug, PartialEq, Eq)]
pub struct Reconciliation {
    /// The commands that clear the workspaces which the document names.
    pub commands: Vec<Command>,
    /// The windows that may fill a placeholder.
    pub candidates: Vec<Window>,
}

/// Prepares the live tree for the replay of a document: the workspaces that
/// the document names are cleared, and the windows of the live tree become
/// candidates. Fails, and clears nothing, where a workspace of the document
/// has no name.
pub fn reconcile(document: &NodeLite, live: &NodeLite) -> (r: Result<Reconciliation, LayoutError>)
    ensures
        match r {
            Ok(done) => {
                let found = workspaces_found(visits(document@));
                let end = detach_all(DetachView::start(found.0), visits(live@));
                &&& found.1 is None
                &&& commands_view(done.commands@) == end.commands
                &&& windows_view(done.candidates@) == end.candidates
            },
            Err(e) => workspaces_found(visits(document@)).1 == Some(e),
        },
{
    match find_workspaces(document) {
        Err(e) => Err(e),
        Ok(names) => {
            let (commands, candidates) = detach(live, names);
            Ok(Reconciliation { commands, candidates })
        },
    }
}

} // verus!
