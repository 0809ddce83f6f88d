//! Capturing a live layout as a document that can be replayed.
//!
//! A live tree becomes a document by giving every leaf the matcher that its
//! own window satisfies. A tree with an output or a workspace that has no
//! name cannot be replayed, and is not captured.

use vstd::prelude::*;
use crate::error::{failure, LayoutError};
use crate::node::{matchers_view, Matcher, MatcherView, NodeLite, NodeView};
use crate::visit::{
    around, rebase, run, visit_node, visits, visits_upto, LayoutVisitor, Visit, VisitKind,
};

verus! {

/// The matcher that a node's own window satisfies: its application id, class
/// and instance. The title is left out: titles change.
pub open spec fn derived_matcher(n: NodeView) -> MatcherView {
    MatcherView { app_id: n.app_id, class: n.class(), instance: n.instance(), name: None }
}

/// The node as a document: every leaf below it, and the node itself where it
/// is a leaf, carries the one matcher derived from it, and no other node
/// carries a matcher. Nothing else changes.
pub open spec fn captured(n: NodeView) -> NodeView
    decreases n,
{
    if n.is_leaf() {
        NodeView {
            id: n.id,
            name: n.name,
            node_type: n.node_type,
            layout: n.layout,
            percent: n.percent,
            nodes: n.nodes,
            num: n.num,
            app_id: n.app_id,
            window_properties: n.window_properties,
            swallows: seq![derived_matcher(n)],
        }
    } else {
        NodeView {
            id: n.id,
            name: n.name,
            node_type: n.node_type,
            layout: n.layout,
            percent: n.percent,
            nodes: Seq::new(
                n.nodes.len(),
                |i: int|
                    if 0 <= i < n.nodes.len() {
                        captured(n.nodes[i])
                    } else {
                        arbitrary()
                    },
            ),
            num: n.num,
            app_id: n.app_id,
            window_properties: n.window_properties,
            swallows: Seq::empty(),
        }
    }
}

/// The matcher that the node's own window satisfies.
pub fn derive_matcher(n: &NodeLite) -> (m: Matcher)
    ensures
        m@ == derived_matcher(n@),
{
    Matcher { app_id: n.app_id.clone(), class: n.class(), instance: n.instance(), name: None }
}

/// Turns a live tree into a document: gives every leaf the matcher derived
/// from it, and takes the matchers of every other node away.
pub fn populate_swallows(n: &mut NodeLite)
    ensures
        final(n)@ == captured(old(n)@),
    decreases *old(n),
{
    proof {
        n.lemma_view_children();
    }
    if n.nodes.len() == 0 {
        let m = derive_matcher(n);
        let mut swallows: Vec<Matcher> = Vec::new();
        swallows.push(m);
        assert(matchers_view(swallows@) =~= seq![derived_matcher(old(n)@)]);
        n.swallows = swallows;
        assert(n@.nodes =~= old(n)@.nodes);
    } else {
        n.swallows = Vec::new();
        assert(matchers_view(n.swallows@) =~= Seq::<MatcherView>::empty());
        let mut i: usize = 0;
        while i < n.nodes.len()
            invariant
                i <= n.nodes.len(),
                n.nodes.len() == old(n).nodes.len(),
                n.id == old(n).id,
                n.name == old(n).name,
                n.node_type == old(n).node_type,
                n.layout == old(n).layout,
                n.percent == old(n).percent,
                n.num == old(n).num,
                n.app_id == old(n).app_id,
                n.window_properties == old(n).window_properties,
                matchers_view(n.swallows@) == Seq::<MatcherView>::empty(),
                forall|j: int| 0 <= j < i ==> n.nodes[j]@ == captured(old(n).nodes[j]@),
                forall|j: int| i <= j < n.nodes.len() ==> n.nodes[j] == old(n).nodes[j],
            decreases n.nodes.len() - i,
        {
            populate_swallows(&mut n.nodes[i]);
            i += 1;
        }
        proof {
            n.lemma_view_children();
            assert(n@.nodes =~= captured(old(n)@).nodes);
        }
    }
}

/// The failure that a report is for a capture: an output or a workspace
/// without a name.
pub open spec fn nameless(kind: VisitKind, node: NodeView) -> Option<LayoutError> {
    match kind {
        VisitKind::Output => if node.name is None {
            Some(LayoutError::OutputWithNoName)
        } else {
            None
        },
        VisitKind::Workspace => if node.name is None {
            Some(LayoutError::WorkspaceWithNoName)
        } else {
            None
        },
        _ => None,
    }
}

/// The failure of the first report of a walk that is one.
pub open spec fn first_nameless(visits: Seq<Visit>) -> Option<LayoutError>
    decreases visits.len(),
{
    if visits.len() == 0 {
        None
    } else {
        match first_nameless(visits.drop_last()) {
            Some(e) => Some(e),
            None => nameless(visits.last().kind, visits.last().node),
        }
    }
}

/// Checks that the outputs and workspaces of a tree have names.
pub struct Validator {}

impl View for Validator {
    type V = ();

    open spec fn view(&self) -> () {
        ()
    }
}

impl LayoutVisitor for Validator {
    open spec fn step(state: (), kind: VisitKind, node: NodeView) -> ((), Option<LayoutError>) {
        ((), nameless(kind, node))
    }

    fn on_container_enter(&mut self, con: &NodeLite) -> (r: Result<(), LayoutError>) {
        Ok(())
    }

    fn on_container_exit(&mut self, con: &NodeLite) -> (r: Result<(), LayoutError>) {
        Ok(())
    }

    fn on_view(&mut self, view: &NodeLite) -> (r: Result<(), LayoutError>) {
        Ok(())
    }

    fn on_workspace(&mut self, workspace: &NodeLite) -> (r: Result<(), LayoutError>) {
        match &workspace.name {
            Some(_) => Ok(()),
            None => Err(LayoutError::WorkspaceWithNoName),
        }
    }

    fn on_output(&mut self, output: &NodeLite) -> (r: Result<(), LayoutError>) {
        match &output.name {
            Some(_) => Ok(()),
            None => Err(LayoutError::OutputWithNoName),
        }
    }
}

proof fn lemma_validator_runs(visits: Seq<Visit>)
    ensures
        run::<Validator>((), visits).1 == first_nameless(visits),
    decreases visits.len(),
{
    if visits.len() > 0 {
        lemma_validator_runs(visits.drop_last());
    }
}

/// Checks that every output and every workspace that a walk of the tree
/// meets has a name. Fails with the first that has none.
pub fn validate(tree: &NodeLite) -> (r: Result<(), LayoutError>)
    ensures
        failure(r) == first_nameless(visits(tree@)),
{
    let mut validator = Validator {  };
    proof {
        lemma_validator_runs(visits(tree@));
    }
    visit_node(&mut validator, tree)
}

/// Captures a live tree: returns it as a document, with a matcher on every
/// leaf. Fails, and captures nothing, where an output or a workspace of the
/// tree has no name.
pub fn capture(tree: NodeLite) -> (r: Result<NodeLite, LayoutError>)
    ensures
        match r {
            Ok(document) => first_nameless(visits(tree@)) is None && document@ == captured(tree@),
            Err(e) => first_nameless(visits(tree@)) == Some(e),
        },
{
    match validate(&tree) {
        Err(e) => Err(e),
        Ok(_) => {
            let mut document = tree;
            populate_swallows(&mut document);
            Ok(document)
        },
    }
}

/// The matcher of a captured leaf accepts the window it was derived from.
pub proof fn lemma_own_window_matches(n: NodeView)
    ensures
        derived_matcher(n).matches(n.window()),
{
}

/// A report, with its node as the document has it.
pub open spec fn captured_visit(v: Visit) -> Visit {
    Visit { kind: v.kind, node: captured(v.node), path: v.path }
}

/// The reports of a walk, with their nodes as the document has them.
pub open spec fn captured_visits(visits: Seq<Visit>) -> Seq<Visit> {
    visits.map_values(|v: Visit| captured_visit(v))
}

proof fn lemma_captured_shape(n: NodeView)
    ensures
        captured(n).nodes.len() == n.nodes.len(),
        captured(n).node_type == n.node_type,
        captured(n).name == n.name,
        captured(n).layout == n.layout,
        captured(n).percent == n.percent,
        captured(n).is_leaf() == n.is_leaf(),
        captured(n).is_scratch_root() == n.is_scratch_root(),
        forall|i: int| 0 <= i < n.nodes.len() ==> captured(n).nodes[i] == captured(n.nodes[i]),
{
    if n.is_leaf() {
    } else {
    }
}

proof fn lemma_capture_keeps_upto(n: NodeView, k: nat)
    ensures
        visits_upto(captured(n), k) == captured_visits(visits_upto(n, k)),
    decreases n, k,
{
    lemma_captured_shape(n);
    if k == 0 || k > n.nodes.len() {
        assert(captured_visits(Seq::<Visit>::empty()) =~= Seq::<Visit>::empty());
    } else {
        let i = k - 1;
        let c = n.nodes[i];
        let d = captured(n).nodes[i];
        assert(d == captured(c));
        lemma_captured_shape(c);
        lemma_capture_keeps_upto(n, i as nat);
        lemma_capture_keeps_upto(c, c.nodes.len());
        let inner = visits_upto(c, c.nodes.len());
        assert(rebase(i, captured_visits(inner)) =~= captured_visits(rebase(i, inner)));
        assert(around(d, i, captured_visits(inner)) =~= captured_visits(around(c, i, inner)));
        assert(captured_visits(visits_upto(n, i as nat)) + captured_visits(around(c, i, inner))
            =~= captured_visits(visits_upto(n, i as nat) + around(c, i, inner)));
    }
}

/// Capturing does not change what a walk meets: the walk of the document
/// makes the reports of the walk of the live tree, in the same order and at
/// the same places, each with its node as the document has it. The nesting,
/// the layout of every container and the share of every node are those of
/// the live tree.
pub proof fn lemma_capture_keeps_walk(n: NodeView)
    ensures
        visits(captured(n)) == captured_visits(visits(n)),
        forall|x: int|
            0 <= x < visits(n).len() ==> {
                let v = #[trigger] visits(n)[x];
                let w = visits(captured(n))[x];
                &&& w.kind == v.kind
                &&& w.path == v.path
                &&& w.node.layout == v.node.layout
                &&& w.node.percent == v.node.percent
                &&& w.node.name == v.node.name
                &&& w.node.nodes.len() == v.node.nodes.len()
            },
{
    lemma_captured_shape(n);
    lemma_capture_keeps_upto(n, n.nodes.len());
    assert forall|x: int| 0 <= x < visits(n).len() implies {
        let v = #[trigger] visits(n)[x];
        let w = visits(captured(n))[x];
        &&& w.kind == v.kind
        &&& w.path == v.path
        &&& w.node.layout == v.node.layout
        &&& w.node.percent == v.node.percent
        &&& w.node.name == v.node.name
        &&& w.node.nodes.len() == v.node.nodes.len()
    } by {
        lemma_captured_shape(visits(n)[x].node);
    }
}

} // verus!
