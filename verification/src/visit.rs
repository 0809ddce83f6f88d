//! Walking a layout tree.
//!
//! A walk of a node goes through its children in their order, depth first,
//! and reports what it meets to a visitor: outputs, workspaces, containers
//! (on the way in and on the way out) and windows. The children of a node are
//! walked whatever the node itself is; a child that is the scratch root is
//! passed over with everything below it.

use vstd::prelude::*;
use crate::error::{failure, LayoutError};
use crate::node::{Matcher, NodeLite, NodeType, NodeView};

verus! {

/// The name of the root under which the window manager keeps what is not on
/// any output.
pub open spec fn scratch_name() -> Seq<char> {
    "__i3"@
}

/// What a walk reports.
#[derive(Clone, Copy, Debug, PartialEq, Eq, Structural)]
pub enum VisitKind {
    Output,
    Workspace,
    ContainerEnter,
    ContainerExit,
    View,
}

/// One report of a walk: what was met, the node itself, and where it stands:
/// the indices of the children that lead to it from the node at which the
/// walk began.
pub struct Visit {
    pub kind: VisitKind,
    pub node: NodeView,
    pub path: Seq<int>,
}

impl NodeView {
    /// A root node with the reserved name.
    pub open spec fn is_scratch_root(self) -> bool {
        self.node_type == NodeType::Root && self.name == Some(scratch_name())
    }

    /// The node that the path leads to.
    pub open spec fn at(self, path: Seq<int>) -> NodeView
        decreases path.len(),
    {
        if path.len() == 0 {
            self
        } else {
            self.nodes[path[0]].at(path.skip(1))
        }
    }

    /// The path names a node of this tree.
    pub open spec fn has(self, path: Seq<int>) -> bool
        decreases path.len(),
    {
        if path.len() == 0 {
            true
        } else {
            0 <= path[0] < self.nodes.len() && self.nodes[path[0]].has(path.skip(1))
        }
    }
}

/// The visits of a subtree, as seen from the parent whose child `i` the
/// subtree is.
pub open spec fn rebase(i: int, visits: Seq<Visit>) -> Seq<Visit> {
    visits.map_values(|v: Visit| Visit { kind: v.kind, node: v.node, path: seq![i] + v.path })
}

/// What the child `c`, the `i`-th of its parent, adds to a walk of the
/// parent, where `inner` is the walk of `c` itself.
pub open spec fn around(c: NodeView, i: int, inner: Seq<Visit>) -> Seq<Visit> {
    match c.node_type {
        NodeType::Output => seq![Visit { kind: VisitKind::Output, node: c, path: seq![i] }]
            + rebase(i, inner),
        NodeType::Workspace => seq![Visit { kind: VisitKind::Workspace, node: c, path: seq![i] }]
            + rebase(i, inner),
        NodeType::Con => if c.is_leaf() {
            seq![Visit { kind: VisitKind::View, node: c, path: seq![i] }]
        } else {
            seq![Visit { kind: VisitKind::ContainerEnter, node: c, path: seq![i] }] + rebase(
                i,
                inner,
            ) + seq![Visit { kind: VisitKind::ContainerExit, node: c, path: seq![i] }]
        },
        NodeType::Root => if c.is_scratch_root() {
            Seq::empty()
        } else {
            rebase(i, inner)
        },
        _ => rebase(i, inner),
    }
}

/// The walk of the first `k` children of `n`.
pub open spec fn visits_upto(n: NodeView, k: nat) -> Seq<Visit>
    decreases n, k,
{
    if k == 0 || k > n.nodes.len() {
        Seq::empty()
    } else {
        let c = n.nodes[k - 1];
        visits_upto(n, (k - 1) as nat) + around(c, k - 1, visits_upto(c, c.nodes.len()))
    }
}

/// The walk of `n`: every report, in the order in which it is made.
pub open spec fn visits(n: NodeView) -> Seq<Visit> {
    visits_upto(n, n.nodes.len())
}

/// What the `i`-th child of `n` adds to the walk of `n`.
pub open spec fn child_visits(n: NodeView, i: int) -> Seq<Visit> {
    around(n.nodes[i], i, visits(n.nodes[i]))
}

/// The walk of the children of `n` from the `k`-th on.
pub open spec fn visits_from(n: NodeView, k: nat) -> Seq<Visit>
    decreases n.nodes.len() - k,
{
    if k >= n.nodes.len() {
        Seq::empty()
    } else {
        child_visits(n, k as int) + visits_from(n, k + 1)
    }
}

/// A walk is the walk of the first `k` children followed by that of the rest.
pub proof fn lemma_visits_split(n: NodeView, k: nat)
    requires
        k <= n.nodes.len(),
    ensures
        visits(n) == visits_upto(n, k) + visits_from(n, k),
    decreases n.nodes.len() - k,
{
    if k < n.nodes.len() {
        lemma_visits_split(n, k + 1);
        assert(visits_upto(n, k + 1) == visits_upto(n, k) + child_visits(n, k as int));
        assert(visits_upto(n, k) + (child_visits(n, k as int) + visits_from(n, k + 1)) =~= (
        visits_upto(n, k) + child_visits(n, k as int)) + visits_from(n, k + 1));
    } else {
        assert(visits_upto(n, k) + visits_from(n, k) =~= visits_upto(n, k));
    }
}

/// A strategy for a walk: five operations, one for each kind of report.
///
/// A visitor has a view, its state, and `step` says what each operation does
/// to that state and whether it fails. An operation that has nothing to do
/// leaves the state as it is and succeeds.
pub trait LayoutVisitor: View + Sized {
    /// The state after one report, and the failure if the operation fails.
    spec fn step(state: Self::V, kind: VisitKind, node: NodeView) -> (Self::V, Option<LayoutError>);

    fn on_container_enter(&mut self, con: &NodeLite) -> (r: Result<(), LayoutError>)
        ensures
            (final(self)@, failure(r)) == Self::step(old(self)@, VisitKind::ContainerEnter, con@),
    ;

    fn on_container_exit(&mut self, con: &NodeLite) -> (r: Result<(), LayoutError>)
        ensures
            (final(self)@, failure(r)) == Self::step(old(self)@, VisitKind::ContainerExit, con@),
    ;

    fn on_view(&mut self, view: &NodeLite) -> (r: Result<(), LayoutError>)
        ensures
            (final(self)@, failure(r)) == Self::step(old(self)@, VisitKind::View, view@),
    ;

    fn on_workspace(&mut self, workspace: &NodeLite) -> (r: Result<(), LayoutError>)
        ensures
            (final(self)@, failure(r)) == Self::step(old(self)@, VisitKind::Workspace, workspace@),
    ;

    fn on_output(&mut self, output: &NodeLite) -> (r: Result<(), LayoutError>)
        ensures
            (final(self)@, failure(r)) == Self::step(old(self)@, VisitKind::Output, output@),
    ;
}

/// The visitor's state after the reports `visits`, made in their order until
/// one fails, and that failure.
pub open spec fn run<V: LayoutVisitor>(state: V::V, visits: Seq<Visit>) -> (
    V::V,
    Option<LayoutError>,
)
    decreases visits.len(),
{
    if visits.len() == 0 {
        (state, None)
    } else {
        let before = run::<V>(state, visits.drop_last());
        if before.1 is Some {
            before
        } else {
            V::step(before.0, visits.last().kind, visits.last().node)
        }
    }
}

/// Reports made one after the other: the second part is run from where the
/// first ended, unless the first failed.
pub proof fn lemma_run_concat<V: LayoutVisitor>(state: V::V, a: Seq<Visit>, b: Seq<Visit>)
    ensures
        run::<V>(state, a + b) == if run::<V>(state, a).1 is Some {
            run::<V>(state, a)
        } else {
            run::<V>(run::<V>(state, a).0, b)
        },
    decreases b.len(),
{
    if b.len() == 0 {
        assert(a + b =~= a);
    } else {
        assert((a + b).drop_last() =~= a + b.drop_last());
        assert((a + b).last() == b.last());
        lemma_run_concat::<V>(state, a, b.drop_last());
    }
}

/// Where a node stands does not matter to a visitor.
pub proof fn lemma_run_rebase<V: LayoutVisitor>(state: V::V, i: int, visits: Seq<Visit>)
    ensures
        run::<V>(state, rebase(i, visits)) == run::<V>(state, visits),
    decreases visits.len(),
{
    if visits.len() > 0 {
        assert(rebase(i, visits).drop_last() =~= rebase(i, visits.drop_last()));
        lemma_run_rebase::<V>(state, i, visits.drop_last());
    }
}

/// A single report is one step.
pub proof fn lemma_run_single<V: LayoutVisitor>(state: V::V, visit: Visit)
    ensures
        run::<V>(state, seq![visit]) == V::step(state, visit.kind, visit.node),
{
    assert(seq![visit].drop_last() =~= Seq::<Visit>::empty());
    assert(run::<V>(state, Seq::<Visit>::empty()) == (state, None::<LayoutError>));
}

/// Whether the node is the scratch root.
pub fn is_scratch_root(node: &NodeLite) -> (r: bool)
    ensures
        r == node@.is_scratch_root(),
{
    match node.node_type {
        NodeType::Root => match &node.name {
            Some(name) => Matcher::match_inner(name.as_str(), "__i3"),
            None => false,
        },
        _ => false,
    }
}

/// Reports what the child `i` of `node` adds to a walk of `node`.
fn visit_child<V: LayoutVisitor>(visitor: &mut V, node: &NodeLite, i: usize) -> (r: Result<
    (),
    LayoutError,
>)
    requires
        i < node.nodes.len(),
    ensures
        (final(visitor)@, failure(r)) == run::<V>(old(visitor)@, child_visits(node@, i as int)),
    decreases node, 0nat,
{
    let c = &node.nodes[i];
    let ghost start = visitor@;
    let ghost at = seq![i as int];
    let ghost inner = rebase(i as int, visits(c@));
    proof {
        node.lemma_view_children();
    }
    match c.node_type {
        NodeType::Output => {
            let ghost first = Visit { kind: VisitKind::Output, node: c@, path: at };
            proof {
                lemma_run_single::<V>(start, first);
                lemma_run_concat::<V>(start, seq![first], inner);
            }
            match visitor.on_output(c) {
                Err(e) => {
                    return Err(e);
                },
                Ok(_) => {},
            }
            proof {
                lemma_run_rebase::<V>(visitor@, i as int, visits(c@));
            }
            visit_node(visitor, c)
        },
        NodeType::Workspace => {
            let ghost first = Visit { kind: VisitKind::Workspace, node: c@, path: at };
            proof {
                lemma_run_single::<V>(start, first);
                lemma_run_concat::<V>(start, seq![first], inner);
            }
            match visitor.on_workspace(c) {
                Err(e) => {
                    return Err(e);
                },
                Ok(_) => {},
            }
            proof {
                lemma_run_rebase::<V>(visitor@, i as int, visits(c@));
            }
            visit_node(visitor, c)
        },
        NodeType::Con => {
            if c.nodes.len() == 0 {
                let ghost only = Visit { kind: VisitKind::View, node: c@, path: at };
                proof {
                    lemma_run_single::<V>(start, only);
                }
                visitor.on_view(c)
            } else {
                let ghost first = Visit { kind: VisitKind::ContainerEnter, node: c@, path: at };
                let ghost last = Visit { kind: VisitKind::ContainerExit, node: c@, path: at };
                proof {
                    lemma_run_single::<V>(start, first);
                    lemma_run_concat::<V>(start, seq![first], inner);
                    lemma_run_concat::<V>(start, seq![first] + inner, seq![last]);
                }
                match visitor.on_container_enter(c) {
                    Err(e) => {
                        return Err(e);
                    },
                    Ok(_) => {},
                }
                proof {
                    lemma_run_rebase::<V>(visitor@, i as int, visits(c@));
                }
                match visit_node(visitor, c) {
                    Err(e) => {
                        return Err(e);
                    },
                    Ok(_) => {},
                }
                proof {
                    lemma_run_single::<V>(visitor@, last);
                }
                visitor.on_container_exit(c)
            }
        },
        NodeType::Root => {
            if is_scratch_root(c) {
                Ok(())
            } else {
                proof {
                    lemma_run_rebase::<V>(start, i as int, visits(c@));
                }
                visit_node(visitor, c)
            }
        },
        _ => {
            proof {
                lemma_run_rebase::<V>(start, i as int, visits(c@));
            }
            visit_node(visitor, c)
        },
    }
}

/// Walks the children of `node` and reports to the visitor what it meets, in
/// the order of `visits`. The first operation that fails ends the walk, and
/// its failure is returned; what the visitor did until then stays done.
pub fn visit_node<V: LayoutVisitor>(visitor: &mut V, node: &NodeLite) -> (r: Result<
    (),
    LayoutError,
>)
    ensures
        (final(visitor)@, failure(r)) == run::<V>(old(visitor)@, visits(node@)),
    decreases node, 1nat,
{
    let mut i: usize = 0;
    while i < node.nodes.len()
        invariant
            i <= node.nodes.len(),
            (visitor@, None::<LayoutError>) == run::<V>(
                old(visitor)@,
                visits_upto(node@, i as nat),
            ),
        decreases node.nodes.len() - i,
    {
        proof {
            node.lemma_view_children();
            lemma_run_concat::<V>(
                old(visitor)@,
                visits_upto(node@, i as nat),
                child_visits(node@, i as int),
            );
            assert(visits_upto(node@, (i + 1) as nat) == visits_upto(node@, i as nat)
                + child_visits(node@, i as int));
        }
        match visit_child(visitor, node, i) {
            Err(e) => {
                proof {
                    lemma_visits_split(node@, (i + 1) as nat);
                    lemma_run_concat::<V>(
                        old(visitor)@,
                        visits_upto(node@, (i + 1) as nat),
                        visits_from(node@, (i + 1) as nat),
                    );
                }
                return Err(e);
            },
            Ok(_) => {},
        }
        i += 1;
    }
    proof {
        node.lemma_view_children();
    }
    Ok(())
}

/// No node on the way to `path`, nor the node at its end, is a scratch root.
/// The node at which the way begins does not count: a walk looks at the
/// children of a node, not at the node.
pub open spec fn clear_of_scratch(n: NodeView, path: Seq<int>) -> bool {
    forall|j: int| 1 <= j <= path.len() ==> !(#[trigger] n.at(path.take(j))).is_scratch_root()
}

/// What a report says of its node is true of the tree: the path leads to the
/// node, and it is clear of scratch roots.
pub open spec fn faithful(n: NodeView, v: Visit) -> bool {
    &&& v.path.len() > 0
    &&& n.has(v.path)
    &&& n.at(v.path) == v.node
    &&& clear_of_scratch(n, v.path)
}

proof fn lemma_faithful_below(n: NodeView, i: int, v: Visit)
    requires
        0 <= i < n.nodes.len(),
        !n.nodes[i].is_scratch_root(),
        faithful(n.nodes[i], v),
    ensures
        faithful(n, Visit { kind: v.kind, node: v.node, path: seq![i] + v.path }),
{
    let c = n.nodes[i];
    let path = seq![i] + v.path;
    assert(path.skip(1) =~= v.path);
    assert forall|j: int| 1 <= j <= path.len() implies !(#[trigger] n.at(
        path.take(j),
    )).is_scratch_root() by {
        assert(path.take(j).skip(1) =~= v.path.take(j - 1));
        if j == 1 {
            assert(v.path.take(0) =~= Seq::<int>::empty());
        } else {
            assert(!c.at(v.path.take(j - 1)).is_scratch_root());
        }
    }
}

proof fn lemma_faithful_child(n: NodeView, i: int, kind: VisitKind)
    requires
        0 <= i < n.nodes.len(),
        !n.nodes[i].is_scratch_root(),
    ensures
        faithful(n, Visit { kind, node: n.nodes[i], path: seq![i] }),
{
    let path = seq![i];
    let c = n.nodes[i];
    assert(path.skip(1) =~= Seq::<int>::empty());
    assert(c.at(Seq::<int>::empty()) == c);
    assert(c.has(Seq::<int>::empty()));
    assert(n.at(path) == c);
    assert forall|j: int| 1 <= j <= path.len() implies !(#[trigger] n.at(
        path.take(j),
    )).is_scratch_root() by {
        assert(path.take(j) =~= path);
    }
}

proof fn lemma_visits_upto_faithful(n: NodeView, k: nat, x: int)
    requires
        0 <= x < visits_upto(n, k).len(),
    ensures
        faithful(n, visits_upto(n, k)[x]),
    decreases n, k,
{
    if k == 0 || k > n.nodes.len() {
    } else {
        let i = k - 1;
        let c = n.nodes[i];
        let before = visits_upto(n, i as nat);
        let inner = visits_upto(c, c.nodes.len());
        let here = around(c, i, inner);
        if x < before.len() {
            lemma_visits_upto_faithful(n, i as nat, x);
        } else {
            let y = x - before.len();
            assert(visits_upto(n, k)[x] == here[y]);
            assert forall|z: int| 0 <= z < inner.len() && !c.is_scratch_root() implies faithful(
                n,
                #[trigger] rebase(i, inner)[z],
            ) by {
                lemma_visits_upto_faithful(c, c.nodes.len(), z);
                lemma_faithful_below(n, i, inner[z]);
            }
            if !c.is_scratch_root() {
                lemma_faithful_child(n, i, VisitKind::Output);
                lemma_faithful_child(n, i, VisitKind::Workspace);
                lemma_faithful_child(n, i, VisitKind::View);
                lemma_faithful_child(n, i, VisitKind::ContainerEnter);
                lemma_faithful_child(n, i, VisitKind::ContainerExit);
            }
        }
    }
}

/// A walk never reports a scratch root or anything below one: each report is
/// of a node of the tree that is reached from the start without passing
/// through a scratch root.
pub proof fn lemma_walk_skips_scratch(n: NodeView, x: int)
    requires
        0 <= x < visits(n).len(),
    ensures
        faithful(n, visits(n)[x]),
{
    lemma_visits_upto_faithful(n, n.nodes.len(), x);
}

/// What the reports of a walk yield when each report yields a list of items
/// and may fail: the items of one report after those of the other, up to and
/// with what the first failing report yields, and that failure.
pub open spec fn collected<T>(
    visits: Seq<Visit>,
    emit: spec_fn(VisitKind, NodeView) -> (Seq<T>, Option<LayoutError>),
) -> (Seq<T>, Option<LayoutError>)
    decreases visits.len(),
{
    if visits.len() == 0 {
        (Seq::empty(), None)
    } else {
        let before = collected(visits.drop_last(), emit);
        if before.1 is Some {
            before
        } else {
            let here = emit(visits.last().kind, visits.last().node);
            (before.0 + here.0, here.1)
        }
    }
}

/// A visitor whose state is a list, and whose every operation appends to it
/// what `emit` says, ends a walk with what the walk's reports yield.
pub proof fn lemma_run_collects<T, V: LayoutVisitor + View<V = Seq<T>>>(
    state: Seq<T>,
    visits: Seq<Visit>,
    emit: spec_fn(VisitKind, NodeView) -> (Seq<T>, Option<LayoutError>),
)
    requires
        forall|s: Seq<T>, k: VisitKind, n: NodeView| #[trigger]
            V::step(s, k, n) == (s + emit(k, n).0, emit(k, n).1),
    ensures
        run::<V>(state, visits) == (
            state + collected(visits, emit).0,
            collected(visits, emit).1,
        ),
    decreases visits.len(),
{
    if visits.len() == 0 {
        assert(state + Seq::<T>::empty() =~= state);
    } else {
        lemma_run_collects::<T, V>(state, visits.drop_last(), emit);
        let before = collected(visits.drop_last(), emit);
        let here = emit(visits.last().kind, visits.last().node);
        assert((state + before.0) + here.0 =~= state + (before.0 + here.0));
    }
}

} // verus!
