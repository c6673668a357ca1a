use vstd::prelude::*;

use std::collections::hash_map::RandomState;

use crate::functions::{accepts, apply, fresh, partials, Function, OpKind};
use crate::tensor::{Tensor, TensorType};

verus! {

/// One entry of the tape.
///
/// A leaf records no operation and names itself in both dependency slots; a
/// single-operand operation names itself in the second slot.
pub struct Node<T> {
    pub deps: [usize; 2],
    pub func: Function<T>,
    pub value: Option<T>,
    pub grad: Option<T>,
    /// The partial gradients that this node's backward step handed to its
    /// dependency slots.
    pub ctx: [Option<T>; 2],
}

/// The tape: an append-only list of nodes addressed by index.
pub struct Graph<T> {
    pub nodes: Vec<Node<T>>,
    /// Drawn at random when the graph is made; every handle carries the id of
    /// its graph.
    pub id: u64,
    /// The highest index that a backward pass has visited, if any has run.
    pub backward_reach: Option<usize>,
}

/// Relies on std's `RandomState::new`: a state with random keys, drawn anew
/// on each call. Nothing is promised of the keys.
#[verifier::external_body]
fn random_state() -> (r: RandomState) {
    RandomState::new()
}

/// Relies on std's `BuildHasher::hash_one`: hashes a constant with the keys of
/// `s`, so states with different keys give different hashes but by chance.
/// Nothing is promised of the value.
#[verifier::external_body]
fn hash_with(s: &RandomState) -> (r: u64) {
    std::hash::BuildHasher::hash_one(s, 0u8)
}

/// The dependency slots of node `i` point strictly backwards, but for the
/// self-references that mark an unused slot.
pub open spec fn deps_ok<T: TensorType>(nodes: Seq<Node<T>>, i: int) -> bool {
    let n = nodes[i];
    match n.func.kind() {
        OpKind::Leaf => n.deps@[0] == i && n.deps@[1] == i,
        OpKind::ExpM => n.deps@[0] < i && n.deps@[1] == i,
        _ => n.deps@[0] < i && n.deps@[1] < i,
    }
}

/// The value that node `i` stands for: a leaf's own value, or its operation
/// applied to the values of its dependencies.
pub open spec fn eval<T: TensorType>(nodes: Seq<Node<T>>, i: int) -> T
    decreases i,
{
    let n = nodes[i];
    if n.func.kind() == OpKind::Leaf || i < 0 {
        n.value->Some_0
    } else {
        let d0 = n.deps@[0] as int;
        let d1 = n.deps@[1] as int;
        let a = if 0 <= d0 < i {
            eval(nodes, d0)
        } else {
            arbitrary()
        };
        let b = if 0 <= d1 < i {
            eval(nodes, d1)
        } else {
            a
        };
        apply(n.func.kind(), a, b)
    }
}

/// The value in the first operand slot of node `i`.
pub open spec fn operand_a<T: TensorType>(nodes: Seq<Node<T>>, i: int) -> T {
    let d0 = nodes[i].deps@[0] as int;
    if 0 <= d0 < i {
        eval(nodes, d0)
    } else {
        arbitrary()
    }
}

/// The value in the second operand slot of node `i`; a single-operand
/// operation repeats its first.
pub open spec fn operand_b<T: TensorType>(nodes: Seq<Node<T>>, i: int) -> T {
    let d1 = nodes[i].deps@[1] as int;
    if 0 <= d1 < i {
        eval(nodes, d1)
    } else {
        operand_a(nodes, i)
    }
}

/// The operation of node `i` accepts the shapes of its operands.
pub open spec fn op_ok<T: TensorType>(nodes: Seq<Node<T>>, i: int) -> bool {
    accepts(nodes[i].func.kind(), operand_a(nodes, i).shape_of(), operand_b(nodes, i).shape_of())
}

pub open spec fn node_ok<T: TensorType>(nodes: Seq<Node<T>>, i: int) -> bool {
    let n = nodes[i];
    &&& deps_ok(nodes, i)
    &&& n.func.kind() == OpKind::Leaf ==> n.value is Some
    &&& n.value is Some ==> n.value == Some(eval(nodes, i))
    &&& (n.func.kind() != OpKind::Leaf && n.value is Some) ==> {
        &&& op_ok(nodes, i)
        &&& n.func.holds(operand_a(nodes, i), operand_b(nodes, i))
        &&& nodes[n.deps@[0] as int].value is Some
        &&& nodes[n.deps@[1] as int].value is Some
    }
    &&& n.grad is Some ==> {
        &&& n.value is Some
        &&& n.grad->Some_0.shape_of() == n.value->Some_0.shape_of()
    }
}

/// Every node is well formed: the invariant of a graph built through leaf
/// creation, operator application and the two passes.
pub open spec fn graph_wf<T: TensorType>(nodes: Seq<Node<T>>) -> bool {
    forall|i: int| 0 <= i < nodes.len() ==> #[trigger] node_ok(nodes, i)
}

/// `a` and `b` agree on the first `upto` nodes in everything that `eval`
/// reads.
pub open spec fn same_skeleton<T: TensorType>(a: Seq<Node<T>>, b: Seq<Node<T>>, upto: int) -> bool {
    &&& upto <= a.len()
    &&& upto <= b.len()
    &&& forall|j: int|
        0 <= j < upto ==> {
            &&& (#[trigger] a[j]).deps == b[j].deps
            &&& a[j].func.kind() == b[j].func.kind()
            &&& a[j].func.kind() == OpKind::Leaf ==> a[j].value == b[j].value
        }
}

/// `a` and `b` have the same length and agree, at every node, in everything
/// that `eval` reads.
pub open spec fn same_skeleton_full<T: TensorType>(a: Seq<Node<T>>, b: Seq<Node<T>>) -> bool {
    same_skeleton(a, b, a.len() as int) && a.len() == b.len()
}

pub proof fn lemma_eval_frame<T: TensorType>(a: Seq<Node<T>>, b: Seq<Node<T>>, upto: int, i: int)
    requires
        same_skeleton(a, b, upto),
        0 <= i < upto,
    ensures
        eval(a, i) == eval(b, i),
        operand_a(a, i) == operand_a(b, i),
        operand_b(a, i) == operand_b(b, i),
    decreases i,
{
    assert(a[i].deps == b[i].deps);
    let d0 = a[i].deps@[0] as int;
    let d1 = a[i].deps@[1] as int;
    if 0 <= d0 < i {
        lemma_eval_frame(a, b, upto, d0);
    }
    if 0 <= d1 < i {
        lemma_eval_frame(a, b, upto, d1);
    }
}

/// The gradients recorded at each node.
pub open spec fn grads_of<T>(nodes: Seq<Node<T>>) -> Seq<Option<T>> {
    Seq::new(nodes.len(), |j: int| nodes[j].grad)
}

/// Hands the partial gradient `p` to node `d`: it is added to the gradient
/// already there, or becomes the gradient if there is none.
pub open spec fn deposit<T: TensorType>(grads: Seq<Option<T>>, d: int, p: Option<T>) -> Seq<Option<T>> {
    match p {
        None => grads,
        Some(w) => grads.update(
            d,
            Some(
                match grads[d] {
                    Some(h) => T::sum(h, w),
                    None => w,
                },
            ),
        ),
    }
}

/// The gradients after node `i`'s backward step: an operation node that has
/// a gradient hands its partials to its dependency slots, skipping the
/// self-references.
pub open spec fn backward_step<T: TensorType>(
    nodes: Seq<Node<T>>,
    grads: Seq<Option<T>>,
    i: int,
) -> Seq<Option<T>> {
    let n = nodes[i];
    let k = n.func.kind();
    if k == OpKind::Leaf || grads[i] is None {
        grads
    } else {
        let p = partials(k, operand_a(nodes, i), operand_b(nodes, i), grads[i]->Some_0);
        let g1 = if n.deps@[0] as int != i {
            deposit(grads, n.deps@[0] as int, p.0)
        } else {
            grads
        };
        if n.deps@[1] as int != i {
            deposit(g1, n.deps@[1] as int, p.1)
        } else {
            g1
        }
    }
}

/// The gradients after the backward steps of nodes `i`, `i − 1`, ..., `0`,
/// in that order.
pub open spec fn backward_from<T: TensorType>(
    nodes: Seq<Node<T>>,
    grads: Seq<Option<T>>,
    i: int,
) -> Seq<Option<T>>
    decreases i + 1,
{
    if i < 0 {
        grads
    } else {
        backward_from(nodes, backward_step(nodes, grads, i), i - 1)
    }
}

impl<T: TensorType> Graph<T> {
    pub open spec fn wf(&self) -> bool {
        graph_wf(self.nodes@)
    }

    /// An empty graph with a fresh random id.
    pub fn new() -> (r: Self)
        ensures
            r.wf(),
            r.nodes@.len() == 0,
            r.backward_reach is None,
    {
        let keys = random_state();
        Graph { nodes: Vec::new(), id: hash_with(&keys), backward_reach: None }
    }

    /// `t` is a handle of this graph.
    pub open spec fn owns(&self, t: Tensor) -> bool {
        t.graph == self.id && t.index < self.nodes@.len()
    }

    /// A backward pass has visited node `i`.
    pub open spec fn reached(&self, i: int) -> bool {
        self.backward_reach is Some && i <= self.backward_reach->Some_0
    }

    pub fn len(&self) -> (r: usize)
        ensures
            r == self.nodes@.len(),
    {
        self.nodes.len()
    }

    /// The dependency slots of every node, in index order.
    pub fn dependencies(&self) -> (r: Vec<[usize; 2]>)
        ensures
            r@.len() == self.nodes@.len(),
            forall|i: int| 0 <= i < r@.len() ==> #[trigger] r@[i] == self.nodes@[i].deps,
    {
        let mut out: Vec<[usize; 2]> = Vec::new();
        let mut i: usize = 0;
        while i < self.nodes.len()
            invariant
                i <= self.nodes@.len(),
                out@.len() == i,
                forall|j: int| 0 <= j < i ==> #[trigger] out@[j] == self.nodes@[j].deps,
            decreases self.nodes@.len() - i,
        {
            out.push(self.nodes[i].deps);
            i = i + 1;
        }
        out
    }

    /// Records a leaf holding `value`; returns its handle.
    pub fn tensor(&mut self, value: T) -> (r: Tensor)
        requires
            old(self).wf(),
            old(self).nodes@.len() < usize::MAX,
        ensures
            final(self).wf(),
            r.graph == old(self).id,
            r.index == old(self).nodes@.len(),
            appended(old(self).nodes@, final(self).nodes@, r.index, r.index, OpKind::Leaf),
            final(self).nodes@.last().value == Some(value),
            final(self).id == old(self).id,
            final(self).backward_reach == old(self).backward_reach,
    {
        let len = self.nodes.len();
        let node = Node {
            deps: [len, len],
            func: Function::Leaf,
            value: Some(value),
            grad: None,
            ctx: [None, None],
        };
        proof {
            lemma_append_keeps_wf(self.nodes@, node);
        }
        assert(node.deps@ =~= seq![len, len]);
        self.nodes.push(node);
        assert(self.nodes@.subrange(0, len as int) =~= old(self).nodes@);
        Tensor { graph: self.id, index: len }
    }

    /// Appends an operation node on dependencies `d0` and `d1`; returns its
    /// index.
    pub(crate) fn push_op(&mut self, d0: usize, d1: usize, func: Function<T>) -> (r: usize)
        requires
            old(self).wf(),
            old(self).nodes@.len() < usize::MAX,
            func.kind() != OpKind::Leaf,
            func == fresh::<T>(func.kind()),
            d0 < old(self).nodes@.len(),
            func.kind() == OpKind::ExpM ==> d1 == old(self).nodes@.len(),
            func.kind() != OpKind::ExpM ==> d1 < old(self).nodes@.len(),
        ensures
            final(self).wf(),
            r == old(self).nodes@.len(),
            appended(old(self).nodes@, final(self).nodes@, d0, d1, func.kind()),
            final(self).id == old(self).id,
            final(self).backward_reach == old(self).backward_reach,
    {
        let len = self.nodes.len();
        let node = Node { deps: [d0, d1], func, value: None, grad: None, ctx: [None, None] };
        proof {
            lemma_append_keeps_wf(self.nodes@, node);
        }
        assert(node.deps@ =~= seq![d0, d1]);
        self.nodes.push(node);
        assert(self.nodes@.subrange(0, len as int) =~= old(self).nodes@);
        len
    }
}

/// `after` is `before` with one node added at the end, recording a fresh
/// operation of kind `k` on slots `d0` and `d1`, with no gradient yet.
pub open spec fn appended<T: TensorType>(
    before: Seq<Node<T>>,
    after: Seq<Node<T>>,
    d0: usize,
    d1: usize,
    k: OpKind,
) -> bool {
    &&& after.len() == before.len() + 1
    &&& after.subrange(0, before.len() as int) == before
    &&& after.last().deps@ == seq![d0, d1]
    &&& after.last().func == fresh::<T>(k)
    &&& after.last().grad is None
    &&& k != OpKind::Leaf ==> after.last().value is None
}

proof fn lemma_append_keeps_wf<T: TensorType>(nodes: Seq<Node<T>>, node: Node<T>)
    requires
        graph_wf(nodes),
        node.grad is None,
        node.func.kind() == OpKind::Leaf ==> node.value is Some,
        node.func.kind() != OpKind::Leaf ==> node.value is None,
        deps_ok(nodes.push(node), nodes.len() as int),
    ensures
        graph_wf(nodes.push(node)),
{
    let after = nodes.push(node);
    assert(same_skeleton(nodes, after, nodes.len() as int)) by {
        assert forall|j: int| 0 <= j < nodes.len() implies #[trigger] nodes[j] == after[j] by {}
    }
    assert forall|i: int| 0 <= i < after.len() implies #[trigger] node_ok(after, i) by {
        if i < nodes.len() {
            assert(node_ok(nodes, i));
            lemma_eval_frame(nodes, after, nodes.len() as int, i);
            assert(nodes[i] == after[i]);
            let d0 = nodes[i].deps@[0] as int;
            let d1 = nodes[i].deps@[1] as int;
            assert(after[d0] == nodes[d0]);
            assert(after[d1] == nodes[d1]);
        } else {
            assert(after[i] == node);
        }
    }
}

/// What a forward pass to `target` leaves behind: the same tape and gradients,
/// no value lost, nothing past `target` touched, and, where it succeeded,
/// every node up to `target` holding the value it stands for.
pub open spec fn forward_effect<T: TensorType>(
    before: Seq<Node<T>>,
    after: Seq<Node<T>>,
    target: int,
    ok: bool,
) -> bool {
    &&& after.len() == before.len()
    &&& same_skeleton(before, after, before.len() as int)
    &&& grads_of(after) == grads_of(before)
    &&& forall|j: int|
        0 <= j < before.len() && (#[trigger] before[j]).value is Some ==> after[j].value
            == before[j].value
    &&& forall|j: int| target < j < before.len() ==> #[trigger] after[j] == before[j]
    &&& ok ==> forall|j: int| 0 <= j <= target ==> #[trigger] after[j].value == Some(eval(before, j))
}

/// A forward pass stopped at node `k`: its operation rejects the shapes of
/// its operands, every node before it was evaluated to the value it stands
/// for, and node `k` itself kept the value it had.
pub open spec fn forward_failed_at<T: TensorType>(before: Seq<Node<T>>, after: Seq<Node<T>>, k: int) -> bool {
    &&& !op_ok(before, k)
    &&& after[k].value == before[k].value
    &&& forall|j: int| 0 <= j < k ==> #[trigger] op_ok(before, j)
    &&& forall|j: int| 0 <= j < k ==> #[trigger] after[j].value == Some(eval(before, j))
}

/// What a backward pass from `target` seeded with `seed` leaves behind: the
/// same tape and values, and the gradients of [`backward_from`].
pub open spec fn backward_effect<T: TensorType>(
    before: Seq<Node<T>>,
    after: Seq<Node<T>>,
    target: int,
    seed: T,
) -> bool {
    &&& after.len() == before.len()
    &&& forall|j: int|
        0 <= j < before.len() ==> {
            &&& (#[trigger] after[j]).deps == before[j].deps
            &&& after[j].func == before[j].func
            &&& after[j].value == before[j].value
        }
    &&& grads_of(after) == backward_from(before, grads_of(before).update(target, Some(seed)), target)
}

pub proof fn lemma_skeleton_trans<T: TensorType>(a: Seq<Node<T>>, b: Seq<Node<T>>, c: Seq<Node<T>>, upto: int)
    requires
        same_skeleton(a, b, upto),
        same_skeleton(b, c, upto),
    ensures
        same_skeleton(a, c, upto),
{
    assert forall|j: int| 0 <= j < upto implies {
        &&& (#[trigger] a[j]).deps == c[j].deps
        &&& a[j].func.kind() == c[j].func.kind()
        &&& a[j].func.kind() == OpKind::Leaf ==> a[j].value == c[j].value
    } by {
        assert(a[j].deps == b[j].deps);
        assert(b[j].deps == c[j].deps);
    }
}

/// Changing only gradients and recorded partials keeps a graph well formed,
/// as long as each gradient has the shape of its node's value.
pub(crate) proof fn lemma_grads_keep_wf<T: TensorType>(before: Seq<Node<T>>, after: Seq<Node<T>>)
    requires
        graph_wf(before),
        after.len() == before.len(),
        forall|j: int|
            0 <= j < before.len() ==> {
                &&& (#[trigger] after[j]).deps == before[j].deps
                &&& after[j].func == before[j].func
                &&& after[j].value == before[j].value
            },
        forall|j: int|
            0 <= j < after.len() && (#[trigger] after[j]).grad is Some ==> {
                &&& after[j].value is Some
                &&& after[j].grad->Some_0.shape_of() == after[j].value->Some_0.shape_of()
            },
    ensures
        graph_wf(after),
        same_skeleton(before, after, before.len() as int),
{
    let len = before.len() as int;
    assert(same_skeleton(before, after, len)) by {
        assert forall|j: int| 0 <= j < len implies (#[trigger] before[j]).deps == after[j].deps by {
            assert(after[j].deps == before[j].deps);
        }
    }
    assert forall|i: int| 0 <= i < len implies #[trigger] node_ok(after, i) by {
        assert(node_ok(before, i));
        assert(after[i].deps == before[i].deps);
        lemma_eval_frame(before, after, len, i);
        let d0 = before[i].deps@[0] as int;
        let d1 = before[i].deps@[1] as int;
        assert(after[d0].value == before[d0].value);
        assert(after[d1].value == before[d1].value);
    }
}

/// Setting the value (and operation state) of node `i` to what it stands for
/// keeps a graph well formed.
pub(crate) proof fn lemma_set_value_keeps_wf<T: TensorType>(before: Seq<Node<T>>, after: Seq<Node<T>>, i: int)
    requires
        graph_wf(before),
        after.len() == before.len(),
        0 <= i < before.len(),
        forall|j: int| 0 <= j < before.len() && j != i ==> #[trigger] after[j] == before[j],
        after[i].deps == before[i].deps,
        after[i].func.kind() == before[i].func.kind(),
        after[i].grad == before[i].grad,
        before[i].func.kind() != OpKind::Leaf,
        after[i].value == Some(eval(before, i)),
        op_ok(before, i),
        after[i].func.holds(operand_a(before, i), operand_b(before, i)),
        after[before[i].deps@[0] as int].value is Some,
        after[before[i].deps@[1] as int].value is Some,
    ensures
        graph_wf(after),
        same_skeleton(before, after, before.len() as int),
{
    let len = before.len() as int;
    assert(same_skeleton(before, after, len)) by {
        assert forall|j: int| 0 <= j < len implies (#[trigger] before[j]).deps == after[j].deps by {
            if j != i {
                assert(after[j] == before[j]);
            }
        }
    }
    assert forall|j: int| 0 <= j < len implies #[trigger] node_ok(after, j) by {
        assert(node_ok(before, j));
        lemma_eval_frame(before, after, len, j);
        if j != i {
            assert(after[j] == before[j]);
            let d0 = before[j].deps@[0] as int;
            let d1 = before[j].deps@[1] as int;
            if d0 != i {
                assert(after[d0] == before[d0]);
            }
            if d1 != i {
                assert(after[d1] == before[d1]);
            }
        }
    }
}

impl<T: TensorType> Graph<T> {
    /// Hands the partial gradient `p` to node `d`.
    pub(crate) fn deposit(&mut self, d: usize, p: &Option<T>)
        requires
            old(self).wf(),
            d < old(self).nodes@.len(),
            p is Some ==> {
                &&& old(self).nodes@[d as int].value is Some
                &&& p->Some_0.shape_of() == old(self).nodes@[d as int].value->Some_0.shape_of()
            },
        ensures
            final(self).wf(),
            final(self).id == old(self).id,
            final(self).backward_reach == old(self).backward_reach,
            final(self).nodes@.len() == old(self).nodes@.len(),
            forall|j: int|
                0 <= j < old(self).nodes@.len() ==> {
                    &&& (#[trigger] final(self).nodes@[j]).deps == old(self).nodes@[j].deps
                    &&& final(self).nodes@[j].func == old(self).nodes@[j].func
                    &&& final(self).nodes@[j].value == old(self).nodes@[j].value
                },
            grads_of(final(self).nodes@) == deposit(grads_of(old(self).nodes@), d as int, *p),
    {
        match p {
            None => {
                assert(grads_of(self.nodes@) =~= deposit(grads_of(old(self).nodes@), d as int, *p));
            },
            Some(w) => {
                let ghost before = self.nodes@;
                assert(node_ok(before, d as int));
                let new_grad = match &self.nodes[d].grad {
                    Some(h) => h.add(w),
                    None => w.duplicate(),
                };
                self.nodes[d].grad = Some(new_grad);
                proof {
                    assert forall|j: int| 0 <= j < before.len() && j != d implies #[trigger] self.nodes@[j] == before[j] by {}
                    assert forall|j: int|
                        0 <= j < self.nodes@.len() && (#[trigger] self.nodes@[j]).grad is Some implies {
                        &&& self.nodes@[j].value is Some
                        &&& self.nodes@[j].grad->Some_0.shape_of() == self.nodes@[j].value->Some_0.shape_of()
                    } by {
                        assert(node_ok(before, j));
                    }
                    lemma_grads_keep_wf(before, self.nodes@);
                }
                assert(grads_of(self.nodes@) =~= deposit(grads_of(before), d as int, *p));
            },
        }
    }
}

/// `backward_from` reads of the tape only what `eval` reads.
pub proof fn lemma_backward_frame<T: TensorType>(
    a: Seq<Node<T>>,
    b: Seq<Node<T>>,
    grads: Seq<Option<T>>,
    i: int,
)
    requires
        same_skeleton(a, b, a.len() as int),
        a.len() == b.len(),
        i < a.len(),
    ensures
        backward_from(a, grads, i) == backward_from(b, grads, i),
    decreases i + 1,
{
    if i >= 0 {
        lemma_eval_frame(a, b, a.len() as int, i);
        assert(a[i].deps == b[i].deps);
        assert(backward_step(a, grads, i) == backward_step(b, grads, i));
        lemma_backward_frame(a, b, backward_step(a, grads, i), i - 1);
    }
}

} // verus!
