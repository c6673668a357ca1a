use vstd::prelude::*;

use crate::functions::OpKind;
use crate::graph::{deposit, eval, forward_effect, graph_wf, lemma_eval_frame, node_ok, Node};
use crate::tensor::TensorType;

verus! {

/// In a well-formed tape, which every graph built through leaf creation and
/// operator application is, a leaf names only itself, and an operation's
/// dependency slots name strictly earlier nodes, but for the unused second
/// slot of a single-operand operation, which names the node itself. So
/// creation order is an evaluation order.
pub proof fn lemma_dependencies_precede<T: TensorType>(nodes: Seq<Node<T>>, i: int)
    requires
        graph_wf(nodes),
        0 <= i < nodes.len(),
    ensures
        nodes[i].func.kind() == OpKind::Leaf ==> nodes[i].deps@[0] == i && nodes[i].deps@[1] == i,
        nodes[i].func.kind() != OpKind::Leaf ==> nodes[i].deps@[0] < i,
        nodes[i].func.kind() != OpKind::Leaf ==> {
            ||| nodes[i].deps@[1] < i
            ||| nodes[i].func.kind() == OpKind::ExpM && nodes[i].deps@[1] == i
        },
        nodes[i].value is Some ==> nodes[nodes[i].deps@[0] as int].value is Some,
        nodes[i].value is Some ==> nodes[nodes[i].deps@[1] as int].value is Some,
{
    assert(node_ok(nodes, i));
}

/// A gradient accumulates: when two consumers hand partial gradients `u`
/// and then `w` to a node that had none, the node's gradient is `u + w`.
pub proof fn lemma_gradients_accumulate<T: TensorType>(grads: Seq<Option<T>>, d: int, u: T, w: T)
    requires
        0 <= d < grads.len(),
        grads[d] is None,
    ensures
        deposit(deposit(grads, d, Some(u)), d, Some(w))[d] == Some(T::sum(u, w)),
{
}

/// A partial gradient handed to a node that already has gradient `h` is
/// added to it; every other node keeps its gradient.
pub proof fn lemma_deposit_adds<T: TensorType>(grads: Seq<Option<T>>, d: int, h: T, w: T, j: int)
    requires
        0 <= d < grads.len(),
        0 <= j < grads.len(),
        grads[d] == Some(h),
    ensures
        deposit(grads, d, Some(w))[d] == Some(T::sum(h, w)),
        j != d ==> deposit(grads, d, Some(w))[j] == grads[j],
{
}

/// A second forward pass to the same node, with no change to the tape in
/// between, leaves every node up to it with the values of the first.
pub proof fn lemma_forward_repeat<T: TensorType>(
    g0: Seq<Node<T>>,
    g1: Seq<Node<T>>,
    g2: Seq<Node<T>>,
    target: int,
)
    requires
        forward_effect(g0, g1, target, true),
        forward_effect(g1, g2, target, true),
        target < g0.len(),
    ensures
        forall|j: int| 0 <= j <= target ==> #[trigger] g2[j].value == g1[j].value,
{
    assert forall|j: int| 0 <= j <= target implies #[trigger] g2[j].value == g1[j].value by {
        lemma_eval_frame(g0, g1, g0.len() as int, j);
        assert(g1[j].value == Some(eval(g0, j)));
        assert(g2[j].value == Some(eval(g1, j)));
    }
}

} // verus!
