use vstd::prelude::*;

use crate::error::GraphError;
use crate::functions::{Add, ExpM, Function, MatMul, Mul, OneValuedFn, OpKind, TwoValuedFn};
use crate::graph::{
    appended, backward_effect, forward_failed_at, backward_from, backward_step, eval, lemma_backward_frame, forward_effect, grads_of,
    lemma_eval_frame, lemma_grads_keep_wf, lemma_set_value_keeps_wf, lemma_skeleton_trans,
    node_ok, op_ok, operand_a, operand_b, same_skeleton_full, Graph, Node,
};

verus! {

/// The capability interface that a tensor-storage backend provides.
///
/// The graph engine is generic over it and never looks inside a value. Each
/// kernel's result is named by a spec function of the trait; a backend gives
/// those names their meaning. The engine relies on the contracts below: a
/// kernel is only called on operands whose shapes fit, and it reports the
/// shape of what it returns.
///
/// The default bodies of the spec functions constrain nothing: to the
/// generic engine each name stays abstract, and a backend whose kernels are
/// themselves verified overrides them with their definitions.
pub trait TensorType: Sized {
    /// What a value looks like once copied to the host.
    type Host;

    /// The shape (extent of each axis) of a value.
    open spec fn shape_of(self) -> Seq<usize> {
        arbitrary()
    }

    /// Elementwise sum.
    open spec fn sum(a: Self, b: Self) -> Self {
        arbitrary()
    }

    /// Elementwise difference.
    open spec fn difference(a: Self, b: Self) -> Self {
        arbitrary()
    }

    /// Elementwise product.
    open spec fn product(a: Self, b: Self) -> Self {
        arbitrary()
    }

    /// Elementwise quotient.
    open spec fn quotient(a: Self, b: Self) -> Self {
        arbitrary()
    }

    /// Matrix product of two matrices.
    open spec fn mat_product(a: Self, b: Self) -> Self {
        arbitrary()
    }

    /// Transpose of a matrix.
    open spec fn transposed(a: Self) -> Self {
        arbitrary()
    }

    /// Elementwise exponential.
    open spec fn exp_of(a: Self) -> Self {
        arbitrary()
    }

    /// A value of the shape of `a` with every element equal to `v`.
    open spec fn filled(a: Self, v: int) -> Self {
        arbitrary()
    }

    /// The identity matrix with as many rows as `a`.
    open spec fn identity(a: Self) -> Self {
        arbitrary()
    }

    /// The host copy of a value.
    open spec fn host_of(a: Self) -> Self::Host {
        arbitrary()
    }

    fn shape(&self) -> (r: Vec<usize>)
        ensures
            r@ == self.shape_of(),
    ;

    /// An independent copy of the value.
    fn duplicate(&self) -> (r: Self)
        ensures
            r == *self,
    ;

    fn get_value_cpu(&self) -> (r: Self::Host)
        ensures
            r == Self::host_of(*self),
    ;

    fn add(&self, other: &Self) -> (r: Self)
        requires
            self.shape_of() == other.shape_of(),
        ensures
            r == Self::sum(*self, *other),
            r.shape_of() == self.shape_of(),
    ;

    fn sub(&self, other: &Self) -> (r: Self)
        requires
            self.shape_of() == other.shape_of(),
        ensures
            r == Self::difference(*self, *other),
            r.shape_of() == self.shape_of(),
    ;

    fn mul(&self, other: &Self) -> (r: Self)
        requires
            self.shape_of() == other.shape_of(),
        ensures
            r == Self::product(*self, *other),
            r.shape_of() == self.shape_of(),
    ;

    fn div(&self, other: &Self) -> (r: Self)
        requires
            self.shape_of() == other.shape_of(),
        ensures
            r == Self::quotient(*self, *other),
            r.shape_of() == self.shape_of(),
    ;

    fn matmul(&self, other: &Self) -> (r: Self)
        requires
            matmul_fits(self.shape_of(), other.shape_of()),
        ensures
            r == Self::mat_product(*self, *other),
            r.shape_of() == seq![self.shape_of()[0], other.shape_of()[1]],
    ;

    fn t(&self) -> (r: Self)
        requires
            self.shape_of().len() == 2,
        ensures
            r == Self::transposed(*self),
            r.shape_of() == seq![self.shape_of()[1], self.shape_of()[0]],
    ;

    fn expm(&self) -> (r: Self)
        ensures
            r == Self::exp_of(*self),
            r.shape_of() == self.shape_of(),
    ;

    fn val_like(&self, val: i64) -> (r: Self)
        ensures
            r == Self::filled(*self, val as int),
            r.shape_of() == self.shape_of(),
    ;

    fn ones_like(&self) -> (r: Self)
        ensures
            r == Self::filled(*self, 1),
            r.shape_of() == self.shape_of(),
    ;

    fn eye_like(&self) -> (r: Self)
        requires
            self.shape_of().len() >= 1,
        ensures
            r == Self::identity(*self),
            r.shape_of() == seq![self.shape_of()[0], self.shape_of()[0]],
    ;
}

/// Two shapes that a matrix product accepts: both of rank two, with the
/// columns of the first matching the rows of the second.
pub open spec fn matmul_fits(a: Seq<usize>, b: Seq<usize>) -> bool {
    a.len() == 2 && b.len() == 2 && a[1] == b[0]
}

/// A square matrix shape.
pub open spec fn is_square(a: Seq<usize>) -> bool {
    a.len() == 2 && a[0] == a[1]
}

/// Executable test of [`matmul_fits`].
pub fn matmul_shapes_fit(a: &Vec<usize>, b: &Vec<usize>) -> (r: bool)
    ensures
        r == matmul_fits(a@, b@),
{
    a.len() == 2 && b.len() == 2 && a[1] == b[0]
}

/// Executable test of [`is_square`].
pub fn square_shape(a: &Vec<usize>) -> (r: bool)
    ensures
        r == is_square(a@),
{
    a.len() == 2 && a[0] == a[1]
}

/// Executable shape equality.
pub fn same_shape(a: &Vec<usize>, b: &Vec<usize>) -> (r: bool)
    ensures
        r == (a@ == b@),
{
    if a.len() != b.len() {
        return false;
    }
    let mut i: usize = 0;
    while i < a.len()
        invariant
            a.len() == b.len(),
            i <= a.len(),
            forall|j: int| 0 <= j < i ==> a@[j] == b@[j],
        decreases a.len() - i,
    {
        if a[i] != b[i] {
            return false;
        }
        i = i + 1;
    }
    assert(a@ =~= b@);
    true
}

} // verus!

verus! {

/// A handle to one node of a graph: the graph's id and the node's index.
#[derive(Clone, Copy, Debug, PartialEq, Eq, Structural)]
pub struct Tensor {
    /// The id of the graph that made the handle.
    pub graph: u64,
    pub index: usize,
}

impl Tensor {
    /// Forward pass: evaluates every node up to this one, in index order.
    ///
    /// It fails with `ShapeMismatch` exactly when some operation up to this
    /// node receives operands whose shapes it does not accept; the nodes
    /// evaluated before that one keep their values.
    pub fn forward<T: TensorType>(&self, graph: &mut Graph<T>) -> (r: Result<(), GraphError>)
        requires
            old(graph).wf(),
        ensures
            final(graph).wf(),
            final(graph).id == old(graph).id,
            final(graph).backward_reach == old(graph).backward_reach,
            !old(graph).owns(*self) ==> {
                &&& r == Err::<(), GraphError>(GraphError::ForeignHandle)
                &&& final(graph).nodes@ == old(graph).nodes@
            },
            old(graph).owns(*self) ==> {
                &&& r is Ok <==> (forall|j: int|
                    0 <= j <= self.index ==> #[trigger] op_ok(old(graph).nodes@, j))
                &&& r is Err ==> r == Err::<(), GraphError>(GraphError::ShapeMismatch)
                &&& r is Err ==> exists|k: int|
                    0 <= k <= self.index && #[trigger] forward_failed_at(
                        old(graph).nodes@,
                        final(graph).nodes@,
                        k,
                    )
                &&& forward_effect(old(graph).nodes@, final(graph).nodes@, self.index as int, r is Ok)
            },
    {
        let count = graph.nodes.len();
        if self.graph != graph.id || self.index >= count {
            return Err(GraphError::ForeignHandle);
        }
        let ghost n0 = graph.nodes@;
        let ghost len = n0.len() as int;
        let mut i: usize = 0;
        while i <= self.index
            invariant
                self.index < n0.len(),
                self.index < count,
                self.graph == old(graph).id,
                n0 == old(graph).nodes@,
                graph.id == old(graph).id,
                graph.backward_reach == old(graph).backward_reach,
                len == n0.len(),
                i <= self.index + 1,
                graph.wf(),
                forward_effect(n0, graph.nodes@, self.index as int, false),
                forall|j: int| 0 <= j < i ==> #[trigger] op_ok(n0, j),
                forall|j: int| 0 <= j < i ==> #[trigger] graph.nodes@[j].value == Some(eval(n0, j)),
            decreases self.index + 1 - i,
        {
            let ghost cur = graph.nodes@;
            proof {
                assert(node_ok(cur, i as int));
                lemma_eval_frame(n0, cur, len, i as int);
            }
            let is_leaf = matches!(graph.nodes[i].func, Function::Leaf);
            if !is_leaf {
                let d0 = graph.nodes[i].deps[0];
                let d1 = graph.nodes[i].deps[1];
                assert(cur[d0 as int].value == Some(eval(n0, d0 as int)));
                let a = graph.nodes[d0].value.as_ref().unwrap().duplicate();
                let b = if d1 < i {
                    assert(cur[d1 as int].value == Some(eval(n0, d1 as int)));
                    graph.nodes[d1].value.as_ref().unwrap().duplicate()
                } else {
                    a.duplicate()
                };
                assert(a == operand_a(n0, i as int));
                assert(b == operand_b(n0, i as int));
                let r = graph.nodes[i].func.forward(&a, &b);
                match r {
                    Ok(v) => {
                        graph.nodes[i].value = Some(v);
                        proof {
                            let after = graph.nodes@;
                            assert forall|j: int| 0 <= j < len && j != i implies #[trigger] after[j]
                                == cur[j] by {}
                            lemma_set_value_keeps_wf(cur, after, i as int);
                            lemma_skeleton_trans(n0, cur, after, len);
                            assert(grads_of(cur) =~= grads_of(after));
                            assert forall|j: int| 0 <= j < i + 1 implies #[trigger] after[j].value
                                == Some(eval(n0, j)) by {
                                if j != i {
                                    assert(after[j] == cur[j]);
                                }
                            }
                        }
                    },
                    Err(e) => {
                        assert(!op_ok(n0, i as int));
                        assert(graph.nodes@ =~= cur);
                        assert(forward_failed_at(n0, graph.nodes@, i as int));
                        return Err(e);
                    },
                }
            }
            i = i + 1;
        }
        Ok(())
    }
}

/// How a backward pass from `t` seeded with `seed` ends: the handle must be
/// one of the graph, its node must have been evaluated, and the seed must
/// have the shape of its value.
pub open spec fn backward_outcome<T: TensorType>(graph: Graph<T>, t: Tensor, seed: T) -> Result<
    (),
    GraphError,
> {
    let nodes = graph.nodes@;
    let target = t.index as int;
    if !graph.owns(t) {
        Err(GraphError::ForeignHandle)
    } else if nodes[target].value is None {
        Err(GraphError::NotComputed)
    } else if seed.shape_of() != nodes[target].value->Some_0.shape_of() {
        Err(GraphError::ShapeMismatch)
    } else {
        Ok(())
    }
}

impl Tensor {
    /// Backward pass: seeds this node's gradient with `init`, then visits the
    /// nodes from this one down to the first, each operation handing the
    /// partial gradients of its operands to its dependencies, where they are
    /// added to what is already there.
    pub fn backward<T: TensorType>(&self, graph: &mut Graph<T>, init: T) -> (r: Result<(), GraphError>)
        requires
            old(graph).wf(),
        ensures
            final(graph).wf(),
            final(graph).id == old(graph).id,
            r == backward_outcome(*old(graph), *self, init),
            r is Err ==> final(graph).nodes@ == old(graph).nodes@,
            r is Err ==> final(graph).backward_reach == old(graph).backward_reach,
            r is Ok ==> backward_effect(old(graph).nodes@, final(graph).nodes@, self.index as int, init),
            r is Ok ==> final(graph).backward_reach == Some(
                match old(graph).backward_reach {
                    Some(m) => if m > self.index { m } else { self.index },
                    None => self.index,
                },
            ),
    {
        let count = graph.nodes.len();
        if self.graph != graph.id || self.index >= count {
            return Err(GraphError::ForeignHandle);
        }
        let t = self.index;
        if graph.nodes[t].value.is_none() {
            return Err(GraphError::NotComputed);
        }
        let value_shape = graph.nodes[t].value.as_ref().unwrap().shape();
        let seed_shape = init.shape();
        if !same_shape(&value_shape, &seed_shape) {
            return Err(GraphError::ShapeMismatch);
        }
        let ghost n_start = graph.nodes@;
        graph.nodes[t].grad = Some(init);
        let ghost n0 = graph.nodes@;
        let ghost len = n0.len() as int;
        proof {
            assert forall|j: int| 0 <= j < len && j != t implies #[trigger] n0[j] == n_start[j] by {}
            assert forall|j: int|
                0 <= j < len && (#[trigger] n0[j]).grad is Some implies {
                &&& n0[j].value is Some
                &&& n0[j].grad->Some_0.shape_of() == n0[j].value->Some_0.shape_of()
            } by {
                assert(node_ok(n_start, j));
            }
            lemma_grads_keep_wf(n_start, n0);
            assert(same_skeleton_full(n_start, n0));
            assert(grads_of(n0) =~= grads_of(n_start).update(t as int, Some(init)));
        }
        let mut k: usize = t + 1;
        while k > 0
            invariant
                k <= t + 1,
                t < len,
                n_start == old(graph).nodes@,
                graph.id == old(graph).id,
                graph.backward_reach == old(graph).backward_reach,
                same_skeleton_full(n_start, n0),
                grads_of(n0) == grads_of(n_start).update(t as int, Some(init)),
                len == n0.len(),
                graph.wf(),
                graph.nodes@.len() == len,
                forall|j: int|
                    0 <= j < len ==> {
                        &&& (#[trigger] graph.nodes@[j]).deps == n0[j].deps
                        &&& graph.nodes@[j].func == n0[j].func
                        &&& graph.nodes@[j].value == n0[j].value
                    },
                backward_from(n0, grads_of(n0), t as int) == backward_from(
                    n0,
                    grads_of(graph.nodes@),
                    k - 1,
                ),
            decreases k,
        {
            let i = k - 1;
            let ghost cur = graph.nodes@;
            proof {
                assert(same_skeleton_full(n0, cur)) by {
                    assert forall|j: int| 0 <= j < len implies (#[trigger] n0[j]).deps == cur[j].deps by {
                        assert(cur[j].deps == n0[j].deps);
                    }
                }
                lemma_eval_frame(n0, cur, len, i as int);
                assert(node_ok(cur, i as int));
            }
            let is_leaf = matches!(graph.nodes[i].func, Function::Leaf);
            if !is_leaf && graph.nodes[i].grad.is_some() {
                let ghost a = operand_a(n0, i as int);
                let ghost b = operand_b(n0, i as int);
                assert(cur[i as int].func == n0[i as int].func);
                let parts = graph.nodes[i].func.backward(
                    graph.nodes[i].grad.as_ref().unwrap(),
                    Ghost(a),
                    Ghost(b),
                );
                let d0 = graph.nodes[i].deps[0];
                let d1 = graph.nodes[i].deps[1];
                proof {
                    if d0 != i {
                        lemma_eval_frame(n0, cur, len, d0 as int);
                        assert(node_ok(cur, d0 as int));
                    }
                    if d1 != i {
                        lemma_eval_frame(n0, cur, len, d1 as int);
                        assert(node_ok(cur, d1 as int));
                    }
                }
                if d0 != i {
                    graph.deposit(d0, &parts[0]);
                }
                if d1 != i {
                    graph.deposit(d1, &parts[1]);
                }
                let ghost before_ctx = graph.nodes@;
                graph.nodes[i].ctx = parts;
                proof {
                    assert forall|j: int| 0 <= j < len && j != i implies #[trigger] graph.nodes@[j]
                        == before_ctx[j] by {}
                    assert forall|j: int|
                        0 <= j < len && (#[trigger] graph.nodes@[j]).grad is Some implies {
                        &&& graph.nodes@[j].value is Some
                        &&& graph.nodes@[j].grad->Some_0.shape_of()
                            == graph.nodes@[j].value->Some_0.shape_of()
                    } by {
                        assert(node_ok(before_ctx, j));
                    }
                    lemma_grads_keep_wf(before_ctx, graph.nodes@);
                    assert(grads_of(graph.nodes@) =~= grads_of(before_ctx));
                    assert(grads_of(graph.nodes@) == backward_step(n0, grads_of(cur), i as int));
                }
            } else {
                assert(grads_of(cur) == backward_step(n0, grads_of(cur), i as int));
            }
            k = i;
        }
        proof {
            lemma_backward_frame(n0, n_start, grads_of(n0), t as int);
        }
        let reach = match graph.backward_reach {
            Some(m) => if m > t { m } else { t },
            None => t,
        };
        graph.backward_reach = Some(reach);
        Ok(())
    }
}

/// The outcome of recording a two-operand operation of kind `k` on `a` and
/// `b`: a handle to a new last node holding the fresh operation, or
/// `ForeignHandle` with the tape unchanged when either handle is not one of
/// the graph.
pub open spec fn binary_recorded<T: TensorType>(
    before: Graph<T>,
    after: Graph<T>,
    a: Tensor,
    b: Tensor,
    k: OpKind,
    r: Result<Tensor, GraphError>,
) -> bool {
    &&& after.id == before.id
    &&& after.backward_reach == before.backward_reach
    &&& if before.owns(a) && before.owns(b) {
        &&& r is Ok
        &&& r->Ok_0.graph == before.id
        &&& r->Ok_0.index == before.nodes@.len()
        &&& appended(before.nodes@, after.nodes@, a.index, b.index, k)
    } else {
        &&& r == Err::<Tensor, GraphError>(GraphError::ForeignHandle)
        &&& after.nodes@ == before.nodes@
    }
}

/// What reading the gradient of node `n` gives: its gradient; zero shaped
/// like its value where a backward pass visited it (`reached`) and handed it
/// nothing; otherwise `NotComputed`.
pub open spec fn grad_read<T: TensorType>(n: Node<T>, reached: bool) -> Result<T::Host, GraphError> {
    match n.grad {
        Some(g) => Ok(T::host_of(g)),
        None => if reached && n.value is Some {
            Ok(T::host_of(T::filled(n.value->Some_0, 0)))
        } else {
            Err(GraphError::NotComputed)
        },
    }
}

impl Tensor {
    /// A host copy of this node's value; `NotComputed` before a forward pass
    /// reached it.
    pub fn value<T: TensorType>(&self, graph: &Graph<T>) -> (r: Result<T::Host, GraphError>)
        ensures
            !graph.owns(*self) ==> r == Err::<T::Host, GraphError>(GraphError::ForeignHandle),
            graph.owns(*self) ==> r == match graph.nodes@[self.index as int].value {
                Some(v) => Ok(T::host_of(v)),
                None => Err(GraphError::NotComputed),
            },
    {
        if self.graph != graph.id || self.index >= graph.nodes.len() {
            return Err(GraphError::ForeignHandle);
        }
        match &graph.nodes[self.index].value {
            Some(v) => Ok(v.get_value_cpu()),
            None => Err(GraphError::NotComputed),
        }
    }

    /// A host copy of this node's gradient. A node that a backward pass
    /// visited without handing it any gradient has gradient zero;
    /// `NotComputed` where no backward pass has visited the node (or it has
    /// no value to give the zero its shape).
    pub fn grad<T: TensorType>(&self, graph: &Graph<T>) -> (r: Result<T::Host, GraphError>)
        ensures
            !graph.owns(*self) ==> r == Err::<T::Host, GraphError>(GraphError::ForeignHandle),
            graph.owns(*self) ==> r == grad_read(graph.nodes@[self.index as int], graph.reached(self.index as int)),
    {
        if self.graph != graph.id || self.index >= graph.nodes.len() {
            return Err(GraphError::ForeignHandle);
        }
        let node = &graph.nodes[self.index];
        match &node.grad {
            Some(v) => Ok(v.get_value_cpu()),
            None => {
                let reached = match graph.backward_reach {
                    Some(m) => self.index <= m,
                    None => false,
                };
                match &node.value {
                    Some(v) => {
                        if reached {
                            Ok(v.val_like(0).get_value_cpu())
                        } else {
                            Err(GraphError::NotComputed)
                        }
                    },
                    None => Err(GraphError::NotComputed),
                }
            },
        }
    }

    /// Records `self + other` (elementwise) without evaluating it.
    pub fn add<T: TensorType>(self, other: Tensor, graph: &mut Graph<T>) -> (r: Result<Tensor, GraphError>)
        requires
            old(graph).wf(),
            old(graph).nodes@.len() < usize::MAX,
        ensures
            final(graph).wf(),
            binary_recorded(*old(graph), *final(graph), self, other, OpKind::Add, r),
    {
        if self.graph != graph.id || other.graph != graph.id || self.index >= graph.nodes.len()
            || other.index >= graph.nodes.len() {
            return Err(GraphError::ForeignHandle);
        }
        let index = graph.push_op(self.index, other.index, Function::Two(TwoValuedFn::Add(Add)));
        Ok(Tensor { graph: graph.id, index })
    }

    /// Records `self * other` (elementwise) without evaluating it.
    pub fn mul<T: TensorType>(self, other: Tensor, graph: &mut Graph<T>) -> (r: Result<Tensor, GraphError>)
        requires
            old(graph).wf(),
            old(graph).nodes@.len() < usize::MAX,
        ensures
            final(graph).wf(),
            binary_recorded(*old(graph), *final(graph), self, other, OpKind::Mul, r),
    {
        if self.graph != graph.id || other.graph != graph.id || self.index >= graph.nodes.len()
            || other.index >= graph.nodes.len() {
            return Err(GraphError::ForeignHandle);
        }
        let index = graph.push_op(
            self.index,
            other.index,
            Function::Two(TwoValuedFn::Mul(Mul::new())),
        );
        Ok(Tensor { graph: graph.id, index })
    }

    /// Records the matrix product `self · other` without evaluating it.
    pub fn matmul<T: TensorType>(self, other: Tensor, graph: &mut Graph<T>) -> (r: Result<
        Tensor,
        GraphError,
    >)
        requires
            old(graph).wf(),
            old(graph).nodes@.len() < usize::MAX,
        ensures
            final(graph).wf(),
            binary_recorded(*old(graph), *final(graph), self, other, OpKind::MatMul, r),
    {
        if self.graph != graph.id || other.graph != graph.id || self.index >= graph.nodes.len()
            || other.index >= graph.nodes.len() {
            return Err(GraphError::ForeignHandle);
        }
        let index = graph.push_op(
            self.index,
            other.index,
            Function::Two(TwoValuedFn::MatMul(MatMul::new())),
        );
        Ok(Tensor { graph: graph.id, index })
    }

    /// Records the matrix exponential of this (diagonal) matrix without
    /// evaluating it.
    pub fn expm<T: TensorType>(self, graph: &mut Graph<T>) -> (r: Result<Tensor, GraphError>)
        requires
            old(graph).wf(),
            old(graph).nodes@.len() < usize::MAX,
        ensures
            final(graph).wf(),
            final(graph).id == old(graph).id,
            final(graph).backward_reach == old(graph).backward_reach,
            old(graph).owns(self) ==> {
                &&& r is Ok
                &&& r->Ok_0.graph == old(graph).id
                &&& r->Ok_0.index == old(graph).nodes@.len()
                &&& appended(
                    old(graph).nodes@,
                    final(graph).nodes@,
                    self.index,
                    r->Ok_0.index,
                    OpKind::ExpM,
                )
            },
            !old(graph).owns(self) ==> {
                &&& r == Err::<Tensor, GraphError>(GraphError::ForeignHandle)
                &&& final(graph).nodes@ == old(graph).nodes@
            },
    {
        let len = graph.nodes.len();
        if self.graph != graph.id || self.index >= len {
            return Err(GraphError::ForeignHandle);
        }
        let index = graph.push_op(self.index, len, Function::One(OneValuedFn::ExpM(ExpM::new())));
        Ok(Tensor { graph: graph.id, index })
    }
}

} // verus!
