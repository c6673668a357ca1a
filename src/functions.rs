use vstd::prelude::*;

use crate::error::GraphError;
use crate::tensor::{
    is_square, matmul_fits, matmul_shapes_fit, same_shape, square_shape, TensorType,
};

verus! {

/// Elementwise sum of two tensors. It keeps no state.
pub struct Add;

/// Elementwise product of two tensors; remembers both operands for the
/// backward pass.
pub struct Mul<T> {
    pub x_ctx: Option<T>,
    pub y_ctx: Option<T>,
}

/// Matrix product of two rank-two tensors; remembers both operands.
pub struct MatMul<T> {
    pub x_ctx: Option<T>,
    pub y_ctx: Option<T>,
}

/// Matrix exponential of a diagonal matrix; remembers its operand and its
/// result.
pub struct ExpM<T> {
    pub a: Option<T>,
    pub res: Option<T>,
}

/// `[a, c] = a·c − c·a`.
pub open spec fn commutator<T: TensorType>(a: T, c: T) -> T {
    T::difference(T::mat_product(a, c), T::mat_product(c, a))
}

/// `g` with `k` commutators taken on the left with `a`.
pub open spec fn nested_commutator<T: TensorType>(a: T, g: T, k: nat) -> T
    decreases k,
{
    if k == 0 {
        g
    } else {
        commutator(a, nested_commutator(a, g, (k - 1) as nat))
    }
}

pub open spec fn factorial(n: nat) -> int
    decreases n,
{
    if n == 0 {
        1
    } else {
        n * factorial((n - 1) as nat)
    }
}

proof fn lemma_small_factorials()
    ensures
        factorial(1) == 1,
        factorial(2) == 2,
        factorial(3) == 6,
        factorial(4) == 24,
        factorial(5) == 120,
        factorial(6) == 720,
{
    reveal_with_fuel(factorial, 7);
}

/// The divisor of the term of order `o`: `(−1)^(o+1) · o!`.
pub open spec fn series_divisor(o: nat) -> int {
    if o % 2 == 0 {
        -factorial(o)
    } else {
        factorial(o)
    }
}

/// `g + Σ_{k=2..o} [a, ·]^(k−1)(g) / series_divisor(k)`.
pub open spec fn series_total<T: TensorType>(a: T, g: T, o: nat) -> T
    decreases o,
{
    if o <= 1 {
        g
    } else {
        T::sum(
            series_total(a, g, (o - 1) as nat),
            T::quotient(nested_commutator(a, g, (o - 1) as nat), T::filled(a, series_divisor(o))),
        )
    }
}

/// Highest order of the truncated series that ExpM's backward pass sums.
pub const SERIES_ORDER: u64 = 6;

/// The value that ExpM's forward pass computes: the identity masked
/// elementwise exponential.
pub open spec fn expm_output<T: TensorType>(a: T) -> T {
    T::product(T::identity(a), T::exp_of(a))
}

/// The gradient that ExpM's backward pass gives its operand.
pub open spec fn expm_gradient<T: TensorType>(a: T, res: T, g: T) -> T {
    T::mat_product(res, series_total(a, g, SERIES_ORDER as nat))
}

impl Add {
    pub fn forward<T: TensorType>(&self, t_a: &T, t_b: &T) -> (r: Result<T, GraphError>)
        ensures
            r == (if t_a.shape_of() == t_b.shape_of() {
                Ok(T::sum(*t_a, *t_b))
            } else {
                Err(GraphError::ShapeMismatch)
            }),
            r is Ok ==> r->Ok_0.shape_of() == t_a.shape_of(),
    {
        let sa = t_a.shape();
        let sb = t_b.shape();
        if same_shape(&sa, &sb) {
            Ok(t_a.add(t_b))
        } else {
            Err(GraphError::ShapeMismatch)
        }
    }

    /// The incoming gradient passes unchanged to both operands.
    pub fn backward<T: TensorType>(&self, grad: &T) -> (r: [Option<T>; 2])
        ensures
            r@[0] == Some(*grad),
            r@[1] == Some(*grad),
    {
        [Some(grad.duplicate()), Some(grad.duplicate())]
    }
}

impl<T: TensorType> Mul<T> {
    pub fn new() -> (r: Self)
        ensures
            r.x_ctx is None,
            r.y_ctx is None,
    {
        Mul { x_ctx: None, y_ctx: None }
    }

    /// State after a forward pass on `a` and `b`.
    pub open spec fn holds(self, a: T, b: T) -> bool {
        &&& self.x_ctx == Some(a)
        &&& self.y_ctx == Some(b)
        &&& a.shape_of() == b.shape_of()
        &&& T::product(a, b).shape_of() == a.shape_of()
    }

    pub open spec fn ready_for(self, g: T) -> bool {
        &&& self.x_ctx is Some
        &&& self.y_ctx is Some
        &&& self.x_ctx->Some_0.shape_of() == self.y_ctx->Some_0.shape_of()
        &&& g.shape_of() == self.x_ctx->Some_0.shape_of()
    }

    pub fn forward(&mut self, t_a: &T, t_b: &T) -> (r: Result<T, GraphError>)
        ensures
            r == (if t_a.shape_of() == t_b.shape_of() {
                Ok(T::product(*t_a, *t_b))
            } else {
                Err(GraphError::ShapeMismatch)
            }),
            r is Ok ==> final(self).holds(*t_a, *t_b),
            r is Err ==> *final(self) == *old(self),
    {
        let sa = t_a.shape();
        let sb = t_b.shape();
        if same_shape(&sa, &sb) {
            self.x_ctx = Some(t_a.duplicate());
            self.y_ctx = Some(t_b.duplicate());
            Ok(t_a.mul(t_b))
        } else {
            Err(GraphError::ShapeMismatch)
        }
    }

    /// Each operand's gradient is the other operand times the incoming one.
    pub fn backward(&self, grad: &T) -> (r: [Option<T>; 2])
        requires
            self.ready_for(*grad),
        ensures
            r@[0] == Some(T::product(self.y_ctx->Some_0, *grad)),
            r@[1] == Some(T::product(self.x_ctx->Some_0, *grad)),
            r@[0]->Some_0.shape_of() == self.x_ctx->Some_0.shape_of(),
            r@[1]->Some_0.shape_of() == self.y_ctx->Some_0.shape_of(),
    {
        let x_ctx = self.x_ctx.as_ref().unwrap();
        let y_ctx = self.y_ctx.as_ref().unwrap();
        let a = y_ctx.mul(grad);
        let b = x_ctx.mul(grad);
        [Some(a), Some(b)]
    }
}

impl<T: TensorType> MatMul<T> {
    pub fn new() -> (r: Self)
        ensures
            r.x_ctx is None,
            r.y_ctx is None,
    {
        MatMul { x_ctx: None, y_ctx: None }
    }

    pub open spec fn holds(self, a: T, b: T) -> bool {
        &&& self.x_ctx == Some(a)
        &&& self.y_ctx == Some(b)
        &&& matmul_fits(a.shape_of(), b.shape_of())
        &&& T::mat_product(a, b).shape_of() == seq![a.shape_of()[0], b.shape_of()[1]]
    }

    pub open spec fn ready_for(self, g: T) -> bool {
        &&& self.x_ctx is Some
        &&& self.y_ctx is Some
        &&& matmul_fits(self.x_ctx->Some_0.shape_of(), self.y_ctx->Some_0.shape_of())
        &&& g.shape_of() == seq![
            self.x_ctx->Some_0.shape_of()[0],
            self.y_ctx->Some_0.shape_of()[1],
        ]
    }

    pub fn forward(&mut self, t_a: &T, t_b: &T) -> (r: Result<T, GraphError>)
        ensures
            r == (if matmul_fits(t_a.shape_of(), t_b.shape_of()) {
                Ok(T::mat_product(*t_a, *t_b))
            } else {
                Err(GraphError::ShapeMismatch)
            }),
            r is Ok ==> final(self).holds(*t_a, *t_b),
            r is Err ==> *final(self) == *old(self),
    {
        let sa = t_a.shape();
        let sb = t_b.shape();
        if matmul_shapes_fit(&sa, &sb) {
            self.x_ctx = Some(t_a.duplicate());
            self.y_ctx = Some(t_b.duplicate());
            Ok(t_a.matmul(t_b))
        } else {
            Err(GraphError::ShapeMismatch)
        }
    }

    /// `grad_a = g·bᵗ` and `grad_b = aᵗ·g`.
    pub fn backward(&self, grad: &T) -> (r: [Option<T>; 2])
        requires
            self.ready_for(*grad),
        ensures
            r@[0] == Some(T::mat_product(*grad, T::transposed(self.y_ctx->Some_0))),
            r@[1] == Some(T::mat_product(T::transposed(self.x_ctx->Some_0), *grad)),
            r@[0]->Some_0.shape_of() == self.x_ctx->Some_0.shape_of(),
            r@[1]->Some_0.shape_of() == self.y_ctx->Some_0.shape_of(),
    {
        let x_t = self.x_ctx.as_ref().unwrap().t();
        let y_t = self.y_ctx.as_ref().unwrap().t();
        let a = grad.matmul(&y_t);
        let b = x_t.matmul(grad);
        assert(a.shape_of() =~= self.x_ctx->Some_0.shape_of());
        assert(b.shape_of() =~= self.y_ctx->Some_0.shape_of());
        [Some(a), Some(b)]
    }
}

impl<T: TensorType> ExpM<T> {
    pub fn new() -> (r: Self)
        ensures
            r.a is None,
            r.res is None,
    {
        ExpM { a: None, res: None }
    }

    pub open spec fn holds(self, a: T) -> bool {
        &&& self.a == Some(a)
        &&& is_square(a.shape_of())
        &&& self.res == Some(expm_output(a))
        &&& expm_output(a).shape_of() == a.shape_of()
    }

    pub open spec fn ready_for(self, g: T) -> bool {
        &&& self.a is Some
        &&& self.res is Some
        &&& is_square(self.a->Some_0.shape_of())
        &&& self.res->Some_0.shape_of() == self.a->Some_0.shape_of()
        &&& g.shape_of() == self.a->Some_0.shape_of()
    }

    pub fn forward(&mut self, t_a: &T) -> (r: Result<T, GraphError>)
        ensures
            r == (if is_square(t_a.shape_of()) {
                Ok(expm_output(*t_a))
            } else {
                Err(GraphError::ShapeMismatch)
            }),
            r is Ok ==> final(self).holds(*t_a),
            r is Err ==> *final(self) == *old(self),
    {
        let sa = t_a.shape();
        if square_shape(&sa) {
            let eye = t_a.eye_like();
            let e = t_a.expm();
            assert(eye.shape_of() =~= t_a.shape_of());
            let t_out = eye.mul(&e);
            self.a = Some(t_a.duplicate());
            self.res = Some(t_out.duplicate());
            Ok(t_out)
        } else {
            Err(GraphError::ShapeMismatch)
        }
    }

    /// Derivative of the exponential map through a fixed-order truncated
    /// commutator series: `res · (g + Σ_{k=2..6} [a, ·]^(k−1)(g) / ((−1)^(k+1) k!))`.
    pub fn backward(&self, grad: &T) -> (r: [Option<T>; 2])
        requires
            self.ready_for(*grad),
        ensures
            r@[0] == Some(expm_gradient(self.a->Some_0, self.res->Some_0, *grad)),
            r@[1] is None,
            r@[0]->Some_0.shape_of() == self.a->Some_0.shape_of(),
    {
        let a = self.a.as_ref().unwrap();
        let res = self.res.as_ref().unwrap();
        let ghost sh = a.shape_of();
        let mut p_commu = grad.duplicate();
        let mut total = grad.duplicate();
        let mut fact: i64 = 1;
        let mut o: u64 = 2;
        proof {
            lemma_small_factorials();
        }
        while o <= SERIES_ORDER
            invariant
                2 <= o <= SERIES_ORDER + 1,
                is_square(sh),
                sh == a.shape_of(),
                fact as int == factorial((o - 1) as nat),
                p_commu == nested_commutator(*a, *grad, (o - 2) as nat),
                total == series_total(*a, *grad, (o - 1) as nat),
                p_commu.shape_of() == sh,
                total.shape_of() == sh,
            decreases SERIES_ORDER + 1 - o,
        {
            proof {
                lemma_small_factorials();
            }
            assert(1 <= fact <= 120);
            assert(fact * (o as int) <= 720) by (nonlinear_arith)
                requires
                    1 <= fact <= 120,
                    o <= 6,
            ;
            assert(factorial(o as nat) == o * factorial((o - 1) as nat));
            fact = fact * (o as i64);
            let factor: i64 = if o % 2 == 0 { -1 } else { 1 };
            let left = a.matmul(&p_commu);
            let right = p_commu.matmul(a);
            assert(left.shape_of() =~= sh);
            assert(right.shape_of() =~= sh);
            let new_commu = left.sub(&right);
            assert(new_commu == nested_commutator(*a, *grad, (o - 1) as nat));
            p_commu = new_commu.duplicate();
            let fac_mat = a.val_like(factor * fact);
            assert((factor * fact) as int == series_divisor(o as nat));
            total = total.add(&new_commu.div(&fac_mat));
            assert(total == series_total(*a, *grad, o as nat));
            o = o + 1;
        }
        let g = res.matmul(&total);
        assert(g.shape_of() =~= sh);
        [Some(g), None]
    }
}

/// The single-operand operations.
pub enum OneValuedFn<T> {
    ExpM(ExpM<T>),
}

/// The two-operand operations.
pub enum TwoValuedFn<T> {
    Add(Add),
    Mul(Mul<T>),
    MatMul(MatMul<T>),
}

/// The operation that produces a node: none for a leaf, or one of the
/// catalog's operations with the state it keeps between passes.
pub enum Function<T> {
    Leaf,
    One(OneValuedFn<T>),
    Two(TwoValuedFn<T>),
}

/// Which operation a node records, without its state.
#[derive(PartialEq, Eq, Structural, Clone, Copy, Debug)]
pub enum OpKind {
    Leaf,
    ExpM,
    Add,
    Mul,
    MatMul,
}

/// Whether an operation of kind `k` accepts operands of shapes `sa` and `sb`
/// (`sb` is ignored by single-operand operations).
pub open spec fn accepts(k: OpKind, sa: Seq<usize>, sb: Seq<usize>) -> bool {
    match k {
        OpKind::Leaf => true,
        OpKind::ExpM => is_square(sa),
        OpKind::Add => sa == sb,
        OpKind::Mul => sa == sb,
        OpKind::MatMul => matmul_fits(sa, sb),
    }
}

/// The value that an operation of kind `k` computes from its operands.
pub open spec fn apply<T: TensorType>(k: OpKind, a: T, b: T) -> T {
    match k {
        OpKind::Leaf => a,
        OpKind::ExpM => expm_output(a),
        OpKind::Add => T::sum(a, b),
        OpKind::Mul => T::product(a, b),
        OpKind::MatMul => T::mat_product(a, b),
    }
}

/// The gradients that an operation of kind `k` on operands `a` and `b` hands
/// to each operand slot, given the gradient `g` of its result.
pub open spec fn partials<T: TensorType>(k: OpKind, a: T, b: T, g: T) -> (Option<T>, Option<T>) {
    match k {
        OpKind::Leaf => (None, None),
        OpKind::ExpM => (Some(expm_gradient(a, expm_output(a), g)), None),
        OpKind::Add => (Some(g), Some(g)),
        OpKind::Mul => (Some(T::product(b, g)), Some(T::product(a, g))),
        OpKind::MatMul => (
            Some(T::mat_product(g, T::transposed(b))),
            Some(T::mat_product(T::transposed(a), g)),
        ),
    }
}

/// The operation of kind `k` as it is recorded, before any pass: no cached
/// operands or result.
pub open spec fn fresh<T>(k: OpKind) -> Function<T> {
    match k {
        OpKind::Leaf => Function::Leaf,
        OpKind::ExpM => Function::One(OneValuedFn::ExpM(ExpM { a: None, res: None })),
        OpKind::Add => Function::Two(TwoValuedFn::Add(Add)),
        OpKind::Mul => Function::Two(TwoValuedFn::Mul(Mul { x_ctx: None, y_ctx: None })),
        OpKind::MatMul => Function::Two(TwoValuedFn::MatMul(MatMul { x_ctx: None, y_ctx: None })),
    }
}

impl<T: TensorType> Function<T> {
    pub open spec fn kind(self) -> OpKind {
        match self {
            Function::Leaf => OpKind::Leaf,
            Function::One(OneValuedFn::ExpM(_)) => OpKind::ExpM,
            Function::Two(TwoValuedFn::Add(_)) => OpKind::Add,
            Function::Two(TwoValuedFn::Mul(_)) => OpKind::Mul,
            Function::Two(TwoValuedFn::MatMul(_)) => OpKind::MatMul,
        }
    }

    /// The operation's state is that of a completed forward pass on `a` and
    /// `b`, whose result has the shape that the operation gives it.
    pub open spec fn holds(self, a: T, b: T) -> bool {
        match self {
            Function::Leaf => true,
            Function::One(OneValuedFn::ExpM(e)) => e.holds(a),
            Function::Two(TwoValuedFn::Add(_)) => {
                a.shape_of() == b.shape_of() && T::sum(a, b).shape_of() == a.shape_of()
            },
            Function::Two(TwoValuedFn::Mul(m)) => m.holds(a, b),
            Function::Two(TwoValuedFn::MatMul(m)) => m.holds(a, b),
        }
    }

    /// Runs the operation forward on `t_a` (and `t_b` for two operands).
    pub fn forward(&mut self, t_a: &T, t_b: &T) -> (r: Result<T, GraphError>)
        requires
            old(self).kind() != OpKind::Leaf,
        ensures
            r == (if accepts(old(self).kind(), t_a.shape_of(), t_b.shape_of()) {
                Ok(apply(old(self).kind(), *t_a, *t_b))
            } else {
                Err(GraphError::ShapeMismatch)
            }),
            final(self).kind() == old(self).kind(),
            r is Ok ==> final(self).holds(*t_a, *t_b),
            r is Err ==> *final(self) == *old(self),
    {
        match self {
            Function::Leaf => Err(GraphError::ShapeMismatch),
            Function::One(OneValuedFn::ExpM(e)) => e.forward(t_a),
            Function::Two(TwoValuedFn::Add(f)) => f.forward(t_a, t_b),
            Function::Two(TwoValuedFn::Mul(f)) => f.forward(t_a, t_b),
            Function::Two(TwoValuedFn::MatMul(f)) => f.forward(t_a, t_b),
        }
    }

    /// Runs the operation backward on the gradient of its result, after a
    /// forward pass on `a` and `b`.
    pub fn backward(&self, grad: &T, a: Ghost<T>, b: Ghost<T>) -> (r: [Option<T>; 2])
        requires
            self.kind() != OpKind::Leaf,
            self.holds(a@, b@),
            grad.shape_of() == apply(self.kind(), a@, b@).shape_of(),
        ensures
            r@[0] == partials(self.kind(), a@, b@, *grad).0,
            r@[1] == partials(self.kind(), a@, b@, *grad).1,
            r@[0] is Some ==> r@[0]->Some_0.shape_of() == a@.shape_of(),
            r@[1] is Some ==> r@[1]->Some_0.shape_of() == b@.shape_of(),
    {
        match self {
            Function::Leaf => [None, None],
            Function::One(OneValuedFn::ExpM(e)) => e.backward(grad),
            Function::Two(TwoValuedFn::Add(f)) => f.backward(grad),
            Function::Two(TwoValuedFn::Mul(f)) => f.backward(grad),
            Function::Two(TwoValuedFn::MatMul(f)) => f.backward(grad),
        }
    }
}

} // verus!
