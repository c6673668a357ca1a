use ndarray::{arr1, arr2, Array, ArrayD, Ix2};
use rust_grad::functions::{Add, ExpM, MatMul, Mul};
use rust_grad::tensor::{Tensor, TensorType};
use rust_grad::{Graph, GraphError};

/// Host-array backend for the engine.
#[derive(Clone, Debug, PartialEq)]
struct Dense(ArrayD<f32>);

fn two_d(a: &ArrayD<f32>) -> ndarray::Array2<f32> {
    a.clone().into_dimensionality::<Ix2>().expect("not a matrix")
}

impl TensorType for Dense {
    type Host = ArrayD<f32>;
    fn shape(&self) -> Vec<usize> {
        self.0.shape().to_vec()
    }
    fn duplicate(&self) -> Self {
        self.clone()
    }
    fn get_value_cpu(&self) -> ArrayD<f32> {
        self.0.clone()
    }
    fn add(&self, other: &Self) -> Self {
        Dense(&self.0 + &other.0)
    }
    fn sub(&self, other: &Self) -> Self {
        Dense(&self.0 - &other.0)
    }
    fn mul(&self, other: &Self) -> Self {
        Dense(&self.0 * &other.0)
    }
    fn div(&self, other: &Self) -> Self {
        Dense(&self.0 / &other.0)
    }
    fn matmul(&self, other: &Self) -> Self {
        Dense(two_d(&self.0).dot(&two_d(&other.0)).into_dyn())
    }
    fn t(&self) -> Self {
        Dense(self.0.clone().reversed_axes())
    }
    fn expm(&self) -> Self {
        Dense(self.0.mapv(|x| x.exp()))
    }
    fn val_like(&self, val: i64) -> Self {
        Dense(Array::ones(self.0.shape()) * (val as f32))
    }
    fn ones_like(&self) -> Self {
        Dense(Array::ones(self.0.shape()))
    }
    fn eye_like(&self) -> Self {
        Dense(Array::eye(self.0.shape()[0]).into_dyn())
    }
}

fn v1(x: &[f32]) -> Dense {
    Dense(arr1(x).into_dyn())
}

fn m3(x: [[f32; 3]; 3]) -> Dense {
    Dense(arr2(&x).into_dyn())
}

fn close(a: &ArrayD<f32>, b: &ArrayD<f32>) -> bool {
    a.shape() == b.shape() && a.iter().zip(b.iter()).all(|(x, y)| (x - y).abs() <= 1e-3 * (1.0 + y.abs()))
}

#[test]
fn scenario_add_reuse() {
    let mut g = Graph::new();
    let x = g.tensor(v1(&[1.0, 2.0]));
    let y = g.tensor(v1(&[3.0, 4.0]));
    let z = x.add(y, &mut g).unwrap();
    let w = z.add(x, &mut g).unwrap();
    assert_eq!(g.len(), 4);
    assert_eq!(g.dependencies(), vec![[0, 0], [1, 1], [0, 1], [2, 0]]);
    w.forward(&mut g).unwrap();
    assert_eq!(z.value(&g).unwrap(), arr1(&[4.0, 6.0]).into_dyn());
    assert_eq!(w.value(&g).unwrap(), arr1(&[5.0, 8.0]).into_dyn());
    w.backward(&mut g, v1(&[1.0, 1.0])).unwrap();
    assert_eq!(w.grad(&g).unwrap(), arr1(&[1.0, 1.0]).into_dyn());
    assert_eq!(z.grad(&g).unwrap(), arr1(&[1.0, 1.0]).into_dyn());
    assert_eq!(x.grad(&g).unwrap(), arr1(&[2.0, 2.0]).into_dyn());
    assert_eq!(y.grad(&g).unwrap(), arr1(&[1.0, 1.0]).into_dyn());
}

#[test]
fn scenario_matmul_then_mul() {
    let xv = arr2(&[[1.0f32, 2.0, 3.0], [4.0, 5.0, 6.0], [7.0, 8.0, 9.0]]);
    let yv = arr2(&[[1.0f32, 2.0, 1.0], [2.0, 3.0, 2.0], [3.0, 4.0, 3.0]]);
    let mut g = Graph::new();
    let x = g.tensor(Dense(xv.clone().into_dyn()));
    let y = g.tensor(Dense(yv.clone().into_dyn()));
    let m = x.matmul(y, &mut g).unwrap();
    let z = m.mul(x, &mut g).unwrap();
    z.forward(&mut g).unwrap();
    let mv = xv.dot(&yv);
    assert_eq!(mv, arr2(&[[14.0, 20.0, 14.0], [32.0, 47.0, 32.0], [50.0, 74.0, 50.0]]));
    let zv = &mv * &xv;
    assert_eq!(z.value(&g).unwrap(), zv.clone().into_dyn());
    assert_eq!(z.value(&g).unwrap(), arr2(&[[14.0, 40.0, 42.0], [128.0, 235.0, 192.0], [350.0, 592.0, 450.0]]).into_dyn());

    let ones = Array::<f32, _>::ones((3, 3));
    z.backward(&mut g, Dense(ones.clone().into_dyn())).unwrap();
    // Mul: the matrix product's gradient is x * g, x's share through Mul is m * g.
    let grad_m = &xv * &ones;
    assert_eq!(m.grad(&g).unwrap(), grad_m.clone().into_dyn());
    // MatMul: grad_x += grad_m · yᵗ, grad_y = xᵗ · grad_m.
    let grad_x = &(&mv * &ones) + &grad_m.dot(&yv.t());
    let grad_y = xv.t().dot(&grad_m);
    assert!(close(&x.grad(&g).unwrap(), &grad_x.into_dyn()));
    assert!(close(&y.grad(&g).unwrap(), &grad_y.into_dyn()));
    assert_eq!(y.grad(&g).unwrap(), arr2(&[[66.0, 78.0, 90.0], [78.0, 93.0, 108.0], [90.0, 108.0, 126.0]]).into_dyn());
}

#[test]
fn accumulation_matches_separate_graphs() {
    let xv = v1(&[1.5, -2.0, 3.0]);
    let cv = v1(&[2.0, 4.0, -1.0]);
    let dv = v1(&[0.5, 0.5, 0.5]);
    let seed = v1(&[1.0, 1.0, 1.0]);

    let mut g = Graph::new();
    let x = g.tensor(xv.clone());
    let c = g.tensor(cv.clone());
    let d = g.tensor(dv.clone());
    let p = x.mul(c, &mut g).unwrap();
    let q = x.add(d, &mut g).unwrap();
    let s = p.add(q, &mut g).unwrap();
    s.forward(&mut g).unwrap();
    s.backward(&mut g, seed.clone()).unwrap();
    let together = x.grad(&g).unwrap();

    let mut g1 = Graph::new();
    let x1 = g1.tensor(xv.clone());
    let c1 = g1.tensor(cv.clone());
    let p1 = x1.mul(c1, &mut g1).unwrap();
    p1.forward(&mut g1).unwrap();
    p1.backward(&mut g1, seed.clone()).unwrap();

    let mut g2 = Graph::new();
    let x2 = g2.tensor(xv);
    let d2 = g2.tensor(dv);
    let q2 = x2.add(d2, &mut g2).unwrap();
    q2.forward(&mut g2).unwrap();
    q2.backward(&mut g2, seed).unwrap();

    let apart = &x1.grad(&g1).unwrap() + &x2.grad(&g2).unwrap();
    assert!(close(&together, &apart));
    assert_eq!(together, arr1(&[3.0, 5.0, 0.0]).into_dyn());
}

#[test]
fn add_backward_passes_gradient() {
    let gr = v1(&[0.25, -3.0]);
    let parts = Add.backward(&gr);
    assert_eq!(parts[0], Some(gr.clone()));
    assert_eq!(parts[1], Some(gr));
    let out = Add.forward(&v1(&[1.0, 2.0]), &v1(&[3.0, 5.0])).unwrap();
    assert_eq!(out, v1(&[4.0, 7.0]));
    assert_eq!(Add.forward(&v1(&[1.0, 2.0]), &v1(&[3.0])), Err(GraphError::ShapeMismatch));
}

#[test]
fn mul_backward_swaps_operands() {
    let mut op = Mul::new();
    let a = v1(&[2.0, 3.0]);
    let b = v1(&[5.0, 7.0]);
    let out = op.forward(&a, &b).unwrap();
    assert_eq!(out, v1(&[10.0, 21.0]));
    let parts = op.backward(&v1(&[1.0, 2.0]));
    assert_eq!(parts[0], Some(v1(&[5.0, 14.0])));
    assert_eq!(parts[1], Some(v1(&[2.0, 6.0])));
    let mut fresh = Mul::<Dense>::new();
    assert_eq!(fresh.forward(&a, &v1(&[1.0])), Err(GraphError::ShapeMismatch));
    assert!(fresh.x_ctx.is_none());
}

#[test]
fn matmul_shapes_and_gradients() {
    let mut op = MatMul::new();
    let a = Dense(arr2(&[[1.0f32, 2.0, 3.0], [4.0, 5.0, 6.0]]).into_dyn());
    let b = Dense(arr2(&[[1.0f32, 0.0], [0.0, 1.0], [1.0, 1.0]]).into_dyn());
    let out = op.forward(&a, &b).unwrap();
    assert_eq!(out.0.shape(), &[2, 2]);
    assert_eq!(out, Dense(arr2(&[[4.0, 5.0], [10.0, 11.0]]).into_dyn()));
    let gr = Dense(arr2(&[[1.0f32, 0.0], [0.0, 2.0]]).into_dyn());
    let parts = op.backward(&gr);
    assert_eq!(parts[0], Some(Dense(arr2(&[[1.0, 0.0, 1.0], [0.0, 2.0, 2.0]]).into_dyn())));
    assert_eq!(parts[1], Some(Dense(arr2(&[[1.0, 8.0], [2.0, 10.0], [3.0, 12.0]]).into_dyn())));

    let mut bad = MatMul::new();
    assert_eq!(bad.forward(&v1(&[1.0, 2.0]), &b), Err(GraphError::ShapeMismatch));
    assert_eq!(bad.forward(&a, &a), Err(GraphError::ShapeMismatch));
}

#[test]
fn matmul_rank_error_through_forward() {
    let mut g = Graph::new();
    let x = g.tensor(v1(&[1.0, 2.0]));
    let y = g.tensor(v1(&[3.0, 4.0]));
    let s = x.add(y, &mut g).unwrap();
    let z = x.matmul(y, &mut g).unwrap();
    assert_eq!(z.forward(&mut g), Err(GraphError::ShapeMismatch));
    // The node evaluated before the failing one keeps its value.
    assert_eq!(s.value(&g).unwrap(), arr1(&[4.0, 6.0]).into_dyn());
    assert_eq!(z.value(&g), Err(GraphError::NotComputed));
}

#[test]
fn expm_of_diagonal() {
    let mut g = Graph::new();
    let x = g.tensor(m3([[1.0, 0.0, 0.0], [0.0, 1.0, 0.0], [0.0, 0.0, 2.0]]));
    let z = x.expm(&mut g).unwrap();
    assert_eq!(g.dependencies(), vec![[0, 0], [0, 1]]);
    z.forward(&mut g).unwrap();
    let e = 1.0f32.exp();
    let e2 = 2.0f32.exp();
    let want = arr2(&[[e, 0.0, 0.0], [0.0, e, 0.0], [0.0, 0.0, e2]]).into_dyn();
    assert!(close(&z.value(&g).unwrap(), &want));

    // A diagonal seed commutes with a diagonal operand: every commutator
    // vanishes and the gradient is the result times the seed.
    let seed = m3([[1.0, 0.0, 0.0], [0.0, 2.0, 0.0], [0.0, 0.0, 3.0]]);
    z.backward(&mut g, seed).unwrap();
    let want_grad = arr2(&[[e, 0.0, 0.0], [0.0, 2.0 * e, 0.0], [0.0, 0.0, 3.0 * e2]]).into_dyn();
    assert!(close(&x.grad(&g).unwrap(), &want_grad));
}

#[test]
fn expm_backward_series() {
    let a = arr2(&[[0.5f32, 0.0], [0.0, -0.25]]);
    let gr = arr2(&[[1.0f32, 1.0], [1.0, 1.0]]);
    let mut op = ExpM::new();
    let res = op.forward(&Dense(a.clone().into_dyn())).unwrap();
    let parts = op.backward(&Dense(gr.clone().into_dyn()));
    assert!(parts[1].is_none());

    // g + Σ_{k=2..6} [a, ·]^(k−1)(g) / ((−1)^(k+1) k!), then res · total.
    let mut c = gr.clone();
    let mut total = gr.clone();
    let mut fact = 1.0f32;
    for k in 2..7 {
        fact *= k as f32;
        c = &a.dot(&c) - &c.dot(&a);
        let div = if k % 2 == 0 { -fact } else { fact };
        total = &total + &(&c / div);
    }
    let want = two_d(&res.0).dot(&total);
    assert!(close(&parts[0].clone().unwrap().0, &want.into_dyn()));
    // The off-diagonal commutator terms do not vanish here.
    assert!((total[[0, 1]] - 1.0).abs() > 1e-3);

    let mut bad = ExpM::<Dense>::new();
    let rect = Dense(arr2(&[[1.0f32, 2.0, 3.0], [4.0, 5.0, 6.0]]).into_dyn());
    assert_eq!(bad.forward(&rect), Err(GraphError::ShapeMismatch));
    assert_eq!(bad.forward(&v1(&[1.0])), Err(GraphError::ShapeMismatch));
}

#[test]
fn forward_twice_gives_same_values() {
    let mut g = Graph::new();
    let x = g.tensor(m3([[1.0, 2.0, 3.0], [4.0, 5.0, 6.0], [7.0, 8.0, 9.0]]));
    let y = g.tensor(m3([[1.0, 2.0, 1.0], [2.0, 3.0, 2.0], [3.0, 4.0, 3.0]]));
    let m = x.matmul(y, &mut g).unwrap();
    let z = m.mul(x, &mut g).unwrap();
    z.forward(&mut g).unwrap();
    let first = z.value(&g).unwrap();
    let first_m = m.value(&g).unwrap();
    z.forward(&mut g).unwrap();
    assert_eq!(z.value(&g).unwrap(), first);
    assert_eq!(m.value(&g).unwrap(), first_m);
}

#[test]
fn reads_before_passes_fail() {
    let mut g = Graph::new();
    let x = g.tensor(v1(&[1.0, 2.0]));
    let y = g.tensor(v1(&[3.0, 4.0]));
    let z = x.add(y, &mut g).unwrap();
    assert_eq!(z.value(&g), Err(GraphError::NotComputed));
    assert_eq!(z.grad(&g), Err(GraphError::NotComputed));
    assert_eq!(x.grad(&g), Err(GraphError::NotComputed));
    assert_eq!(x.value(&g).unwrap(), arr1(&[1.0, 2.0]).into_dyn());
    assert_eq!(z.backward(&mut g, v1(&[1.0, 1.0])), Err(GraphError::NotComputed));
    z.forward(&mut g).unwrap();
    assert_eq!(z.grad(&g), Err(GraphError::NotComputed));
}

#[test]
fn foreign_and_mismatched_handles() {
    let mut g = Graph::new();
    let x = g.tensor(v1(&[1.0, 2.0]));
    let y = g.tensor(v1(&[1.0, 2.0, 3.0]));
    let stranger = Tensor { graph: x.graph, index: 7 };
    assert_eq!(x.add(stranger, &mut g), Err(GraphError::ForeignHandle));
    assert_eq!(stranger.mul(x, &mut g), Err(GraphError::ForeignHandle));
    assert_eq!(stranger.expm(&mut g), Err(GraphError::ForeignHandle));
    assert_eq!(stranger.forward(&mut g), Err(GraphError::ForeignHandle));
    assert_eq!(stranger.value(&g), Err(GraphError::ForeignHandle));
    assert_eq!(stranger.grad(&g), Err(GraphError::ForeignHandle));
    assert_eq!(g.len(), 2);

    let s = x.add(y, &mut g).unwrap();
    assert_eq!(s.index, 2);
    assert_eq!(s.forward(&mut g), Err(GraphError::ShapeMismatch));
    assert_eq!(x.backward(&mut g, v1(&[1.0])), Err(GraphError::ShapeMismatch));
}

#[test]
fn backward_from_leaf_and_repeated_backward() {
    let mut g = Graph::new();
    let x = g.tensor(v1(&[1.0, 2.0]));
    let y = g.tensor(v1(&[3.0, 4.0]));
    let z = x.mul(y, &mut g).unwrap();
    z.forward(&mut g).unwrap();
    z.backward(&mut g, v1(&[1.0, 1.0])).unwrap();
    assert_eq!(x.grad(&g).unwrap(), arr1(&[3.0, 4.0]).into_dyn());
    // A second pass adds to the gradients already held by the operands.
    z.backward(&mut g, v1(&[1.0, 1.0])).unwrap();
    assert_eq!(x.grad(&g).unwrap(), arr1(&[6.0, 8.0]).into_dyn());
    assert_eq!(z.grad(&g).unwrap(), arr1(&[1.0, 1.0]).into_dyn());
    // Seeding a leaf sets only that leaf's gradient.
    y.backward(&mut g, v1(&[5.0, 5.0])).unwrap();
    assert_eq!(y.grad(&g).unwrap(), arr1(&[5.0, 5.0]).into_dyn());
}

#[test]
fn handles_of_another_graph_are_rejected() {
    let mut g = Graph::new();
    let x = g.tensor(v1(&[1.0, 2.0]));
    let y = g.tensor(v1(&[3.0, 4.0]));
    let mut other = Graph::new();
    let o = other.tensor(v1(&[5.0, 6.0]));
    assert_eq!(o.index, x.index);
    assert_ne!(o.graph, x.graph);
    assert_eq!(x.add(o, &mut g), Err(GraphError::ForeignHandle));
    assert_eq!(o.mul(y, &mut g), Err(GraphError::ForeignHandle));
    assert_eq!(x.matmul(o, &mut g), Err(GraphError::ForeignHandle));
    assert_eq!(o.expm(&mut g), Err(GraphError::ForeignHandle));
    assert_eq!(o.forward(&mut g), Err(GraphError::ForeignHandle));
    assert_eq!(o.value(&g), Err(GraphError::ForeignHandle));
    assert_eq!(o.grad(&g), Err(GraphError::ForeignHandle));
    assert_eq!(o.backward(&mut g, v1(&[1.0, 1.0])), Err(GraphError::ForeignHandle));
    assert_eq!(g.len(), 2);
    assert_eq!(other.len(), 1);
    assert_eq!(o.value(&other).unwrap(), arr1(&[5.0, 6.0]).into_dyn());
}

#[test]
fn unreached_node_has_zero_gradient_after_backward() {
    let mut g = Graph::new();
    let x = g.tensor(v1(&[1.0, 2.0]));
    let y = g.tensor(v1(&[3.0, 4.0]));
    let h = g.tensor(v1(&[7.0, 8.0, 9.0]));
    let s = x.add(y, &mut g).unwrap();
    assert_eq!(h.grad(&g), Err(GraphError::NotComputed));
    s.forward(&mut g).unwrap();
    assert_eq!(h.grad(&g), Err(GraphError::NotComputed));
    s.backward(&mut g, v1(&[1.0, 1.0])).unwrap();
    assert_eq!(h.grad(&g).unwrap(), arr1(&[0.0, 0.0, 0.0]).into_dyn());
    assert_eq!(x.grad(&g).unwrap(), arr1(&[1.0, 1.0]).into_dyn());
    // A node recorded after the pass was not visited by it.
    let t = s.add(x, &mut g).unwrap();
    t.forward(&mut g).unwrap();
    assert_eq!(t.grad(&g), Err(GraphError::NotComputed));
}
