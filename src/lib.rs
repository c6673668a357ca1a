//! Reverse-mode automatic differentiation over a recorded tape of tensor
//! operations.
//!
//! A [`Graph`] holds the tape. Leaves are created with [`Graph::tensor`],
//! operations are appended through the methods of [`tensor::Tensor`], and the
//! forward and backward passes walk the tape in index order. The numeric work
//! is done by a storage backend through [`tensor::TensorType`].
pub mod error;
pub mod functions;
pub mod graph;
pub mod tensor;
pub mod theorems;

pub use error::GraphError;
pub use graph::Graph;
