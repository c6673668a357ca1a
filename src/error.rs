use vstd::prelude::*;

verus! {

/// Why a graph operation did not complete.
#[derive(Debug, Clone, Copy, PartialEq, Eq, Structural)]
pub enum GraphError {
    /// A value or gradient was read before the pass that produces it ran.
    NotComputed,
    /// A handle does not refer to a node of the graph it was used with.
    ForeignHandle,
    /// Operand shapes or ranks do not fit the operation.
    ShapeMismatch,
}

} // verus!
