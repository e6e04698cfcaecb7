use crate::shape::Shape;
use vstd::prelude::*;

verus! {

/// Failure raised by shape arithmetic, stage binding, or evaluation.
///
/// Both kinds are terminal for the call that raises them: nothing is retried
/// and no partial result is produced.
#[derive(Clone, Copy, Debug, PartialEq, Eq, Structural)]
pub enum Error {
    /// A buffer's length disagrees with the length the declared shape calls
    /// for. Reports both the expected and the actual length.
    ShapeMismatch { expected: usize, actual: usize },
    /// A shape computation was invalid: some component of the subtrahend
    /// exceeds the corresponding component of the minuend (a convolution
    /// kernel larger than the shape it is bound to, or a degenerate kernel
    /// with a zero component).
    ShapeError { minuend: Shape, subtrahend: Shape },
}

} // verus!
