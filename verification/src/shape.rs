use crate::error::Error;
use vstd::prelude::*;

verus! {

/// A two-component non-negative extent: `width` columns by `height` rows.
///
/// A shape both describes the dimensions of a row-major activation buffer
/// (whose flat length is `width * height`) and takes part in the componentwise
/// subtraction that sizes a valid-mode convolution's output.
#[derive(Clone, Copy, Debug, PartialEq, Eq, Structural)]
pub struct Shape {
    pub width: usize,
    pub height: usize,
}

impl Shape {
    /// A shape is well formed when the buffer length it describes fits the
    /// machine's word size.
    pub open spec fn wf(self) -> bool {
        self.width * self.height <= usize::MAX
    }

    /// The flat length of a row-major buffer with this shape, in spec terms.
    pub open spec fn spec_product(self) -> int {
        self.width * self.height
    }

    pub fn new(width: usize, height: usize) -> (r: Shape)
        requires
            width * height <= usize::MAX,
        ensures
            r == (Shape { width, height }),
            r.wf(),
    {
        Shape { width, height }
    }

    /// Number of elements in a buffer of this shape.
    pub fn product(&self) -> (r: usize)
        requires
            self.wf(),
        ensures
            r == self.spec_product(),
    {
        self.width * self.height
    }

    /// Componentwise difference, used for convolution output sizing.
    ///
    /// Returns `Error::ShapeError` exactly when some component of `other`
    /// exceeds the corresponding component of `self`: a kernel larger than
    /// its input must be rejected, never silently underflowed.
    pub fn subtract(self, other: Shape) -> (r: Result<Shape, Error>)
        ensures
            self.width >= other.width && self.height >= other.height ==> r == Ok::<
                Shape,
                Error,
            >(
                Shape {
                    width: (self.width - other.width) as usize,
                    height: (self.height - other.height) as usize,
                },
            ),
            !(self.width >= other.width && self.height >= other.height) ==> r == Err::<
                Shape,
                Error,
            >(Error::ShapeError { minuend: self, subtrahend: other }),
    {
        if self.width >= other.width && self.height >= other.height {
            Ok(Shape { width: self.width - other.width, height: self.height - other.height })
        } else {
            Err(Error::ShapeError { minuend: self, subtrahend: other })
        }
    }
}

} // verus!
