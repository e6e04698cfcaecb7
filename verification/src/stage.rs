use crate::error::Error;
use crate::fixed::add_sat;
use crate::fixed::exp_fixed;
use crate::fixed::mul_fixed;
use crate::fixed::spec_add_sat;
use crate::fixed::spec_exp;
use crate::fixed::spec_mul_fixed;
use crate::fixed::SCALE;
use crate::shape::Shape;
use vstd::arithmetic::div_mod::lemma_fundamental_div_mod;
use vstd::arithmetic::div_mod::lemma_fundamental_div_mod_converse;
use vstd::arithmetic::div_mod::lemma_multiply_divide_lt;
use vstd::prelude::*;

verus! {

/// A buffer of `n` zero activations.
fn zeros(n: usize) -> (r: Vec<i64>)
    ensures
        r@.len() == n,
        forall|i: int| 0 <= i < n ==> r@[i] == 0i64,
{
    let mut v: Vec<i64> = Vec::new();
    let mut i: usize = 0;
    while i < n
        invariant
            i <= n,
            v@.len() == i,
            forall|k: int| 0 <= k < i ==> v@[k] == 0i64,
        decreases n - i,
    {
        v.push(0);
        i = i + 1;
    }
    v
}

/// The accumulator holding the first `j` kernel terms of the convolution
/// cell at output coordinate `(ox, oy)`: kernel offsets are visited in
/// row-major order, each product is a saturating fixed-point multiply, and
/// terms are combined with saturating addition.
pub open spec fn conv_cell(
    inp: Seq<i64>,
    ker: Seq<i64>,
    iw: int,
    kw: int,
    ox: int,
    oy: int,
    j: int,
) -> int
    decreases j,
{
    if j <= 0 {
        0
    } else {
        spec_add_sat(
            conv_cell(inp, ker, iw, kw, ox, oy, j - 1),
            spec_mul_fixed(
                inp[(ox + (j - 1) % kw) + (oy + (j - 1) / kw) * iw] as int,
                ker[j - 1] as int,
            ),
        )
    }
}

/// The accumulator holding the first `i` input terms of dense output `jout`:
/// the weight for input `i` and output `jout` sits at flat offset
/// `i + m * jout` of the input-major weight matrix.
pub open spec fn dense_cell(inp: Seq<i64>, w: Seq<i64>, m: int, jout: int, i: int) -> int
    decreases i,
{
    if i <= 0 {
        0
    } else {
        spec_add_sat(
            dense_cell(inp, w, m, jout, i - 1),
            spec_mul_fixed(inp[i - 1] as int, w[(i - 1) + m * jout] as int),
        )
    }
}

/// Sum of the fixed-point exponentials of a buffer's elements: the softmax
/// denominator.
pub open spec fn sum_exp(s: Seq<i64>) -> int
    decreases s.len(),
{
    if s.len() == 0 {
        0
    } else {
        sum_exp(s.drop_last()) + spec_exp(s.last() as int)
    }
}

/// What a bound convolution stage computes on a buffer of its input shape.
pub open spec fn spec_conv_eval(c: ConvolutionStage, inp: Seq<i64>) -> Seq<i64>
    recommends
        c.wf(),
        c.is_bound(),
{
    let iw = c.spec_input_shape().width as int;
    let kw = c.kernel_shape.width as int;
    let ow = c.spec_output_shape().width as int;
    let oh = c.spec_output_shape().height as int;
    let kcount = c.kernel_shape.spec_product();
    Seq::new(
        (ow * oh) as nat,
        |o: int| conv_cell(inp, c.kernel@, iw, kw, o % ow, o / ow, kcount) as i64,
    )
}

/// What a bound dense stage computes: a matrix-vector product with no bias.
pub open spec fn spec_dense_eval(d: DenseStage, inp: Seq<i64>) -> Seq<i64>
    recommends
        d.wf(),
        d.is_bound(),
{
    let m = d.spec_input_shape().spec_product();
    let n = d.output_shape.spec_product();
    Seq::new(n as nat, |jout: int| dense_cell(inp, d.weights@, m, jout, m) as i64)
}

/// What a rectified-linear stage computes: elementwise `max(x, 0)`.
pub open spec fn spec_relu_eval(inp: Seq<i64>) -> Seq<i64> {
    Seq::new(
        inp.len(),
        |k: int|
            if inp[k] < 0i64 {
                0i64
            } else {
                inp[k]
            },
    )
}

/// What a softmax stage computes: each element's fixed-point exponential,
/// normalized by the sum of all of them (floored fixed-point division),
/// then floored at the smallest positive fixed-point value, so that every
/// output of a non-empty buffer is strictly positive.
pub open spec fn spec_softmax_eval(inp: Seq<i64>) -> Seq<i64> {
    Seq::new(
        inp.len(),
        |k: int|
            ({
                let q = (spec_exp(inp[k] as int) * (SCALE as int)) / sum_exp(inp);
                if q < 1 {
                    1i64
                } else {
                    q as i64
                }
            }),
    )
}

/// Valid-mode 2-D convolution stage. The kernel extent is fixed at
/// construction; the kernel's coefficients never depend on the bound input
/// shape. The accumulated window sum is returned as is (no normalization by
/// the kernel's element count).
pub struct ConvolutionStage {
    /// Fixed kernel extent, set at construction.
    pub kernel_shape: Shape,
    /// Flat row-major kernel, `kernel_shape.product()` coefficients.
    pub kernel: Vec<i64>,
    /// Bound input extent; `None` until the stage joins a pipeline.
    pub input_shape: Option<Shape>,
}

impl ConvolutionStage {
    pub open spec fn is_bound(self) -> bool {
        self.input_shape is Some
    }

    pub open spec fn spec_input_shape(self) -> Shape
        recommends
            self.is_bound(),
    {
        match self.input_shape {
            Some(s) => s,
            None => Shape { width: 0, height: 0 },
        }
    }

    /// A shape accepts this kernel when the kernel is at least 1 by 1 and no
    /// larger than the shape in either dimension (valid-mode convolution
    /// never pads and never produces an output larger than its input).
    pub open spec fn binds(self, s: Shape) -> bool {
        1 <= self.kernel_shape.width <= s.width && 1 <= self.kernel_shape.height <= s.height
    }

    pub open spec fn wf(self) -> bool {
        &&& self.kernel_shape.wf()
        &&& self.kernel@.len() == self.kernel_shape.spec_product()
        &&& match self.input_shape {
            Some(s) => s.wf() && self.binds(s),
            None => true,
        }
    }

    pub open spec fn spec_output_shape(self) -> Shape
        recommends
            self.wf(),
            self.is_bound(),
    {
        Shape {
            width: (self.spec_input_shape().width - self.kernel_shape.width + 1) as usize,
            height: (self.spec_input_shape().height - self.kernel_shape.height + 1) as usize,
        }
    }

    pub open spec fn spec_bind_error(self, s: Shape) -> Error {
        Error::ShapeError { minuend: s, subtrahend: self.kernel_shape }
    }

    /// An unbound convolution stage with an all-zero kernel.
    pub fn new(kernel_shape: Shape) -> (r: ConvolutionStage)
        requires
            kernel_shape.wf(),
        ensures
            r.kernel_shape == kernel_shape,
            r.kernel@.len() == kernel_shape.spec_product(),
            forall|i: int| 0 <= i < r.kernel@.len() ==> r.kernel@[i] == 0i64,
            !r.is_bound(),
            r.wf(),
    {
        let n: usize = kernel_shape.product();
        ConvolutionStage { kernel_shape, kernel: zeros(n), input_shape: None }
    }

    /// An unbound convolution stage with the given kernel coefficients.
    pub fn with_kernel(kernel_shape: Shape, kernel: Vec<i64>) -> (r: ConvolutionStage)
        requires
            kernel_shape.wf(),
            kernel@.len() == kernel_shape.spec_product(),
        ensures
            r.kernel_shape == kernel_shape,
            r.kernel@ == kernel@,
            !r.is_bound(),
            r.wf(),
    {
        ConvolutionStage { kernel_shape, kernel, input_shape: None }
    }

    /// Fixes the input shape. A stage binds exactly once, on its way into a
    /// pipeline; no rebinding is exposed.
    pub fn bind_input_shape(&mut self, s: Shape) -> (r: Result<(), Error>)
        requires
            old(self).wf(),
            !old(self).is_bound(),
            s.wf(),
        ensures
            final(self).kernel_shape == old(self).kernel_shape,
            final(self).kernel@ == old(self).kernel@,
            old(self).binds(s) ==> r == Ok::<(), Error>(()) && final(self).input_shape == Some(s),
            !old(self).binds(s) ==> r == Err::<(), Error>(old(self).spec_bind_error(s)) && *final(
            self) == *old(self),
            final(self).wf(),
    {
        if 1 <= self.kernel_shape.width && self.kernel_shape.width <= s.width
            && 1 <= self.kernel_shape.height && self.kernel_shape.height <= s.height {
            self.input_shape = Some(s);
            Ok(())
        } else {
            Err(Error::ShapeError { minuend: s, subtrahend: self.kernel_shape })
        }
    }

    /// Output extent: input minus kernel plus one, componentwise.
    pub fn output_shape(&self) -> (r: Shape)
        requires
            self.wf(),
            self.is_bound(),
        ensures
            r == self.spec_output_shape(),
            r.wf(),
    {
        let s: Shape = self.input_shape.unwrap();
        let ow: usize = s.width - self.kernel_shape.width + 1;
        let oh: usize = s.height - self.kernel_shape.height + 1;
        proof {
            assert((ow as int) * (oh as int) <= (s.width as int) * (s.height as int))
                by (nonlinear_arith)
                requires
                    1 <= ow as int <= s.width as int,
                    1 <= oh as int <= s.height as int,
            ;
        }
        Shape::new(ow, oh)
    }

    /// Valid-mode convolution of one buffer.
    #[verifier::loop_isolation(false)]
    pub fn evaluate(&self, input: &Vec<i64>) -> (r: Result<Vec<i64>, Error>)
        requires
            self.wf(),
            self.is_bound(),
        ensures
            match r {
                Ok(out) => input@.len() == self.spec_input_shape().spec_product() && out@
                    == spec_conv_eval(*self, input@),
                Err(e) => input@.len() != self.spec_input_shape().spec_product() && e == (
                Error::ShapeMismatch {
                    expected: self.spec_input_shape().spec_product() as usize,
                    actual: input@.len() as usize,
                }),
            },
    {
        let s: Shape = self.input_shape.unwrap();
        let iw: usize = s.width;
        let ih: usize = s.height;
        let expected: usize = s.product();
        if input.len() != expected {
            return Err(Error::ShapeMismatch { expected, actual: input.len() });
        }
        let kw: usize = self.kernel_shape.width;
        let kh: usize = self.kernel_shape.height;
        let kcount: usize = self.kernel_shape.product();
        let osh: Shape = self.output_shape();
        let ow: usize = osh.width;
        let oh: usize = osh.height;
        let mut out: Vec<i64> = Vec::new();
        let mut oy: usize = 0;
        while oy < oh
            invariant
                oy <= oh,
                out@.len() == oy * ow,
                forall|o: int|
                    0 <= o < out@.len() ==> out@[o] == conv_cell(
                        input@,
                        self.kernel@,
                        iw as int,
                        kw as int,
                        o % (ow as int),
                        o / (ow as int),
                        kcount as int,
                    ) as i64,
            decreases oh - oy,
        {
            let mut ox: usize = 0;
            while ox < ow
                invariant
                    oy < oh,
                    ox <= ow,
                    out@.len() == oy * ow + ox,
                    forall|o: int|
                        0 <= o < out@.len() ==> out@[o] == conv_cell(
                            input@,
                            self.kernel@,
                            iw as int,
                            kw as int,
                            o % (ow as int),
                            o / (ow as int),
                            kcount as int,
                        ) as i64,
                decreases ow - ox,
            {
                let mut acc: i64 = 0;
                let mut j: usize = 0;
                while j < kcount
                    invariant
                        j <= kcount,
                        ox < ow,
                        oy < oh,
                        acc as int == conv_cell(
                            input@,
                            self.kernel@,
                            iw as int,
                            kw as int,
                            ox as int,
                            oy as int,
                            j as int,
                        ),
                    decreases kcount - j,
                {
                    let fx: usize = j % kw;
                    let fy: usize = j / kw;
                    proof {
                        lemma_multiply_divide_lt(j as int, kw as int, kh as int);
                    }
                    let ix: usize = ox + fx;
                    let iy: usize = oy + fy;
                    proof {
                        assert((iy as int) * (iw as int) + (ix as int) < (iw as int) * (ih as int))
                            by (nonlinear_arith)
                            requires
                                0 <= (ix as int) < (iw as int),
                                0 <= (iy as int) < (ih as int),
                        ;
                    }
                    let ii: usize = ix + iy * iw;
                    acc = add_sat(acc, mul_fixed(input[ii], self.kernel[j]));
                    j = j + 1;
                }
                out.push(acc);
                proof {
                    lemma_fundamental_div_mod_converse(
                        (oy * ow + ox) as int,
                        ow as int,
                        oy as int,
                        ox as int,
                    );
                }
                ox = ox + 1;
            }
            proof {
                assert(((oy + 1) as int) * (ow as int) == (oy as int) * (ow as int) + (ow as int))
                    by (nonlinear_arith);
            }
            oy = oy + 1;
        }
        proof {
            assert((oh as int) * (ow as int) == (ow as int) * (oh as int)) by (nonlinear_arith);
            assert(out@ =~= spec_conv_eval(*self, input@));
        }
        Ok(out)
    }
}

/// Dense (fully connected) affine projection stage with no bias term. The
/// declared output shape is fixed at construction; the weight matrix is
/// sized by the bound input shape and zero-initialized at bind time.
pub struct DenseStage {
    /// Declared output extent, set at construction, never recomputed.
    pub output_shape: Shape,
    /// Input-major weight matrix: the weight for input `i` and output `j`
    /// is at flat offset `i + input_size * j`. Allocated at bind time.
    pub weights: Vec<i64>,
    /// Bound input extent; `None` until the stage joins a pipeline.
    pub input_shape: Option<Shape>,
}

impl DenseStage {
    pub open spec fn is_bound(self) -> bool {
        self.input_shape is Some
    }

    pub open spec fn spec_input_shape(self) -> Shape
        recommends
            self.is_bound(),
    {
        match self.input_shape {
            Some(s) => s,
            None => Shape { width: 0, height: 0 },
        }
    }

    /// A shape binds when the weight matrix it calls for fits the machine's
    /// word size.
    pub open spec fn binds(self, s: Shape) -> bool {
        s.spec_product() * self.output_shape.spec_product() <= usize::MAX
    }

    pub open spec fn wf(self) -> bool {
        &&& self.output_shape.wf()
        &&& match self.input_shape {
            Some(s) => s.wf() && self.binds(s) && self.weights@.len() == s.spec_product()
                * self.output_shape.spec_product(),
            None => self.weights@.len() == 0,
        }
    }

    pub open spec fn spec_bind_error(self, s: Shape) -> Error {
        Error::ShapeError { minuend: s, subtrahend: self.output_shape }
    }

    /// An unbound dense stage with the given declared output shape; the
    /// weight matrix is allocated only at bind time, since its size depends
    /// on the input shape.
    pub fn new(output_shape: Shape) -> (r: DenseStage)
        requires
            output_shape.wf(),
        ensures
            r.output_shape == output_shape,
            r.weights@.len() == 0,
            !r.is_bound(),
            r.wf(),
    {
        DenseStage { output_shape, weights: Vec::new(), input_shape: None }
    }

    /// Fixes the input shape and allocates the zero-initialized weight
    /// matrix. A stage binds exactly once.
    pub fn bind_input_shape(&mut self, s: Shape) -> (r: Result<(), Error>)
        requires
            old(self).wf(),
            !old(self).is_bound(),
            s.wf(),
        ensures
            final(self).output_shape == old(self).output_shape,
            old(self).binds(s) ==> r == Ok::<(), Error>(()) && final(self).input_shape == Some(s)
                && final(self).weights@.len() == s.spec_product() * old(
            self).output_shape.spec_product() && (forall|i: int|
                0 <= i < final(self).weights@.len() ==> final(self).weights@[i] == 0i64),
            !old(self).binds(s) ==> r == Err::<(), Error>(old(self).spec_bind_error(s)) && *final(
            self) == *old(self),
            final(self).wf(),
    {
        let m: usize = s.product();
        let n: usize = self.output_shape.product();
        if n == 0 {
            proof {
                assert((s.spec_product()) * 0 == 0) by (nonlinear_arith);
            }
            self.weights = zeros(0);
            self.input_shape = Some(s);
            return Ok(());
        }
        if m <= usize::MAX / n {
            proof {
                lemma_fundamental_div_mod(usize::MAX as int, n as int);
                assert((m as int) * (n as int) <= usize::MAX) by (nonlinear_arith)
                    requires
                        0 < n as int,
                        m as int <= (usize::MAX as int) / (n as int),
                        (usize::MAX as int) / (n as int) * (n as int) + (usize::MAX as int) % (
                        n as int) == usize::MAX as int,
                        0 <= (usize::MAX as int) % (n as int),
                ;
            }
            let count: usize = m * n;
            self.weights = zeros(count);
            self.input_shape = Some(s);
            Ok(())
        } else {
            proof {
                lemma_fundamental_div_mod(usize::MAX as int, n as int);
                assert((m as int) * (n as int) > usize::MAX) by (nonlinear_arith)
                    requires
                        0 < n as int,
                        m as int > (usize::MAX as int) / (n as int),
                        (usize::MAX as int) / (n as int) * (n as int) + (usize::MAX as int) % (
                        n as int) == usize::MAX as int,
                        (usize::MAX as int) % (n as int) < n as int,
                ;
            }
            Err(Error::ShapeError { minuend: s, subtrahend: self.output_shape })
        }
    }

    /// The declared output extent; independent of the bound input.
    pub fn output_shape(&self) -> (r: Shape)
        requires
            self.wf(),
        ensures
            r == self.output_shape,
            r.wf(),
    {
        self.output_shape
    }

    /// Dense matrix-vector product: `out[j] = sum_i in[i] * weight(i, j)`.
    #[verifier::loop_isolation(false)]
    pub fn evaluate(&self, input: &Vec<i64>) -> (r: Result<Vec<i64>, Error>)
        requires
            self.wf(),
            self.is_bound(),
        ensures
            match r {
                Ok(out) => input@.len() == self.spec_input_shape().spec_product() && out@
                    == spec_dense_eval(*self, input@),
                Err(e) => input@.len() != self.spec_input_shape().spec_product() && e == (
                Error::ShapeMismatch {
                    expected: self.spec_input_shape().spec_product() as usize,
                    actual: input@.len() as usize,
                }),
            },
    {
        let s: Shape = self.input_shape.unwrap();
        let m: usize = s.product();
        if input.len() != m {
            return Err(Error::ShapeMismatch { expected: m, actual: input.len() });
        }
        let n: usize = self.output_shape.product();
        let mut out: Vec<i64> = Vec::new();
        let mut jout: usize = 0;
        while jout < n
            invariant
                jout <= n,
                out@.len() == jout,
                forall|q: int|
                    0 <= q < out@.len() ==> out@[q] == dense_cell(
                        input@,
                        self.weights@,
                        m as int,
                        q,
                        m as int,
                    ) as i64,
            decreases n - jout,
        {
            let mut acc: i64 = 0;
            let mut i: usize = 0;
            while i < m
                invariant
                    i <= m,
                    jout < n,
                    acc as int == dense_cell(input@, self.weights@, m as int, jout as int, i as int),
                decreases m - i,
            {
                proof {
                    assert((i as int) + (m as int) * (jout as int) < (m as int) * (n as int))
                        by (nonlinear_arith)
                        requires
                            0 <= (i as int) < (m as int),
                            0 <= (jout as int) < (n as int),
                    ;
                }
                let wi: usize = i + m * jout;
                acc = add_sat(acc, mul_fixed(input[i], self.weights[wi]));
                i = i + 1;
            }
            out.push(acc);
            jout = jout + 1;
        }
        proof {
            assert(out@ =~= spec_dense_eval(*self, input@));
        }
        Ok(out)
    }
}

/// Rectified-linear activation stage: elementwise `max(x, 0)`, output shape
/// equal to the bound input shape. Stateless beyond that shape.
pub struct ReluStage {
    /// Bound extent; `None` until the stage joins a pipeline.
    pub size: Option<Shape>,
}

impl ReluStage {
    pub open spec fn is_bound(self) -> bool {
        self.size is Some
    }

    pub open spec fn spec_input_shape(self) -> Shape
        recommends
            self.is_bound(),
    {
        match self.size {
            Some(s) => s,
            None => Shape { width: 0, height: 0 },
        }
    }

    pub open spec fn wf(self) -> bool {
        match self.size {
            Some(s) => s.wf(),
            None => true,
        }
    }

    /// An unbound rectified-linear stage.
    pub fn new() -> (r: ReluStage)
        ensures
            !r.is_bound(),
            r.wf(),
    {
        ReluStage { size: None }
    }

    /// Fixes the input shape; rectification accepts every shape.
    pub fn bind_input_shape(&mut self, s: Shape) -> (r: Result<(), Error>)
        requires
            old(self).wf(),
            !old(self).is_bound(),
            s.wf(),
        ensures
            r == Ok::<(), Error>(()),
            final(self).size == Some(s),
            final(self).wf(),
    {
        self.size = Some(s);
        Ok(())
    }

    /// Output extent equals the bound input extent.
    pub fn output_shape(&self) -> (r: Shape)
        requires
            self.wf(),
            self.is_bound(),
        ensures
            r == self.spec_input_shape(),
            r.wf(),
    {
        self.size.unwrap()
    }

    /// Elementwise rectification.
    #[verifier::loop_isolation(false)]
    pub fn evaluate(&self, input: &Vec<i64>) -> (r: Result<Vec<i64>, Error>)
        requires
            self.wf(),
            self.is_bound(),
        ensures
            match r {
                Ok(out) => input@.len() == self.spec_input_shape().spec_product() && out@
                    == spec_relu_eval(input@),
                Err(e) => input@.len() != self.spec_input_shape().spec_product() && e == (
                Error::ShapeMismatch {
                    expected: self.spec_input_shape().spec_product() as usize,
                    actual: input@.len() as usize,
                }),
            },
    {
        let s: Shape = self.size.unwrap();
        let expected: usize = s.product();
        if input.len() != expected {
            return Err(Error::ShapeMismatch { expected, actual: input.len() });
        }
        let mut out: Vec<i64> = Vec::new();
        let mut i: usize = 0;
        while i < input.len()
            invariant
                i <= input@.len(),
                out@.len() == i,
                forall|k: int| 0 <= k < i ==> out@[k] == spec_relu_eval(input@)[k],
            decreases input@.len() - i,
        {
            let x: i64 = input[i];
            if x < 0 {
                out.push(0);
            } else {
                out.push(x);
            }
            i = i + 1;
        }
        proof {
            assert(out@ =~= spec_relu_eval(input@));
        }
        Ok(out)
    }
}

/// Softmax normalization stage: exponentiates every element in fixed point
/// and divides by the sum of the exponentials. Output shape equals the
/// bound input shape.
pub struct SoftmaxStage {
    /// Bound extent; `None` until the stage joins a pipeline.
    pub size: Option<Shape>,
}

impl SoftmaxStage {
    pub open spec fn is_bound(self) -> bool {
        self.size is Some
    }

    pub open spec fn spec_input_shape(self) -> Shape
        recommends
            self.is_bound(),
    {
        match self.size {
            Some(s) => s,
            None => Shape { width: 0, height: 0 },
        }
    }

    pub open spec fn wf(self) -> bool {
        match self.size {
            Some(s) => s.wf(),
            None => true,
        }
    }

    /// An unbound softmax stage.
    pub fn new() -> (r: SoftmaxStage)
        ensures
            !r.is_bound(),
            r.wf(),
    {
        SoftmaxStage { size: None }
    }

    /// Fixes the input shape; softmax accepts every shape.
    pub fn bind_input_shape(&mut self, s: Shape) -> (r: Result<(), Error>)
        requires
            old(self).wf(),
            !old(self).is_bound(),
            s.wf(),
        ensures
            r == Ok::<(), Error>(()),
            final(self).size == Some(s),
            final(self).wf(),
    {
        self.size = Some(s);
        Ok(())
    }

    /// Output extent equals the bound input extent.
    pub fn output_shape(&self) -> (r: Shape)
        requires
            self.wf(),
            self.is_bound(),
        ensures
            r == self.spec_input_shape(),
            r.wf(),
    {
        self.size.unwrap()
    }

    /// Softmax of one buffer: weights `exp(x)` are each at least one
    /// fixed-point unit, so the denominator of a non-empty buffer is
    /// strictly positive; each normalized output is floored at one unit in
    /// turn, so it is strictly positive as well.
    #[verifier::loop_isolation(false)]
    pub fn evaluate(&self, input: &Vec<i64>) -> (r: Result<Vec<i64>, Error>)
        requires
            self.wf(),
            self.is_bound(),
        ensures
            match r {
                Ok(out) => input@.len() == self.spec_input_shape().spec_product() && out@
                    == spec_softmax_eval(input@),
                Err(e) => input@.len() != self.spec_input_shape().spec_product() && e == (
                Error::ShapeMismatch {
                    expected: self.spec_input_shape().spec_product() as usize,
                    actual: input@.len() as usize,
                }),
            },
    {
        let s: Shape = self.size.unwrap();
        let expected: usize = s.product();
        if input.len() != expected {
            return Err(Error::ShapeMismatch { expected, actual: input.len() });
        }
        let len: usize = input.len();
        if len == 0 {
            let out: Vec<i64> = Vec::new();
            proof {
                assert(out@ =~= spec_softmax_eval(input@));
            }
            return Ok(out);
        }
        let mut w: Vec<i64> = Vec::new();
        let mut i: usize = 0;
        while i < len
            invariant
                i <= len,
                w@.len() == i,
                forall|k: int|
                    0 <= k < i ==> w@[k] as int == spec_exp(input@[k] as int) && 1 <= w@[k],
            decreases len - i,
        {
            w.push(exp_fixed(input[i]));
            i = i + 1;
        }
        let mut denom: u128 = 0;
        let mut i: usize = 0;
        while i < len
            invariant
                i <= len,
                denom as int == sum_exp(input@.take(i as int)),
                denom as int <= (i as int) * (i64::MAX as int),
                i as int <= denom as int,
            decreases len - i,
        {
            proof {
                assert(input@.take(i as int + 1).drop_last() =~= input@.take(i as int));
                assert(input@.take(i as int + 1).last() == input@[i as int]);
                assert(((i + 1) as int) * (i64::MAX as int) == (i as int) * (i64::MAX as int) + (
                i64::MAX as int)) by (nonlinear_arith);
                assert((i as int) * (i64::MAX as int) + (i64::MAX as int) <= u128::MAX as int)
                    by (nonlinear_arith)
                    requires
                        0 <= i as int <= usize::MAX as int,
                ;
            }
            denom = denom + (w[i] as u128);
            i = i + 1;
        }
        proof {
            assert(input@.take(len as int) =~= input@);
        }
        let mut out: Vec<i64> = Vec::new();
        let mut i: usize = 0;
        while i < len
            invariant
                i <= len,
                out@.len() == i,
                denom as int == sum_exp(input@),
                1 <= denom as int,
                forall|k: int| 0 <= k < i ==> out@[k] == spec_softmax_eval(input@)[k],
            decreases len - i,
        {
            proof {
                lemma_sum_exp_bounds(input@);
            }
            let q: u128 = ((w[i] as u128) * (SCALE as u128)) / denom;
            proof {
                assert((w[i as int] as int) * 65536 / (denom as int) <= 65536) by (nonlinear_arith)
                    requires
                        1 <= w[i as int] as int <= denom as int,
                ;
            }
            let v: i64 = if q < 1 {
                1
            } else {
                q as i64
            };
            out.push(v);
            i = i + 1;
        }
        proof {
            assert(out@ =~= spec_softmax_eval(input@));
        }
        Ok(out)
    }
}

/// Every element's fixed-point exponential is at least one unit, so the
/// softmax denominator dominates each of its terms and the buffer's length.
pub proof fn lemma_sum_exp_bounds(s: Seq<i64>)
    ensures
        sum_exp(s) >= s.len(),
        forall|k: int| 0 <= k < s.len() ==> spec_exp(s[k] as int) <= sum_exp(s),
    decreases s.len(),
{
    if s.len() == 0 {
    } else {
        lemma_sum_exp_bounds(s.drop_last());
        assert forall|k: int| 0 <= k < s.len() implies spec_exp(s[k] as int) <= sum_exp(s) by {
            if k < s.len() - 1 {
                assert(s.drop_last()[k] == s[k]);
            } else {
                assert(s[k] == s.last());
            }
        }
    }
}

/// One shape-checked transformation step: a closed set of variants
/// dispatched through a single bind/output-shape/evaluate interface.
pub enum Stage {
    Convolution(ConvolutionStage),
    Dense(DenseStage),
    Relu(ReluStage),
    Softmax(SoftmaxStage),
}

/// Relates a stage before and after binding to input shape `s`: the fixed
/// construction parameters are kept, the input shape becomes `s`, and any
/// shape-dependent coefficient storage is allocated zero-initialized.
pub open spec fn is_bound_version(pre: Stage, post: Stage, s: Shape) -> bool {
    match (pre, post) {
        (Stage::Convolution(a), Stage::Convolution(b)) => b.kernel_shape == a.kernel_shape
            && b.kernel@ == a.kernel@ && b.input_shape == Some(s),
        (Stage::Dense(a), Stage::Dense(b)) => b.output_shape == a.output_shape && b.input_shape
            == Some(s) && b.weights@.len() == s.spec_product() * a.output_shape.spec_product() && (
        forall|i: int| 0 <= i < b.weights@.len() ==> b.weights@[i] == 0i64),
        (Stage::Relu(_), Stage::Relu(b)) => b.size == Some(s),
        (Stage::Softmax(_), Stage::Softmax(b)) => b.size == Some(s),
        _ => false,
    }
}

impl Stage {
    pub open spec fn wf(self) -> bool {
        match self {
            Stage::Convolution(c) => c.wf(),
            Stage::Dense(d) => d.wf(),
            Stage::Relu(l) => l.wf(),
            Stage::Softmax(m) => m.wf(),
        }
    }

    pub open spec fn is_bound(self) -> bool {
        match self {
            Stage::Convolution(c) => c.is_bound(),
            Stage::Dense(d) => d.is_bound(),
            Stage::Relu(l) => l.is_bound(),
            Stage::Softmax(m) => m.is_bound(),
        }
    }

    pub open spec fn spec_input_shape(self) -> Shape
        recommends
            self.is_bound(),
    {
        match self {
            Stage::Convolution(c) => c.spec_input_shape(),
            Stage::Dense(d) => d.spec_input_shape(),
            Stage::Relu(l) => l.spec_input_shape(),
            Stage::Softmax(m) => m.spec_input_shape(),
        }
    }

    pub open spec fn spec_output_shape(self) -> Shape
        recommends
            self.wf(),
            self.is_bound(),
    {
        match self {
            Stage::Convolution(c) => c.spec_output_shape(),
            Stage::Dense(d) => d.output_shape,
            Stage::Relu(l) => l.spec_input_shape(),
            Stage::Softmax(m) => m.spec_input_shape(),
        }
    }

    /// Whether binding this (unbound) stage to input shape `s` succeeds.
    pub open spec fn binds(self, s: Shape) -> bool {
        match self {
            Stage::Convolution(c) => c.binds(s),
            Stage::Dense(d) => d.binds(s),
            Stage::Relu(_) => true,
            Stage::Softmax(_) => true,
        }
    }

    /// The error a failing bind reports. Rectification and softmax bind to
    /// every shape, so their arms are never reported.
    pub open spec fn spec_bind_error(self, s: Shape) -> Error {
        match self {
            Stage::Convolution(c) => c.spec_bind_error(s),
            Stage::Dense(d) => d.spec_bind_error(s),
            Stage::Relu(_) => Error::ShapeError { minuend: s, subtrahend: s },
            Stage::Softmax(_) => Error::ShapeError { minuend: s, subtrahend: s },
        }
    }

    /// What a bound stage computes on a buffer of its input shape.
    pub open spec fn spec_eval(self, inp: Seq<i64>) -> Seq<i64>
        recommends
            self.wf(),
            self.is_bound(),
            inp.len() == self.spec_input_shape().spec_product(),
    {
        match self {
            Stage::Convolution(c) => spec_conv_eval(c, inp),
            Stage::Dense(d) => spec_dense_eval(d, inp),
            Stage::Relu(_) => spec_relu_eval(inp),
            Stage::Softmax(_) => spec_softmax_eval(inp),
        }
    }

    /// Fixes the stage's input shape; succeeds exactly when the shape
    /// accepts this stage's fixed parameters.
    pub fn bind_input_shape(&mut self, s: Shape) -> (r: Result<(), Error>)
        requires
            old(self).wf(),
            !old(self).is_bound(),
            s.wf(),
        ensures
            old(self).binds(s) ==> r == Ok::<(), Error>(()) && is_bound_version(
                *old(self),
                *final(self),
                s,
            ) && final(self).wf() && final(self).is_bound() && final(self).spec_input_shape() == s,
            !old(self).binds(s) ==> r == Err::<(), Error>(old(self).spec_bind_error(s)) && *final(
            self) == *old(self),
    {
        match self {
            Stage::Convolution(c) => c.bind_input_shape(s),
            Stage::Dense(d) => d.bind_input_shape(s),
            Stage::Relu(l) => l.bind_input_shape(s),
            Stage::Softmax(m) => m.bind_input_shape(s),
        }
    }

    /// The bound stage's output extent, a pure function of the bound input
    /// shape and the stage's fixed construction parameters.
    pub fn output_shape(&self) -> (r: Shape)
        requires
            self.wf(),
            self.is_bound(),
        ensures
            r == self.spec_output_shape(),
            r.wf(),
    {
        match self {
            Stage::Convolution(c) => c.output_shape(),
            Stage::Dense(d) => d.output_shape(),
            Stage::Relu(l) => l.output_shape(),
            Stage::Softmax(m) => m.output_shape(),
        }
    }

    /// Evaluates one buffer; returns `Error::ShapeMismatch` exactly when the
    /// buffer's length disagrees with the bound input shape's product.
    pub fn evaluate(&self, input: &Vec<i64>) -> (r: Result<Vec<i64>, Error>)
        requires
            self.wf(),
            self.is_bound(),
        ensures
            match r {
                Ok(out) => input@.len() == self.spec_input_shape().spec_product() && out@
                    == self.spec_eval(input@),
                Err(e) => input@.len() != self.spec_input_shape().spec_product() && e == (
                Error::ShapeMismatch {
                    expected: self.spec_input_shape().spec_product() as usize,
                    actual: input@.len() as usize,
                }),
            },
    {
        match self {
            Stage::Convolution(c) => c.evaluate(input),
            Stage::Dense(d) => d.evaluate(input),
            Stage::Relu(l) => l.evaluate(input),
            Stage::Softmax(m) => m.evaluate(input),
        }
    }
}

/// On a buffer of the bound input shape, a stage produces a buffer of its
/// output shape.
pub proof fn lemma_spec_eval_len(st: Stage, inp: Seq<i64>)
    requires
        st.wf(),
        st.is_bound(),
        inp.len() == st.spec_input_shape().spec_product(),
    ensures
        st.spec_eval(inp).len() == st.spec_output_shape().spec_product(),
{
    match st {
        Stage::Convolution(c) => {
            let osh = c.spec_output_shape();
            assert((osh.width as int) * (osh.height as int) == (osh.height as int) * (
            osh.width as int)) by (nonlinear_arith);
        },
        Stage::Dense(_) => {},
        Stage::Relu(_) => {},
        Stage::Softmax(_) => {},
    }
}


} // verus!
