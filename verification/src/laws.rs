use crate::fixed::spec_exp;
use crate::fixed::spec_mul_fixed;
use crate::fixed::SCALE;
use crate::shape::Shape;
use crate::stage::conv_cell;
use crate::stage::dense_cell;
use crate::stage::lemma_sum_exp_bounds;
use crate::stage::spec_conv_eval;
use crate::stage::spec_dense_eval;
use crate::stage::spec_softmax_eval;
use crate::stage::sum_exp;
use crate::stage::ConvolutionStage;
use crate::stage::DenseStage;
use vstd::arithmetic::div_mod::lemma_basic_div;
use vstd::arithmetic::div_mod::lemma_div_by_multiple;
use vstd::arithmetic::div_mod::lemma_div_multiples_vanish_quotient;
use vstd::arithmetic::div_mod::lemma_div_non_zero;
use vstd::arithmetic::div_mod::lemma_div_of0;
use vstd::arithmetic::div_mod::lemma_fundamental_div_mod;
use vstd::arithmetic::div_mod::lemma_mod_pos_bound;
use vstd::prelude::*;

verus! {

/// Multiplying by the fixed-point unit is the identity: `x * 1.0 == x`.
proof fn lemma_mul_fixed_identity(x: int)
    requires
        i64::MIN <= x <= i64::MAX,
    ensures
        spec_mul_fixed(x, SCALE as int) == x,
{
    if x >= 0 {
        assert(x * 65536 == 65536 * x) by (nonlinear_arith);
        lemma_div_by_multiple(x, 65536);
    } else {
        let m = -x;
        assert(-(x * 65536) == m * 65536) by (nonlinear_arith)
            requires
                m == -x,
        ;
        lemma_div_by_multiple(m, 65536);
    }
}

/// Identity convolution: a bound convolution stage with a 1-by-1 kernel
/// whose single coefficient is `1.0` (that is, `SCALE`) maps every buffer
/// of its input shape to itself.
pub proof fn lemma_identity_convolution(c: ConvolutionStage, inp: Seq<i64>)
    requires
        c.wf(),
        c.is_bound(),
        c.kernel_shape == (Shape { width: 1, height: 1 }),
        c.kernel@[0] == SCALE,
        inp.len() == c.spec_input_shape().spec_product(),
    ensures
        spec_conv_eval(c, inp) == inp,
{
    let s = c.spec_input_shape();
    let iw = s.width as int;
    let out = spec_conv_eval(c, inp);
    assert(out.len() == inp.len());
    assert forall|o: int| 0 <= o < inp.len() implies out[o] == inp[o] by {
        let ox = o % iw;
        let oy = o / iw;
        lemma_fundamental_div_mod(o, iw);
        assert(iw * (o / iw) == (o / iw) * iw) by (nonlinear_arith);
        assert((ox + 0int % 1) + (oy + 0int / 1) * iw == o);
        lemma_mul_fixed_identity(inp[o] as int);
        assert(conv_cell(inp, c.kernel@, iw, 1, ox, oy, 0) == 0);
        assert(conv_cell(inp, c.kernel@, iw, 1, ox, oy, 1) == inp[o]);
    }
    assert(out =~= inp);
}

/// The accumulated terms of a dense cell vanish when every weight is zero.
proof fn lemma_dense_cell_zero(inp: Seq<i64>, w: Seq<i64>, m: int, jout: int, i: int)
    requires
        forall|q: int| 0 <= q < w.len() ==> w[q] == 0i64,
        0 <= i <= m,
        0 <= jout,
        m * (jout + 1) <= w.len(),
    ensures
        dense_cell(inp, w, m, jout, i) == 0,
    decreases i,
{
    if i <= 0 {
    } else {
        lemma_dense_cell_zero(inp, w, m, jout, i - 1);
        assert(m * (jout + 1) == m * jout + m && 0 <= m * jout) by (nonlinear_arith)
            requires
                0 < m,
                0 <= jout,
        ;
        assert(w[(i - 1) + m * jout] == 0i64);
        lemma_div_of0(65536);
        assert(spec_mul_fixed(inp[i - 1] as int, 0) == 0);
    }
}

/// All-zero dense projection: a bound dense stage whose weights are all
/// zero maps every buffer of its input shape to the all-zero buffer of its
/// declared output shape.
pub proof fn lemma_dense_zero_weights(d: DenseStage, inp: Seq<i64>)
    requires
        d.wf(),
        d.is_bound(),
        forall|q: int| 0 <= q < d.weights@.len() ==> d.weights@[q] == 0i64,
        inp.len() == d.spec_input_shape().spec_product(),
    ensures
        spec_dense_eval(d, inp).len() == d.output_shape.spec_product(),
        forall|j: int|
            0 <= j < d.output_shape.spec_product() ==> #[trigger] spec_dense_eval(d, inp)[j]
                == 0i64,
{
    let m = d.spec_input_shape().spec_product();
    let n = d.output_shape.spec_product();
    assert forall|j: int| 0 <= j < n implies #[trigger] spec_dense_eval(d, inp)[j] == 0i64 by {
        assert(m * (j + 1) <= m * n) by (nonlinear_arith)
            requires
                0 <= m,
                j + 1 <= n,
        ;
        lemma_dense_cell_zero(inp, d.weights@, m, j, m);
    }
}

/// The accumulated terms of a convolution cell vanish when every kernel
/// coefficient is zero.
proof fn lemma_conv_cell_zero(
    inp: Seq<i64>,
    ker: Seq<i64>,
    iw: int,
    kw: int,
    ox: int,
    oy: int,
    j: int,
)
    requires
        forall|q: int| 0 <= q < ker.len() ==> ker[q] == 0i64,
        0 <= j <= ker.len(),
    ensures
        conv_cell(inp, ker, iw, kw, ox, oy, j) == 0,
    decreases j,
{
    if j <= 0 {
    } else {
        lemma_conv_cell_zero(inp, ker, iw, kw, ox, oy, j - 1);
        lemma_div_of0(65536);
        assert(spec_mul_fixed(inp[(ox + (j - 1) % kw) + (oy + (j - 1) / kw) * iw] as int, 0) == 0);
    }
}

/// All-zero convolution: a bound convolution stage whose kernel is all
/// zero maps every buffer of its input shape to the all-zero buffer of its
/// output shape.
pub proof fn lemma_zero_kernel_convolution(c: ConvolutionStage, inp: Seq<i64>)
    requires
        c.wf(),
        c.is_bound(),
        forall|q: int| 0 <= q < c.kernel@.len() ==> c.kernel@[q] == 0i64,
        inp.len() == c.spec_input_shape().spec_product(),
    ensures
        spec_conv_eval(c, inp).len() == c.spec_output_shape().spec_product(),
        forall|o: int|
            0 <= o < spec_conv_eval(c, inp).len() ==> #[trigger] spec_conv_eval(c, inp)[o]
                == 0i64,
{
    let osh = c.spec_output_shape();
    assert((osh.width as int) * (osh.height as int) == (osh.height as int) * (osh.width as int))
        by (nonlinear_arith);
    let iw = c.spec_input_shape().width as int;
    let kw = c.kernel_shape.width as int;
    let kcount = c.kernel_shape.spec_product();
    assert forall|o: int| 0 <= o < spec_conv_eval(c, inp).len() implies #[trigger] spec_conv_eval(
        c,
        inp,
    )[o] == 0i64 by {
        let ow = osh.width as int;
        lemma_conv_cell_zero(inp, c.kernel@, iw, kw, o % ow, o / ow, kcount);
    }
}

/// Sum of a buffer's elements.
pub open spec fn sum_seq(s: Seq<i64>) -> int
    decreases s.len(),
{
    if s.len() == 0 {
        0
    } else {
        sum_seq(s.drop_last()) + s.last()
    }
}

/// Partial-sum bound behind the softmax normalization law: over the first
/// `j` elements, the denominator times the output sum brackets `SCALE`
/// times the exponential sum to within `j` flooring errors on either side
/// (each output floors a division and is then floored at one unit).
proof fn lemma_softmax_partial(inp: Seq<i64>, j: int)
    requires
        1 <= inp.len(),
        0 <= j <= inp.len(),
    ensures
        ({
            let out = spec_softmax_eval(inp);
            let d = sum_exp(inp);
            d * sum_seq(out.take(j)) - j * d <= 65536 * sum_exp(inp.take(j)) <= d * sum_seq(
                out.take(j),
            ) + j * (d - 1)
        }),
    decreases j,
{
    let out = spec_softmax_eval(inp);
    let d = sum_exp(inp);
    lemma_sum_exp_bounds(inp);
    if j == 0 {
        assert(out.take(0) =~= Seq::<i64>::empty());
        assert(inp.take(0) =~= Seq::<i64>::empty());
    } else {
        lemma_softmax_partial(inp, j - 1);
        assert(out.take(j).drop_last() =~= out.take(j - 1));
        assert(inp.take(j).drop_last() =~= inp.take(j - 1));
        assert(inp.take(j).last() == inp[j - 1]);
        assert(out.take(j).last() == out[j - 1]);
        let w = spec_exp(inp[j - 1] as int);
        let q = (w * 65536) / d;
        assert(0 <= w * 65536) by (nonlinear_arith)
            requires
                1 <= w,
        ;
        lemma_fundamental_div_mod(w * 65536, d);
        lemma_mod_pos_bound(w * 65536, d);
        assert(q <= 65536) by (nonlinear_arith)
            requires
                1 <= w <= d,
                d * q + (w * 65536) % d == w * 65536,
                0 <= (w * 65536) % d,
        ;
        assert(0 <= q) by (nonlinear_arith)
            requires
                d * q + (w * 65536) % d == w * 65536,
                (w * 65536) % d < d,
                0 < d,
                0 <= w * 65536,
        ;
        let o = out[j - 1] as int;
        assert(out[j - 1] == (if q < 1 {
            1i64
        } else {
            q as i64
        }));
        assert(o == (if q < 1 {
            1int
        } else {
            q
        }));
        assert(o - 1 <= q <= o);
        let p0 = sum_seq(out.take(j - 1));
        assert(d * (p0 + o) == d * p0 + d * o) by (nonlinear_arith);
        assert(j * d == (j - 1) * d + d) by (nonlinear_arith);
        assert(j * (d - 1) == (j - 1) * (d - 1) + (d - 1)) by (nonlinear_arith);
        assert(d * q <= 65536 * w <= d * q + (d - 1)) by (nonlinear_arith)
            requires
                d * q + (w * 65536) % d == w * 65536,
                0 <= (w * 65536) % d < d,
        ;
        assert(d * (o - 1) <= d * q && d * q <= d * o) by (nonlinear_arith)
            requires
                o - 1 <= q <= o,
                0 <= d,
        ;
        assert(d * (o - 1) == d * o - d) by (nonlinear_arith);
    }
}

/// Softmax normalization law: on a non-empty buffer every softmax output
/// lies in `[1, SCALE]` -- strictly positive -- and the outputs sum to
/// `1.0` within one fixed-point unit per element:
/// `SCALE - n < sum <= SCALE + n`.
pub proof fn lemma_softmax_sum(inp: Seq<i64>)
    requires
        1 <= inp.len(),
    ensures
        spec_softmax_eval(inp).len() == inp.len(),
        forall|k: int|
            0 <= k < inp.len() ==> 1 <= #[trigger] spec_softmax_eval(inp)[k] <= SCALE,
        (SCALE as int) - inp.len() < sum_seq(spec_softmax_eval(inp)) <= (SCALE as int)
            + inp.len(),
{
    let out = spec_softmax_eval(inp);
    let d = sum_exp(inp);
    let n = inp.len() as int;
    lemma_sum_exp_bounds(inp);
    assert forall|k: int| 0 <= k < inp.len() implies 1 <= #[trigger] spec_softmax_eval(inp)[k]
        <= SCALE by {
        let w = spec_exp(inp[k] as int);
        let q = (w * 65536) / d;
        assert(0 <= w * 65536) by (nonlinear_arith)
            requires
                1 <= w,
        ;
        lemma_fundamental_div_mod(w * 65536, d);
        lemma_mod_pos_bound(w * 65536, d);
        assert(0 <= q <= 65536) by (nonlinear_arith)
            requires
                1 <= w <= d,
                d * q + (w * 65536) % d == w * 65536,
                0 <= (w * 65536) % d < d,
        ;
    }
    lemma_softmax_partial(inp, n);
    assert(out.take(n) =~= out);
    assert(inp.take(n) =~= inp);
    let t = sum_seq(out);
    assert(d * t - n * d <= 65536 * d <= d * t + n * (d - 1));
    assert(t <= 65536 + n) by (nonlinear_arith)
        requires
            1 <= d,
            d * t - n * d <= 65536 * d,
    ;
    assert(65536 - n < t) by (nonlinear_arith)
        requires
            1 <= d,
            1 <= n,
            65536 * d <= d * t + n * (d - 1),
    ;
}

/// The softmax denominator of a buffer whose elements are all `v` is the
/// buffer's length times `exp(v)`.
proof fn lemma_sum_exp_uniform(s: Seq<i64>, v: i64)
    requires
        forall|k: int| 0 <= k < s.len() ==> s[k] == v,
    ensures
        sum_exp(s) == s.len() * spec_exp(v as int),
    decreases s.len(),
{
    let w = spec_exp(v as int);
    if s.len() == 0 {
        assert(0int * w == 0) by (nonlinear_arith);
    } else {
        lemma_sum_exp_uniform(s.drop_last(), v);
        assert((s.len() - 1) * w + w == s.len() * w) by (nonlinear_arith);
    }
}

/// Uniform softmax: on a non-empty buffer whose elements are all equal,
/// every output is exactly `SCALE / n` floored (or the one-unit floor when
/// the buffer is longer than `SCALE` elements), and is always strictly
/// positive.
pub proof fn lemma_softmax_uniform(inp: Seq<i64>, v: i64)
    requires
        1 <= inp.len(),
        forall|k: int| 0 <= k < inp.len() ==> inp[k] == v,
    ensures
        forall|k: int| 0 <= k < inp.len() ==> 1 <= #[trigger] spec_softmax_eval(inp)[k],
        inp.len() <= SCALE ==> forall|k: int|
            0 <= k < inp.len() ==> #[trigger] spec_softmax_eval(inp)[k] == (SCALE as int)
                / (inp.len() as int),
        inp.len() > SCALE ==> forall|k: int|
            0 <= k < inp.len() ==> #[trigger] spec_softmax_eval(inp)[k] == 1,
{
    let n = inp.len() as int;
    let w = spec_exp(v as int);
    lemma_sum_exp_uniform(inp, v);
    lemma_sum_exp_bounds(inp);
    assert forall|k: int| 0 <= k < inp.len() implies 1 <= #[trigger] spec_softmax_eval(inp)[k]
        && (n <= 65536 ==> spec_softmax_eval(inp)[k] == 65536int / n) && (n > 65536
        ==> spec_softmax_eval(inp)[k] == 1) by {
        lemma_div_multiples_vanish_quotient(w, 65536, n);
        assert(w * 65536 == 65536 * w && w * n == n * w) by (nonlinear_arith);
        assert((w * 65536) / (n * w) == 65536int / n);
        lemma_fundamental_div_mod(65536, n);
        lemma_mod_pos_bound(65536, n);
        assert(0 <= 65536int / n <= 65536) by (nonlinear_arith)
            requires
                1 <= n,
                n * (65536int / n) + 65536int % n == 65536,
                0 <= 65536int % n < n,
        ;
        if n <= 65536 {
            lemma_div_non_zero(65536, n);
        } else {
            lemma_basic_div(65536, n);
        }
    }
}

} // verus!
