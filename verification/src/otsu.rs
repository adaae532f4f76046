//! Otsu's threshold solver.
//!
//! For each candidate level `t` the histogram splits into a background
//! class (bins `0..=t`) and a foreground class (bins `t+1..=255`). With
//! class populations `w0`, `w1` and intensity masses `m0`, `m1`, the
//! between-class variance is
//!
//! ```text
//! (w0/N) * (w1/N) * (m0/w0 - m1/w1)^2  ==  (m0*w1 - m1*w0)^2 / (N^2 * w0 * w1)
//! ```
//!
//! Dropping the constant factor `N^2`, the solver compares the exact
//! rationals `var_num / var_den` below — no floating point, no rounding —
//! and returns the smallest level among those of maximal variance. An
//! empty class contributes zero variance rather than an error.

use vstd::prelude::*;
use vstd::arithmetic::div_mod::{lemma_div_is_ordered, lemma_div_multiples_vanish,
    lemma_fundamental_div_mod, lemma_mod_bound};
use vstd::arithmetic::mul::{lemma_mul_nonnegative, lemma_mul_strictly_positive,
    lemma_mul_upper_bound};
use crate::gray::MAX_PIXELS;
use crate::histogram::{Histogram, cum_count, cum_sum};

verus! {

/// Background population: pixels at or below `t`.
pub open spec fn w0(h: Seq<usize>, t: int) -> int {
    cum_count(h, t)
}

/// Foreground population: pixels above `t`.
pub open spec fn w1(h: Seq<usize>, t: int) -> int {
    cum_count(h, 255) - cum_count(h, t)
}

/// Intensity mass of the background class.
pub open spec fn m0(h: Seq<usize>, t: int) -> int {
    cum_sum(h, t)
}

/// Intensity mass of the foreground class.
pub open spec fn m1(h: Seq<usize>, t: int) -> int {
    cum_sum(h, 255) - cum_sum(h, t)
}

/// Numerator of the between-class variance at `t` (scaled by `N^2`).
pub open spec fn var_num(h: Seq<usize>, t: int) -> int {
    (m0(h, t) * w1(h, t) - m1(h, t) * w0(h, t))
        * (m0(h, t) * w1(h, t) - m1(h, t) * w0(h, t))
}

/// Denominator of the between-class variance at `t`.
pub open spec fn var_den(h: Seq<usize>, t: int) -> int {
    w0(h, t) * w1(h, t)
}

/// The between-class variance at `a` is strictly greater than at `b`,
/// comparing the exact rationals; an empty class gives zero variance.
pub open spec fn var_gt(h: Seq<usize>, a: int, b: int) -> bool {
    if var_den(h, a) <= 0 {
        false
    } else if var_den(h, b) <= 0 {
        var_num(h, a) > 0
    } else {
        var_num(h, a) * var_den(h, b) > var_num(h, b) * var_den(h, a)
    }
}

/// `r` is the Otsu threshold of `h`: no level has strictly greater
/// between-class variance, and `r` strictly beats every smaller level —
/// ties break to the smallest maximizer.
pub open spec fn is_otsu_threshold(h: Seq<usize>, r: int) -> bool {
    &&& 0 <= r < 256
    &&& forall|t: int| 0 <= t < 256 ==> !var_gt(h, t, r)
    &&& forall|t: int| 0 <= t < r ==> var_gt(h, r, t)
}

/// The cumulative count is non-negative and monotone in the level.
pub proof fn lemma_cum_count_mono(h: Seq<usize>, t1: int, t2: int)
    requires
        -1 <= t1 <= t2,
    ensures
        0 <= cum_count(h, t1) <= cum_count(h, t2),
    decreases t2 - t1, t1 + 1,
{
    if t1 == t2 {
        if t1 >= 0 {
            lemma_cum_count_mono(h, t1 - 1, t1 - 1);
        }
    } else {
        lemma_cum_count_mono(h, t1, t2 - 1);
    }
}

/// Between two levels, the added intensity mass is non-negative and at
/// most 255 per added pixel.
pub proof fn lemma_cum_bounds(h: Seq<usize>, t1: int, t2: int)
    requires
        -1 <= t1 <= t2 <= 255,
    ensures
        0 <= cum_sum(h, t2) - cum_sum(h, t1),
        cum_sum(h, t2) - cum_sum(h, t1) <= 255 * (cum_count(h, t2) - cum_count(h, t1)),
    decreases t2 - t1,
{
    if t2 > t1 {
        lemma_cum_bounds(h, t1, t2 - 1);
        let hc = h[t2] as int;
        assert(t2 * hc <= 255 * hc && t2 * hc >= 0) by (nonlinear_arith)
            requires 0 <= t2 <= 255, hc >= 0;
    }
}

/// The root of the variance numerator is bounded by 255 times the
/// denominator.
proof fn lemma_num_root_bound(h: Seq<usize>, t: int)
    requires
        0 <= t <= 255,
    ensures
        m0(h, t) * w1(h, t) - m1(h, t) * w0(h, t) <= 255 * var_den(h, t),
        -(255 * var_den(h, t)) <= m0(h, t) * w1(h, t) - m1(h, t) * w0(h, t),
        var_den(h, t) >= 0,
        m0(h, t) >= 0,
        m1(h, t) >= 0,
{
    lemma_cum_count_mono(h, -1, t);
    lemma_cum_count_mono(h, t, 255);
    lemma_cum_bounds(h, -1, t);
    lemma_cum_bounds(h, t, 255);
    let a = m0(h, t);
    let b = m1(h, t);
    let x = w0(h, t);
    let y = w1(h, t);
    assert(a * y <= (255 * x) * y && b * x <= (255 * y) * x && a * y >= 0 && b * x >= 0
        && (255 * x) * y == 255 * (x * y) && (255 * y) * x == 255 * (x * y))
        by (nonlinear_arith)
        requires 0 <= a <= 255 * x, 0 <= b <= 255 * y, x >= 0, y >= 0;
    lemma_mul_nonnegative(x, y);
}

/// Exact decomposition of a square by two division steps:
/// if `d == a*p + b` and `b*b == bq*p + br`, then
/// `d*d == (a*a*p + 2*a*b + bq) * p + br`.
proof fn lemma_square_div(d: int, p: int, a: int, b: int, bq: int, br: int)
    requires
        p > 0,
        d == a * p + b,
        0 <= b < p,
        b * b == bq * p + br,
        0 <= br < p,
    ensures
        d * d == (a * a * p + 2 * a * b + bq) * p + br,
{
    assert(d * d == (a * a * p + 2 * a * b + bq) * p + br) by (nonlinear_arith)
        requires d == a * p + b, b * b == bq * p + br;
}

/// Cross-multiplied comparison of two exact non-negative rationals from
/// their quotients and remainders.
proof fn lemma_div_cmp(n1: int, p1: int, q1: int, r1: int, n2: int, p2: int, q2: int, r2: int)
    requires
        p1 > 0,
        p2 > 0,
        n1 == q1 * p1 + r1,
        0 <= r1 < p1,
        n2 == q2 * p2 + r2,
        0 <= r2 < p2,
        q1 >= 0,
        q2 >= 0,
    ensures
        (n1 * p2 > n2 * p1) <==> (q1 > q2 || (q1 == q2 && r1 * p2 > r2 * p1)),
{
    assert(n1 * p2 == q1 * (p1 * p2) + r1 * p2) by (nonlinear_arith)
        requires n1 == q1 * p1 + r1;
    assert(n2 * p1 == q2 * (p1 * p2) + r2 * p1) by (nonlinear_arith)
        requires n2 == q2 * p2 + r2;
    let pp = p1 * p2;
    lemma_mul_strictly_positive(p1, p2);
    assert(r1 * p2 < pp && r2 * p1 < pp && r1 * p2 >= 0 && r2 * p1 >= 0) by (nonlinear_arith)
        requires p1 > 0, p2 > 0, 0 <= r1 < p1, 0 <= r2 < p2, pp == p1 * p2;
    if q1 > q2 {
        assert(q1 * pp >= q2 * pp + pp) by (nonlinear_arith)
            requires q1 > q2, pp > 0;
    } else if q1 < q2 {
        assert(q2 * pp >= q1 * pp + pp) by (nonlinear_arith)
            requires q2 > q1, pp > 0;
    }
}

/// Non-negativity of both sides of the variance rational.
proof fn lemma_var_nonneg(h: Seq<usize>, t: int)
    requires
        0 <= t <= 255,
    ensures
        var_num(h, t) >= 0,
        var_den(h, t) >= 0,
{
    lemma_num_root_bound(h, t);
    let d = m0(h, t) * w1(h, t) - m1(h, t) * w0(h, t);
    assert(d * d >= 0) by (nonlinear_arith);
}

/// Strict variance comparison is asymmetric.
pub proof fn lemma_var_gt_asym(h: Seq<usize>, a: int, b: int)
    requires
        0 <= a <= 255,
        0 <= b <= 255,
        var_gt(h, a, b),
    ensures
        !var_gt(h, b, a),
{
    lemma_var_nonneg(h, a);
    lemma_var_nonneg(h, b);
}

/// If `a` does not beat `b` and `c` beats `b`, then `c` beats `a`.
pub proof fn lemma_var_gt_trans(h: Seq<usize>, a: int, b: int, c: int)
    requires
        0 <= a <= 255,
        0 <= b <= 255,
        0 <= c <= 255,
        !var_gt(h, a, b),
        var_gt(h, c, b),
    ensures
        var_gt(h, c, a),
{
    lemma_var_nonneg(h, a);
    lemma_var_nonneg(h, b);
    lemma_var_nonneg(h, c);
    let na = var_num(h, a);
    let da = var_den(h, a);
    let nb = var_num(h, b);
    let db = var_den(h, b);
    let nc = var_num(h, c);
    let dc = var_den(h, c);
    if db <= 0 {
        // var(b) is zero: c beats it means nc > 0 (and dc > 0).
        if da > 0 {
            // a fails to beat b, so na == 0.
            assert(na == 0);
            assert(nc * da > 0) by (nonlinear_arith)
                requires nc > 0, da > 0;
            assert(var_gt(h, c, a));
        } else {
            assert(var_gt(h, c, a));
        }
    } else {
        if da <= 0 {
            // var(a) is zero: need nc > 0.
            assert(nc * db > nb * dc);
            lemma_mul_nonnegative(nb, dc);
            assert(nc > 0) by (nonlinear_arith)
                requires nc * db > 0, db > 0, nc >= 0;
            assert(var_gt(h, c, a));
        } else {
            assert(nc * da > na * dc) by (nonlinear_arith)
                requires
                    da > 0, db > 0, dc > 0,
                    na >= 0, nb >= 0, nc >= 0,
                    na * db <= nb * da,
                    nc * db > nb * dc;
            assert(var_gt(h, c, a));
        }
    }
}

/// The solver's contract pins a unique value: repeated runs on equal
/// histograms return the same threshold.
pub proof fn lemma_threshold_unique(h: Seq<usize>, r1: int, r2: int)
    requires
        is_otsu_threshold(h, r1),
        is_otsu_threshold(h, r2),
    ensures
        r1 == r2,
{
    if r1 < r2 {
        assert(var_gt(h, r2, r1));
        assert(!var_gt(h, r2, r1));
    }
    if r2 < r1 {
        assert(var_gt(h, r1, r2));
        assert(!var_gt(h, r1, r2));
    }
}

/// `q`, `r`, `p` are the quotient, remainder and denominator of the
/// exact variance rational at `t`; `p == 0` encodes an empty class.
pub open spec fn parts_ok(h: Seq<usize>, t: int, q: u128, r: u128, p: u128) -> bool {
    &&& p as int == var_den(h, t)
    &&& p <= 0xffff_ffff_ffff_ffffu128
    &&& (p == 0 ==> q == 0 && r == 0)
    &&& (p > 0 ==> var_num(h, t) == q as int * p as int + r as int && r < p)
}

/// Computes the exact variance triple at level `t` from the cumulative
/// class statistics, entirely in 128-bit integers.
#[verifier::rlimit(30)]
fn var_parts(n0: u64, s0: u64, total: u64, sum: u64, Ghost(h): Ghost<Seq<usize>>,
    Ghost(t): Ghost<int>) -> (res: (u128, u128, u128))
    requires
        0 <= t <= 255,
        n0 as int == w0(h, t),
        s0 as int == m0(h, t),
        total as int == cum_count(h, 255),
        sum as int == cum_sum(h, 255),
        total as nat <= MAX_PIXELS as nat,
    ensures
        parts_ok(h, t, res.0, res.1, res.2),
{
    proof {
        lemma_cum_count_mono(h, -1, t);
        lemma_cum_count_mono(h, t, 255);
        lemma_cum_bounds(h, -1, t);
        lemma_cum_bounds(h, t, 255);
        lemma_num_root_bound(h, t);
    }
    let n1 = total - n0;
    let s1 = sum - s0;
    if n0 == 0 || n1 == 0 {
        proof {
            let x0 = w0(h, t);
            let x1 = w1(h, t);
            assert(x0 * x1 == 0) by (nonlinear_arith)
                requires x0 == 0 || x1 == 0;
        }
        return (0, 0, 0);
    }
    proof {
        lemma_mul_upper_bound(n0 as int, 0xffff_ffffint, n1 as int, 0xffff_ffffint);
        lemma_mul_strictly_positive(n0 as int, n1 as int);
        // s0 <= 255 * n0 and s1 <= 255 * n1, so both cross products fit easily.
        lemma_mul_upper_bound(s0 as int, 255 * 0xffff_ffffint, n1 as int, 0xffff_ffffint);
        lemma_mul_upper_bound(s1 as int, 255 * 0xffff_ffffint, n0 as int, 0xffff_ffffint);
    }
    let p = (n0 as u128) * (n1 as u128);
    let x = (s0 as u128) * (n1 as u128);
    let y = (s1 as u128) * (n0 as u128);
    let d = if x >= y { x - y } else { y - x };
    proof {
        // d == |m0*w1 - m1*w0| and d <= 255 * p.
        let dd = m0(h, t) * w1(h, t) - m1(h, t) * w0(h, t);
        let di = d as int;
        assert(dd == di || dd == -di);
        assert(var_num(h, t) == di * di) by (nonlinear_arith)
            requires (dd == di || dd == -di), var_num(h, t) == dd * dd;
        assert(d as int <= 255 * (p as int));
    }
    let a = d / p;
    let b = d % p;
    proof {
        lemma_fundamental_div_mod(d as int, p as int);
        // a <= 255 since d <= 255 * p.
        lemma_div_is_ordered(d as int, 255 * p as int, p as int);
        lemma_div_multiples_vanish(255, p as int);
        assert(255 * p as int == p as int * 255) by (nonlinear_arith);
        lemma_mul_upper_bound(b as int, 0xffff_ffff_ffff_fffeint,
            b as int, 0xffff_ffff_ffff_fffeint);
    }
    let bsq = b * b;
    let bq = bsq / p;
    let br = bsq % p;
    proof {
        let bi = b as int;
        let pi = p as int;
        let di = d as int;
        let ai = a as int;
        lemma_mod_bound(di, pi);
        lemma_mod_bound(bsq as int, pi);
        lemma_fundamental_div_mod(di, pi);
        assert(pi * ai == ai * pi) by (nonlinear_arith);
        assert(di == ai * pi + bi);
        lemma_fundamental_div_mod(bsq as int, pi);
        assert(pi * (bq as int) == bq as int * pi) by (nonlinear_arith);
        assert(bi * bi == bq as int * pi + br as int);
        assert(bsq as int <= bi * pi) by (nonlinear_arith)
            requires 0 <= bi, bi < pi, bsq as int == bi * bi;
        lemma_div_is_ordered(bsq as int, bi * pi, pi);
        assert(bi * pi == pi * bi) by (nonlinear_arith);
        lemma_div_multiples_vanish(bi, pi);
        // so bq <= b < p <= 2^64
        lemma_square_div(di, pi, ai, bi, bq as int, br as int);
        assert(ai * ai <= 65025) by (nonlinear_arith)
            requires 0 <= ai, ai <= 255;
        lemma_mul_upper_bound(ai * ai, 65025int, pi, 0xffff_ffff_ffff_ffffint);
        lemma_mul_upper_bound(2 * ai, 510int, bi, 0xffff_ffff_ffff_fffeint);
    }
    let q = a * a * p + 2 * a * b + bq;
    (q, br, p)
}

/// Exact comparison of two variance triples: decides `var_gt(h, t1, t2)`.
proof fn lemma_cmp_parts(h: Seq<usize>, t1: int, q1: u128, r1: u128, p1: u128,
    t2: int, q2: u128, r2: u128, p2: u128)
    requires
        0 <= t1 <= 255,
        0 <= t2 <= 255,
        parts_ok(h, t1, q1, r1, p1),
        parts_ok(h, t2, q2, r2, p2),
    ensures
        var_gt(h, t1, t2) == (if p1 == 0 {
            false
        } else if p2 == 0 {
            q1 > 0 || r1 > 0
        } else {
            q1 > q2 || (q1 == q2 && r1 as int * p2 as int > r2 as int * p1 as int)
        }),
{
    lemma_var_nonneg(h, t1);
    lemma_var_nonneg(h, t2);
    if p1 == 0 {
    } else if p2 == 0 {
        assert((q1 > 0 || r1 > 0) == (var_num(h, t1) > 0)) by (nonlinear_arith)
            requires
                var_num(h, t1) == q1 as int * p1 as int + r1 as int,
                p1 > 0, q1 >= 0, r1 >= 0;
    } else {
        assert(q1 as int >= 0 && q2 as int >= 0);
        lemma_div_cmp(var_num(h, t1), p1 as int, q1 as int, r1 as int,
            var_num(h, t2), p2 as int, q2 as int, r2 as int);
    }
}

/// Solves for the Otsu threshold of a well-formed histogram.
///
/// The result is always in `[0, 255]`, is a deterministic function of the
/// histogram alone, and is the smallest level among those that maximize
/// the between-class variance; a histogram whose mass sits in a single
/// bin (or is empty) yields 0 without error.
#[verifier::rlimit(30)]
pub fn solve(h: &Histogram) -> (r: u8)
    requires
        h.wf(),
    ensures
        is_otsu_threshold(h.counts@, r as int),
{
    let ghost hs = h.counts@;
    let total = h.total as u64;
    let mut sum: u64 = 0;
    let mut k: usize = 0;
    while k < 256
        invariant
            h.wf(),
            hs == h.counts@,
            total as int == cum_count(hs, 255),
            total as nat <= MAX_PIXELS as nat,
            k <= 256,
            sum as int == cum_sum(hs, k as int - 1),
        decreases 256 - k,
    {
        proof {
            lemma_cum_count_mono(hs, -1, k as int - 1);
            lemma_cum_count_mono(hs, k as int, 255);
            lemma_cum_bounds(hs, -1, k as int);
            lemma_cum_bounds(hs, k as int - 1, k as int);
            lemma_cum_count_mono(hs, k as int - 1, k as int);
            assert(255 * cum_count(hs, k as int) <= 255 * cum_count(hs, 255))
                by (nonlinear_arith)
                requires cum_count(hs, k as int) <= cum_count(hs, 255);
            lemma_mul_upper_bound(k as int, 255, hs[k as int] as int, 0xffff_ffffint);
        }
        sum = sum + (k as u64) * (h.counts[k] as u64);
        k = k + 1;
    }

    let mut n0: u64 = 0;
    let mut s0: u64 = 0;
    let mut best_t: usize = 0;
    let mut best_q: u128 = 0;
    let mut best_r: u128 = 0;
    let mut best_p: u128 = 0;
    let mut t: usize = 0;
    while t < 256
        invariant
            h.wf(),
            hs == h.counts@,
            t <= 256,
            n0 as int == cum_count(hs, t as int - 1),
            s0 as int == cum_sum(hs, t as int - 1),
            total as int == cum_count(hs, 255),
            total as nat <= MAX_PIXELS as nat,
            sum as int == cum_sum(hs, 255),
            best_t < 256,
            t > 0 ==> best_t < t && parts_ok(hs, best_t as int, best_q, best_r, best_p),
            t == 0 ==> best_p == 0,
            forall|j: int| 0 <= j < t ==> !var_gt(hs, j, best_t as int),
            forall|j: int| 0 <= j < best_t ==> var_gt(hs, best_t as int, j),
            t == 0 ==> best_t == 0,
        decreases 256 - t,
    {
        proof {
            lemma_cum_count_mono(hs, -1, t as int - 1);
            lemma_cum_count_mono(hs, t as int, 255);
            lemma_cum_bounds(hs, -1, t as int);
            lemma_cum_bounds(hs, t as int - 1, t as int);
            lemma_cum_count_mono(hs, t as int - 1, t as int);
            assert(255 * cum_count(hs, t as int) <= 255 * cum_count(hs, 255))
                by (nonlinear_arith)
                requires cum_count(hs, t as int) <= cum_count(hs, 255);
            lemma_mul_upper_bound(t as int, 255, hs[t as int] as int, 0xffff_ffffint);
        }
        n0 = n0 + h.counts[t] as u64;
        s0 = s0 + (t as u64) * (h.counts[t] as u64);
        let (cq, cr, cp) = var_parts(n0, s0, total, sum, Ghost(hs), Ghost(t as int));
        proof {
            if t > 0 && cp > 0 && best_p > 0 {
                lemma_mul_upper_bound(cr as int, 0xffff_ffff_ffff_fffeint,
                    best_p as int, 0xffff_ffff_ffff_ffffint);
                lemma_mul_upper_bound(best_r as int, 0xffff_ffff_ffff_fffeint,
                    cp as int, 0xffff_ffff_ffff_ffffint);
            }
        }
        let better = if cp == 0 {
            false
        } else if best_p == 0 {
            cq > 0 || cr > 0
        } else {
            cq > best_q || (cq == best_q && cr * best_p > best_r * cp)
        };
        proof {
            if t > 0 {
                lemma_cmp_parts(hs, t as int, cq, cr, cp,
                    best_t as int, best_q, best_r, best_p);
                assert(better == var_gt(hs, t as int, best_t as int));
            }
        }
        if t == 0 {
            best_t = 0;
            best_q = cq;
            best_r = cr;
            best_p = cp;
        } else if better {
            proof {
                assert forall|j: int| 0 <= j < t implies var_gt(hs, t as int, j) by {
                    if j < best_t {
                        lemma_var_gt_asym(hs, best_t as int, j);
                        lemma_var_gt_trans(hs, j, best_t as int, t as int);
                    } else if j == best_t {
                    } else {
                        lemma_var_gt_trans(hs, j, best_t as int, t as int);
                    }
                }
                assert forall|j: int| 0 <= j < t implies !var_gt(hs, j, t as int) by {
                    lemma_var_gt_asym(hs, t as int, j);
                }
            }
            best_t = t;
            best_q = cq;
            best_r = cr;
            best_p = cp;
        } else {
            proof {
                if t > 0 {
                    assert(!var_gt(hs, t as int, best_t as int));
                }
            }
        }
        t = t + 1;
    }
    best_t as u8
}

} // verus!
