//! Statistics over reaction times held as integer milliseconds.
//!
//! Derived values are fixed-point: a result tagged `milli` is one thousandth
//! of a millisecond, so `450_000` reads as 450.0 ms. Percentile fractions are
//! given per mille (`500` is the median). This keeps every computation exact
//! integer arithmetic.

use vstd::prelude::*;

use crate::num::{clamp_i64, clamp_to_i64, div_trunc, isqrt_spec, isqrt_u128, tdiv};
use crate::MS_CAP;

verus! {

/// Largest sample count the statistics accept; keeps all sums inside `i128`.
pub const MAX_SAMPLES: usize = 65536;

/// The `<=` ordering on `u64`, used to state what sorting means.
pub open spec fn u64_le() -> spec_fn(u64, u64) -> bool {
    |a: u64, b: u64| a <= b
}

/// `u64_le` is a total ordering, as `Seq::sort_by` requires.
pub proof fn lemma_u64_le_total_ordering()
    ensures
        vstd::relations::total_ordering(u64_le()),
{
}

/// Sum of a sequence of millisecond values.
pub open spec fn sum_ms(s: Seq<u64>) -> int
    decreases s.len(),
{
    if s.len() == 0 {
        0
    } else {
        sum_ms(s.drop_last()) + s.last()
    }
}

/// Sum of squares of a sequence of millisecond values.
pub open spec fn sum_sq_ms(s: Seq<u64>) -> int
    decreases s.len(),
{
    if s.len() == 0 {
        0
    } else {
        sum_sq_ms(s.drop_last()) + s.last() * s.last()
    }
}

/// Sum of pairwise products of two equal-length sequences.
pub open spec fn sum_prod_ms(xs: Seq<u64>, ys: Seq<u64>) -> int
    recommends
        xs.len() == ys.len(),
    decreases xs.len(),
{
    if xs.len() == 0 {
        0
    } else {
        sum_prod_ms(xs.drop_last(), ys.drop_last()) + xs.last() * ys.last()
    }
}

/// Sum of squared deviations of `s * 1000` from `m` (a milli-scale mean).
pub open spec fn dev_sq_sum(s: Seq<u64>, m: int) -> int
    decreases s.len(),
{
    if s.len() == 0 {
        0
    } else {
        dev_sq_sum(s.drop_last(), m) + (s.last() * 1000 - m) * (s.last() * 1000 - m)
    }
}

proof fn lemma_sum_take_step(s: Seq<u64>, i: int)
    requires
        0 <= i < s.len(),
    ensures
        sum_ms(s.take(i + 1)) == sum_ms(s.take(i)) + s[i],
        sum_sq_ms(s.take(i + 1)) == sum_sq_ms(s.take(i)) + s[i] * s[i],
{
    assert(s.take(i + 1).drop_last() =~= s.take(i));
    assert(s.take(i + 1).last() == s[i]);
}

proof fn lemma_sum_prod_take_step(xs: Seq<u64>, ys: Seq<u64>, i: int)
    requires
        xs.len() == ys.len(),
        0 <= i < xs.len(),
    ensures
        sum_prod_ms(xs.take(i + 1), ys.take(i + 1)) == sum_prod_ms(xs.take(i), ys.take(i)) + xs[i]
            * ys[i],
{
    assert(xs.take(i + 1).drop_last() =~= xs.take(i));
    assert(ys.take(i + 1).drop_last() =~= ys.take(i));
}

proof fn lemma_dev_sq_take_step(s: Seq<u64>, m: int, i: int)
    requires
        0 <= i < s.len(),
    ensures
        dev_sq_sum(s.take(i + 1), m) == dev_sq_sum(s.take(i), m) + (s[i] * 1000 - m) * (s[i] * 1000
            - m),
{
    assert(s.take(i + 1).drop_last() =~= s.take(i));
}

/// Mean in milli-units: `(sum * 1000) / n`, or zero for an empty sequence.
pub open spec fn mean_milli_spec(s: Seq<u64>) -> int {
    if s.len() == 0 {
        0
    } else {
        (sum_ms(s) * 1000) / (s.len() as int)
    }
}

/// Arithmetic mean of `values` in milli-units (thousandths of a millisecond).
pub fn mean_milli(values: &Vec<u64>) -> (r: u64)
    requires
        values@.len() <= MAX_SAMPLES,
        forall|i: int| 0 <= i < values@.len() ==> values@[i] <= MS_CAP,
    ensures
        r == mean_milli_spec(values@),
        r <= MS_CAP * 1000,
{
    let n = values.len();
    if n == 0 {
        return 0;
    }
    let mut sum: u128 = 0;
    let mut i: usize = 0;
    while i < n
        invariant
            0 <= i <= n,
            n == values@.len() <= MAX_SAMPLES,
            forall|k: int| 0 <= k < values@.len() ==> values@[k] <= MS_CAP,
            sum == sum_ms(values@.take(i as int)),
            sum <= i * MS_CAP,
        decreases n - i,
    {
        proof {
            lemma_sum_take_step(values@, i as int);
        }
        sum = sum + values[i] as u128;
        i = i + 1;
    }
    assert(values@.take(n as int) =~= values@);
    let q: u128 = sum * 1000 / (n as u128);
    proof {
        assert(sum * 1000 <= (MAX_SAMPLES * MS_CAP) * 1000) by (nonlinear_arith)
            requires
                sum <= MAX_SAMPLES * MS_CAP,
        ;
        assert(q * n <= sum * 1000) by (nonlinear_arith)
            requires
                n > 0,
                q == (sum * 1000) as u128 / (n as u128),
                sum * 1000 <= u128::MAX,
        ;
        assert(q <= MS_CAP * 1000) by (nonlinear_arith)
            requires
                q * n <= sum * 1000,
                sum <= n * MS_CAP,
                n > 0,
        ;
    }
    q as u64
}

/// Rank interpolation on a sorted sequence: for fraction `p` per mille the
/// rank is `p * (len - 1)` thousandths; the result interpolates linearly
/// between the two neighbouring order statistics, in milli-units.
pub open spec fn percentile_milli_spec(s: Seq<u64>, p: int) -> int {
    if s.len() == 0 {
        0
    } else if s.len() == 1 {
        s[0] * 1000
    } else {
        let pc = if p < 0 {
            0
        } else if p > 1000 {
            1000
        } else {
            p
        };
        let rank = pc * (s.len() - 1);
        let lo = rank / 1000;
        let w = rank % 1000;
        if w == 0 {
            s[lo] * 1000
        } else {
            s[lo] * 1000 + (s[lo + 1] - s[lo]) * w
        }
    }
}

/// Percentile by rank interpolation over an already-sorted list.
pub fn percentile_milli(sorted: &Vec<u64>, p_permille: u64) -> (r: u64)
    requires
        sorted@.len() <= MAX_SAMPLES,
        forall|i: int| 0 <= i < sorted@.len() ==> sorted@[i] <= MS_CAP,
        vstd::relations::sorted_by(sorted@, u64_le()),
    ensures
        r == percentile_milli_spec(sorted@, p_permille as int),
{
    let n = sorted.len();
    if n == 0 {
        return 0;
    }
    if n == 1 {
        return sorted[0] * 1000;
    }
    let pc: u64 = if p_permille > 1000 {
        1000
    } else {
        p_permille
    };
    assert(pc * (n - 1) <= 1000 * (MAX_SAMPLES - 1)) by (nonlinear_arith)
        requires
            pc <= 1000,
            1 <= n <= MAX_SAMPLES,
    ;
    let rank: u64 = pc * (n as u64 - 1);
    let lo: usize = (rank / 1000) as usize;
    let w: u64 = rank % 1000;
    assert(lo < n) by (nonlinear_arith)
        requires
            rank == pc * (n - 1),
            pc <= 1000,
            n > 1,
            lo == rank as int / 1000,
            n <= MAX_SAMPLES,
    ;
    if w == 0 {
        sorted[lo] * 1000
    } else {
        assert(lo < n - 1) by (nonlinear_arith)
            requires
                rank == pc * (n - 1),
                pc <= 1000,
                n > 1,
                lo == rank as int / 1000,
                w == rank as int % 1000,
                w != 0,
        ;
        assert(u64_le()(sorted@[lo as int], sorted@[lo as int + 1]));
        assert(sorted@[lo as int] <= sorted@[lo as int + 1]);
        proof {
            let d = sorted@[lo as int + 1] - sorted@[lo as int];
            assert(d * w <= MS_CAP * 1000 && sorted@[lo as int] * 1000 + d * w < u64::MAX)
                by (nonlinear_arith)
                requires
                    0 <= d <= MS_CAP,
                    0 <= w < 1000,
                    sorted@[lo as int] <= MS_CAP,
                    MS_CAP == 0xFFFF_FFFFu64,
            ;
        }
        sorted[lo] * 1000 + (sorted[lo + 1] - sorted[lo]) * w
    }
}

/// Sample standard deviation in milli-units: the integer square root of
/// `dev_sq_sum / (n - 1)`, or zero when fewer than two samples exist.
pub open spec fn sd_milli_spec(s: Seq<u64>) -> int {
    if s.len() < 2 {
        0
    } else {
        isqrt_spec((dev_sq_sum(s, mean_milli_spec(s)) / (s.len() - 1)) as nat) as int
    }
}

proof fn lemma_dev_sq_sum_bounds(s: Seq<u64>, m: int)
    requires
        forall|i: int| 0 <= i < s.len() ==> s[i] <= MS_CAP,
        0 <= m <= MS_CAP * 1000,
    ensures
        0 <= dev_sq_sum(s, m) <= s.len() * ((MS_CAP * 1000) * (MS_CAP * 1000)),
    decreases s.len(),
{
    if s.len() > 0 {
        lemma_dev_sq_sum_bounds(s.drop_last(), m);
        let d = s.last() * 1000 - m;
        let bb = (MS_CAP * 1000) * (MS_CAP * 1000);
        assert(0 <= d * d <= bb) by (nonlinear_arith)
            requires
                -(MS_CAP * 1000) <= d <= MS_CAP * 1000,
                bb == (MS_CAP * 1000) * (MS_CAP * 1000),
        ;
        assert(dev_sq_sum(s, m) <= s.len() * bb) by (nonlinear_arith)
            requires
                dev_sq_sum(s, m) == dev_sq_sum(s.drop_last(), m) + d * d,
                dev_sq_sum(s.drop_last(), m) <= (s.len() - 1) * bb,
                d * d <= bb,
                s.len() >= 1,
        ;
    }
}

/// Sample standard deviation of `values`, in milli-units.
pub fn sd_milli(values: &Vec<u64>) -> (r: u64)
    requires
        values@.len() <= MAX_SAMPLES,
        forall|i: int| 0 <= i < values@.len() ==> values@[i] <= MS_CAP,
    ensures
        r == sd_milli_spec(values@),
{
    let n = values.len();
    if n < 2 {
        return 0;
    }
    let m: u64 = mean_milli(values);
    let mut acc: i128 = 0;
    let mut i: usize = 0;
    proof {
        lemma_dev_sq_sum_bounds(values@, m as int);
    }
    while i < n
        invariant
            0 <= i <= n,
            n == values@.len() <= MAX_SAMPLES,
            forall|k: int| 0 <= k < values@.len() ==> values@[k] <= MS_CAP,
            m <= MS_CAP * 1000,
            acc == dev_sq_sum(values@.take(i as int), m as int),
            acc <= i * ((MS_CAP * 1000) * (MS_CAP * 1000)),
            acc >= 0,
        decreases n - i,
    {
        proof {
            lemma_dev_sq_take_step(values@, m as int, i as int);
        }
        let d: i128 = values[i] as i128 * 1000 - m as i128;
        proof {
            let bb = (MS_CAP * 1000) * (MS_CAP * 1000);
            assert(0 <= d * d <= bb) by (nonlinear_arith)
                requires
                    -(MS_CAP * 1000) <= d <= MS_CAP * 1000,
                    bb == (MS_CAP * 1000) * (MS_CAP * 1000),
            ;
            assert(acc + d * d <= (i + 1) * bb && (i + 1) * bb <= MAX_SAMPLES * bb
                && MAX_SAMPLES * bb < i128::MAX) by (nonlinear_arith)
                requires
                    acc <= i * bb,
                    0 <= d * d <= bb,
                    0 <= i < MAX_SAMPLES,
                    bb == (MS_CAP * 1000) * (MS_CAP * 1000),
                    MS_CAP == 0xFFFF_FFFFu64,
                    MAX_SAMPLES == 65536usize,
            ;
        }
        acc = acc + d * d;
        i = i + 1;
    }
    assert(values@.take(n as int) =~= values@);
    let var: i128 = acc / (n as i128 - 1);
    assert(var == dev_sq_sum(values@, m as int) / (n - 1));
    assert(var >= 0) by (nonlinear_arith)
        requires
            acc >= 0,
            n >= 2,
            var == acc as int / (n - 1),
    ;
    let root: u128 = isqrt_u128(var as u128);
    proof {
        crate::num::lemma_isqrt_spec_bounds(var as nat);
        assert(root <= u64::MAX) by (nonlinear_arith)
            requires
                root * root <= var as u128,
                var <= i128::MAX,
        ;
    }
    root as u64
}

/// Ordinary least-squares slope of `ys` (ms) against `xs` (ms), reported in
/// milli-units of milliseconds per minute and clamped into `i64`. Zero when
/// fewer than two points exist, lengths differ, or all `xs` coincide.
pub open spec fn slope_milli_spec(xs: Seq<u64>, ys: Seq<u64>) -> int {
    if xs.len() < 2 || xs.len() != ys.len() {
        0
    } else {
        let n = xs.len() as int;
        let sx = sum_ms(xs);
        let sy = sum_ms(ys);
        let sxy = sum_prod_ms(xs, ys);
        let sxx = sum_sq_ms(xs);
        let den = n * sxx - sx * sx;
        let num = n * sxy - sx * sy;
        if den <= 0 {
            0
        } else {
            clamp_i64(tdiv(num * 60000000, den))
        }
    }
}

/// Time-on-task slope: milli-units of reaction-time change per minute.
pub fn slope_milli_per_min(xs: &Vec<u64>, ys: &Vec<u64>) -> (r: i64)
    requires
        xs@.len() <= MAX_SAMPLES,
        forall|i: int| 0 <= i < xs@.len() ==> xs@[i] <= MS_CAP,
        forall|i: int| 0 <= i < ys@.len() ==> ys@[i] <= MS_CAP,
    ensures
        r == slope_milli_spec(xs@, ys@),
{
    let n = xs.len();
    if n < 2 || n != ys.len() {
        return 0;
    }
    let mut sx: u128 = 0;
    let mut sy: u128 = 0;
    let mut sxy: u128 = 0;
    let mut sxx: u128 = 0;
    let mut i: usize = 0;
    while i < n
        invariant
            0 <= i <= n,
            n == xs@.len() <= MAX_SAMPLES,
            n == ys@.len(),
            forall|k: int| 0 <= k < xs@.len() ==> xs@[k] <= MS_CAP,
            forall|k: int| 0 <= k < ys@.len() ==> ys@[k] <= MS_CAP,
            sx == sum_ms(xs@.take(i as int)),
            sy == sum_ms(ys@.take(i as int)),
            sxy == sum_prod_ms(xs@.take(i as int), ys@.take(i as int)),
            sxx == sum_sq_ms(xs@.take(i as int)),
            sx <= i * MS_CAP,
            sy <= i * MS_CAP,
            sxy <= i * (MS_CAP * MS_CAP),
            sxx <= i * (MS_CAP * MS_CAP),
        decreases n - i,
    {
        proof {
            lemma_sum_take_step(xs@, i as int);
            lemma_sum_take_step(ys@, i as int);
            lemma_sum_prod_take_step(xs@, ys@, i as int);
        }
        let x = xs[i] as u128;
        let y = ys[i] as u128;
        proof {
            let cc = MS_CAP * MS_CAP;
            assert(x * y <= cc && x * x <= cc) by (nonlinear_arith)
                requires
                    x <= MS_CAP,
                    y <= MS_CAP,
                    cc == MS_CAP * MS_CAP,
            ;
            assert(sxy + x * y <= (i + 1) * cc && sxx + x * x <= (i + 1) * cc && (i + 1) * cc
                <= MAX_SAMPLES * cc && MAX_SAMPLES * cc < u128::MAX) by (nonlinear_arith)
                requires
                    sxy <= i * cc,
                    sxx <= i * cc,
                    0 <= x * y <= cc,
                    0 <= x * x <= cc,
                    0 <= i < MAX_SAMPLES,
                    cc == MS_CAP * MS_CAP,
                    MS_CAP == 0xFFFF_FFFFu64,
                    MAX_SAMPLES == 65536usize,
            ;
        }
        sx = sx + x;
        sy = sy + y;
        sxy = sxy + x * y;
        sxx = sxx + x * x;
        i = i + 1;
    }
    assert(xs@.take(n as int) =~= xs@);
    assert(ys@.take(n as int) =~= ys@);
    proof {
        assert(n * sxy <= MAX_SAMPLES * (MAX_SAMPLES * (MS_CAP * MS_CAP)) && n * sxx
            <= MAX_SAMPLES * (MAX_SAMPLES * (MS_CAP * MS_CAP)) && sx * sy <= (MAX_SAMPLES * MS_CAP)
            * (MAX_SAMPLES * MS_CAP) && sx * sx <= (MAX_SAMPLES * MS_CAP) * (MAX_SAMPLES * MS_CAP))
            by (nonlinear_arith)
            requires
                0 <= n <= MAX_SAMPLES,
                sxy <= MAX_SAMPLES * (MS_CAP * MS_CAP),
                sxx <= MAX_SAMPLES * (MS_CAP * MS_CAP),
                sx <= MAX_SAMPLES * MS_CAP,
                sy <= MAX_SAMPLES * MS_CAP,
        ;
    }
    let den: i128 = n as i128 * sxx as i128 - (sx as i128) * (sx as i128);
    let num: i128 = n as i128 * sxy as i128 - (sx as i128) * (sy as i128);
    if den <= 0 {
        return 0;
    }
    let scaled: i128 = num * 60000000;
    let q: i128 = div_trunc(scaled, den);
    clamp_to_i64(q)
}

/// Sort a list of millisecond values ascending (insertion sort).
pub fn sort_u64s(v: &mut Vec<u64>)
    ensures
        final(v)@ == old(v)@.sort_by(u64_le()),
        final(v)@.len() == old(v)@.len(),
        vstd::relations::sorted_by(final(v)@, u64_le()),
        final(v)@.to_multiset() == old(v)@.to_multiset(),
{
    let ghost orig = v@;
    let n = v.len();
    let mut i: usize = 1;
    while i < n && n > 1
        invariant
            1 <= i <= n || n <= 1,
            n == v@.len(),
            v@.to_multiset() =~= orig.to_multiset(),
            forall|a: int, b: int| 0 <= a < b < i && b < n ==> u64_le()(v@[a], v@[b]),
        decreases n - i,
    {
        let mut j: usize = i;
        while j > 0 && v[j - 1] > v[j]
            invariant
                0 <= j <= i < n,
                n == v@.len(),
                v@.to_multiset() =~= orig.to_multiset(),
                forall|a: int, b: int| 0 <= a < b <= i && b != j ==> u64_le()(v@[a], v@[b]),
            decreases j,
        {
            let ghost before = v@;
            let tmp = v[j - 1];
            v.set(j - 1, v[j]);
            v.set(j, tmp);
            proof {
                assert(v@ =~= before.update(j - 1, before[j as int]).update(
                    j as int,
                    before[j - 1],
                ));
                broadcast use vstd::seq_lib::group_to_multiset_ensures;

                assert(v@.to_multiset() =~= before.to_multiset());
            }
            j = j - 1;
        }
        i = i + 1;
    }
    proof {
        lemma_u64_le_total_ordering();
        assert(vstd::relations::sorted_by(v@, u64_le())) by {
            if n > 1 {
                assert(forall|a: int, b: int| 0 <= a < b < n ==> u64_le()(v@[a], v@[b]));
            } else {
                assert(forall|a: int, b: int| 0 <= a < b < v@.len() ==> u64_le()(v@[a], v@[b]));
            }
        }
        orig.lemma_sort_by_ensures(u64_le());
        vstd::seq_lib::lemma_sorted_unique(v@, orig.sort_by(u64_le()), u64_le());
    }
}

/// Sorting keeps every element at or below the bound of the original list.
pub proof fn lemma_sort_keeps_bound(s: Seq<u64>, cap: u64)
    requires
        forall|i: int| 0 <= i < s.len() ==> s[i] <= cap,
    ensures
        forall|i: int| 0 <= i < s.sort_by(u64_le()).len() ==> s.sort_by(u64_le())[i] <= cap,
        s.sort_by(u64_le()).len() == s.len(),
{
    lemma_u64_le_total_ordering();
    s.lemma_sort_by_ensures(u64_le());
    let t = s.sort_by(u64_le());
    broadcast use vstd::seq_lib::group_to_multiset_ensures;

    assert(t.len() == t.to_multiset().len());
    assert(s.len() == s.to_multiset().len());
    assert forall|i: int| 0 <= i < t.len() implies t[i] <= cap by {
        assert(t.contains(t[i]));
        if !s.contains(t[i]) {
            assert(!t.contains(t[i]));
        }
        let j = choose|j: int| 0 <= j < s.len() && s[j] == t[i];
    }
}

} // verus!
