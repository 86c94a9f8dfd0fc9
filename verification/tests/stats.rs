use looplace_core::normal::probit_nano;
use looplace_core::num::{clamp_to_i64, div_trunc, isqrt_u128};
use looplace_core::stats::{mean_milli, percentile_milli, sd_milli, slope_milli_per_min, sort_u64s};

#[test]
fn percentile_interpolates_by_rank() {
    let sorted = vec![300u64, 400, 500, 600];
    // p50: rank 1.5 -> halfway between 400 and 500.
    assert_eq!(percentile_milli(&sorted, 500), 450_000);
    // p10: rank 0.3 -> 300 + 0.3 * 100.
    assert_eq!(percentile_milli(&sorted, 100), 330_000);
    // p90: rank 2.7 -> 500 + 0.7 * 100.
    assert_eq!(percentile_milli(&sorted, 900), 570_000);
}

#[test]
fn percentile_degenerate_inputs() {
    let empty: Vec<u64> = Vec::new();
    assert_eq!(percentile_milli(&empty, 500), 0);
    let single = vec![250u64];
    assert_eq!(percentile_milli(&single, 900), 250_000);
    let pair = vec![100u64, 200];
    // Fractions above one clamp to the maximum.
    assert_eq!(percentile_milli(&pair, 5000), 200_000);
}

#[test]
fn mean_and_sd_match_hand_computation() {
    let values = vec![300u64, 400];
    assert_eq!(mean_milli(&values), 350_000);
    // Sample SD of {300, 400} is 70.7107 ms; the fixed-point floor is 70710.
    assert_eq!(sd_milli(&values), 70_710);

    let empty: Vec<u64> = Vec::new();
    assert_eq!(mean_milli(&empty), 0);
    assert_eq!(sd_milli(&empty), 0);
    let single = vec![123u64];
    assert_eq!(sd_milli(&single), 0);
}

#[test]
fn slope_is_rise_over_run_per_minute() {
    // 100 ms of slowing over exactly one minute.
    let xs = vec![0u64, 60_000];
    let ys = vec![300u64, 400];
    assert_eq!(slope_milli_per_min(&xs, &ys), 100_000);

    // Fewer than two points, mismatched lengths, or constant x: zero.
    assert_eq!(slope_milli_per_min(&vec![1], &vec![2]), 0);
    assert_eq!(slope_milli_per_min(&vec![1, 2], &vec![2]), 0);
    assert_eq!(slope_milli_per_min(&vec![5, 5], &vec![1, 9]), 0);
}

#[test]
fn sort_orders_values() {
    let mut v = vec![500u64, 100, 400, 100, 300];
    sort_u64s(&mut v);
    assert_eq!(v, vec![100, 100, 300, 400, 500]);
}

#[test]
fn isqrt_and_division_helpers() {
    assert_eq!(isqrt_u128(0), 0);
    assert_eq!(isqrt_u128(15), 3);
    assert_eq!(isqrt_u128(16), 4);
    assert_eq!(isqrt_u128(5_000_000_000), 70_710);
    assert_eq!(div_trunc(7, 2), 3);
    assert_eq!(div_trunc(-7, 2), -3);
    assert_eq!(clamp_to_i64(i128::MAX), i64::MAX);
    assert_eq!(clamp_to_i64(-42), -42);
}

fn acklam_f64(p: f64) -> f64 {
    const A: [f64; 6] = [
        -3.969683028665376e1,
        2.209460984245205e2,
        -2.759285104469687e2,
        1.38357751867269e2,
        -3.066479806614716e1,
        2.506628277459239,
    ];
    const B: [f64; 5] = [
        -5.447609879822406e1,
        1.615858368580409e2,
        -1.556989798598866e2,
        6.680131188771972e1,
        -1.328068155288572e1,
    ];
    const C: [f64; 6] = [
        -7.784894002430293e-3,
        -3.223964580411365e-1,
        -2.400758277161838,
        -2.549732539343734,
        4.374664141464968,
        2.938163982698783,
    ];
    const D: [f64; 4] = [
        7.784695709041462e-3,
        3.224671290700398e-1,
        2.445134137142996,
        3.754408661907416,
    ];
    const P_LOW: f64 = 0.02425;
    if p < P_LOW {
        let q = (-2.0 * p.ln()).sqrt();
        (((((C[0] * q + C[1]) * q + C[2]) * q + C[3]) * q + C[4]) * q + C[5])
            / ((((D[0] * q + D[1]) * q + D[2]) * q + D[3]) * q + 1.0)
    } else if p > 1.0 - P_LOW {
        -acklam_f64(1.0 - p)
    } else {
        let q = p - 0.5;
        let r = q * q;
        (((((A[0] * r + A[1]) * r + A[2]) * r + A[3]) * r + A[4]) * r + A[5]) * q
            / (((((B[0] * r + B[1]) * r + B[2]) * r + B[3]) * r + B[4]) * r + 1.0)
    }
}

#[test]
fn probit_tracks_the_reference_approximation() {
    // Exact zero at the median, antisymmetric across it.
    assert_eq!(probit_nano(500_000), 0);
    for &p in &[1u64, 100, 24_249, 24_250, 100_000, 250_000, 400_000, 499_999] {
        let low = probit_nano(p);
        let high = probit_nano(1_000_000 - p);
        assert_eq!(low, -high);
        assert!(low < 0);
    }

    // Within a small tolerance of the double-precision evaluation across
    // the admissible range, tails included.
    for &p in &[
        1u64, 10, 500, 5_000, 24_249, 24_250, 50_000, 150_000, 333_333, 500_000, 750_000,
        975_749, 975_751, 999_000, 999_999,
    ] {
        let fixed = probit_nano(p) as f64 / 1e9;
        let reference = acklam_f64(p as f64 / 1e6);
        assert!(
            (fixed - reference).abs() < 2e-4,
            "p={p}: fixed {fixed} vs reference {reference}"
        );
    }
}

#[test]
fn probit_monotone_over_coarse_grid() {
    let mut prev = probit_nano(1);
    let mut p = 1_000u64;
    while p < 1_000_000 {
        let z = probit_nano(p);
        assert!(z >= prev, "probit not monotone at p={p}");
        prev = z;
        p += 1_000;
    }
}
