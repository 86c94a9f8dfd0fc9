use looplace_core::codec::{
    decode_nback_metrics, decode_pvt_metrics, encode_nback_metrics, encode_pvt_metrics,
};
use looplace_core::nback_metrics::NBackMetrics;
use looplace_core::pvt_metrics::PvtMetrics;

fn sample_pvt() -> PvtMetrics {
    PvtMetrics {
        total_trials: 18,
        reacted_trials: 15,
        median_rt_ms: 301_500,
        mean_rt_ms: 310_250,
        sd_rt_ms: 45_021,
        p10_rt_ms: 255_000,
        p90_rt_ms: 402_700,
        lapses_ge_500ms: 2,
        minor_lapses_355_499ms: 3,
        false_starts: 1,
        time_on_task_slope_ms_per_min: -12_345,
        meets_min_trial_requirement: true,
    }
}

fn sample_nback() -> NBackMetrics {
    NBackMetrics {
        total_trials: 60,
        target_trials: 18,
        non_target_trials: 42,
        hits: 14,
        misses: 4,
        false_alarms: 3,
        correct_rejections: 39,
        hit_rate_micro: 777_777,
        false_alarm_rate_micro: 71_428,
        accuracy_micro: 883_333,
        d_prime_nano: 2_143_222_101,
        criterion_nano: -310_400_000,
        mean_hit_rt_ms: 512_333,
        median_hit_rt_ms: 498_000,
        sd_hit_rt_ms: 88_120,
        p10_hit_rt_ms: 402_100,
        p90_hit_rt_ms: 640_900,
        response_count: 17,
    }
}

#[test]
fn pvt_record_round_trips_field_for_field() {
    let m = sample_pvt();
    let bytes = encode_pvt_metrics(&m);
    assert_eq!(bytes.len(), 97);
    let back = decode_pvt_metrics(&bytes).expect("well-formed frame decodes");
    assert_eq!(back, m);
}

#[test]
fn nback_record_round_trips_field_for_field() {
    let m = sample_nback();
    let bytes = encode_nback_metrics(&m);
    assert_eq!(bytes.len(), 145);
    let back = decode_nback_metrics(&bytes).expect("well-formed frame decodes");
    assert_eq!(back, m);
}

#[test]
fn negative_and_extreme_signed_fields_survive() {
    let mut m = sample_pvt();
    m.time_on_task_slope_ms_per_min = i64::MIN;
    let back = decode_pvt_metrics(&encode_pvt_metrics(&m)).expect("decodes");
    assert_eq!(back.time_on_task_slope_ms_per_min, i64::MIN);

    m.time_on_task_slope_ms_per_min = i64::MAX;
    let back = decode_pvt_metrics(&encode_pvt_metrics(&m)).expect("decodes");
    assert_eq!(back.time_on_task_slope_ms_per_min, i64::MAX);
}

#[test]
fn malformed_frames_are_rejected() {
    let m = sample_pvt();
    let good = encode_pvt_metrics(&m);

    // Truncated frame.
    let mut short = good.clone();
    short.pop();
    assert!(decode_pvt_metrics(&short).is_none());

    // Wrong tag: a PVT frame is not a 2-back frame.
    assert!(decode_nback_metrics(&good).is_none());

    // A corrupted boolean word (any value above one) is refused.
    let mut bad_bool = good.clone();
    let flag_offset = 1 + 8 * 11;
    bad_bool[flag_offset] = 7;
    assert!(decode_pvt_metrics(&bad_bool).is_none());

    // Empty input.
    let empty: Vec<u8> = Vec::new();
    assert!(decode_pvt_metrics(&empty).is_none());
}
