use looplace_core::nback_engine::{NBackTrial, TrialOutcome};
use looplace_core::nback_metrics::NBackMetrics;

fn outcome_trial(index: usize, is_target: bool, outcome: TrialOutcome) -> NBackTrial {
    NBackTrial {
        index,
        letter: 'B',
        is_target,
        is_lure: false,
        presented_at: None,
        response: None,
        outcome,
    }
}

fn metrics_for(hits: usize, targets: usize, fas: usize, non_targets: usize) -> NBackMetrics {
    let mut trials = Vec::new();
    let mut idx = 0usize;
    for i in 0..targets {
        let outcome = if i < hits {
            TrialOutcome::Hit { rt_ms: 400 }
        } else {
            TrialOutcome::Miss
        };
        trials.push(outcome_trial(idx, true, outcome));
        idx += 1;
    }
    for i in 0..non_targets {
        let outcome = if i < fas {
            TrialOutcome::FalseAlarm { rt_ms: 380 }
        } else {
            TrialOutcome::CorrectRejection
        };
        trials.push(outcome_trial(idx, false, outcome));
        idx += 1;
    }
    NBackMetrics::from_trials(&trials)
}

#[test]
fn d_prime_is_bounded_for_every_count_combination() {
    // The log-linear correction keeps every combination inside the clamp:
    // nothing diverges even at floor or ceiling rates.
    let targets = 6usize;
    let non_targets = 8usize;
    for hits in 0..=targets {
        for fas in 0..=non_targets {
            let m = metrics_for(hits, targets, fas, non_targets);
            assert!(m.d_prime_nano.abs() <= 16_000_000_000);
            assert!(m.criterion_nano.abs() <= 8_000_000_000);
        }
    }
}

#[test]
fn d_prime_monotone_in_hits_and_antitone_in_false_alarms() {
    let targets = 6usize;
    let non_targets = 8usize;
    for fas in 0..=non_targets {
        let mut prev = None;
        for hits in 0..=targets {
            let d = metrics_for(hits, targets, fas, non_targets).d_prime_nano;
            if let Some(p) = prev {
                assert!(d >= p, "d' fell when hits rose (hits={hits}, fas={fas})");
            }
            prev = Some(d);
        }
    }
    for hits in 0..=targets {
        let mut prev = None;
        for fas in 0..=non_targets {
            let d = metrics_for(hits, targets, fas, non_targets).d_prime_nano;
            if let Some(p) = prev {
                assert!(d <= p, "d' rose when false alarms rose (hits={hits}, fas={fas})");
            }
            prev = Some(d);
        }
    }
}

#[test]
fn rates_and_accuracy_are_exact_fractions() {
    let m = metrics_for(3, 6, 2, 8);
    assert_eq!(m.hit_rate_micro, 500_000);
    assert_eq!(m.false_alarm_rate_micro, 250_000);
    // Accuracy: (3 hits + 6 correct rejections) / 14 trials.
    assert_eq!(m.accuracy_micro, 9 * 1_000_000 / 14);
    assert_eq!(m.target_trials, 6);
    assert_eq!(m.non_target_trials, 8);
    assert_eq!(m.response_count, 5);
}

#[test]
fn empty_trial_list_yields_all_zero_record() {
    let m = NBackMetrics::from_trials(&Vec::new());
    assert_eq!(m, NBackMetrics::empty());
    assert_eq!(m.d_prime_nano, 0);
    assert_eq!(m.accuracy_micro, 0);
}
