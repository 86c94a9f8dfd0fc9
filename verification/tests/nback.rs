use looplace_core::nback_engine::{
    generate_trials, AdvanceOutcome, EngineState, NBackConfig, NBackEngine, NBackTrial,
    ResponseKind, ResponseOutcome, RunMode, TrialOutcome,
};
use looplace_core::nback_metrics::NBackMetrics;

fn small_config() -> NBackConfig {
    NBackConfig {
        total_trials: 4,
        practice_trials: 4,
        target_ratio_permille: 500,
        stimulus_ms: 300,
        interstimulus_interval_ms: 200,
        lead_in_ms: 10,
        response_window_ms: 500,
        seed: 9,
    }
}

#[test]
fn generated_sequence_respects_two_back_constraints() {
    let config = NBackConfig::default();
    let trials = generate_trials(&config, RunMode::Main, 42);

    assert_eq!(trials.len(), config.total_trials);

    for idx in 2..trials.len() {
        let trial = &trials[idx];
        let two_back = &trials[idx - 2];
        if trial.is_target {
            assert_eq!(trial.letter, two_back.letter);
        } else {
            assert_ne!(trial.letter, two_back.letter);
        }
    }
}

#[test]
fn run_completion_produces_metrics() {
    let mut engine = NBackEngine::new(small_config());

    engine.start(RunMode::Practice).expect("schedule");
    assert_eq!(
        engine.state,
        EngineState::Waiting {
            mode: RunMode::Practice,
            trial_index: 0
        }
    );

    // Mark each trial as correct rejection by advancing without responses.
    engine.mark_stimulus_on(0, 10);
    assert!(matches!(engine.advance(0), AdvanceOutcome::Next(_)));
    engine.mark_stimulus_on(1, 20);
    assert!(matches!(engine.advance(1), AdvanceOutcome::Next(_)));
    engine.mark_stimulus_on(2, 30);
    assert!(matches!(engine.advance(2), AdvanceOutcome::Next(_)));
    engine.mark_stimulus_on(3, 40);
    assert!(matches!(
        engine.advance(3),
        AdvanceOutcome::Completed {
            mode: RunMode::Practice
        }
    ));

    let metrics = engine.practice_metrics().expect("practice metrics");
    assert_eq!(metrics.total_trials, 4);
}

fn bare_trial(index: usize, letter: char, is_target: bool, outcome: TrialOutcome) -> NBackTrial {
    NBackTrial {
        index,
        letter,
        is_target,
        is_lure: false,
        presented_at: None,
        response: None,
        outcome,
    }
}

#[test]
fn metrics_count_hits_and_false_alarms() {
    let trials = vec![
        bare_trial(0, 'B', false, TrialOutcome::CorrectRejection),
        bare_trial(1, 'C', false, TrialOutcome::FalseAlarm { rt_ms: 420 }),
        bare_trial(2, 'D', true, TrialOutcome::Hit { rt_ms: 480 }),
        bare_trial(3, 'F', true, TrialOutcome::Miss),
    ];

    let metrics = NBackMetrics::from_trials(&trials);
    assert_eq!(metrics.total_trials, 4);
    assert_eq!(metrics.hits, 1);
    assert_eq!(metrics.false_alarms, 1);
    assert_eq!(metrics.misses, 1);
    assert!(metrics.d_prime_nano.abs() <= 16_000_000_000);
    assert!(metrics.criterion_nano.abs() <= 8_000_000_000);
    assert_eq!(metrics.median_hit_rt_ms, 480_000);
}

#[test]
fn two_back_constraint_holds_across_seeds_lengths_and_ratios() {
    // Over ten thousand generated sequences across the length and ratio
    // space, every target flag matches the two-back letter comparison.
    for seed in 0..112u64 {
        for &length in &[4usize, 5, 7, 12, 20, 30, 60, 100, 150, 200] {
            for &ratio in &[0u32, 100, 250, 333, 500, 667, 750, 900, 1000] {
                let config = NBackConfig {
                    total_trials: length,
                    practice_trials: 3,
                    target_ratio_permille: ratio,
                    seed,
                    ..NBackConfig::default()
                };
                let trials = generate_trials(&config, RunMode::Main, seed ^ 0x5a5a);
                assert_eq!(trials.len(), length);
                for idx in 0..trials.len() {
                    let t = &trials[idx];
                    assert_eq!(t.index, idx);
                    assert!(matches!(t.outcome, TrialOutcome::Pending));
                    if idx >= 2 {
                        assert_eq!(t.is_target, t.letter == trials[idx - 2].letter);
                    } else {
                        assert!(!t.is_target);
                    }
                    if idx >= 1 {
                        assert_eq!(t.is_lure, t.letter == trials[idx - 1].letter);
                    } else {
                        assert!(!t.is_lure);
                    }
                }
            }
        }
    }
}

#[test]
fn generation_is_deterministic_per_seed_and_run() {
    let config = NBackConfig::default();
    let a = generate_trials(&config, RunMode::Main, 7);
    let b = generate_trials(&config, RunMode::Main, 7);
    assert_eq!(a.len(), b.len());
    for i in 0..a.len() {
        assert_eq!(a[i].letter, b[i].letter);
        assert_eq!(a[i].is_target, b[i].is_target);
    }
}

#[test]
fn unanswered_run_scores_misses_and_correct_rejections() {
    let mut engine = NBackEngine::new(small_config());
    let schedule = engine.start(RunMode::Main).expect("schedule");
    let run_id = schedule.stimulus.run_id;

    for i in 0..4usize {
        assert!(engine.handle_stimulus_ready(run_id, i, 100 * (i as u64 + 1)));
        let out = engine.handle_advance(run_id, i);
        if i == 3 {
            assert!(matches!(
                out,
                AdvanceOutcome::Completed {
                    mode: RunMode::Main
                }
            ));
        } else {
            assert!(matches!(out, AdvanceOutcome::Next(_)));
        }
    }

    let target_count = engine.trials().iter().filter(|t| t.is_target).count();
    let non_target_count = 4 - target_count;
    let metrics = engine.main_metrics().expect("main metrics");
    assert_eq!(metrics.hits, 0);
    assert_eq!(metrics.misses as usize, target_count);
    assert_eq!(metrics.correct_rejections as usize, non_target_count);
    assert_eq!(
        metrics.accuracy_micro,
        (non_target_count as u64) * 1_000_000 / 4
    );
    assert!(metrics.d_prime_nano.abs() <= 16_000_000_000);
}

#[test]
fn responses_classify_hits_and_false_alarms() {
    let mut engine = NBackEngine::new(small_config());
    let schedule = engine.start(RunMode::Main).expect("schedule");
    let run_id = schedule.stimulus.run_id;

    let mut expected_hits = 0u32;
    let mut expected_fas = 0u32;
    for i in 0..4usize {
        assert!(engine.handle_stimulus_ready(run_id, i, 1_000 * (i as u64 + 1)));
        let is_target = engine.trials()[i].is_target;
        match engine.register_response(1_000 * (i as u64 + 1) + 350) {
            ResponseOutcome::Recorded(ResponseKind::Hit) => {
                assert!(is_target);
                expected_hits += 1;
            }
            ResponseOutcome::Recorded(ResponseKind::FalseAlarm) => {
                assert!(!is_target);
                expected_fas += 1;
            }
            ResponseOutcome::Ignored => panic!("live response ignored"),
        }
        // A second press within the same trial is ignored.
        assert!(matches!(
            engine.register_response(1_000 * (i as u64 + 1) + 400),
            ResponseOutcome::Ignored
        ));
        let _ = engine.handle_advance(run_id, i);
    }

    let metrics = engine.main_metrics().expect("main metrics");
    assert_eq!(metrics.hits, expected_hits);
    assert_eq!(metrics.false_alarms, expected_fas);
    assert_eq!(metrics.response_count, expected_hits + expected_fas);
    for t in engine.trials().iter() {
        match t.outcome {
            TrialOutcome::Hit { rt_ms } | TrialOutcome::FalseAlarm { rt_ms } => {
                assert_eq!(rt_ms, 350)
            }
            ref other => panic!("unexpected outcome {other:?}"),
        }
    }
}

#[test]
fn stale_nback_events_are_ignored_after_restart() {
    let mut engine = NBackEngine::new(small_config());
    let first = engine.start(RunMode::Main).expect("schedule");
    let old_run = first.stimulus.run_id;
    assert!(engine.handle_stimulus_ready(old_run, 0, 50));

    engine.abort();
    let second = engine.start(RunMode::Main).expect("schedule");
    assert_ne!(second.stimulus.run_id, old_run);

    let before_state = engine.state;
    assert!(!engine.handle_stimulus_ready(old_run, 0, 60));
    assert!(matches!(
        engine.handle_advance(old_run, 0),
        AdvanceOutcome::Ignored
    ));
    assert_eq!(engine.state, before_state);
    assert!(engine.trials()[0].presented_at.is_none());
}

#[test]
fn practice_and_main_metrics_use_separate_slots() {
    let mut engine = NBackEngine::new(small_config());
    let s = engine.start(RunMode::Practice).expect("schedule");
    let rid = s.stimulus.run_id;
    for i in 0..4usize {
        engine.handle_stimulus_ready(rid, i, 10 * (i as u64 + 1));
        engine.handle_advance(rid, i);
    }
    assert!(engine.practice_metrics().is_some());
    assert!(engine.main_metrics().is_none());

    let s = engine.start(RunMode::Main).expect("schedule");
    let rid = s.stimulus.run_id;
    for i in 0..4usize {
        engine.handle_stimulus_ready(rid, i, 10 * (i as u64 + 1));
        engine.handle_advance(rid, i);
    }
    assert!(engine.practice_metrics().is_some());
    assert!(engine.main_metrics().is_some());
}
