use looplace_core::pvt_engine::{EngineState, PvtConfig, PvtEngine, ResponseOutcome, TrialOutcome};

fn quick_config() -> PvtConfig {
    PvtConfig {
        target_trials: 3,
        min_iti_ms: 0,
        max_iti_ms: 0,
        max_response_ms: 500,
        min_reaction_trials: 1,
    }
}

#[test]
fn start_schedules_first_trial() {
    let mut engine = PvtEngine::new(PvtConfig::default());
    let schedule = engine.start(1_000).expect("fresh engine starts");
    assert_eq!(schedule.trial_index, 0);
    assert_eq!(schedule.run_id, engine.run_id);
    assert!(schedule.wait_ms >= 2_000 && schedule.wait_ms <= 10_000);
    assert_eq!(engine.state, EngineState::Waiting { trial_index: 0 });
    assert_eq!(engine.trials.len(), 1);

    // A second start while the run is live is a no-op.
    assert!(engine.start(2_000).is_none());
}

#[test]
fn fixed_iti_range_is_respected() {
    let mut engine = PvtEngine::new(PvtConfig {
        min_iti_ms: 1234,
        max_iti_ms: 1234,
        ..quick_config()
    });
    let schedule = engine.start(0).expect("starts");
    assert_eq!(schedule.wait_ms, 1234);
}

#[test]
fn fast_response_is_false_start_slow_is_reaction() {
    let mut engine = PvtEngine::new(quick_config());
    engine.start(0).expect("starts");
    assert!(engine.mark_stimulus_on(0, 1_000));

    // 50 ms after onset: anticipatory.
    match engine.register_response(1_050) {
        ResponseOutcome::NextScheduled(next) => assert_eq!(next.trial_index, 1),
        other => panic!("expected next trial, got {other:?}"),
    }
    assert!(matches!(engine.trials[0].outcome, TrialOutcome::FalseStart));
    assert_eq!(engine.total_false_starts, 1);

    assert!(engine.mark_stimulus_on(1, 2_000));
    match engine.register_response(2_300) {
        ResponseOutcome::NextScheduled(next) => assert_eq!(next.trial_index, 2),
        other => panic!("expected next trial, got {other:?}"),
    }
    match engine.trials[1].outcome {
        TrialOutcome::Reaction { rt_ms } => assert_eq!(rt_ms, 300),
        ref other => panic!("expected reaction, got {other:?}"),
    }
}

#[test]
fn response_before_stimulus_is_false_start() {
    let mut engine = PvtEngine::new(quick_config());
    engine.start(0).expect("starts");
    // Still waiting: the stimulus never appeared.
    match engine.register_response(500) {
        ResponseOutcome::NextScheduled(next) => assert_eq!(next.trial_index, 1),
        other => panic!("expected next trial, got {other:?}"),
    }
    assert!(matches!(engine.trials[0].outcome, TrialOutcome::FalseStart));
    assert_eq!(engine.total_false_starts, 1);
}

#[test]
fn timeout_marks_lapse_and_mismatched_timeout_is_ignored() {
    let mut engine = PvtEngine::new(quick_config());
    engine.start(0).expect("starts");
    assert!(engine.mark_stimulus_on(0, 1_000));
    // Wrong index: ignored.
    assert!(matches!(engine.register_timeout(5, 1_600), ResponseOutcome::Ignored));
    match engine.register_timeout(0, 1_500) {
        ResponseOutcome::NextScheduled(next) => assert_eq!(next.trial_index, 1),
        other => panic!("expected next trial, got {other:?}"),
    }
    assert!(matches!(engine.trials[0].outcome, TrialOutcome::Lapse));
}

#[test]
fn scripted_run_yields_expected_metrics() {
    // Three trials: a false start, a 300 ms reaction, a lapse.
    let mut engine = PvtEngine::new(quick_config());
    engine.start(0).expect("starts");

    assert!(engine.mark_stimulus_on(0, 1_000));
    assert!(matches!(
        engine.register_response(1_050),
        ResponseOutcome::NextScheduled(_)
    ));

    assert!(engine.mark_stimulus_on(1, 2_000));
    assert!(matches!(
        engine.register_response(2_300),
        ResponseOutcome::NextScheduled(_)
    ));

    assert!(engine.mark_stimulus_on(2, 3_000));
    assert!(matches!(
        engine.register_timeout(2, 3_500),
        ResponseOutcome::RunCompleted
    ));
    assert_eq!(engine.state, EngineState::Completed);

    let metrics = engine.metrics().expect("completed run has metrics");
    assert_eq!(metrics.total_trials, 3);
    assert_eq!(metrics.reacted_trials, 1);
    assert_eq!(metrics.false_starts, 1);
    assert_eq!(metrics.lapses_ge_500ms, 1);
    assert_eq!(metrics.median_rt_ms, 300_000);
    assert_eq!(metrics.mean_rt_ms, 300_000);
    assert!(metrics.meets_min_trial_requirement);
}

#[test]
fn min_trial_requirement_reflects_configuration() {
    let mut config = quick_config();
    config.min_reaction_trials = 2;
    let mut engine = PvtEngine::new(config);
    engine.start(0).expect("starts");
    assert!(engine.mark_stimulus_on(0, 1_000));
    assert!(matches!(engine.register_response(1_300), ResponseOutcome::NextScheduled(_)));
    assert!(engine.mark_stimulus_on(1, 2_000));
    assert!(matches!(engine.register_timeout(1, 2_500), ResponseOutcome::NextScheduled(_)));
    assert!(engine.mark_stimulus_on(2, 3_000));
    assert!(matches!(engine.register_timeout(2, 3_500), ResponseOutcome::RunCompleted));
    let metrics = engine.metrics().expect("metrics");
    assert_eq!(metrics.reacted_trials, 1);
    assert!(!metrics.meets_min_trial_requirement);
}

#[test]
fn metrics_only_after_completion() {
    let mut engine = PvtEngine::new(quick_config());
    assert!(engine.metrics().is_none());
    engine.start(0).expect("starts");
    assert!(engine.metrics().is_none());
    engine.abort(123);
    assert!(engine.metrics().is_none());
    assert_eq!(engine.state, EngineState::Aborted);
    assert_eq!(engine.run_finished_at, Some(123));
}

#[test]
fn stale_scheduling_events_are_ignored_after_restart() {
    let mut engine = PvtEngine::new(quick_config());
    let first = engine.start(0).expect("starts");
    let old_run = first.run_id;
    assert!(engine.handle_stimulus_ready(old_run, 0, 1_000));

    engine.abort(1_500);
    let second = engine.start(2_000).expect("restarts");
    assert_ne!(second.run_id, old_run);

    // Replay every scheduling event of the old run: all must be no-ops.
    let before_state = engine.state;
    let before_len = engine.trials.len();
    assert!(!engine.handle_stimulus_ready(old_run, 0, 2_100));
    assert!(matches!(
        engine.handle_timeout(old_run, 0, 2_200),
        ResponseOutcome::Ignored
    ));
    assert_eq!(engine.state, before_state);
    assert_eq!(engine.trials.len(), before_len);
    assert!(engine.trials[0].stimulus_onset.is_none());
}

#[test]
fn zero_reactions_defaults_metrics() {
    let mut engine = PvtEngine::new(quick_config());
    engine.start(0).expect("starts");
    for i in 0..3 {
        let t = 1_000 * (i as u64 + 1);
        assert!(engine.mark_stimulus_on(i, t));
        let out = engine.register_timeout(i, t + 500);
        if i == 2 {
            assert!(matches!(out, ResponseOutcome::RunCompleted));
        } else {
            assert!(matches!(out, ResponseOutcome::NextScheduled(_)));
        }
    }
    let metrics = engine.metrics().expect("metrics");
    assert_eq!(metrics.reacted_trials, 0);
    assert_eq!(metrics.mean_rt_ms, 0);
    assert_eq!(metrics.median_rt_ms, 0);
    assert_eq!(metrics.sd_rt_ms, 0);
    assert_eq!(metrics.time_on_task_slope_ms_per_min, 0);
    // The engine still counted the lapses into the trial list, but an
    // all-default record reports zero, matching the degraded path.
    assert_eq!(metrics.lapses_ge_500ms, 0);
    assert!(!metrics.meets_min_trial_requirement);
}

#[test]
fn interleaved_operations_keep_the_run_consistent() {
    let mut engine = PvtEngine::new(quick_config());

    // Operations in odd orders never corrupt the trial list: responses and
    // timeouts outside their state are ignored, aborts always win.
    assert!(matches!(engine.register_response(5), ResponseOutcome::Ignored));
    assert!(matches!(engine.register_timeout(0, 5), ResponseOutcome::Ignored));
    assert!(!engine.mark_stimulus_on(0, 5));

    let s1 = engine.start(10).expect("starts");
    assert!(!engine.mark_stimulus_on(1, 20)); // wrong index
    assert!(engine.handle_stimulus_ready(s1.run_id, 0, 30));
    assert!(!engine.mark_stimulus_on(0, 40)); // already shown

    // A timeout then a late response for the same trial: the response is
    // ignored because the trial was already retired.
    assert!(matches!(
        engine.handle_timeout(s1.run_id, 0, 600),
        ResponseOutcome::NextScheduled(_)
    ));
    assert!(matches!(engine.trials[0].outcome, TrialOutcome::Lapse));
    let retired = engine.trials[0].clone();
    // Waiting for trial 1 now, so this counts as an anticipation on trial 1,
    // never a change to trial 0.
    assert!(matches!(
        engine.register_response(620),
        ResponseOutcome::NextScheduled(_)
    ));
    assert!(matches!(engine.trials[0].outcome, TrialOutcome::Lapse));
    assert_eq!(engine.trials[0].response_at, retired.response_at);

    engine.abort(700);
    assert_eq!(engine.state, EngineState::Aborted);
    assert!(matches!(engine.register_response(710), ResponseOutcome::Ignored));

    let s2 = engine.start(800).expect("restarts");
    assert_ne!(s2.run_id, s1.run_id);
    assert_eq!(engine.trials.len(), 1);
    assert_eq!(engine.total_false_starts, 0);
}
