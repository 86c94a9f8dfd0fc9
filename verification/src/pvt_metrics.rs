//! Scoring for completed PVT runs.
//!
//! All `*_ms` statistics are fixed-point milli-units: thousandths of a
//! millisecond, so `300_000` reads as 300.0 ms. The slope is in milli-units
//! of milliseconds of reaction-time change per minute on task.

use vstd::prelude::*;

use crate::pvt_engine::{completed_count, lemma_completed_count_take_step, EngineState, PvtEngine,
    PvtTrial, TrialOutcome};
use crate::stats::{mean_milli, mean_milli_spec, percentile_milli, percentile_milli_spec, sd_milli,
    sd_milli_spec, slope_milli_per_min, slope_milli_spec, sort_u64s, u64_le, lemma_sort_keeps_bound,
    MAX_SAMPLES};
use crate::MS_CAP;

verus! {

/// Reactions at or above this many milliseconds count as lapses.
pub const LAPSE_THRESHOLD_MS: u64 = 500;

/// Reactions in `[355, 500)` milliseconds count as minor lapses.
pub const MINOR_LAPSE_THRESHOLD_MS: u64 = 355;

#[derive(Debug, Clone, PartialEq, Eq, Structural)]
pub struct PvtMetrics {
    pub total_trials: usize,
    pub reacted_trials: usize,
    pub median_rt_ms: u64,
    pub mean_rt_ms: u64,
    pub sd_rt_ms: u64,
    pub p10_rt_ms: u64,
    pub p90_rt_ms: u64,
    pub lapses_ge_500ms: u32,
    pub minor_lapses_355_499ms: u32,
    pub false_starts: u32,
    pub time_on_task_slope_ms_per_min: i64,
    pub meets_min_trial_requirement: bool,
}

/// Reaction times of the `Reaction` trials, in list order.
pub open spec fn reaction_seq(s: Seq<PvtTrial>) -> Seq<u64>
    decreases s.len(),
{
    if s.len() == 0 {
        Seq::empty()
    } else {
        let rest = reaction_seq(s.drop_last());
        match s.last().outcome {
            TrialOutcome::Reaction { rt_ms } => rest.push(rt_ms),
            _ => rest,
        }
    }
}

/// Onset offsets (ms since run start) of the `Reaction` trials, in list
/// order; a missing offset contributes zero.
pub open spec fn reaction_offset_seq(s: Seq<PvtTrial>) -> Seq<u64>
    decreases s.len(),
{
    if s.len() == 0 {
        Seq::empty()
    } else {
        let rest = reaction_offset_seq(s.drop_last());
        match s.last().outcome {
            TrialOutcome::Reaction { rt_ms } => rest.push(
                if s.last().onset_since_start_ms is Some {
                    s.last().onset_since_start_ms->0
                } else {
                    0u64
                },
            ),
            _ => rest,
        }
    }
}

/// A trial counts as a lapse when it timed out, or reacted too slowly.
pub open spec fn is_lapse(t: PvtTrial) -> bool {
    match t.outcome {
        TrialOutcome::Lapse => true,
        TrialOutcome::Reaction { rt_ms } => rt_ms >= LAPSE_THRESHOLD_MS,
        _ => false,
    }
}

/// A reaction slow enough to note, but short of a lapse.
pub open spec fn is_minor_lapse(t: PvtTrial) -> bool {
    match t.outcome {
        TrialOutcome::Reaction { rt_ms } => MINOR_LAPSE_THRESHOLD_MS <= rt_ms
            && rt_ms < LAPSE_THRESHOLD_MS,
        _ => false,
    }
}

/// Number of lapse trials.
pub open spec fn lapse_count(s: Seq<PvtTrial>) -> int
    decreases s.len(),
{
    if s.len() == 0 {
        0
    } else {
        lapse_count(s.drop_last()) + if is_lapse(s.last()) {
            1int
        } else {
            0int
        }
    }
}

/// Number of minor-lapse trials.
pub open spec fn minor_lapse_count(s: Seq<PvtTrial>) -> int
    decreases s.len(),
{
    if s.len() == 0 {
        0
    } else {
        minor_lapse_count(s.drop_last()) + if is_minor_lapse(s.last()) {
            1int
        } else {
            0int
        }
    }
}

/// What a PVT summary must hold for trial list `s`, engine-accumulated
/// false-start count `fs` and acceptance threshold `min_required`. With no
/// reacted trials every derived statistic defaults to zero and the run
/// cannot meet the minimum-trial requirement.
pub open spec fn pvt_metrics_matches(
    s: Seq<PvtTrial>,
    fs: u32,
    min_required: usize,
    m: PvtMetrics,
) -> bool {
    let rts = reaction_seq(s);
    let offs = reaction_offset_seq(s);
    &&& m.total_trials == completed_count(s)
    &&& m.reacted_trials == rts.len()
    &&& m.false_starts == fs
    &&& if rts.len() == 0 {
        &&& m.median_rt_ms == 0
        &&& m.mean_rt_ms == 0
        &&& m.sd_rt_ms == 0
        &&& m.p10_rt_ms == 0
        &&& m.p90_rt_ms == 0
        &&& m.lapses_ge_500ms == 0
        &&& m.minor_lapses_355_499ms == 0
        &&& m.time_on_task_slope_ms_per_min == 0
        &&& m.meets_min_trial_requirement == false
    } else {
        &&& m.mean_rt_ms == mean_milli_spec(rts)
        &&& m.median_rt_ms == percentile_milli_spec(rts.sort_by(u64_le()), 500)
        &&& m.p10_rt_ms == percentile_milli_spec(rts.sort_by(u64_le()), 100)
        &&& m.p90_rt_ms == percentile_milli_spec(rts.sort_by(u64_le()), 900)
        &&& m.sd_rt_ms == sd_milli_spec(rts)
        &&& m.lapses_ge_500ms == lapse_count(s)
        &&& m.minor_lapses_355_499ms == minor_lapse_count(s)
        &&& m.time_on_task_slope_ms_per_min == slope_milli_spec(offs, rts)
        &&& m.meets_min_trial_requirement == (rts.len() >= min_required)
    }
}

proof fn lemma_reaction_take_step(s: Seq<PvtTrial>, i: int)
    requires
        0 <= i < s.len(),
    ensures
        reaction_seq(s.take(i + 1)) == (match s[i].outcome {
            TrialOutcome::Reaction { rt_ms } => reaction_seq(s.take(i)).push(rt_ms),
            _ => reaction_seq(s.take(i)),
        }),
        reaction_offset_seq(s.take(i + 1)) == (match s[i].outcome {
            TrialOutcome::Reaction { rt_ms } => reaction_offset_seq(s.take(i)).push(
                if s[i].onset_since_start_ms is Some {
                    s[i].onset_since_start_ms->0
                } else {
                    0u64
                },
            ),
            _ => reaction_offset_seq(s.take(i)),
        }),
        lapse_count(s.take(i + 1)) == lapse_count(s.take(i)) + if is_lapse(s[i]) {
            1int
        } else {
            0int
        },
        minor_lapse_count(s.take(i + 1)) == minor_lapse_count(s.take(i)) + if is_minor_lapse(
            s[i],
        ) {
            1int
        } else {
            0int
        },
{
    assert(s.take(i + 1).drop_last() =~= s.take(i));
}

impl PvtMetrics {
    /// Aggregate a finished trial list into a summary.
    pub fn from_trials(trials: &Vec<PvtTrial>, false_starts: u32, min_required: usize) -> (r:
        PvtMetrics)
        requires
            trials@.len() <= MAX_SAMPLES,
            forall|i: int| 0 <= i < trials@.len() ==> (#[trigger] trials@[i]).ms_bounded(),
        ensures
            pvt_metrics_matches(trials@, false_starts, min_required, r),
    {
        let n = trials.len();
        let mut reaction_times: Vec<u64> = Vec::new();
        let mut reaction_offsets: Vec<u64> = Vec::new();
        let mut lapses: u32 = 0;
        let mut minor_lapses: u32 = 0;
        let mut total_trials: usize = 0;
        let mut i: usize = 0;
        while i < n
            invariant
                0 <= i <= n,
                n == trials@.len() <= MAX_SAMPLES,
                forall|k: int| 0 <= k < trials@.len() ==> (#[trigger] trials@[k]).ms_bounded(),
                reaction_times@ == reaction_seq(trials@.take(i as int)),
                reaction_offsets@ == reaction_offset_seq(trials@.take(i as int)),
                lapses == lapse_count(trials@.take(i as int)),
                minor_lapses == minor_lapse_count(trials@.take(i as int)),
                total_trials == completed_count(trials@.take(i as int)),
                reaction_times@.len() <= i,
                lapses <= i,
                minor_lapses <= i,
                total_trials <= i,
                forall|k: int| 0 <= k < reaction_times@.len() ==> reaction_times@[k] <= MS_CAP,
                forall|k: int| 0 <= k < reaction_offsets@.len() ==> reaction_offsets@[k] <= MS_CAP,
                reaction_offsets@.len() == reaction_times@.len(),
            decreases n - i,
        {
            proof {
                lemma_reaction_take_step(trials@, i as int);
                lemma_completed_count_take_step(trials@, i as int);
            }
            let trial = trials[i];
            match trial.outcome {
                TrialOutcome::Reaction { rt_ms } => {
                    reaction_times.push(rt_ms);
                    let offset = match trial.onset_since_start_ms {
                        Some(o) => o,
                        None => 0,
                    };
                    reaction_offsets.push(offset);
                    if rt_ms >= LAPSE_THRESHOLD_MS {
                        lapses = lapses + 1;
                    } else if rt_ms >= MINOR_LAPSE_THRESHOLD_MS {
                        minor_lapses = minor_lapses + 1;
                    }
                },
                TrialOutcome::Lapse => {
                    lapses = lapses + 1;
                },
                _ => {},
            }
            if trial.is_completed() {
                total_trials = total_trials + 1;
            }
            i = i + 1;
        }
        assert(trials@.take(n as int) =~= trials@);

        if reaction_times.len() == 0 {
            return PvtMetrics {
                total_trials,
                reacted_trials: 0,
                median_rt_ms: 0,
                mean_rt_ms: 0,
                sd_rt_ms: 0,
                p10_rt_ms: 0,
                p90_rt_ms: 0,
                lapses_ge_500ms: 0,
                minor_lapses_355_499ms: 0,
                false_starts,
                time_on_task_slope_ms_per_min: 0,
                meets_min_trial_requirement: false,
            };
        }

        let reacted_trials = reaction_times.len();
        let mut sorted = clone_u64s(&reaction_times);
        sort_u64s(&mut sorted);
        proof {
            lemma_sort_keeps_bound(reaction_times@, MS_CAP);
        }

        let mean = mean_milli(&reaction_times);
        let sd = sd_milli(&reaction_times);
        let median = percentile_milli(&sorted, 500);
        let p10 = percentile_milli(&sorted, 100);
        let p90 = percentile_milli(&sorted, 900);
        let slope = slope_milli_per_min(&reaction_offsets, &reaction_times);

        PvtMetrics {
            total_trials,
            reacted_trials,
            median_rt_ms: median,
            mean_rt_ms: mean,
            sd_rt_ms: sd,
            p10_rt_ms: p10,
            p90_rt_ms: p90,
            lapses_ge_500ms: lapses,
            minor_lapses_355_499ms: minor_lapses,
            false_starts,
            time_on_task_slope_ms_per_min: slope,
            meets_min_trial_requirement: reacted_trials >= min_required,
        }
    }
}

impl PvtEngine {
    /// The run's summary, available exactly once the run has completed.
    pub fn metrics(&self) -> (r: Option<PvtMetrics>)
        requires
            self.inv(),
        ensures
            r is Some <==> self.state is Completed,
            r is Some ==> pvt_metrics_matches(
                self.trials@,
                self.total_false_starts,
                self.config.min_reaction_trials,
                r->0,
            ),
    {
        if !matches!(self.state, EngineState::Completed) {
            return None;
        }
        Some(
            PvtMetrics::from_trials(
                &self.trials,
                self.total_false_starts,
                self.config.min_reaction_trials,
            ),
        )
    }
}

/// Copy of a millisecond list (clones do not carry contracts on their own).
fn clone_u64s(v: &Vec<u64>) -> (r: Vec<u64>)
    ensures
        r@ == v@,
{
    let mut out: Vec<u64> = Vec::new();
    let mut i: usize = 0;
    while i < v.len()
        invariant
            0 <= i <= v@.len(),
            out@ == v@.take(i as int),
        decreases v@.len() - i,
    {
        out.push(v[i]);
        assert(out@ =~= v@.take(i as int + 1));
        i = i + 1;
    }
    assert(v@.take(v@.len() as int) =~= v@);
    out
}

} // verus!
