//! State machine driving the Psychomotor Vigilance Task (PVT).
//!
//! The engine consumes timestamps in integer milliseconds from the caller's
//! monotonic clock, classifies each response as a reaction, lapse or false
//! start, and reports when the run has gathered its configured trial count.

use vstd::prelude::*;

use crate::rng::random_in_range;
use crate::stats::MAX_SAMPLES;
use crate::{spec_elapsed_capped_ms, elapsed_capped_ms, MS_CAP};

verus! {

/// Responses faster than this many milliseconds are anticipatory.
pub const FALSE_START_THRESHOLD_MS: u64 = 100;

#[derive(Debug, Clone)]
pub struct PvtConfig {
    pub target_trials: usize,
    pub min_iti_ms: u64,
    pub max_iti_ms: u64,
    pub max_response_ms: u64,
    pub min_reaction_trials: usize,
}

impl PvtConfig {
    /// A usable configuration: a non-empty inter-trial-interval range and a
    /// trial target small enough for the statistics to stay exact.
    pub open spec fn wf(&self) -> bool {
        &&& self.min_iti_ms <= self.max_iti_ms
        &&& self.target_trials < MAX_SAMPLES
    }
}

impl Default for PvtConfig {
    /// The standard 18-trial configuration.
    fn default() -> (r: Self)
        ensures
            r.target_trials == 18,
            r.min_iti_ms == 2000,
            r.max_iti_ms == 10000,
            r.max_response_ms == 1000,
            r.min_reaction_trials == 12,
            r.wf(),
    {
        PvtConfig {
            target_trials: 18,
            min_iti_ms: 2000,
            max_iti_ms: 10000,
            max_response_ms: 1000,
            min_reaction_trials: 12,
        }
    }
}

#[derive(Debug, Clone, Copy, PartialEq, Eq, Structural)]
pub enum TrialOutcome {
    Pending,
    Reaction { rt_ms: u64 },
    Lapse,
    FalseStart,
}

#[derive(Debug, Clone, Copy, PartialEq, Eq, Structural)]
pub enum EngineState {
    Idle,
    Waiting { trial_index: usize },
    StimulusActive { trial_index: usize },
    Completed,
    Aborted,
}

#[derive(Debug, Clone, Copy, PartialEq, Eq, Structural)]
pub struct ScheduledStimulus {
    pub run_id: u64,
    pub trial_index: usize,
    pub wait_ms: u64,
}

#[derive(Debug, Clone, Copy, PartialEq, Eq, Structural)]
pub enum ResponseOutcome {
    NextScheduled(ScheduledStimulus),
    RunCompleted,
    Ignored,
}

#[derive(Debug, Clone, Copy)]
pub struct PvtTrial {
    pub index: usize,
    pub iti_ms: u64,
    pub stimulus_onset: Option<u64>,
    pub onset_since_start_ms: Option<u64>,
    pub response_at: Option<u64>,
    pub outcome: TrialOutcome,
}

impl PvtTrial {
    pub fn new(index: usize, iti_ms: u64) -> (r: Self)
        ensures
            r.index == index,
            r.iti_ms == iti_ms,
            r.stimulus_onset is None,
            r.onset_since_start_ms is None,
            r.response_at is None,
            r.outcome is Pending,
    {
        PvtTrial {
            index,
            iti_ms,
            stimulus_onset: None,
            onset_since_start_ms: None,
            response_at: None,
            outcome: TrialOutcome::Pending,
        }
    }

    /// A trial is retired once its outcome is no longer pending.
    pub open spec fn spec_is_completed(&self) -> bool {
        !(self.outcome is Pending)
    }

    pub fn is_completed(&self) -> (r: bool)
        ensures
            r == self.spec_is_completed(),
    {
        !matches!(self.outcome, TrialOutcome::Pending)
    }

    /// Reaction time, present only for a `Reaction` outcome.
    pub fn reaction_time_ms(&self) -> (r: Option<u64>)
        ensures
            match self.outcome {
                TrialOutcome::Reaction { rt_ms } => r == Some(rt_ms),
                _ => r is None,
            },
    {
        match self.outcome {
            TrialOutcome::Reaction { rt_ms } => Some(rt_ms),
            _ => None,
        }
    }

    /// Stored millisecond quantities stay within `MS_CAP`.
    pub open spec fn ms_bounded(&self) -> bool {
        &&& (self.outcome matches TrialOutcome::Reaction { rt_ms } ==> rt_ms <= MS_CAP)
        &&& (self.onset_since_start_ms is Some ==> self.onset_since_start_ms->0 <= MS_CAP)
    }
}

/// The outcome a response receives from its reaction time: anticipations
/// below the threshold are false starts, everything else is a reaction.
pub open spec fn classify_rt(rt: u64) -> TrialOutcome {
    if rt < FALSE_START_THRESHOLD_MS {
        TrialOutcome::FalseStart
    } else {
        TrialOutcome::Reaction { rt_ms: rt }
    }
}

/// Number of retired trials in a list.
pub open spec fn completed_count(s: Seq<PvtTrial>) -> int
    decreases s.len(),
{
    if s.len() == 0 {
        0
    } else {
        completed_count(s.drop_last()) + if s.last().spec_is_completed() {
            1int
        } else {
            0int
        }
    }
}

pub proof fn lemma_completed_count_take_step(s: Seq<PvtTrial>, i: int)
    requires
        0 <= i < s.len(),
    ensures
        completed_count(s.take(i + 1)) == completed_count(s.take(i))
            + if s[i].spec_is_completed() {
            1int
        } else {
            0int
        },
{
    assert(s.take(i + 1).drop_last() =~= s.take(i));
}

/// When every trial of the list is retired the count is the length.
pub proof fn lemma_completed_count_full(s: Seq<PvtTrial>)
    requires
        forall|j: int| 0 <= j < s.len() ==> (#[trigger] s[j]).spec_is_completed(),
    ensures
        completed_count(s) == s.len(),
    decreases s.len(),
{
    if s.len() > 0 {
        lemma_completed_count_full(s.drop_last());
    }
}

#[derive(Debug, Clone)]
pub struct PvtEngine {
    pub config: PvtConfig,
    pub state: EngineState,
    pub trials: Vec<PvtTrial>,
    pub run_id: u64,
    pub run_started_at: Option<u64>,
    pub run_finished_at: Option<u64>,
    pub total_false_starts: u32,
}

/// Saturating increment, matching `u32::saturating_add(1)`.
pub open spec fn sat_inc_u32(x: u32) -> u32 {
    if x == u32::MAX {
        x
    } else {
        (x + 1) as u32
    }
}

/// The run id after a restart: a wrapping increment.
pub open spec fn next_run_id(r: u64) -> u64 {
    ((r as int + 1) % 0x1_0000_0000_0000_0000) as u64
}

/// One restart always moves the run id away from its previous value; stale
/// events scheduled under the old id can therefore never be mistaken for
/// live ones.
pub proof fn lemma_next_run_id_differs(r: u64)
    ensures
        next_run_id(r) != r,
{
    if r == u64::MAX {
        assert(next_run_id(u64::MAX) == 0);
    }
}

impl PvtEngine {
    /// Largest trial-list length a run can reach.
    pub open spec fn cap_len(&self) -> int {
        if self.config.target_trials == 0 {
            1
        } else {
            self.config.target_trials as int
        }
    }

    /// Shape of the trial list alone: indices match positions and stored
    /// millisecond quantities are capped.
    pub open spec fn trials_wf(&self) -> bool {
        &&& self.trials@.len() <= self.cap_len()
        &&& forall|i: int|
            0 <= i < self.trials@.len() ==> (#[trigger] self.trials@[i]).index == i
        &&& forall|i: int| 0 <= i < self.trials@.len() ==> (#[trigger] self.trials@[i]).ms_bounded()
    }

    /// All trials before the live one are retired; the live one is pending.
    pub open spec fn prefix_retired(&self, live: int) -> bool {
        &&& live + 1 == self.trials@.len()
        &&& !self.trials@[live].spec_is_completed()
        &&& forall|j: int| 0 <= j < live ==> (#[trigger] self.trials@[j]).spec_is_completed()
    }

    /// The engine invariant: every public operation preserves it.
    pub open spec fn inv(&self) -> bool {
        &&& self.config.wf()
        &&& self.trials_wf()
        &&& match self.state {
            EngineState::Idle => self.trials@.len() == 0,
            EngineState::Waiting { trial_index } => {
                &&& self.prefix_retired(trial_index as int)
                &&& self.run_started_at is Some
                &&& self.trials@[trial_index as int].stimulus_onset is None
            },
            EngineState::StimulusActive { trial_index } => {
                &&& self.prefix_retired(trial_index as int)
                &&& self.run_started_at is Some
                &&& self.trials@[trial_index as int].stimulus_onset is Some
                &&& self.trials@[trial_index as int].onset_since_start_ms is Some
            },
            EngineState::Completed => forall|j: int|
                0 <= j < self.trials@.len() ==> (#[trigger] self.trials@[j]).spec_is_completed(),
            EngineState::Aborted => true,
        }
    }

    /// A run is in progress exactly in the waiting and stimulus states.
    pub open spec fn spec_run_active(&self) -> bool {
        self.state is Waiting || self.state is StimulusActive
    }

    pub fn new(config: PvtConfig) -> (r: Self)
        requires
            config.wf(),
        ensures
            r.inv(),
            r.config == config,
            r.state is Idle,
            r.trials@.len() == 0,
            r.run_id == 0,
            r.run_started_at is None,
            r.run_finished_at is None,
            r.total_false_starts == 0,
    {
        PvtEngine {
            config,
            state: EngineState::Idle,
            trials: Vec::new(),
            run_id: 0,
            run_started_at: None,
            run_finished_at: None,
            total_false_starts: 0,
        }
    }

    /// Clear all per-run state; the run id is deliberately kept.
    pub fn reset(&mut self)
        requires
            old(self).inv(),
        ensures
            final(self).inv(),
            final(self).state is Idle,
            final(self).trials@.len() == 0,
            final(self).run_started_at is None,
            final(self).run_finished_at is None,
            final(self).total_false_starts == 0,
            final(self).run_id == old(self).run_id,
            final(self).config == old(self).config,
    {
        self.state = EngineState::Idle;
        self.trials.clear();
        self.run_started_at = None;
        self.run_finished_at = None;
        self.total_false_starts = 0;
    }

    /// Begin a new run at clock value `now_ms`. A no-op while a run is
    /// already active; otherwise trial 0 is created with a random
    /// inter-trial interval and its stimulus is scheduled.
    pub fn start(&mut self, now_ms: u64) -> (r: Option<ScheduledStimulus>)
        requires
            old(self).inv(),
        ensures
            final(self).inv(),
            final(self).config == old(self).config,
            old(self).spec_run_active() ==> r is None && *final(self) == *old(self),
            !old(self).spec_run_active() ==> {
                &&& final(self).run_id == next_run_id(old(self).run_id)
                &&& final(self).state == (EngineState::Waiting { trial_index: 0usize })
                &&& final(self).trials@.len() == 1
                &&& final(self).trials@[0].outcome is Pending
                &&& old(self).config.min_iti_ms <= final(self).trials@[0].iti_ms
                    <= old(self).config.max_iti_ms
                &&& final(self).run_started_at == Some(now_ms)
                &&& final(self).run_finished_at is None
                &&& final(self).total_false_starts == 0
                &&& r == Some(
                    ScheduledStimulus {
                        run_id: final(self).run_id,
                        trial_index: 0usize,
                        wait_ms: final(self).trials@[0].iti_ms,
                    },
                )
            },
    {
        if matches!(self.state, EngineState::Waiting { .. } | EngineState::StimulusActive { .. }) {
            return None;
        }
        self.reset();
        self.run_id = self.run_id.wrapping_add(1);
        self.run_started_at = Some(now_ms);

        let iti = random_in_range(self.config.min_iti_ms, self.config.max_iti_ms);
        let first_trial = PvtTrial::new(0, iti);
        self.trials.push(first_trial);
        self.state = EngineState::Waiting { trial_index: 0 };

        Some(ScheduledStimulus { run_id: self.run_id, trial_index: 0, wait_ms: iti })
    }

    /// Force the run into the aborted state, stamping the finish time.
    pub fn abort(&mut self, now_ms: u64)
        requires
            old(self).inv(),
        ensures
            final(self).inv(),
            final(self).state is Aborted,
            final(self).run_finished_at == Some(now_ms),
            final(self).trials@ == old(self).trials@,
            final(self).run_id == old(self).run_id,
            final(self).config == old(self).config,
            final(self).run_started_at == old(self).run_started_at,
            final(self).total_false_starts == old(self).total_false_starts,
    {
        self.state = EngineState::Aborted;
        self.run_finished_at = Some(now_ms);
    }

    /// Whether the awaited trial's index matches an arriving stimulus event.
    pub open spec fn awaiting_stimulus(self, trial_index: usize) -> bool {
        match self.state {
            EngineState::Waiting { trial_index: idx } => idx == trial_index,
            _ => false,
        }
    }

    /// Whether the live stimulus matches an arriving response-window event.
    pub open spec fn stimulus_shown(self, trial_index: usize) -> bool {
        match self.state {
            EngineState::StimulusActive { trial_index: idx } => idx == trial_index,
            _ => false,
        }
    }

    /// Effect of recording a stimulus onset: the awaited trial gains its
    /// onset timestamps and the engine shows the stimulus; any other state,
    /// or a mismatched index, changes nothing.
    pub open spec fn mark_transition(
        pre: PvtEngine,
        post: PvtEngine,
        trial_index: usize,
        timestamp: u64,
        r: bool,
    ) -> bool {
        &&& post.config == pre.config
        &&& post.run_id == pre.run_id
        &&& post.total_false_starts == pre.total_false_starts
        &&& if pre.awaiting_stimulus(trial_index) {
            &&& r == true
            &&& post.state == (EngineState::StimulusActive { trial_index })
            &&& post.trials@[trial_index as int] == (PvtTrial {
                stimulus_onset: Some(timestamp),
                onset_since_start_ms: Some(
                    spec_elapsed_capped_ms(pre.run_started_at->0, timestamp),
                ),
                ..pre.trials@[trial_index as int]
            })
            &&& post.trials@.len() == pre.trials@.len()
            &&& forall|j: int|
                0 <= j < pre.trials@.len() && j != trial_index ==> post.trials@[j]
                    == #[trigger] pre.trials@[j]
        } else {
            r == false && post == pre
        }
    }

    /// Effect of a response-window timeout: the live trial is retired as a
    /// lapse and the run advances or completes; anything else is ignored.
    pub open spec fn timeout_transition(
        pre: PvtEngine,
        post: PvtEngine,
        trial_index: usize,
        now_ms: u64,
        r: ResponseOutcome,
    ) -> bool {
        &&& post.config == pre.config
        &&& post.run_id == pre.run_id
        &&& post.total_false_starts == pre.total_false_starts
        &&& if pre.stimulus_shown(trial_index) {
            &&& post.trials@[trial_index as int] == (PvtTrial {
                outcome: TrialOutcome::Lapse,
                ..pre.trials@[trial_index as int]
            })
            &&& pre.advanced_to(post, r, now_ms)
        } else {
            r is Ignored && post == pre
        }
    }

    /// Record the stimulus onset for the awaited trial. Returns false (and
    /// changes nothing) on a stale or mismatched index.
    pub fn mark_stimulus_on(&mut self, trial_index: usize, timestamp: u64) -> (r: bool)
        requires
            old(self).inv(),
        ensures
            final(self).inv(),
            Self::mark_transition(*old(self), *final(self), trial_index, timestamp, r),
    {
        let matching = match self.state {
            EngineState::Waiting { trial_index: idx } => idx == trial_index,
            _ => false,
        };
        if !matching {
            return false;
        }

        let run_start = match self.run_started_at {
            Some(t) => t,
            None => {
                return false;
            },
        };
        let offset = elapsed_capped_ms(run_start, timestamp);
        let mut trial = self.trials[trial_index].clone();
        trial.stimulus_onset = Some(timestamp);
        trial.onset_since_start_ms = Some(offset);
        self.trials.set(trial_index, trial);
        self.state = EngineState::StimulusActive { trial_index };
        true
    }

    /// Classify a response arriving at clock value `timestamp`.
    ///
    /// From the stimulus state the reaction time decides: below the
    /// threshold it is a false start, otherwise a reaction carrying that
    /// time. A response while still waiting is an anticipation and always a
    /// false start. Any other state ignores the response.
    pub fn register_response(&mut self, timestamp: u64) -> (r: ResponseOutcome)
        requires
            old(self).inv(),
        ensures
            final(self).inv(),
            final(self).config == old(self).config,
            final(self).run_id == old(self).run_id,
            match old(self).state {
                EngineState::StimulusActive { trial_index } => {
                    let rt = spec_elapsed_capped_ms(
                        old(self).trials@[trial_index as int].stimulus_onset->0,
                        timestamp,
                    );
                    &&& final(self).trials@[trial_index as int] == (PvtTrial {
                        outcome: classify_rt(rt),
                        response_at: Some(timestamp),
                        ..old(self).trials@[trial_index as int]
                    })
                    &&& final(self).total_false_starts == (if rt < FALSE_START_THRESHOLD_MS {
                        sat_inc_u32(old(self).total_false_starts)
                    } else {
                        old(self).total_false_starts
                    })
                    &&& old(self).advanced_to(*final(self), r, timestamp)
                },
                EngineState::Waiting { trial_index } => {
                    &&& final(self).trials@[trial_index as int] == (PvtTrial {
                        outcome: TrialOutcome::FalseStart,
                        response_at: Some(timestamp),
                        ..old(self).trials@[trial_index as int]
                    })
                    &&& final(self).total_false_starts == sat_inc_u32(
                        old(self).total_false_starts,
                    )
                    &&& old(self).advanced_to(*final(self), r, timestamp)
                },
                _ => r is Ignored && *final(self) == *old(self),
            },
    {
        match self.state {
            EngineState::StimulusActive { trial_index } => {
                let onset = match self.trials[trial_index].stimulus_onset {
                    Some(t) => t,
                    None => {
                        return ResponseOutcome::Ignored;
                    },
                };
                let rt_ms = elapsed_capped_ms(onset, timestamp);
                let mut trial = self.trials[trial_index].clone();
                trial.response_at = Some(timestamp);
                if rt_ms < FALSE_START_THRESHOLD_MS {
                    trial.outcome = TrialOutcome::FalseStart;
                    self.total_false_starts = saturating_inc(self.total_false_starts);
                } else {
                    trial.outcome = TrialOutcome::Reaction { rt_ms };
                }
                self.trials.set(trial_index, trial);
                let ghost mid = *self;
                let out = self.schedule_next(timestamp);
                proof {
                    assert(self.trials@[trial_index as int] == mid.trials@[trial_index as int]);
                    assert forall|j: int|
                        0 <= j < old(self).trials@.len() && j != old(self).trials@.len()
                            - 1 implies self.trials@[j] == #[trigger] old(self).trials@[j] by {
                        assert(self.trials@[j] == mid.trials@[j]);
                    }
                }
                out
            },
            EngineState::Waiting { trial_index } => {
                let mut trial = self.trials[trial_index].clone();
                trial.outcome = TrialOutcome::FalseStart;
                trial.response_at = Some(timestamp);
                self.trials.set(trial_index, trial);
                self.total_false_starts = saturating_inc(self.total_false_starts);
                let ghost mid = *self;
                let out = self.schedule_next(timestamp);
                proof {
                    assert(self.trials@[trial_index as int] == mid.trials@[trial_index as int]);
                    assert forall|j: int|
                        0 <= j < old(self).trials@.len() && j != old(self).trials@.len()
                            - 1 implies self.trials@[j] == #[trigger] old(self).trials@[j] by {
                        assert(self.trials@[j] == mid.trials@[j]);
                    }
                }
                out
            },
            _ => ResponseOutcome::Ignored,
        }
    }

    /// Retire the live trial as a lapse after its response window elapsed.
    /// Ignored unless the engine still shows that trial's stimulus.
    pub fn register_timeout(&mut self, trial_index: usize, now_ms: u64) -> (r: ResponseOutcome)
        requires
            old(self).inv(),
        ensures
            final(self).inv(),
            Self::timeout_transition(*old(self), *final(self), trial_index, now_ms, r),
    {
        let matching = match self.state {
            EngineState::StimulusActive { trial_index: idx } => idx == trial_index,
            _ => false,
        };
        if !matching {
            return ResponseOutcome::Ignored;
        }
        let mut trial = self.trials[trial_index].clone();
        trial.outcome = TrialOutcome::Lapse;
        self.trials.set(trial_index, trial);
        let ghost mid = *self;
        let out = self.schedule_next(now_ms);
        proof {
            assert(self.trials@[trial_index as int] == mid.trials@[trial_index as int]);
            assert forall|j: int|
                0 <= j < old(self).trials@.len() && j != old(self).trials@.len() - 1 implies self
                .trials@[j] == #[trigger] old(self).trials@[j] by {
                assert(self.trials@[j] == mid.trials@[j]);
            }
        }
        out
    }

    /// How the engine proceeds after retiring the live trial: either the
    /// run has reached its trial target and completes, or a fresh pending
    /// trial is appended and scheduled.
    pub open spec fn advanced_to(self, post: PvtEngine, r: ResponseOutcome, now_ms: u64) -> bool {
        &&& forall|j: int|
            0 <= j < self.trials@.len() && j != self.trials@.len() - 1 ==> post.trials@[j]
                == #[trigger] self.trials@[j]
        &&& if self.trials@.len() >= self.config.target_trials {
            &&& r is RunCompleted
            &&& post.state is Completed
            &&& post.trials@.len() == self.trials@.len()
            &&& post.run_finished_at == Some(now_ms)
        } else {
            &&& post.state == (EngineState::Waiting {
                trial_index: self.trials@.len() as usize,
            })
            &&& post.trials@.len() == self.trials@.len() + 1
            &&& post.trials@.last().outcome is Pending
            &&& self.config.min_iti_ms <= post.trials@.last().iti_ms <= self.config.max_iti_ms
            &&& post.run_finished_at == self.run_finished_at
            &&& r == ResponseOutcome::NextScheduled(
                ScheduledStimulus {
                    run_id: self.run_id,
                    trial_index: self.trials@.len() as usize,
                    wait_ms: post.trials@.last().iti_ms,
                },
            )
        }
    }

    /// Append and schedule the next trial, or complete the run once the
    /// count of retired trials has reached the configured target.
    fn schedule_next(&mut self, now_ms: u64) -> (r: ResponseOutcome)
        requires
            old(self).config.wf(),
            old(self).trials_wf(),
            old(self).trials@.len() >= 1,
            forall|j: int|
                0 <= j < old(self).trials@.len() ==> (#[trigger] old(
                    self,
                ).trials@[j]).spec_is_completed(),
            old(self).run_started_at is Some,
        ensures
            final(self).inv(),
            final(self).config == old(self).config,
            final(self).run_id == old(self).run_id,
            final(self).total_false_starts == old(self).total_false_starts,
            final(self).trials@.len() >= old(self).trials@.len(),
            forall|j: int|
                0 <= j < old(self).trials@.len() ==> final(self).trials@[j] == #[trigger] old(
                    self,
                ).trials@[j],
            old(self).advanced_to(*final(self), r, now_ms),
            final(self).run_started_at == old(self).run_started_at,
    {
        let done = self.completed_trial_count();
        proof {
            lemma_completed_count_full(self.trials@);
        }
        if done >= self.config.target_trials {
            self.state = EngineState::Completed;
            self.run_finished_at = Some(now_ms);
            return ResponseOutcome::RunCompleted;
        }

        let next_index = self.trials.len();
        let iti = random_in_range(self.config.min_iti_ms, self.config.max_iti_ms);
        self.trials.push(PvtTrial::new(next_index, iti));
        self.state = EngineState::Waiting { trial_index: next_index };

        ResponseOutcome::NextScheduled(
            ScheduledStimulus { run_id: self.run_id, trial_index: next_index, wait_ms: iti },
        )
    }

    /// Number of retired trials in the current list.
    pub fn completed_trial_count(&self) -> (r: usize)
        requires
            self.trials@.len() <= MAX_SAMPLES,
        ensures
            r == completed_count(self.trials@),
    {
        let mut count: usize = 0;
        let mut i: usize = 0;
        let n = self.trials.len();
        while i < n
            invariant
                0 <= i <= n,
                n == self.trials@.len() <= MAX_SAMPLES,
                count == completed_count(self.trials@.take(i as int)),
                count <= i,
            decreases n - i,
        {
            proof {
                lemma_completed_count_take_step(self.trials@, i as int);
            }
            if self.trials[i].is_completed() {
                count = count + 1;
            }
            i = i + 1;
        }
        assert(self.trials@.take(n as int) =~= self.trials@);
        count
    }
}

impl PvtEngine {
    /// Consume a scheduled stimulus-onset event. The event carries the run
    /// id it was scheduled under; an id other than the live one marks a
    /// stale event from a superseded run, which changes nothing.
    pub fn handle_stimulus_ready(&mut self, run_id: u64, trial_index: usize, now_ms: u64) -> (r:
        bool)
        requires
            old(self).inv(),
        ensures
            final(self).inv(),
            run_id != old(self).run_id ==> r == false && *final(self) == *old(self),
            run_id == old(self).run_id ==> Self::mark_transition(
                *old(self),
                *final(self),
                trial_index,
                now_ms,
                r,
            ),
    {
        if run_id != self.run_id {
            return false;
        }
        self.mark_stimulus_on(trial_index, now_ms)
    }

    /// Consume a scheduled response-window timeout event, with the same
    /// stale-run guard as `handle_stimulus_ready`.
    pub fn handle_timeout(&mut self, run_id: u64, trial_index: usize, now_ms: u64) -> (r:
        ResponseOutcome)
        requires
            old(self).inv(),
        ensures
            final(self).inv(),
            run_id != old(self).run_id ==> r is Ignored && *final(self) == *old(self),
            run_id == old(self).run_id ==> Self::timeout_transition(
                *old(self),
                *final(self),
                trial_index,
                now_ms,
                r,
            ),
    {
        if run_id != self.run_id {
            return ResponseOutcome::Ignored;
        }
        self.register_timeout(trial_index, now_ms)
    }
}

/// Stale-event idempotence: a scheduling event carries the run id it was
/// created under, and one later restart always moves the engine's live id
/// to `next_run_id` of the old one, which never equals it. Together with
/// the contracts of `handle_stimulus_ready` and `handle_timeout` (a
/// mismatched id changes nothing and reports the event ignored), replaying
/// any event of a superseded run after an abort and restart is a no-op.
pub proof fn lemma_stale_event_idempotent(e: PvtEngine, scheduled: ScheduledStimulus)
    requires
        e.run_id == next_run_id(scheduled.run_id),
    ensures
        e.run_id != scheduled.run_id,
{
    lemma_next_run_id_differs(scheduled.run_id);
}

impl Default for PvtEngine {
    /// An idle engine under the standard configuration.
    fn default() -> (r: Self)
        ensures
            r.inv(),
            r.state is Idle,
            r.run_id == 0,
    {
        PvtEngine::new(PvtConfig::default())
    }
}

/// `u32::saturating_add(1)`, written out so its result is fully specified.
fn saturating_inc(x: u32) -> (r: u32)
    ensures
        r == sat_inc_u32(x),
{
    if x == u32::MAX {
        x
    } else {
        x + 1
    }
}

} // verus!
