//! Engine managing the 2-back stimulus schedule and response tracking.
//!
//! Each run generates a constrained letter sequence from a deterministic
//! seed, then walks it trial by trial: a stimulus is shown, an optional
//! response is classified hit or false alarm, and a dedicated advance step
//! retires the trial (miss or correct rejection if unanswered) and either
//! schedules the next one or completes the run.

use vstd::prelude::*;

use crate::nback_metrics::{count_trials, nback_metrics_matches, target_count, NBackMetrics};
use crate::pvt_engine::next_run_id;
use crate::rng::{choose_char, rng_from_seed, shuffle_usizes};
use crate::stats::MAX_SAMPLES;
use crate::{spec_elapsed_capped_ms, elapsed_capped_ms, MS_CAP};

use rand::rngs::StdRng;

verus! {

/// Different run phases for the 2-back engine.
#[derive(Debug, Clone, Copy, PartialEq, Eq, Structural)]
pub enum RunMode {
    Practice,
    Main,
}

impl RunMode {
    /// Seed component distinguishing practice from main runs.
    pub fn seed_tag(self) -> (r: u64)
        ensures
            r == self.spec_seed_tag(),
    {
        match self {
            RunMode::Practice => 0x41_5052_4143_5449u64,
            RunMode::Main => 0x4d_4149_4e52_554eu64,
        }
    }

    pub open spec fn spec_seed_tag(self) -> u64 {
        match self {
            RunMode::Practice => 0x41_5052_4143_5449u64,
            RunMode::Main => 0x4d_4149_4e52_554eu64,
        }
    }
}

/// Public configuration knobs for the task. The target ratio is given per
/// mille: `300` asks for thirty percent targets.
#[derive(Debug, Clone)]
pub struct NBackConfig {
    pub total_trials: usize,
    pub practice_trials: usize,
    pub target_ratio_permille: u32,
    pub stimulus_ms: u64,
    pub interstimulus_interval_ms: u64,
    pub lead_in_ms: u64,
    pub response_window_ms: u64,
    pub seed: u64,
}

impl NBackConfig {
    /// A usable configuration: a valid ratio and trial counts small enough
    /// for the statistics to stay exact.
    pub open spec fn wf(&self) -> bool {
        &&& self.total_trials <= MAX_SAMPLES
        &&& self.practice_trials <= MAX_SAMPLES
        &&& self.target_ratio_permille <= 1000
    }

    /// Number of trials a run in `mode` plays.
    pub open spec fn spec_run_length(&self, mode: RunMode) -> int {
        match mode {
            RunMode::Practice => self.practice_trials as int,
            RunMode::Main => self.total_trials as int,
        }
    }
}

impl Default for NBackConfig {
    /// The standard 60-trial configuration with 30% targets.
    fn default() -> (r: Self)
        ensures
            r.total_trials == 60,
            r.practice_trials == 12,
            r.target_ratio_permille == 300,
            r.stimulus_ms == 500,
            r.interstimulus_interval_ms == 2500,
            r.lead_in_ms == 750,
            r.response_window_ms == 3000,
            r.seed == 1,
            r.wf(),
    {
        NBackConfig {
            total_trials: 60,
            practice_trials: 12,
            target_ratio_permille: 300,
            stimulus_ms: 500,
            interstimulus_interval_ms: 2500,
            lead_in_ms: 750,
            response_window_ms: 3000,
            seed: 1,
        }
    }
}

#[derive(Debug, Clone, Copy, PartialEq, Eq, Structural)]
pub enum EngineState {
    Idle,
    Waiting { mode: RunMode, trial_index: usize },
    StimulusActive { mode: RunMode, trial_index: usize },
    Completed { mode: RunMode },
    Aborted,
}

#[derive(Debug, Clone, Copy, PartialEq, Eq, Structural)]
pub struct TrialResponse {
    pub timestamp: u64,
    pub rt_ms: u64,
}

#[derive(Debug, Clone, Copy, PartialEq, Eq, Structural)]
pub enum TrialOutcome {
    Pending,
    Hit { rt_ms: u64 },
    Miss,
    FalseAlarm { rt_ms: u64 },
    CorrectRejection,
}

#[derive(Debug, Clone, Copy, PartialEq, Eq, Structural)]
pub enum ResponseKind {
    Hit,
    FalseAlarm,
}

#[derive(Debug, Clone, Copy, PartialEq, Eq, Structural)]
pub struct ScheduledStimulus {
    pub run_id: u64,
    pub trial_index: usize,
    pub wait_ms: u64,
}

#[derive(Debug, Clone, Copy, PartialEq, Eq, Structural)]
pub struct ScheduledAdvance {
    pub run_id: u64,
    pub trial_index: usize,
    pub wait_ms: u64,
}

#[derive(Debug, Clone, Copy, PartialEq, Eq, Structural)]
pub struct TrialSchedule {
    pub stimulus: ScheduledStimulus,
    pub advance: ScheduledAdvance,
}

#[derive(Debug, Clone, Copy, PartialEq, Eq, Structural)]
pub enum AdvanceOutcome {
    Next(TrialSchedule),
    Completed { mode: RunMode },
    Ignored,
}

#[derive(Debug, Clone, Copy, PartialEq, Eq, Structural)]
pub enum ResponseOutcome {
    Recorded(ResponseKind),
    Ignored,
}

#[derive(Debug, Clone, Copy)]
pub struct NBackTrial {
    pub index: usize,
    pub letter: char,
    pub is_target: bool,
    pub is_lure: bool,
    pub presented_at: Option<u64>,
    pub response: Option<TrialResponse>,
    pub outcome: TrialOutcome,
}

impl NBackTrial {
    /// A trial is retired once its outcome is no longer pending.
    pub open spec fn spec_is_completed(&self) -> bool {
        !(self.outcome is Pending)
    }

    pub fn is_completed(&self) -> (r: bool)
        ensures
            r == self.spec_is_completed(),
    {
        !matches!(self.outcome, TrialOutcome::Pending)
    }

    /// Stored millisecond quantities stay within `MS_CAP`.
    pub open spec fn ms_bounded(&self) -> bool {
        &&& (self.outcome matches TrialOutcome::Hit { rt_ms } ==> rt_ms <= MS_CAP)
        &&& (self.outcome matches TrialOutcome::FalseAlarm { rt_ms } ==> rt_ms <= MS_CAP)
        &&& (self.response matches Some(resp) ==> resp.rt_ms <= MS_CAP)
    }

    /// A freshly generated trial: no timestamps, no response, pending.
    pub open spec fn fresh(&self) -> bool {
        &&& self.presented_at is None
        &&& self.response is None
        &&& self.outcome is Pending
    }
}

/// The fixed consonant pool stimuli are drawn from.
pub open spec fn letter_pool_spec() -> Seq<char> {
    seq![
        'B', 'C', 'D', 'F', 'G', 'H', 'J', 'K', 'M', 'P', 'Q', 'R', 'S', 'T', 'V', 'W', 'X', 'Y',
        'Z',
    ]
}

fn letter_pool() -> (r: Vec<char>)
    ensures
        r@ == letter_pool_spec(),
{
    let v: Vec<char> = vec![
        'B', 'C', 'D', 'F', 'G', 'H', 'J', 'K', 'M', 'P', 'Q', 'R', 'S', 'T', 'V', 'W', 'X', 'Y',
        'Z',
    ];
    proof {
        assert(v@ =~= letter_pool_spec());
    }
    v
}

/// A random letter from the pool, avoiding `disallow` when given: drawn
/// uniformly from the pool with that letter removed.
fn random_letter(rng: &mut StdRng, disallow: Option<char>) -> (r: char)
    ensures
        letter_pool_spec().contains(r),
        disallow matches Some(d) ==> r != d,
{
    let pool = letter_pool();
    let filtered: Vec<char> = match disallow {
        None => pool,
        Some(d) => {
            let mut kept: Vec<char> = Vec::new();
            let mut i: usize = 0;
            while i < pool.len()
                invariant
                    0 <= i <= pool@.len(),
                    pool@ == letter_pool_spec(),
                    forall|k: int|
                        0 <= k < kept@.len() ==> letter_pool_spec().contains(#[trigger] kept@[k])
                            && kept@[k] != d,
                    i >= 1 ==> (pool@[0] == d || kept@.contains(pool@[0])),
                    i >= 2 ==> (pool@[1] == d || kept@.contains(pool@[1])),
                decreases pool@.len() - i,
            {
                let c = pool[i];
                if c != d {
                    let ghost kept0 = kept@;
                    kept.push(c);
                    proof {
                        assert(letter_pool_spec().contains(pool@[i as int]));
                        assert(kept@[kept@.len() - 1] == pool@[i as int]);
                        assert forall|x: char| kept0.contains(x) implies kept@.contains(x) by {
                            let j = choose|j: int| 0 <= j < kept0.len() && kept0[j] == x;
                            assert(kept@[j] == x);
                        }
                        assert(kept@.contains(pool@[i as int]));
                    }
                }
                i = i + 1;
            }
            proof {
                if kept@.len() == 0 {
                    assert(pool@[0] == d && pool@[1] == d);
                    assert(pool@[0] == 'B' && pool@[1] == 'C');
                }
            }
            kept
        },
    };
    let picked = choose_char(rng, &filtered);
    match picked {
        Some(c) => c,
        None => {
            proof {
                assert(false);
            }
            'B'
        },
    }
}

/// Desired number of targets: the ratio rounded over the candidate count,
/// forced to at least one when candidates exist and the ratio is positive,
/// and never more than the candidate count.
pub open spec fn target_quota_spec(permille: int, length: int) -> int {
    if length <= 2 {
        0
    } else {
        let candidates = length - 2;
        let rounded = (permille * candidates + 500) / 1000;
        let floored = if rounded < 1 && permille > 0 {
            1int
        } else {
            rounded
        };
        if floored > candidates {
            candidates
        } else {
            floored
        }
    }
}

/// Number of set flags in a mark list.
pub open spec fn count_true(s: Seq<bool>) -> int
    decreases s.len(),
{
    if s.len() == 0 {
        0
    } else {
        count_true(s.drop_last()) + if s.last() {
            1int
        } else {
            0int
        }
    }
}

proof fn lemma_count_true_push(s: Seq<bool>, b: bool)
    ensures
        count_true(s.push(b)) == count_true(s) + if b {
            1int
        } else {
            0int
        },
{
    assert(s.push(b).drop_last() =~= s);
}

/// Setting a clear flag raises the count by one.
proof fn lemma_count_true_update(s: Seq<bool>, p: int)
    requires
        0 <= p < s.len(),
        !s[p],
    ensures
        count_true(s.update(p, true)) == count_true(s) + 1,
    decreases s.len(),
{
    if p == s.len() - 1 {
        assert(s.update(p, true).drop_last() =~= s.drop_last());
    } else {
        assert(s.update(p, true).drop_last() =~= s.drop_last().update(p, true));
        lemma_count_true_update(s.drop_last(), p);
    }
}

/// When the target flags agree pointwise with a mark list, the target
/// count is the number of set marks.
proof fn lemma_target_count_pointwise(s: Seq<NBackTrial>, m: Seq<bool>)
    requires
        s.len() == m.len(),
        forall|k: int| 0 <= k < s.len() ==> (#[trigger] s[k]).is_target == m[k],
    ensures
        target_count(s) == count_true(m),
    decreases s.len(),
{
    if s.len() > 0 {
        lemma_target_count_pointwise(s.drop_last(), m.drop_last());
        assert(count_trials(s, |t: NBackTrial| t.is_target) == count_trials(
            s.drop_last(),
            |t: NBackTrial| t.is_target,
        ) + if s.last().is_target {
            1int
        } else {
            0int
        });
    }
}

/// A permutation of a duplicate-free list is duplicate-free.
proof fn lemma_multiset_no_dup(orig: Seq<usize>, s: Seq<usize>)
    requires
        orig.to_multiset() == s.to_multiset(),
        orig.no_duplicates(),
    ensures
        s.no_duplicates(),
{
    orig.lemma_multiset_has_no_duplicates();
    s.lemma_multiset_has_no_duplicates_conv();
}

/// The generated-sequence contract: every index carries a letter from the
/// pool, targets are exactly the two-back letter repeats, lures the one-back
/// repeats, and every trial is fresh.
pub open spec fn trials_generated(s: Seq<NBackTrial>, length: int) -> bool {
    &&& s.len() == length
    &&& forall|i: int| 0 <= i < s.len() ==> (#[trigger] s[i]).index == i
    &&& forall|i: int| 0 <= i < s.len() ==> letter_pool_spec().contains(#[trigger] s[i].letter)
    &&& forall|i: int| 0 <= i < s.len() ==> (#[trigger] s[i]).fresh()
    &&& forall|i: int|
        2 <= i < s.len() ==> ((#[trigger] s[i]).is_target <==> s[i].letter == s[i - 2].letter)
    &&& forall|i: int| 0 <= i < 2 && i < s.len() ==> !(#[trigger] s[i]).is_target
    &&& forall|i: int|
        1 <= i < s.len() ==> ((#[trigger] s[i]).is_lure <==> s[i].letter == s[i - 1].letter)
    &&& s.len() > 0 ==> !s[0].is_lure
}

/// Build one run's letter sequence and trial list from a deterministic seed.
///
/// The first two letters are free draws. Target positions are chosen by
/// shuffling the candidate indices and keeping a quota-sized prefix; each
/// target copies the letter two back, every other position draws a letter
/// that differs from the one two back. Target and lure flags are then
/// re-derived from the letters alone.
pub fn generate_trials(config: &NBackConfig, mode: RunMode, run_id: u64) -> (r: Vec<NBackTrial>)
    requires
        config.wf(),
    ensures
        trials_generated(r@, config.spec_run_length(mode)),
        forall|i: int| 0 <= i < r@.len() ==> (#[trigger] r@[i]).ms_bounded(),
        target_count(r@) == target_quota_spec(
            config.target_ratio_permille as int,
            config.spec_run_length(mode),
        ),
{
    let length: usize = match mode {
        RunMode::Practice => config.practice_trials,
        RunMode::Main => config.total_trials,
    };
    let mut trials: Vec<NBackTrial> = Vec::new();
    if length == 0 {
        return trials;
    }

    let combined_seed = config.seed ^ mode.seed_tag() ^ run_id;
    let mut rng = rng_from_seed(combined_seed);

    let mut letters: Vec<char> = Vec::new();
    letters.push(random_letter(&mut rng, None));
    if length >= 2 {
        letters.push(random_letter(&mut rng, None));
    }

    // Choose which indices in [2, length) become targets.
    let mut is_chosen: Vec<bool> = Vec::new();
    let mut i: usize = 0;
    while i < length
        invariant
            0 <= i <= length,
            is_chosen@.len() == i,
            forall|k: int| 0 <= k < i ==> !(#[trigger] is_chosen@[k]),
            count_true(is_chosen@) == 0,
        decreases length - i,
    {
        proof {
            lemma_count_true_push(is_chosen@, false);
        }
        is_chosen.push(false);
        i = i + 1;
    }

    if length > 2 {
        let mut candidates: Vec<usize> = Vec::new();
        let mut c: usize = 2;
        while c < length
            invariant
                2 <= c <= length,
                candidates@.len() == c - 2,
                forall|k: int| 0 <= k < candidates@.len() ==> #[trigger] candidates@[k] == k + 2,
            decreases length - c,
        {
            candidates.push(c);
            c = c + 1;
        }
        let ghost pre_shuffle = candidates@;
        shuffle_usizes(&mut rng, &mut candidates);
        proof {
            assert(forall|k: int|
                0 <= k < pre_shuffle.len() ==> 2 <= #[trigger] pre_shuffle[k] < length);
            lemma_multiset_range(pre_shuffle, candidates@, 2, length as int);
            lemma_multiset_no_dup(pre_shuffle, candidates@);
        }

        let max_targets: usize = length - 2;
        let ratio: u64 = config.target_ratio_permille as u64;
        let max_t64: u64 = max_targets as u64;
        proof {
            assert(ratio * max_t64 <= 1000 * 65536) by (nonlinear_arith)
                requires
                    ratio <= 1000,
                    max_t64 <= 65536,
            ;
        }
        let numer: u64 = ratio * max_t64 + 500;
        let rounded: u64 = numer / 1000;
        proof {
            vstd::arithmetic::div_mod::lemma_div_is_ordered(numer as int, 65536500, 1000);
        }
        let mut q64: u64 = rounded;
        if q64 < 1 && ratio > 0 {
            q64 = 1;
        }
        if q64 > max_t64 {
            q64 = max_t64;
        }
        let quota: usize = q64 as usize;

        let mut k: usize = 0;
        while k < quota
            invariant
                0 <= k <= quota,
                quota <= candidates@.len(),
                is_chosen@.len() == length,
                candidates@.no_duplicates(),
                forall|j: int| 0 <= j < candidates@.len() ==> 2 <= #[trigger] candidates@[j]
                    < length,
                count_true(is_chosen@) == k,
                forall|x: int|
                    0 <= x < length ==> ((#[trigger] is_chosen@[x]) <==> exists|i: int|
                        0 <= i < k && candidates@[i] == x),
            decreases quota - k,
        {
            let idx = candidates[k];
            proof {
                if is_chosen@[idx as int] {
                    let i = choose|i: int| 0 <= i < k && candidates@[i] == idx as int;
                    assert(candidates@[i] == candidates@[k as int]);
                    assert(false);
                }
                lemma_count_true_update(is_chosen@, idx as int);
            }
            is_chosen.set(idx, true);
            proof {
                assert forall|x: int| 0 <= x < length implies ((#[trigger] is_chosen@[x])
                    <==> exists|i: int| 0 <= i < k + 1 && candidates@[i] == x) by {
                    if is_chosen@[x] {
                        if x == idx as int {
                            assert(candidates@[k as int] == x);
                        }
                    }
                }
            }
            k = k + 1;
        }
        proof {
            assert(quota as int == target_quota_spec(
                config.target_ratio_permille as int,
                length as int,
            ));
            assert(forall|x: int| 0 <= x < 2 ==> !(#[trigger] is_chosen@[x]));
        }
    }

    // Fill positions >= 2: targets copy the letter two back, the rest draw
    // a letter that differs from it.
    let mut idx: usize = if length >= 2 {
        2
    } else {
        1
    };
    while idx < length
        invariant
            1 <= idx <= length,
            length >= 2 ==> idx >= 2,
            letters@.len() == idx,
            is_chosen@.len() == length,
            forall|k: int|
                0 <= k < letters@.len() ==> letter_pool_spec().contains(#[trigger] letters@[k]),
            forall|k: int|
                2 <= k < letters@.len() ==> (letters@[k] == letters@[k - 2] <==> is_chosen@[k]),
        decreases length - idx,
    {
        let two_back = letters[idx - 2];
        if is_chosen[idx] {
            letters.push(two_back);
        } else {
            letters.push(random_letter(&mut rng, Some(two_back)));
        }
        idx = idx + 1;
    }

    // Derive target and lure flags by re-comparing letters.
    let mut t: usize = 0;
    while t < length
        invariant
            0 <= t <= length,
            letters@.len() == length,
            trials@.len() == t,
            forall|k: int|
                0 <= k < letters@.len() ==> letter_pool_spec().contains(#[trigger] letters@[k]),
            forall|k: int| 0 <= k < t ==> (#[trigger] trials@[k]).index == k,
            forall|k: int| 0 <= k < t ==> (#[trigger] trials@[k]).letter == letters@[k],
            forall|k: int| 0 <= k < t ==> (#[trigger] trials@[k]).fresh(),
            forall|k: int| 0 <= k < t ==> (#[trigger] trials@[k]).ms_bounded(),
            forall|k: int|
                2 <= k < t ==> ((#[trigger] trials@[k]).is_target <==> letters@[k] == letters@[k
                    - 2]),
            forall|k: int| 0 <= k < 2 && k < t ==> !(#[trigger] trials@[k]).is_target,
            forall|k: int|
                1 <= k < t ==> ((#[trigger] trials@[k]).is_lure <==> letters@[k] == letters@[k
                    - 1]),
            t > 0 ==> !trials@[0].is_lure,
            is_chosen@.len() == length,
            count_true(is_chosen@) == target_quota_spec(
                config.target_ratio_permille as int,
                length as int,
            ),
            forall|x: int| 0 <= x < 2 && x < length ==> !(#[trigger] is_chosen@[x]),
            forall|k: int|
                2 <= k < letters@.len() ==> (letters@[k] == letters@[k - 2] <==> is_chosen@[k]),
            forall|k: int| 0 <= k < t ==> (#[trigger] trials@[k]).is_target == is_chosen@[k],
        decreases length - t,
    {
        let letter = letters[t];
        let is_target = t >= 2 && letter == letters[t - 2];
        let is_lure = t >= 1 && letter == letters[t - 1];
        trials.push(
            NBackTrial {
                index: t,
                letter,
                is_target,
                is_lure,
                presented_at: None,
                response: None,
                outcome: TrialOutcome::Pending,
            },
        );
        t = t + 1;
    }
    proof {
        lemma_target_count_pointwise(trials@, is_chosen@);
    }
    trials
}

#[derive(Debug, Clone)]
pub struct NBackEngine {
    pub config: NBackConfig,
    pub state: EngineState,
    pub run_id: u64,
    pub trials: Vec<NBackTrial>,
    pub last_practice_metrics: Option<NBackMetrics>,
    pub last_main_metrics: Option<NBackMetrics>,
}

impl NBackEngine {
    /// The current trial list, as the contracts see it.
    pub open spec fn trials_seq(&self) -> Seq<NBackTrial> {
        self.trials@
    }

    /// The cached summary of the last completed practice run.
    pub open spec fn practice_cache(&self) -> Option<NBackMetrics> {
        self.last_practice_metrics
    }

    /// The cached summary of the last completed main run.
    pub open spec fn main_cache(&self) -> Option<NBackMetrics> {
        self.last_main_metrics
    }

    /// Trial-list shape common to every state.
    pub open spec fn trials_wf(&self) -> bool {
        &&& self.trials_seq().len() <= MAX_SAMPLES
        &&& forall|i: int|
            0 <= i < self.trials_seq().len() ==> (#[trigger] self.trials_seq()[i]).index == i
        &&& forall|i: int|
            0 <= i < self.trials_seq().len() ==> (#[trigger] self.trials_seq()[i]).ms_bounded()
        &&& forall|i: int|
            2 <= i < self.trials_seq().len() ==> ((#[trigger] self.trials_seq()[i]).is_target
                <==> self.trials_seq()[i].letter == self.trials_seq()[i - 2].letter)
        &&& forall|i: int|
            0 <= i < 2 && i < self.trials_seq().len() ==> !(#[trigger] self.trials_seq()[
            i]).is_target
    }

    /// All trials before `live` retired, everything after still fresh.
    pub open spec fn prefix_retired(&self, live: int) -> bool {
        &&& forall|j: int|
            0 <= j < live && j < self.trials_seq().len() ==> (#[trigger] self.trials_seq()[
            j]).spec_is_completed()
        &&& forall|j: int|
            live < j < self.trials_seq().len() ==> (#[trigger] self.trials_seq()[j]).fresh()
    }

    /// The engine invariant: every public operation preserves it.
    pub open spec fn inv(&self) -> bool {
        &&& self.config.wf()
        &&& self.trials_wf()
        &&& match self.state {
            EngineState::Idle => self.trials_seq().len() == 0,
            EngineState::Waiting { mode, trial_index } => {
                &&& trial_index <= self.trials_seq().len()
                &&& self.prefix_retired(trial_index as int)
                &&& trial_index < self.trials_seq().len() ==> self.trials_seq()[
                trial_index as int].fresh()
            },
            EngineState::StimulusActive { mode, trial_index } => {
                &&& trial_index < self.trials_seq().len()
                &&& self.prefix_retired(trial_index as int)
                &&& self.trials_seq()[trial_index as int].presented_at is Some
                &&& !(self.trials_seq()[trial_index as int].outcome is Miss)
                &&& !(self.trials_seq()[trial_index as int].outcome is CorrectRejection)
                &&& (self.trials_seq()[trial_index as int].response is Some <==> !(
                self.trials_seq()[trial_index as int].outcome is Pending))
            },
            EngineState::Completed { mode } => {
                &&& forall|j: int|
                    0 <= j < self.trials_seq().len() ==> (#[trigger] self.trials_seq()[
                    j]).spec_is_completed()
                &&& match mode {
                    RunMode::Practice => self.practice_cache() matches Some(m)
                        && nback_metrics_matches(self.trials_seq(), m),
                    RunMode::Main => self.main_cache() matches Some(m) && nback_metrics_matches(
                        self.trials_seq(),
                        m,
                    ),
                }
            },
            EngineState::Aborted => true,
        }
    }

    /// A run is in progress exactly in the waiting and stimulus states.
    pub open spec fn spec_run_active(&self) -> bool {
        self.state is Waiting || self.state is StimulusActive
    }

    pub fn new(config: NBackConfig) -> (r: Self)
        requires
            config.wf(),
        ensures
            r.inv(),
            r.config == config,
            r.state is Idle,
            r.run_id == 0,
            r.trials_seq().len() == 0,
            r.practice_cache() is None,
            r.main_cache() is None,
    {
        NBackEngine {
            config,
            state: EngineState::Idle,
            run_id: 0,
            trials: Vec::new(),
            last_practice_metrics: None,
            last_main_metrics: None,
        }
    }

    /// The last practice summary, if a practice run has completed.
    pub fn practice_metrics(&self) -> (r: Option<NBackMetrics>)
        ensures
            r == self.practice_cache(),
    {
        self.last_practice_metrics
    }

    /// The last main-run summary, if a main run has completed.
    pub fn main_metrics(&self) -> (r: Option<NBackMetrics>)
        ensures
            r == self.main_cache(),
    {
        self.last_main_metrics
    }

    /// Read-only view of the current trial list.
    pub fn trials(&self) -> (r: &Vec<NBackTrial>)
        ensures
            r@ == self.trials_seq(),
    {
        &self.trials
    }

    /// The schedule for trial `trial_index`: its stimulus onset (the lead-in
    /// for trial 0, the inter-stimulus interval otherwise) and its advance
    /// deadline at the end of the response window.
    pub open spec fn spec_schedule(&self, trial_index: usize) -> TrialSchedule {
        TrialSchedule {
            stimulus: ScheduledStimulus {
                run_id: self.run_id,
                trial_index,
                wait_ms: if trial_index == 0 {
                    self.config.lead_in_ms
                } else {
                    self.config.interstimulus_interval_ms
                },
            },
            advance: ScheduledAdvance {
                run_id: self.run_id,
                trial_index,
                wait_ms: self.config.response_window_ms,
            },
        }
    }

    fn schedule_current(&self, trial_index: usize) -> (r: TrialSchedule)
        ensures
            r == self.spec_schedule(trial_index),
    {
        TrialSchedule {
            stimulus: ScheduledStimulus {
                run_id: self.run_id,
                trial_index,
                wait_ms: if trial_index == 0 {
                    self.config.lead_in_ms
                } else {
                    self.config.interstimulus_interval_ms
                },
            },
            advance: ScheduledAdvance {
                run_id: self.run_id,
                trial_index,
                wait_ms: self.config.response_window_ms,
            },
        }
    }

    /// Begin a new run in `mode`: a no-op while a run is active; otherwise a
    /// fresh sequence is generated under a bumped run id and trial 0 is
    /// scheduled.
    pub fn start(&mut self, mode: RunMode) -> (r: Option<TrialSchedule>)
        requires
            old(self).inv(),
        ensures
            final(self).inv(),
            final(self).config == old(self).config,
            old(self).spec_run_active() ==> r is None && *final(self) == *old(self),
            !old(self).spec_run_active() ==> {
                &&& final(self).run_id == next_run_id(old(self).run_id)
                &&& final(self).state == (EngineState::Waiting { mode, trial_index: 0usize })
                &&& trials_generated(
                    final(self).trials_seq(),
                    old(self).config.spec_run_length(mode),
                )
                &&& target_count(final(self).trials_seq()) == target_quota_spec(
                    old(self).config.target_ratio_permille as int,
                    old(self).config.spec_run_length(mode),
                )
                &&& final(self).practice_cache() == old(self).practice_cache()
                &&& final(self).main_cache() == old(self).main_cache()
                &&& r == Some(final(self).spec_schedule(0))
            },
    {
        if matches!(self.state, EngineState::Waiting { .. } | EngineState::StimulusActive { .. }) {
            return None;
        }

        self.run_id = self.run_id.wrapping_add(1);
        self.trials = generate_trials(&self.config, mode, self.run_id);
        self.state = EngineState::Waiting { mode, trial_index: 0 };

        Some(self.schedule_current(0))
    }

    /// Force the run into the aborted state.
    pub fn abort(&mut self)
        requires
            old(self).inv(),
        ensures
            final(self).inv(),
            final(self).state is Aborted,
            final(self).config == old(self).config,
            final(self).run_id == old(self).run_id,
            final(self).trials_seq() == old(self).trials_seq(),
            final(self).practice_cache() == old(self).practice_cache(),
            final(self).main_cache() == old(self).main_cache(),
    {
        self.state = EngineState::Aborted;
    }

    /// Whether the awaited trial's index matches an arriving stimulus event.
    pub open spec fn awaiting_stimulus(self, trial_index: usize) -> bool {
        match self.state {
            EngineState::Waiting { mode, trial_index: idx } => idx == trial_index,
            _ => false,
        }
    }

    /// Effect of recording a stimulus onset: when the awaited trial exists
    /// it gains its presentation timestamp and the engine shows the
    /// stimulus; otherwise nothing changes.
    pub open spec fn mark_transition(
        pre: NBackEngine,
        post: NBackEngine,
        trial_index: usize,
        timestamp: u64,
        r: bool,
    ) -> bool {
        &&& post.config == pre.config
        &&& post.run_id == pre.run_id
        &&& post.practice_cache() == pre.practice_cache()
        &&& post.main_cache() == pre.main_cache()
        &&& if pre.awaiting_stimulus(trial_index) && trial_index < pre.trials_seq().len() {
            &&& r == true
            &&& (match pre.state {
                EngineState::Waiting { mode, .. } => post.state == (EngineState::StimulusActive {
                    mode,
                    trial_index,
                }),
                _ => false,
            })
            &&& post.trials_seq()[trial_index as int] == (NBackTrial {
                presented_at: Some(timestamp),
                ..pre.trials_seq()[trial_index as int]
            })
            &&& post.trials_seq().len() == pre.trials_seq().len()
            &&& forall|j: int|
                0 <= j < pre.trials_seq().len() && j != trial_index ==> post.trials_seq()[j]
                    == #[trigger] pre.trials_seq()[j]
        } else {
            r == false && post == pre
        }
    }

    /// Record the stimulus onset for the awaited trial.
    pub fn mark_stimulus_on(&mut self, trial_index: usize, timestamp: u64) -> (r: bool)
        requires
            old(self).inv(),
        ensures
            final(self).inv(),
            Self::mark_transition(*old(self), *final(self), trial_index, timestamp, r),
    {
        let matching_mode = match self.state {
            EngineState::Waiting { mode, trial_index: idx } => {
                if idx == trial_index {
                    Some(mode)
                } else {
                    None
                }
            },
            _ => None,
        };
        match matching_mode {
            Some(mode) => {
                if trial_index < self.trials.len() {
                    let mut trial = self.trials[trial_index];
                    trial.presented_at = Some(timestamp);
                    self.trials.set(trial_index, trial);
                    self.state = EngineState::StimulusActive { mode, trial_index };
                    true
                } else {
                    false
                }
            },
            None => false,
        }
    }

    /// Classify a response arriving at clock value `timestamp`: during a
    /// shown stimulus the first response is recorded as a hit on a target
    /// and a false alarm otherwise; repeated responses and responses in any
    /// other state are ignored. The state itself does not change; the
    /// dedicated advance step retires the trial.
    pub fn register_response(&mut self, timestamp: u64) -> (r: ResponseOutcome)
        requires
            old(self).inv(),
        ensures
            final(self).inv(),
            final(self).config == old(self).config,
            final(self).run_id == old(self).run_id,
            final(self).state == old(self).state,
            final(self).practice_cache() == old(self).practice_cache(),
            final(self).main_cache() == old(self).main_cache(),
            match old(self).state {
                EngineState::StimulusActive { mode, trial_index } => {
                    if old(self).trials_seq()[trial_index as int].response is Some {
                        r is Ignored && *final(self) == *old(self)
                    } else {
                        let rt = spec_elapsed_capped_ms(
                            old(self).trials_seq()[trial_index as int].presented_at->0,
                            timestamp,
                        );
                        let target = old(self).trials_seq()[trial_index as int].is_target;
                        &&& final(self).trials_seq()[trial_index as int] == (NBackTrial {
                            response: Some(TrialResponse { timestamp, rt_ms: rt }),
                            outcome: if target {
                                TrialOutcome::Hit { rt_ms: rt }
                            } else {
                                TrialOutcome::FalseAlarm { rt_ms: rt }
                            },
                            ..old(self).trials_seq()[trial_index as int]
                        })
                        &&& r == ResponseOutcome::Recorded(
                            if target {
                                ResponseKind::Hit
                            } else {
                                ResponseKind::FalseAlarm
                            },
                        )
                        &&& final(self).trials_seq().len() == old(self).trials_seq().len()
                        &&& forall|j: int|
                            0 <= j < old(self).trials_seq().len() && j != trial_index
                                ==> final(self).trials_seq()[j] == #[trigger] old(
                                self,
                            ).trials_seq()[j]
                    }
                },
                _ => r is Ignored && *final(self) == *old(self),
            },
    {
        match self.state {
            EngineState::StimulusActive { mode, trial_index } => {
                let trial = self.trials[trial_index];
                if trial.response.is_some() {
                    return ResponseOutcome::Ignored;
                }
                let onset = match trial.presented_at {
                    Some(t) => t,
                    None => {
                        return ResponseOutcome::Ignored;
                    },
                };
                let rt_ms = elapsed_capped_ms(onset, timestamp);
                let mut updated = trial;
                updated.response = Some(TrialResponse { timestamp, rt_ms });
                if updated.is_target {
                    updated.outcome = TrialOutcome::Hit { rt_ms };
                    self.trials.set(trial_index, updated);
                    ResponseOutcome::Recorded(ResponseKind::Hit)
                } else {
                    updated.outcome = TrialOutcome::FalseAlarm { rt_ms };
                    self.trials.set(trial_index, updated);
                    ResponseOutcome::Recorded(ResponseKind::FalseAlarm)
                }
            },
            _ => ResponseOutcome::Ignored,
        }
    }

    /// Whether an advance event for `trial_index` matches the live trial.
    pub open spec fn advance_matches(self, trial_index: usize) -> bool {
        match self.state {
            EngineState::Waiting { mode, trial_index: idx } => idx == trial_index,
            EngineState::StimulusActive { mode, trial_index: idx } => idx == trial_index,
            _ => false,
        }
    }

    /// The mode of an in-progress run.
    pub open spec fn live_mode(self) -> RunMode {
        match self.state {
            EngineState::Waiting { mode, .. } => mode,
            EngineState::StimulusActive { mode, .. } => mode,
            EngineState::Completed { mode } => mode,
            _ => RunMode::Practice,
        }
    }

    /// Effect of retiring the live trial: a still-pending outcome becomes a
    /// miss (target) or correct rejection (non-target); then either the next
    /// trial is scheduled or, after the last one, the run completes and its
    /// summary is cached in the slot of its mode.
    pub open spec fn advance_transition(
        pre: NBackEngine,
        post: NBackEngine,
        trial_index: usize,
        r: AdvanceOutcome,
    ) -> bool {
        &&& post.config == pre.config
        &&& post.run_id == pre.run_id
        &&& if pre.advance_matches(trial_index) {
            let mode = pre.live_mode();
            &&& post.trials_seq().len() == pre.trials_seq().len()
            &&& forall|j: int|
                0 <= j < pre.trials_seq().len() && j != trial_index ==> post.trials_seq()[j]
                    == #[trigger] pre.trials_seq()[j]
            &&& trial_index < pre.trials_seq().len() ==> {
                let was = pre.trials_seq()[trial_index as int];
                post.trials_seq()[trial_index as int] == (NBackTrial {
                    outcome: if was.outcome is Pending {
                        if was.is_target {
                            TrialOutcome::Miss
                        } else {
                            TrialOutcome::CorrectRejection
                        }
                    } else {
                        was.outcome
                    },
                    ..was
                })
            }
            &&& if trial_index + 1 >= pre.trials_seq().len() {
                &&& post.state == (EngineState::Completed { mode })
                &&& r == (AdvanceOutcome::Completed { mode })
                &&& (match mode {
                    RunMode::Practice => {
                        &&& post.practice_cache() matches Some(m) && nback_metrics_matches(
                            post.trials_seq(),
                            m,
                        )
                        &&& post.main_cache() == pre.main_cache()
                    },
                    RunMode::Main => {
                        &&& post.main_cache() matches Some(m) && nback_metrics_matches(
                            post.trials_seq(),
                            m,
                        )
                        &&& post.practice_cache() == pre.practice_cache()
                    },
                })
            } else {
                &&& post.state == (EngineState::Waiting {
                    mode,
                    trial_index: (trial_index + 1) as usize,
                })
                &&& r == AdvanceOutcome::Next(post.spec_schedule((trial_index + 1) as usize))
                &&& post.practice_cache() == pre.practice_cache()
                &&& post.main_cache() == pre.main_cache()
            }
        } else {
            r is Ignored && post == pre
        }
    }

    /// Retire the live trial and move on, or complete the run.
    #[verifier::rlimit(60)]
    pub fn advance(&mut self, trial_index: usize) -> (r: AdvanceOutcome)
        requires
            old(self).inv(),
        ensures
            final(self).inv(),
            Self::advance_transition(*old(self), *final(self), trial_index, r),
    {
        let matching_mode = match self.state {
            EngineState::Waiting { mode, trial_index: idx } => {
                if idx == trial_index {
                    Some(mode)
                } else {
                    None
                }
            },
            EngineState::StimulusActive { mode, trial_index: idx } => {
                if idx == trial_index {
                    Some(mode)
                } else {
                    None
                }
            },
            _ => None,
        };
        let mode = match matching_mode {
            Some(m) => m,
            None => {
                return AdvanceOutcome::Ignored;
            },
        };

        if trial_index < self.trials.len() {
            let mut trial = self.trials[trial_index];
            if matches!(trial.outcome, TrialOutcome::Pending) {
                trial.outcome = if trial.is_target {
                    TrialOutcome::Miss
                } else {
                    TrialOutcome::CorrectRejection
                };
                self.trials.set(trial_index, trial);
            }
            proof {
                let was = old(self).trials_seq()[trial_index as int];
                assert(self.trials@[trial_index as int] == (NBackTrial {
                    outcome: if was.outcome is Pending {
                        if was.is_target {
                            TrialOutcome::Miss
                        } else {
                            TrialOutcome::CorrectRejection
                        }
                    } else {
                        was.outcome
                    },
                    ..was
                }));
            }
        }

        let next_index = trial_index + 1;
        if next_index >= self.trials.len() {
            self.state = EngineState::Completed { mode };
            let metrics = NBackMetrics::from_trials(&self.trials);
            match mode {
                RunMode::Practice => {
                    self.last_practice_metrics = Some(metrics);
                },
                RunMode::Main => {
                    self.last_main_metrics = Some(metrics);
                },
            }
            AdvanceOutcome::Completed { mode }
        } else {
            self.state = EngineState::Waiting { mode, trial_index: next_index };
            AdvanceOutcome::Next(self.schedule_current(next_index))
        }
    }

    /// Consume a scheduled stimulus-onset event; an id from a superseded run
    /// marks a stale event, which changes nothing.
    pub fn handle_stimulus_ready(&mut self, run_id: u64, trial_index: usize, now_ms: u64) -> (r:
        bool)
        requires
            old(self).inv(),
        ensures
            final(self).inv(),
            run_id != old(self).run_id ==> r == false && *final(self) == *old(self),
            run_id == old(self).run_id ==> Self::mark_transition(
                *old(self),
                *final(self),
                trial_index,
                now_ms,
                r,
            ),
    {
        if run_id != self.run_id {
            return false;
        }
        self.mark_stimulus_on(trial_index, now_ms)
    }

    /// Consume a scheduled advance event, with the same stale-run guard.
    pub fn handle_advance(&mut self, run_id: u64, trial_index: usize) -> (r: AdvanceOutcome)
        requires
            old(self).inv(),
        ensures
            final(self).inv(),
            run_id != old(self).run_id ==> r is Ignored && *final(self) == *old(self),
            run_id == old(self).run_id ==> Self::advance_transition(
                *old(self),
                *final(self),
                trial_index,
                r,
            ),
    {
        if run_id != self.run_id {
            return AdvanceOutcome::Ignored;
        }
        self.advance(trial_index)
    }
}

impl Default for NBackEngine {
    /// An idle engine under the standard configuration.
    fn default() -> (r: Self)
        ensures
            r.inv(),
            r.state is Idle,
            r.run_id == 0,
    {
        NBackEngine::new(NBackConfig::default())
    }
}

/// Stale-event idempotence for the 2-back engine: after an abort and
/// restart the live run id is `next_run_id` of the old one and never equals
/// it, so `handle_stimulus_ready` and `handle_advance` ignore every event
/// of the superseded run unchanged.
pub proof fn lemma_stale_event_idempotent(e: NBackEngine, scheduled: TrialSchedule)
    requires
        e.run_id == next_run_id(scheduled.stimulus.run_id),
    ensures
        e.run_id != scheduled.stimulus.run_id,
{
    crate::pvt_engine::lemma_next_run_id_differs(scheduled.stimulus.run_id);
}

/// Rearranging a list (a shuffle preserves the multiset) keeps every
/// element within the original's range.
pub proof fn lemma_multiset_range(orig: Seq<usize>, s: Seq<usize>, lo: int, hi: int)
    requires
        orig.to_multiset() == s.to_multiset(),
        forall|k: int| 0 <= k < orig.len() ==> lo <= #[trigger] orig[k] < hi,
    ensures
        forall|k: int| 0 <= k < s.len() ==> lo <= #[trigger] s[k] < hi,
{
    broadcast use vstd::seq_lib::group_to_multiset_ensures;

    assert forall|k: int| 0 <= k < s.len() implies lo <= #[trigger] s[k] < hi by {
        assert(s.contains(s[k]));
        assert(s.to_multiset().count(s[k]) > 0);
        assert(orig.to_multiset().count(s[k]) > 0);
        assert(orig.contains(s[k]));
        let j = choose|j: int| 0 <= j < orig.len() && orig[j] == s[k];
    }
}

} // verus!
