//! Scoring for completed 2-back runs.
//!
//! Counts are exact integers. Rates (`*_micro`) are fixed-point millionths:
//! `500_000` reads as 0.5. Signal-detection indices (`*_nano`) are z-score
//! differences in billionths. Hit reaction-time statistics (`*_ms`) are in
//! milli-units: thousandths of a millisecond.

use vstd::prelude::*;

use crate::nback_engine::{NBackTrial, TrialOutcome};
use crate::normal::{probit_nano, probit_nano_spec, Z_CLAMP_NANO};
use crate::num::tdiv;
use crate::stats::{mean_milli, mean_milli_spec, percentile_milli, percentile_milli_spec, sd_milli,
    sd_milli_spec, sort_u64s, u64_le, lemma_sort_keeps_bound, MAX_SAMPLES};
use crate::MS_CAP;

verus! {

#[derive(Debug, Clone, Copy, PartialEq, Eq, Structural)]
pub struct NBackMetrics {
    pub total_trials: usize,
    pub target_trials: usize,
    pub non_target_trials: usize,
    pub hits: u32,
    pub misses: u32,
    pub false_alarms: u32,
    pub correct_rejections: u32,
    pub hit_rate_micro: u64,
    pub false_alarm_rate_micro: u64,
    pub accuracy_micro: u64,
    pub d_prime_nano: i64,
    pub criterion_nano: i64,
    pub mean_hit_rt_ms: u64,
    pub median_hit_rt_ms: u64,
    pub sd_hit_rt_ms: u64,
    pub p10_hit_rt_ms: u64,
    pub p90_hit_rt_ms: u64,
    pub response_count: u32,
}

pub open spec fn is_hit(t: NBackTrial) -> bool {
    t.outcome is Hit
}

pub open spec fn is_miss(t: NBackTrial) -> bool {
    t.outcome is Miss
}

pub open spec fn is_false_alarm(t: NBackTrial) -> bool {
    t.outcome is FalseAlarm
}

pub open spec fn is_correct_rejection(t: NBackTrial) -> bool {
    t.outcome is CorrectRejection
}

/// Number of trials satisfying `p`.
pub open spec fn count_trials(s: Seq<NBackTrial>, p: spec_fn(NBackTrial) -> bool) -> int
    decreases s.len(),
{
    if s.len() == 0 {
        0
    } else {
        count_trials(s.drop_last(), p) + if p(s.last()) {
            1int
        } else {
            0int
        }
    }
}

/// Number of target trials.
pub open spec fn target_count(s: Seq<NBackTrial>) -> int {
    count_trials(s, |t: NBackTrial| t.is_target)
}

/// Reaction times of the hit trials, in list order.
pub open spec fn hit_rt_seq(s: Seq<NBackTrial>) -> Seq<u64>
    decreases s.len(),
{
    if s.len() == 0 {
        Seq::empty()
    } else {
        let rest = hit_rt_seq(s.drop_last());
        match s.last().outcome {
            TrialOutcome::Hit { rt_ms } => rest.push(rt_ms),
            _ => rest,
        }
    }
}

/// The log-linear correction: `(count + 0.5) / (n + 1)` in micro-units,
/// clamped into `[1, 999_999]`, with `n` floored at one so the correction
/// stays defined even when no trials of that kind exist.
pub open spec fn adjusted_rate_micro(count: int, n: int) -> int {
    let nn = if n == 0 {
        1int
    } else {
        n
    };
    let raw = ((2 * count + 1) * 500_000) / (nn + 1);
    if raw < 1 {
        1int
    } else if raw > 999_999 {
        999_999int
    } else {
        raw
    }
}

/// Discrimination sensitivity d': difference of the z-scores of the
/// corrected hit and false-alarm rates, in nano-units.
pub open spec fn d_prime_nano_spec(hits: int, fas: int, targets: int, non_targets: int) -> int {
    probit_nano_spec(adjusted_rate_micro(hits, targets) as u64) - probit_nano_spec(
        adjusted_rate_micro(fas, non_targets) as u64,
    )
}

/// Response bias c: negated half-sum of the same two z-scores, nano-units.
pub open spec fn criterion_nano_spec(hits: int, fas: int, targets: int, non_targets: int) -> int {
    -tdiv(
        probit_nano_spec(adjusted_rate_micro(hits, targets) as u64) + probit_nano_spec(
            adjusted_rate_micro(fas, non_targets) as u64,
        ),
        2,
    )
}

/// What a 2-back summary must hold for trial list `s`. An empty list yields
/// the all-zero record; otherwise every field is pinned to its formula.
pub open spec fn nback_metrics_matches(s: Seq<NBackTrial>, m: NBackMetrics) -> bool {
    let targets = target_count(s);
    let non_targets = s.len() - targets;
    let hits = count_trials(s, |t: NBackTrial| is_hit(t));
    let misses = count_trials(s, |t: NBackTrial| is_miss(t));
    let fas = count_trials(s, |t: NBackTrial| is_false_alarm(t));
    let crs = count_trials(s, |t: NBackTrial| is_correct_rejection(t));
    let hit_rts = hit_rt_seq(s);
    &&& m.total_trials == s.len()
    &&& if s.len() == 0 {
        m == NBackMetrics {
            total_trials: 0usize,
            target_trials: 0usize,
            non_target_trials: 0usize,
            hits: 0u32,
            misses: 0u32,
            false_alarms: 0u32,
            correct_rejections: 0u32,
            hit_rate_micro: 0u64,
            false_alarm_rate_micro: 0u64,
            accuracy_micro: 0u64,
            d_prime_nano: 0i64,
            criterion_nano: 0i64,
            mean_hit_rt_ms: 0u64,
            median_hit_rt_ms: 0u64,
            sd_hit_rt_ms: 0u64,
            p10_hit_rt_ms: 0u64,
            p90_hit_rt_ms: 0u64,
            response_count: 0u32,
        }
    } else {
        &&& m.target_trials == targets
        &&& m.non_target_trials == non_targets
        &&& m.hits == hits
        &&& m.misses == misses
        &&& m.false_alarms == fas
        &&& m.correct_rejections == crs
        &&& m.response_count == hits + fas
        &&& m.hit_rate_micro == (if targets == 0 {
            0int
        } else {
            (hits * 1_000_000) / targets
        })
        &&& m.false_alarm_rate_micro == (if non_targets == 0 {
            0int
        } else {
            (fas * 1_000_000) / non_targets
        })
        &&& m.accuracy_micro == ((hits + crs) * 1_000_000) / (s.len() as int)
        &&& m.d_prime_nano == d_prime_nano_spec(hits, fas, targets, non_targets)
        &&& m.criterion_nano == criterion_nano_spec(hits, fas, targets, non_targets)
        &&& if hit_rts.len() == 0 {
            &&& m.mean_hit_rt_ms == 0
            &&& m.median_hit_rt_ms == 0
            &&& m.sd_hit_rt_ms == 0
            &&& m.p10_hit_rt_ms == 0
            &&& m.p90_hit_rt_ms == 0
        } else {
            &&& m.mean_hit_rt_ms == mean_milli_spec(hit_rts)
            &&& m.median_hit_rt_ms == percentile_milli_spec(hit_rts.sort_by(u64_le()), 500)
            &&& m.p10_hit_rt_ms == percentile_milli_spec(hit_rts.sort_by(u64_le()), 100)
            &&& m.p90_hit_rt_ms == percentile_milli_spec(hit_rts.sort_by(u64_le()), 900)
            &&& m.sd_hit_rt_ms == sd_milli_spec(hit_rts)
        }
    }
}

proof fn lemma_nback_take_step(s: Seq<NBackTrial>, i: int, p: spec_fn(NBackTrial) -> bool)
    requires
        0 <= i < s.len(),
    ensures
        count_trials(s.take(i + 1), p) == count_trials(s.take(i), p) + if p(s[i]) {
            1int
        } else {
            0int
        },
        hit_rt_seq(s.take(i + 1)) == (match s[i].outcome {
            TrialOutcome::Hit { rt_ms } => hit_rt_seq(s.take(i)).push(rt_ms),
            _ => hit_rt_seq(s.take(i)),
        }),
{
    assert(s.take(i + 1).drop_last() =~= s.take(i));
}

/// The corrected rate, executable: always lands in `[1, 999_999]` micro.
fn adjusted_rate(count: u32, n: usize) -> (r: u64)
    requires
        count <= MAX_SAMPLES,
        n <= MAX_SAMPLES,
    ensures
        r == adjusted_rate_micro(count as int, n as int),
        1 <= r <= 999_999,
{
    let nn: u64 = if n == 0 {
        1
    } else {
        n as u64
    };
    let raw: u64 = (2 * count as u64 + 1) * 500_000 / (nn + 1);
    if raw < 1 {
        1
    } else if raw > 999_999 {
        999_999
    } else {
        raw
    }
}

impl NBackMetrics {
    /// The all-zero record.
    pub fn empty() -> (r: NBackMetrics)
        ensures
            nback_metrics_matches(Seq::<NBackTrial>::empty(), r),
    {
        NBackMetrics {
            total_trials: 0,
            target_trials: 0,
            non_target_trials: 0,
            hits: 0,
            misses: 0,
            false_alarms: 0,
            correct_rejections: 0,
            hit_rate_micro: 0,
            false_alarm_rate_micro: 0,
            accuracy_micro: 0,
            d_prime_nano: 0,
            criterion_nano: 0,
            mean_hit_rt_ms: 0,
            median_hit_rt_ms: 0,
            sd_hit_rt_ms: 0,
            p10_hit_rt_ms: 0,
            p90_hit_rt_ms: 0,
            response_count: 0,
        }
    }

    /// Aggregate a finished trial list into a summary.
    pub fn from_trials(trials: &Vec<NBackTrial>) -> (r: NBackMetrics)
        requires
            trials@.len() <= MAX_SAMPLES,
            forall|i: int| 0 <= i < trials@.len() ==> (#[trigger] trials@[i]).ms_bounded(),
        ensures
            nback_metrics_matches(trials@, r),
    {
        let n = trials.len();
        if n == 0 {
            let r = Self::empty();
            proof {
                assert(trials@ =~= Seq::<NBackTrial>::empty());
            }
            return r;
        }

        let mut targets: usize = 0;
        let mut hits: u32 = 0;
        let mut misses: u32 = 0;
        let mut fas: u32 = 0;
        let mut crs: u32 = 0;
        let mut hit_rts: Vec<u64> = Vec::new();
        let mut i: usize = 0;
        while i < n
            invariant
                0 <= i <= n,
                n == trials@.len() <= MAX_SAMPLES,
                forall|k: int| 0 <= k < trials@.len() ==> (#[trigger] trials@[k]).ms_bounded(),
                targets == target_count(trials@.take(i as int)),
                hits == count_trials(trials@.take(i as int), |t: NBackTrial| is_hit(t)),
                misses == count_trials(trials@.take(i as int), |t: NBackTrial| is_miss(t)),
                fas == count_trials(trials@.take(i as int), |t: NBackTrial| is_false_alarm(t)),
                crs == count_trials(
                    trials@.take(i as int),
                    |t: NBackTrial| is_correct_rejection(t),
                ),
                hit_rts@ == hit_rt_seq(trials@.take(i as int)),
                targets <= i,
                hits <= i,
                misses <= i,
                fas <= i,
                crs <= i,
                hit_rts@.len() <= i,
                forall|k: int| 0 <= k < hit_rts@.len() ==> hit_rts@[k] <= MS_CAP,
            decreases n - i,
        {
            proof {
                lemma_nback_take_step(trials@, i as int, |t: NBackTrial| t.is_target);
                lemma_nback_take_step(trials@, i as int, |t: NBackTrial| is_hit(t));
                lemma_nback_take_step(trials@, i as int, |t: NBackTrial| is_miss(t));
                lemma_nback_take_step(trials@, i as int, |t: NBackTrial| is_false_alarm(t));
                lemma_nback_take_step(trials@, i as int, |t: NBackTrial| is_correct_rejection(t));
            }
            let trial = trials[i];
            if trial.is_target {
                targets = targets + 1;
            }
            match trial.outcome {
                TrialOutcome::Hit { rt_ms } => {
                    hits = hits + 1;
                    hit_rts.push(rt_ms);
                },
                TrialOutcome::Miss => {
                    misses = misses + 1;
                },
                TrialOutcome::FalseAlarm { .. } => {
                    fas = fas + 1;
                },
                TrialOutcome::CorrectRejection => {
                    crs = crs + 1;
                },
                TrialOutcome::Pending => {},
            }
            i = i + 1;
        }
        assert(trials@.take(n as int) =~= trials@);

        let non_targets: usize = n - targets;
        let response_count: u32 = hits + fas;

        let hit_rate: u64 = if targets == 0 {
            0
        } else {
            hits as u64 * 1_000_000 / targets as u64
        };
        let fa_rate: u64 = if non_targets == 0 {
            0
        } else {
            fas as u64 * 1_000_000 / non_targets as u64
        };
        let accuracy: u64 = (hits as u64 + crs as u64) * 1_000_000 / n as u64;

        let z_hit: i64 = probit_nano(adjusted_rate(hits, targets));
        let z_fa: i64 = probit_nano(adjusted_rate(fas, non_targets));
        let d_prime: i64 = z_hit - z_fa;
        let criterion: i64 = crate::num::div_trunc(
            -((z_hit as i128) + (z_fa as i128)),
            2,
        ) as i64;
        proof {
            assert(-tdiv(z_hit + z_fa, 2) == tdiv(-((z_hit as int) + (z_fa as int)), 2));
        }

        let mut mean: u64 = 0;
        let mut median: u64 = 0;
        let mut sd: u64 = 0;
        let mut p10: u64 = 0;
        let mut p90: u64 = 0;
        if hit_rts.len() > 0 {
            let mut sorted = clone_ms(&hit_rts);
            sort_u64s(&mut sorted);
            proof {
                lemma_sort_keeps_bound(hit_rts@, MS_CAP);
            }
            mean = mean_milli(&hit_rts);
            sd = sd_milli(&hit_rts);
            median = percentile_milli(&sorted, 500);
            p10 = percentile_milli(&sorted, 100);
            p90 = percentile_milli(&sorted, 900);
        }

        NBackMetrics {
            total_trials: n,
            target_trials: targets,
            non_target_trials: non_targets,
            hits,
            misses,
            false_alarms: fas,
            correct_rejections: crs,
            hit_rate_micro: hit_rate,
            false_alarm_rate_micro: fa_rate,
            accuracy_micro: accuracy,
            d_prime_nano: d_prime,
            criterion_nano: criterion,
            mean_hit_rt_ms: mean,
            median_hit_rt_ms: median,
            sd_hit_rt_ms: sd,
            p10_hit_rt_ms: p10,
            p90_hit_rt_ms: p90,
            response_count,
        }
    }
}

/// Copy of a millisecond list.
fn clone_ms(v: &Vec<u64>) -> (r: Vec<u64>)
    ensures
        r@ == v@,
{
    let mut out: Vec<u64> = Vec::new();
    let mut i: usize = 0;
    while i < v.len()
        invariant
            0 <= i <= v@.len(),
            out@ == v@.take(i as int),
        decreases v@.len() - i,
    {
        out.push(v[i]);
        assert(out@ =~= v@.take(i as int + 1));
        i = i + 1;
    }
    assert(v@.take(v@.len() as int) =~= v@);
    out
}

/// d' and the criterion stay within twice the probit clamp; in particular
/// both are always finite, whatever the counts.
pub proof fn lemma_signal_indices_bounded(hits: int, fas: int, targets: int, non_targets: int)
    ensures
        -2 * (Z_CLAMP_NANO as int) <= d_prime_nano_spec(hits, fas, targets, non_targets) <= 2 * (
        Z_CLAMP_NANO as int),
        -(Z_CLAMP_NANO as int) <= criterion_nano_spec(hits, fas, targets, non_targets) <= (
        Z_CLAMP_NANO as int),
{
    lemma_probit_spec_bounded(adjusted_rate_micro(hits, targets) as u64);
    lemma_probit_spec_bounded(adjusted_rate_micro(fas, non_targets) as u64);
    let zh = probit_nano_spec(adjusted_rate_micro(hits, targets) as u64);
    let zf = probit_nano_spec(adjusted_rate_micro(fas, non_targets) as u64);
    crate::normal::lemma_tdiv_bound(zh + zf, 2, Z_CLAMP_NANO as int);
}

/// The probit specification never leaves the clamp range.
pub proof fn lemma_probit_spec_bounded(p_micro: u64)
    ensures
        -(Z_CLAMP_NANO as int) <= probit_nano_spec(p_micro) <= Z_CLAMP_NANO as int,
{
}

/// More hits can only raise the corrected hit rate (and, symmetrically,
/// more false alarms the corrected false-alarm rate): the probability fed
/// into the z-transform is monotone in the count.
pub proof fn lemma_adjusted_rate_monotone(c1: int, c2: int, n: int)
    requires
        0 <= c1 <= c2,
        n >= 0,
    ensures
        adjusted_rate_micro(c1, n) <= adjusted_rate_micro(c2, n),
{
    let nn = if n == 0 {
        1int
    } else {
        n
    };
    vstd::arithmetic::div_mod::lemma_div_is_ordered(
        (2 * c1 + 1) * 500_000,
        (2 * c2 + 1) * 500_000,
        nn + 1,
    );
    assert((2 * c1 + 1) * 500_000 <= (2 * c2 + 1) * 500_000) by (nonlinear_arith)
        requires
            c1 <= c2,
    ;
}

} // verus!
