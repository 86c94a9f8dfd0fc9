//! Quality control markers for task sessions. These flags capture context
//! that helps interpret runs.

use vstd::prelude::*;

use crate::platform::{platform_string, user_agent_string, Platform};

verus! {

#[derive(Debug, Clone)]
pub struct QualityFlags {
    pub visibility_blur_events: u32,
    pub focus_lost_events: u32,
    pub min_trials_met: bool,
    pub device: DeviceSnapshot,
}

impl QualityFlags {
    /// Flags for a fresh run: no interruptions logged, requirement assumed
    /// met until scoring says otherwise.
    pub fn pristine() -> (r: Self)
        ensures
            r.visibility_blur_events == 0,
            r.focus_lost_events == 0,
            r.min_trials_met == true,
    {
        QualityFlags {
            visibility_blur_events: 0,
            focus_lost_events: 0,
            min_trials_met: true,
            device: DeviceSnapshot::capture(),
        }
    }

    /// Count one visibility loss (saturating).
    pub fn log_visibility_blur(&mut self)
        ensures
            final(self).visibility_blur_events == crate::pvt_engine::sat_inc_u32(
                old(self).visibility_blur_events,
            ),
            final(self).focus_lost_events == old(self).focus_lost_events,
            final(self).min_trials_met == old(self).min_trials_met,
            final(self).device == old(self).device,
    {
        if self.visibility_blur_events < u32::MAX {
            self.visibility_blur_events = self.visibility_blur_events + 1;
        }
    }

    /// Count one focus loss (saturating).
    pub fn log_focus_loss(&mut self)
        ensures
            final(self).focus_lost_events == crate::pvt_engine::sat_inc_u32(
                old(self).focus_lost_events,
            ),
            final(self).visibility_blur_events == old(self).visibility_blur_events,
            final(self).min_trials_met == old(self).min_trials_met,
            final(self).device == old(self).device,
    {
        if self.focus_lost_events < u32::MAX {
            self.focus_lost_events = self.focus_lost_events + 1;
        }
    }

    /// Record whether the run gathered enough valid trials.
    pub fn mark_min_trials(&mut self, met: bool)
        ensures
            final(self).min_trials_met == met,
            final(self).visibility_blur_events == old(self).visibility_blur_events,
            final(self).focus_lost_events == old(self).focus_lost_events,
            final(self).device == old(self).device,
    {
        self.min_trials_met = met;
    }
}

/// Device identification captured alongside the flags.
#[derive(Debug, Clone)]
pub struct DeviceSnapshot {
    pub platform: String,
    pub user_agent: Option<String>,
}

impl DeviceSnapshot {
    /// Snapshot the current device.
    pub fn capture() -> (r: Self)
        ensures
            r.platform@ == Platform::Desktop.spec_str(),
            r.user_agent is None,
    {
        DeviceSnapshot { platform: platform_string(), user_agent: user_agent_string() }
    }
}

} // verus!
