//! The outcome of an auto-scaling evaluation.
use vstd::prelude::*;

verus! {

/// Scaling decision from the auto-scaler
#[derive(Debug, Clone, PartialEq)]
pub enum ScalingDecision {
    /// No change needed
    NoChange,
    /// Scale up to the target number of replicas
    ScaleUp { target_replicas: u32, reason: String },
    /// Scale down to the target number of replicas
    ScaleDown { target_replicas: u32, reason: String },
}

/// Whole seconds from `t` to `now` (nanoseconds since the Unix epoch), rounded
/// toward zero, negative when `now` is earlier.
pub open spec fn elapsed_whole_secs(t: i64, now: i64) -> int {
    if now >= t {
        (now - t) / 1_000_000_000
    } else {
        -((t - now) / 1_000_000_000)
    }
}

/// A cooldown since the last action at `last` has passed at `now`: there was no
/// such action, or at least `cooldown` whole seconds have gone by.
pub open spec fn cooled_down(last: Option<i64>, cooldown: u64, now: i64) -> bool {
    match last {
        None => true,
        Some(t) => elapsed_whole_secs(t, now) >= cooldown as i64 as int,
    }
}

fn passed_cooldown(last: Option<i64>, cooldown: u64, now: i64) -> (b: bool)
    ensures
        b == cooled_down(last, cooldown, now),
{
    match last {
        None => true,
        Some(t) => {
            let elapsed: i128 = if now >= t {
                ((now as i128) - (t as i128)) / 1_000_000_000
            } else {
                -(((t as i128) - (now as i128)) / 1_000_000_000)
            };
            elapsed >= (cooldown as i64) as i128
        },
    }
}

/// When the auto-scaler last scaled a pipeline up and down (nanoseconds since the
/// Unix epoch); the caller reads the clock.
#[derive(Debug, Clone, Default)]
pub struct AutoscalerState {
    /// Last scale-up time
    pub last_scale_up: Option<i64>,
    /// Last scale-down time
    pub last_scale_down: Option<i64>,
}

impl AutoscalerState {
    /// Create a new auto-scaler state
    pub fn new() -> (s: Self)
        ensures
            s.last_scale_up is None,
            s.last_scale_down is None,
    {
        AutoscalerState { last_scale_up: None, last_scale_down: None }
    }

    /// Record a scale-up action at `now`
    pub fn record_scale_up(&mut self, now: i64)
        ensures
            final(self).last_scale_up == Some(now),
            final(self).last_scale_down == old(self).last_scale_down,
    {
        self.last_scale_up = Some(now);
    }

    /// Record a scale-down action at `now`
    pub fn record_scale_down(&mut self, now: i64)
        ensures
            final(self).last_scale_down == Some(now),
            final(self).last_scale_up == old(self).last_scale_up,
    {
        self.last_scale_down = Some(now);
    }

    /// Check if scale-up is allowed at `now` (cooldown has passed)
    pub fn can_scale_up(&self, cooldown_seconds: u64, now: i64) -> (b: bool)
        ensures
            b == cooled_down(self.last_scale_up, cooldown_seconds, now),
    {
        passed_cooldown(self.last_scale_up, cooldown_seconds, now)
    }

    /// Check if scale-down is allowed at `now` (cooldown has passed)
    pub fn can_scale_down(&self, cooldown_seconds: u64, now: i64) -> (b: bool)
        ensures
            b == cooled_down(self.last_scale_down, cooldown_seconds, now),
    {
        passed_cooldown(self.last_scale_down, cooldown_seconds, now)
    }
}

} // verus!
