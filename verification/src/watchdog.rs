//! The two background watchdogs: the one that brings the camera wall back
//! after the operator stops using the PC, and the one that restarts the
//! viewer when its pages stop reporting.
use vstd::prelude::*;

verus! {

/// Seconds without keyboard or mouse input after which the viewer is restored.
pub const IDLE_RESTORE_SECONDS: u32 = 60;

/// Seconds without a heartbeat from a local page after which the viewer restarts.
pub const HEARTBEAT_TIMEOUT_SECONDS: u64 = 120;

#[verifier::external_type_specification]
#[verifier::external_body]
pub struct ExSystemTime(std::time::SystemTime);

#[verifier::external_type_specification]
#[verifier::external_body]
pub struct ExSystemTimeError(std::time::SystemTimeError);

/// Reads the clock with `std::time::SystemTime::now`.  Nothing is promised
/// of the time it returns.
#[verifier::external_body]
fn system_time_now() -> std::time::SystemTime {
    std::time::SystemTime::now()
}

/// The time elapsed since the Unix epoch, with
/// `SystemTime::duration_since(UNIX_EPOCH)`; an error when the clock is set
/// before the epoch.  Nothing is promised of the duration.
#[verifier::external_body]
fn since_unix_epoch(t: &std::time::SystemTime) -> Result<
    std::time::Duration,
    std::time::SystemTimeError,
> {
    t.duration_since(std::time::UNIX_EPOCH)
}

/// The whole seconds of a duration, with `Duration::as_secs`.
#[verifier::external_body]
fn whole_seconds(d: &std::time::Duration) -> u64 {
    d.as_secs()
}

/// The Unix time in seconds, from the whole seconds elapsed since the epoch,
/// or `None` when the clock is set before the epoch.
pub open spec fn timestamp_of(seconds_since_epoch: Option<u64>) -> u64 {
    match seconds_since_epoch {
        Some(n) => n,
        None => 0,
    }
}

/// The Unix time in seconds: the whole seconds elapsed since the epoch, or 0
/// when the clock is set before the epoch.
pub fn timestamp_from(seconds_since_epoch: Option<u64>) -> (r: u64)
    ensures
        r == timestamp_of(seconds_since_epoch),
{
    match seconds_since_epoch {
        Some(n) => n,
        None => 0,
    }
}

/// The current Unix time in seconds; 0 when the clock is set before the epoch.
pub fn unix_timestamp() -> u64 {
    let now = system_time_now();
    let seconds = match since_unix_epoch(&now) {
        Ok(d) => Some(whole_seconds(&d)),
        Err(_) => None,
    };
    timestamp_from(seconds)
}

/// The input is idle for `(now - last) mod 2^32` milliseconds of the tick
/// counter, in whole seconds; 0 when the time of the last input is unknown.
pub open spec fn idle_seconds_of(last_input_tick: Option<u32>, now_tick: u32) -> u32 {
    match last_input_tick {
        None => 0,
        Some(t) => (if now_tick >= t {
            now_tick - t
        } else {
            now_tick + 0x1_0000_0000 - t
        }) as u32 / 1000,
    }
}

/// The seconds since the last keyboard or mouse input, from the millisecond
/// tick count of that input (`None` when the system could not tell it) and the
/// current tick count; the counter wraps around.
pub fn system_idle_seconds(last_input_tick: Option<u32>, now_tick: u32) -> (r: u32)
    ensures
        r == idle_seconds_of(last_input_tick, now_tick),
{
    match last_input_tick {
        None => 0,
        Some(t) => now_tick.wrapping_sub(t) / 1000,
    }
}

/// The renderer has stopped: the viewer is configured, shows one of its own
/// pages, and the last heartbeat is more than the timeout old.
pub open spec fn renderer_stalled_of(
    configured: bool,
    local_page: bool,
    now: u64,
    last_heartbeat: u64,
) -> bool {
    configured && local_page && now > last_heartbeat + HEARTBEAT_TIMEOUT_SECONDS
}

/// Whether the heartbeat watchdog restarts the viewer.
pub fn renderer_stalled(configured: bool, local_page: bool, now: u64, last_heartbeat: u64) -> (r:
    bool)
    ensures
        r == renderer_stalled_of(configured, local_page, now, last_heartbeat),
{
    configured && local_page && now.saturating_sub(last_heartbeat) > HEARTBEAT_TIMEOUT_SECONDS
}

/// What the idle watchdog does on one check.
#[derive(Clone, Copy, Debug, PartialEq, Eq)]
pub struct IdleDecision {
    /// The viewer has been restored during the current idle period.
    pub restored: bool,
    /// Bring the viewer to the front in fullscreen now.
    pub restore: bool,
}

/// One check of the idle watchdog, from whether the viewer was already
/// restored in this idle period, the idle time, and whether the viewer window
/// exists.  Input within the threshold starts a new idle period; once idle,
/// the viewer window is restored once, whatever page it shows and whether it
/// was hidden, minimized or behind another program.
pub open spec fn idle_step_of(restored: bool, idle_seconds: u32, window_open: bool) -> IdleDecision {
    if idle_seconds < IDLE_RESTORE_SECONDS {
        IdleDecision { restored: false, restore: false }
    } else if restored {
        IdleDecision { restored: true, restore: false }
    } else if window_open {
        IdleDecision { restored: true, restore: true }
    } else {
        IdleDecision { restored: false, restore: false }
    }
}

/// One check of the idle watchdog.
pub fn idle_step(restored: bool, idle_seconds: u32, window_open: bool) -> (r: IdleDecision)
    ensures
        r == idle_step_of(restored, idle_seconds, window_open),
{
    if idle_seconds < IDLE_RESTORE_SECONDS {
        return IdleDecision { restored: false, restore: false };
    }
    if restored {
        return IdleDecision { restored: true, restore: false };
    }
    if window_open {
        IdleDecision { restored: true, restore: true }
    } else {
        IdleDecision { restored: false, restore: false }
    }
}

/// The number of restores over a run of checks, each an idle time and
/// whether the window exists, starting from `restored`.
pub open spec fn restores_over(restored: bool, checks: Seq<(u32, bool)>) -> nat
    decreases checks.len(),
{
    if checks.len() == 0 {
        0
    } else {
        let d = idle_step_of(restored, checks[0].0, checks[0].1);
        (if d.restore {
            1nat
        } else {
            0nat
        }) + restores_over(d.restored, checks.drop_first())
    }
}

/// Within one idle period (every check idle past the threshold) the viewer is
/// restored at most once, and not at all when it was already restored.
pub proof fn law_restore_once_per_idle_period(restored: bool, checks: Seq<(u32, bool)>)
    requires
        forall|i: int| 0 <= i < checks.len() ==> (#[trigger] checks[i]).0 >= IDLE_RESTORE_SECONDS,
    ensures
        restores_over(restored, checks) <= 1,
        restored ==> restores_over(restored, checks) == 0,
    decreases checks.len(),
{
    if checks.len() > 0 {
        let rest = checks.drop_first();
        assert forall|i: int| 0 <= i < rest.len() implies (#[trigger] rest[i]).0 >= IDLE_RESTORE_SECONDS by {
            assert(rest[i] == checks[i + 1]);
        }
        assert(checks[0].0 >= IDLE_RESTORE_SECONDS);
        law_restore_once_per_idle_period(true, rest);
        law_restore_once_per_idle_period(false, rest);
    }
}

/// In an idle period the viewer is restored at the first check that finds
/// its window, whatever page the window shows.
pub proof fn law_idle_restores_any_page(restored: bool, checks: Seq<(u32, bool)>, k: int)
    requires
        !restored,
        0 <= k < checks.len(),
        forall|i: int| 0 <= i <= k ==> (#[trigger] checks[i]).0 >= IDLE_RESTORE_SECONDS,
        forall|i: int| 0 <= i < k ==> !(#[trigger] checks[i]).1,
        checks[k].1,
    ensures
        restores_over(restored, checks) >= 1,
    decreases k,
{
    if k > 0 {
        let rest = checks.drop_first();
        assert(checks[0].0 >= IDLE_RESTORE_SECONDS && !checks[0].1);
        assert forall|i: int| 0 <= i <= k - 1 implies (#[trigger] rest[i]).0 >= IDLE_RESTORE_SECONDS by {
            assert(rest[i] == checks[i + 1]);
        }
        assert forall|i: int| 0 <= i < k - 1 implies !(#[trigger] rest[i]).1 by {
            assert(rest[i] == checks[i + 1]);
        }
        assert(rest[k - 1] == checks[k]);
        law_idle_restores_any_page(false, rest, k - 1);
    }
}

} // verus!
