//! The event pump: how long it may sleep, and how much it takes in at once.
use vstd::prelude::*;

use crate::ecs::orchestrator::{
    active_sleep, LOOP_MAX_TIMEOUT_FRAME_ACTIVE_MS, LOOP_MAX_TIMEOUT_LOWPOWER_MS,
    LOOP_MAX_TIMEOUT_MS, LOOP_MAX_TIMEOUT_PROMOTION_MS, LOOP_TIMEOUT_STEP,
};
use crate::time::Duration;

verus! {

/// The sleep of an active frame for the displays that are present.
pub fn active_timeout_limit(promotion_present: bool) -> (millis: u32)
    ensures
        millis == active_sleep(promotion_present),
{
    if promotion_present {
        LOOP_MAX_TIMEOUT_PROMOTION_MS
    } else {
        LOOP_MAX_TIMEOUT_FRAME_ACTIVE_MS
    }
}

/// A number of milliseconds that a sleep can have.
pub open spec fn as_sleep(millis: int) -> u32 {
    if millis > u32::MAX {
        u32::MAX
    } else {
        millis as u32
    }
}

/// The milliseconds of a lead, rounded up.
pub open spec fn lead_sleep(lead: Duration) -> u32 {
    as_sleep((lead.nanos + 999_999) / 1_000_000)
}

/// The milliseconds of a period, rounded to the nearest.
pub open spec fn period_sleep(period: Duration) -> u32 {
    as_sleep((period.nanos + 500_000) / 1_000_000)
}

fn to_sleep(millis: u128) -> (sleep: u32)
    ensures
        sleep == as_sleep(millis as int),
{
    if millis > u32::MAX as u128 {
        u32::MAX
    } else {
        millis as u32
    }
}

/// The sleep up to the next retrace, rounded up so that it never ends short of
/// the retrace that it paces to.
pub fn vsync_lead_timeout_ms(lead: Duration) -> (millis: u32)
    ensures
        millis == lead_sleep(lead),
{
    let whole: u128 = lead.nanos / 1_000_000;
    let rest: u128 = lead.nanos % 1_000_000;
    if rest > 0 {
        to_sleep(whole + 1)
    } else {
        to_sleep(whole)
    }
}

/// A retrace period as a sleep, rounded so that it sits on the retrace.
pub fn vsync_timeout_ms(period: Duration) -> (millis: u32)
    ensures
        millis == period_sleep(period),
{
    let whole: u128 = period.nanos / 1_000_000;
    let rest: u128 = period.nanos % 1_000_000;
    if rest >= 500_000 {
        to_sleep(whole + 1)
    } else {
        to_sleep(whole)
    }
}

/// The longest sleep for one pass of the pump.
pub open spec fn phased_sleep(
    frame_active: bool,
    low_power: bool,
    vsync_lead: Option<Duration>,
    vsync_period: Option<Duration>,
    promotion: bool,
) -> u32 {
    if frame_active {
        match (vsync_lead, vsync_period) {
            (Some(lead), _) => lead_sleep(lead),
            (None, Some(period)) => period_sleep(period),
            (None, None) => active_sleep(promotion),
        }
    } else if low_power {
        LOOP_MAX_TIMEOUT_LOWPOWER_MS
    } else {
        LOOP_MAX_TIMEOUT_MS
    }
}

/// The longest sleep for one pass of the pump: up to the next retrace where its
/// phase is known, else the retrace period, else the fixed ladder.
pub fn pump_timeout_limit(
    frame_active: bool,
    low_power: bool,
    vsync_lead: Option<Duration>,
    vsync_period: Option<Duration>,
    promotion: bool,
) -> (millis: u32)
    ensures
        millis == phased_sleep(frame_active, low_power, vsync_lead, vsync_period, promotion),
{
    if frame_active {
        match vsync_lead {
            Some(lead) => vsync_lead_timeout_ms(lead),
            None => match vsync_period {
                Some(period) => vsync_timeout_ms(period),
                None => active_timeout_limit(promotion),
            },
        }
    } else if low_power {
        LOOP_MAX_TIMEOUT_LOWPOWER_MS
    } else {
        LOOP_MAX_TIMEOUT_MS
    }
}

/// The time that the pump may spend on draining, in milliseconds.
pub const PUMP_BUDGET: u64 = 4;

/// Events that the pump takes at once; the rest waits for the next frame.
pub const PUMP_MAX_EVENTS: usize = 384;

/// How often the displays' rates are looked up at least, in seconds.
pub const PROMOTION_REFRESH: u64 = 60;

/// How often the input tap is looked after at least, in seconds.
pub const TAP_HEALTH_CHECK_INTERVAL: u64 = 30;

/// Whether the pump may take another event: a burst never extends its stay.
pub fn pump_may_take(taken: usize, now: Duration, deadline: Duration) -> (more: bool)
    ensures
        more == (taken < PUMP_MAX_EVENTS && now.nanos < deadline.nanos),
{
    taken < PUMP_MAX_EVENTS && now.nanos < deadline.nanos
}

/// What the event channel gave.
#[derive(Clone, Copy, Debug, PartialEq, Eq, Structural)]
pub enum Received {
    /// The order to end, or nobody sends any more.
    Exit,
    Closed,
    /// Nothing came for a moment.
    Quiet,
    /// An event; whether the machine woke up, or the displays changed.
    Event { woke: bool, display_changed: bool },
}

/// What the pump does next.
#[derive(Clone, Copy, Debug, PartialEq, Eq, Structural)]
pub enum PumpStep {
    Exit,
    More,
    Drained,
}

/// One pass of the pump.
#[derive(Clone, Copy, Debug, PartialEq, Eq, Structural)]
pub struct PumpPass {
    pub sleep_ms: u32,
    pub woke: bool,
    pub display_changed: bool,
}

impl PumpPass {
    /// A pass that begins with the sleep of the last one.
    pub fn begin(sleep_ms: u32) -> (pass: PumpPass)
        ensures
            pass == (PumpPass { sleep_ms, woke: false, display_changed: false }),
    {
        PumpPass { sleep_ms, woke: false, display_changed: false }
    }

    /// Takes in what the channel gave. Every event resets the sleep.
    pub fn receive(&mut self, received: Received) -> (step: PumpStep)
        ensures
            match received {
                Received::Exit | Received::Closed => step == PumpStep::Exit && *final(self)
                    == *old(self),
                Received::Quiet => step == PumpStep::Drained && *final(self) == *old(self),
                Received::Event { woke, display_changed } => step == PumpStep::More && *final(self)
                    == (PumpPass {
                    sleep_ms: LOOP_TIMEOUT_STEP,
                    woke: old(self).woke || woke,
                    display_changed: old(self).display_changed || display_changed,
                }),
            },
    {
        match received {
            Received::Exit => PumpStep::Exit,
            Received::Closed => PumpStep::Exit,
            Received::Quiet => PumpStep::Drained,
            Received::Event { woke, display_changed } => {
                self.woke = self.woke || woke;
                self.display_changed = self.display_changed || display_changed;
                self.sleep_ms = LOOP_TIMEOUT_STEP;
                PumpStep::More
            },
        }
    }

    /// The sleep after the pass: it grows by a step while the channel is quiet,
    /// up to the limit, and starts over after a wake-up or while events wait.
    pub open spec fn next_sleep(self, drained: bool, limit: u32) -> int {
        let before = if self.woke {
            LOOP_TIMEOUT_STEP
        } else {
            self.sleep_ms
        };
        if !drained {
            LOOP_TIMEOUT_STEP as int
        } else if before <= limit {
            before + LOOP_TIMEOUT_STEP
        } else {
            limit + LOOP_TIMEOUT_STEP
        }
    }

    pub fn pump_events(&self, drained: bool, limit: u32) -> (sleep_ms: u32)
        requires
            self.next_sleep(drained, limit) <= u32::MAX,
        ensures
            sleep_ms == self.next_sleep(drained, limit),
    {
        if !drained {
            return LOOP_TIMEOUT_STEP;
        }
        let before: u32 = if self.woke {
            LOOP_TIMEOUT_STEP
        } else {
            self.sleep_ms
        };
        if before <= limit {
            before + LOOP_TIMEOUT_STEP
        } else {
            limit + LOOP_TIMEOUT_STEP
        }
    }

    /// Whether the displays' rates are to be looked up again.
    pub fn promotion_due(&self, last: Option<Duration>, now: Duration) -> (due: bool)
        ensures
            due == (self.woke || self.display_changed || (match last {
                Some(at) => now.minus(at) >= PROMOTION_REFRESH * 1_000_000_000,
                None => true,
            })),
    {
        self.woke || self.display_changed || (match last {
            Some(at) => now.saturating_sub(at).nanos >= Duration::from_secs(
                PROMOTION_REFRESH,
            ).nanos,
            None => true,
        })
    }
}

/// What is done about the input tap.
#[derive(Clone, Copy, Debug, PartialEq, Eq, Structural)]
pub enum TapSweep {
    /// It is built anew.
    Rebuild,
    /// Its health is checked.
    Check,
    Nothing,
}

/// Decides what is done about the input tap: a wake-up always builds it anew,
/// since a tap that looks sound can be dead; else it is checked when displays
/// change and from time to time.
pub fn sweep_input_tap(
    woke: bool,
    display_changed: bool,
    last_tap_check: &mut Option<Duration>,
    now: Duration,
) -> (sweep: TapSweep)
    ensures
        sweep == (if woke {
            TapSweep::Rebuild
        } else if display_changed || (match *old(last_tap_check) {
            Some(at) => now.minus(at) >= TAP_HEALTH_CHECK_INTERVAL * 1_000_000_000,
            None => true,
        }) {
            TapSweep::Check
        } else {
            TapSweep::Nothing
        }),
        *final(last_tap_check) == (if sweep == TapSweep::Nothing {
            *old(last_tap_check)
        } else {
            Some(now)
        }),
{
    if woke {
        *last_tap_check = Some(now);
        return TapSweep::Rebuild;
    }
    let due = match *last_tap_check {
        Some(at) => now.saturating_sub(at).nanos >= Duration::from_secs(
            TAP_HEALTH_CHECK_INTERVAL,
        ).nanos,
        None => true,
    };
    if display_changed || due {
        *last_tap_check = Some(now);
        TapSweep::Check
    } else {
        TapSweep::Nothing
    }
}

/// A quiet pump falls asleep step by step and never sleeps more than a step past
/// its limit; an event wakes it to the shortest sleep.
pub proof fn quiet_pumps_fall_asleep(pass: PumpPass, limit: u32)
    requires
        !pass.woke,
    ensures
        pass.next_sleep(true, limit) <= limit + LOOP_TIMEOUT_STEP,
        pass.sleep_ms <= limit ==> pass.next_sleep(true, limit) == pass.sleep_ms
            + LOOP_TIMEOUT_STEP,
        pass.next_sleep(false, limit) == LOOP_TIMEOUT_STEP,
{
}

/// A sleep that paces to a retrace never ends before it and at most a
/// millisecond after it.
pub proof fn leads_never_wake_early(lead: Duration)
    requires
        lead.nanos <= u32::MAX * 1_000_000,
    ensures
        lead.nanos <= lead_sleep(lead) * 1_000_000 < lead.nanos + 1_000_000,
{
}

} // verus!
