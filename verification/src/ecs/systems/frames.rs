//! Housekeeping of frames: what they cost, timers that run out, a snapshot
//! worker that stopped, and front switches that are tried again.
use vstd::prelude::*;

use crate::ecs::orchestrator::{arranged, sort_samples};
use crate::ecs::{Message, SendMessageTrigger, Timeout};
use crate::geometry::{Entity, WinID};
use crate::time::Duration;

verus! {

/// How long a snapshot worker may stay silent, in seconds.
pub const STALL_TIMEOUT: u64 = 5;

/// Whether the snapshot worker has stopped: its last record is too old. Then
/// the record is dropped and everything is read directly.
pub fn watch_snapshot_worker(published: Option<Duration>, now: Duration) -> (stalled: bool)
    ensures
        stalled == (published matches Some(at) && now.minus(at) >= STALL_TIMEOUT * 1_000_000_000),
{
    match published {
        Some(at) => now.saturating_sub(at).nanos >= Duration::from_secs(STALL_TIMEOUT).nanos,
        None => false,
    }
}

/// What the last frames cost, on the wall clock.
#[derive(Debug)]
pub struct FrameStats {
    pub samples: Vec<Duration>,
    /// Frames that took longer than their budget.
    pub over_budget: u64,
}

/// Frames that are kept; the oldest goes first.
pub const FRAME_STATS_CAP: usize = 600;

/// The time that a frame may take, in milliseconds.
pub const FRAME_BUDGET: u64 = 16;

impl Default for FrameStats {
    fn default() -> (stats: FrameStats)
        ensures
            stats.samples@.len() == 0,
            stats.over_budget == 0,
            stats.wf(),
    {
        FrameStats { samples: Vec::new(), over_budget: 0 }
    }
}

impl FrameStats {
    pub open spec fn wf(self) -> bool {
        self.samples@.len() <= FRAME_STATS_CAP
    }
}

/// When the running frame began; none outside a frame.
#[derive(Clone, Copy, Debug, PartialEq, Eq, Structural)]
pub struct FrameClock(pub Option<Duration>);

impl Default for FrameClock {
    fn default() -> (clock: FrameClock)
        ensures
            clock.0 is None,
    {
        FrameClock(None)
    }
}

/// The samples with one more, the oldest making room where they are full.
pub open spec fn sampled(samples: Seq<Duration>, elapsed: Duration) -> Seq<Duration> {
    if samples.len() >= FRAME_STATS_CAP {
        samples.remove(0).push(elapsed)
    } else {
        samples.push(elapsed)
    }
}

/// Notes what the running frame took and stops its clock.
pub fn record_frame_time(clock: &mut FrameClock, stats: &mut FrameStats, now: Duration)
    requires
        old(stats).over_budget < u64::MAX,
    ensures
        final(clock).0 is None,
        match old(clock).0 {
            None => *final(stats) == *old(stats),
            Some(start) => {
                let took = Duration { nanos: now.minus(start) as u128 };
                &&& final(stats).samples@ == sampled(old(stats).samples@, took)
                &&& final(stats).over_budget == old(stats).over_budget + (if took.nanos
                    > FRAME_BUDGET * 1_000_000 {
                    1int
                } else {
                    0
                })
            },
        },
        old(stats).wf() ==> final(stats).wf(),
{
    let start = match clock.0 {
        Some(start) => start,
        None => {
            return;
        },
    };
    clock.0 = None;
    let elapsed = now.saturating_sub(start);
    if stats.samples.len() >= FRAME_STATS_CAP {
        stats.samples.remove(0);
    }
    if elapsed.nanos > Duration::from_millis(FRAME_BUDGET).nanos {
        stats.over_budget = stats.over_budget + 1;
    }
    stats.samples.push(elapsed);
}

/// What a window of frames took.
#[derive(Clone, Copy, Debug, PartialEq, Eq, Structural)]
pub struct FrameReport {
    pub frames: usize,
    pub p50: Duration,
    pub p99: Duration,
    pub max: Duration,
    pub over_budget: u64,
}

/// Sums the kept frames up and starts over; nothing where no frame was kept.
pub fn report_frame_stats(stats: &mut FrameStats) -> (report: Option<FrameReport>)
    ensures
        old(stats).samples@.len() == 0 ==> report is None && *final(stats) == *old(stats),
        old(stats).samples@.len() > 0 ==> {
            let sorted = arranged(old(stats).samples@);
            let count = old(stats).samples@.len() as int;
            &&& report == Some(
                FrameReport {
                    frames: count as usize,
                    p50: sorted[count / 2],
                    p99: sorted[count * 99 / 100],
                    max: sorted[count - 1],
                    over_budget: old(stats).over_budget,
                },
            )
            &&& final(stats).samples@.len() == 0
            &&& final(stats).over_budget == 0
        },
{
    if stats.samples.len() == 0 {
        return None;
    }
    let sorted = sort_samples(&stats.samples);
    let count: usize = sorted.len();
    let late: usize = (count as u128 * 99 / 100) as usize;
    let report = FrameReport {
        frames: count,
        p50: sorted[count / 2],
        p99: sorted[late],
        max: sorted[count - 1],
        over_budget: stats.over_budget,
    };
    stats.samples.clear();
    stats.over_budget = 0;
    Some(report)
}

/// The timers that have run out, among the first `n`.
pub open spec fn expired_to(timers: Seq<(Entity, Timeout)>, n: int) -> Seq<Entity>
    decreases n,
{
    if n <= 0 {
        Seq::empty()
    } else if timers[n - 1].1.finished {
        expired_to(timers, n - 1).push(timers[n - 1].0)
    } else {
        expired_to(timers, n - 1)
    }
}

/// Answers the timers that have run out; the others run on.
pub fn timeout_ticker(timers: &mut Vec<(Entity, Timeout)>, delta: Duration) -> (expired: Vec<Entity>)
    ensures
        expired@ == expired_to(old(timers)@, old(timers)@.len() as int),
        final(timers)@.len() == old(timers)@.len(),
        forall|k: int|
            0 <= k < old(timers)@.len() ==> #[trigger] final(timers)@[k] == (
                old(timers)@[k].0,
                old(timers)@[k].1.ticked(delta),
            ),
{
    let mut expired: Vec<Entity> = Vec::new();
    let mut i: usize = 0;
    while i < timers.len()
        invariant
            i <= timers.len(),
            timers@.len() == old(timers)@.len(),
            expired@ == expired_to(old(timers)@, i as int),
            forall|k: int|
                0 <= k < i ==> #[trigger] timers@[k] == (
                    old(timers)@[k].0,
                    old(timers)@[k].1.ticked(delta),
                ),
            forall|k: int| i <= k < timers@.len() ==> #[trigger] timers@[k] == old(timers)@[k],
        decreases timers.len() - i,
    {
        let (entity, mut timeout) = timers[i];
        assert(timers@[i as int] == old(timers)@[i as int]);
        if timeout.finished {
            expired.push(entity);
        }
        timeout.tick(delta);
        timers.set(i, (entity, timeout));
        i = i + 1;
    }
    expired
}

/// The application that a front switch is tried again for.
#[derive(Clone, Copy, Debug, PartialEq, Eq, Structural)]
pub struct FrontApplication {
    pub frontmost: bool,
    /// The window with the focus, where the application tells.
    pub focused: Option<WinID>,
}

/// What becomes of a front switch that is tried again.
#[derive(Clone, Copy, Debug, PartialEq, Eq, Structural)]
pub enum FrontSwitch {
    /// The application is gone or no longer in front.
    Drop,
    /// The focus event is to be delivered, and the retry is done.
    Deliver { event: SendMessageTrigger },
    /// Not yet.
    Keep,
}

pub fn retry_front_switch(application: Option<FrontApplication>) -> (step: FrontSwitch)
    ensures
        step == (match application {
            Some(app) if app.frontmost => match app.focused {
                Some(window_id) => FrontSwitch::Deliver {
                    event: SendMessageTrigger(Message::WindowFocused { window_id }),
                },
                None => FrontSwitch::Keep,
            },
            _ => FrontSwitch::Drop,
        }),
{
    match application {
        Some(app) => if !app.frontmost {
            FrontSwitch::Drop
        } else {
            match app.focused {
                Some(window_id) => FrontSwitch::Deliver {
                    event: SendMessageTrigger(Message::WindowFocused { window_id }),
                },
                None => FrontSwitch::Keep,
            }
        },
        None => FrontSwitch::Drop,
    }
}

} // verus!
