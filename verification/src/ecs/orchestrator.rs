//! Pacing of the frame loop: how urgent a frame is, how long the pump may
//! sleep, what the frames cost, and which worker threads have to start again.
use vstd::prelude::*;
use vstd::relations::{sorted_by, total_ordering};
use vstd::seq_lib::lemma_sorted_unique;

pub mod measures;

use crate::ax_writer::AxWriteState;
use crate::time::Duration;

verus! {

/// The sleep while something moves, in milliseconds.
pub const LOOP_MAX_TIMEOUT_FRAME_ACTIVE_MS: u32 = 16;

/// The sleep while something moves and a display with a doubled rate is
/// present, in milliseconds.
pub const LOOP_MAX_TIMEOUT_PROMOTION_MS: u32 = 8;

/// The sleep of an idle frame in low power mode, in milliseconds.
pub const LOOP_MAX_TIMEOUT_LOWPOWER_MS: u32 = 2000;

/// The sleep of an idle frame, in milliseconds. Events wake the pump at once,
/// so this only bounds how late periodic work can land.
pub const LOOP_MAX_TIMEOUT_MS: u32 = 500;

/// The first sleep, and the step by which sleeps grow, in milliseconds.
pub const LOOP_TIMEOUT_STEP: u32 = 1;

/// The sleep of an active frame for the displays that are present.
pub open spec fn active_sleep(promotion_present: bool) -> u32 {
    if promotion_present {
        LOOP_MAX_TIMEOUT_PROMOTION_MS
    } else {
        LOOP_MAX_TIMEOUT_FRAME_ACTIVE_MS
    }
}

pub fn active_timeout_limit(promotion_present: bool) -> (millis: u32)
    ensures
        millis == active_sleep(promotion_present),
{
    if promotion_present {
        LOOP_MAX_TIMEOUT_PROMOTION_MS
    } else {
        LOOP_MAX_TIMEOUT_FRAME_ACTIVE_MS
    }
}

/// The whole milliseconds of a retrace period.
pub open spec fn vsync_sleep(period: Duration) -> u32 {
    let millis = period.nanos as int / 1_000_000;
    if millis > u32::MAX {
        u32::MAX
    } else {
        millis as u32
    }
}

/// A retrace period as a sleep. What is lost below a millisecond only makes the
/// sleep shorter.
pub fn vsync_timeout_ms(period: Duration) -> (millis: u32)
    ensures
        millis == vsync_sleep(period),
{
    let millis: u128 = period.as_millis();
    if millis > u32::MAX as u128 {
        u32::MAX
    } else {
        millis as u32
    }
}

/// What a frame is doing, the most urgent first.
#[derive(Clone, Copy, Debug, PartialEq, Eq, PartialOrd, Ord, Structural)]
pub enum FramePriority {
    /// A held drag, a finger on the strip, or the warm-up.
    UserDriven,
    /// A glide, a snap or a resize on its way.
    Settle,
    /// A message on screen with nothing moving behind it.
    Background,
    /// Nothing to draw.
    Idle,
}

impl Default for FramePriority {
    fn default() -> (priority: FramePriority)
        ensures
            priority == FramePriority::Idle,
    {
        FramePriority::Idle
    }
}

pub open spec fn frame_class(
    held: bool,
    user_driving: bool,
    warming: bool,
    motion: bool,
    flash: bool,
) -> FramePriority {
    if held || user_driving || warming {
        FramePriority::UserDriven
    } else if motion {
        FramePriority::Settle
    } else if flash {
        FramePriority::Background
    } else {
        FramePriority::Idle
    }
}

/// The urgency of a frame, from what is present in it.
pub fn classify_frame(held: bool, user_driving: bool, warming: bool, motion: bool, flash: bool) -> (
    priority: FramePriority)
    ensures
        priority == frame_class(held, user_driving, warming, motion, flash),
{
    if held || user_driving || warming {
        FramePriority::UserDriven
    } else if motion {
        FramePriority::Settle
    } else if flash {
        FramePriority::Background
    } else {
        FramePriority::Idle
    }
}

/// The longest sleep for one pass of the pump.
pub open spec fn pump_sleep(
    priority: FramePriority,
    low_power: bool,
    vsync_period: Option<Duration>,
    promotion: bool,
) -> u32 {
    match priority {
        FramePriority::UserDriven => match vsync_period {
            Some(period) => vsync_sleep(period),
            None => LOOP_MAX_TIMEOUT_PROMOTION_MS,
        },
        FramePriority::Settle | FramePriority::Background => match vsync_period {
            Some(period) => vsync_sleep(period),
            None => active_sleep(promotion),
        },
        FramePriority::Idle => if low_power {
            LOOP_MAX_TIMEOUT_LOWPOWER_MS
        } else {
            LOOP_MAX_TIMEOUT_MS
        },
    }
}

/// The longest sleep for one pass of the pump: the retrace period where one is
/// known and the frame moves, else the fixed ladder. A finger on the screen
/// always gets the short sleep, whatever the display.
pub fn pump_timeout_limit(
    priority: FramePriority,
    low_power: bool,
    vsync_period: Option<Duration>,
    promotion: bool,
) -> (millis: u32)
    ensures
        millis == pump_sleep(priority, low_power, vsync_period, promotion),
{
    match priority {
        FramePriority::UserDriven => match vsync_period {
            Some(period) => vsync_timeout_ms(period),
            None => LOOP_MAX_TIMEOUT_PROMOTION_MS,
        },
        FramePriority::Settle | FramePriority::Background => match vsync_period {
            Some(period) => vsync_timeout_ms(period),
            None => active_timeout_limit(promotion),
        },
        FramePriority::Idle => if low_power {
            LOOP_MAX_TIMEOUT_LOWPOWER_MS
        } else {
            LOOP_MAX_TIMEOUT_MS
        },
    }
}

/// Without a known retrace period a more urgent frame never sleeps longer, on
/// any display and in any power mode.
pub proof fn urgent_frames_sleep_less(low_power: bool, promotion: bool)
    ensures
        pump_sleep(FramePriority::UserDriven, low_power, None, promotion) <= pump_sleep(
            FramePriority::Settle,
            low_power,
            None,
            promotion,
        ),
        pump_sleep(FramePriority::Settle, low_power, None, promotion) == pump_sleep(
            FramePriority::Background,
            low_power,
            None,
            promotion,
        ),
        pump_sleep(FramePriority::Background, low_power, None, promotion) < pump_sleep(
            FramePriority::Idle,
            low_power,
            None,
            promotion,
        ),
{
}

/// An idle frame never takes the retrace period, and a finger on the screen
/// never waits for a slower display.
pub proof fn idle_frames_ignore_the_retrace(
    low_power: bool,
    period: Option<Duration>,
    promotion: bool,
)
    ensures
        pump_sleep(FramePriority::Idle, low_power, period, promotion) == pump_sleep(
            FramePriority::Idle,
            low_power,
            None,
            promotion,
        ),
        pump_sleep(FramePriority::UserDriven, low_power, period, true) == pump_sleep(
            FramePriority::UserDriven,
            low_power,
            period,
            false,
        ),
{
}

/// The state of the pump between frames.
#[derive(Clone, Copy, Debug, PartialEq, Eq)]
pub struct FrameOrchestrator {
    pub sleep_ms: u32,
    /// Whether a display with a doubled rate is present, and when that was last
    /// looked up.
    pub promotion: (bool, Option<Duration>),
    pub last_tap_check: Option<Duration>,
    pub snapshot_fast: bool,
    pub priority: FramePriority,
}

impl Default for FrameOrchestrator {
    /// The first frame never sleeps too long.
    fn default() -> (orchestrator: FrameOrchestrator)
        ensures
            orchestrator == (FrameOrchestrator {
                sleep_ms: LOOP_TIMEOUT_STEP,
                promotion: (false, None),
                last_tap_check: None,
                snapshot_fast: false,
                priority: FramePriority::Idle,
            }),
    {
        FrameOrchestrator {
            sleep_ms: LOOP_TIMEOUT_STEP,
            promotion: (false, None),
            last_tap_check: None,
            snapshot_fast: false,
            priority: FramePriority::Idle,
        }
    }
}

/// Frames between two summaries.
pub const PERF_SAMPLE_WINDOW: usize = 120;

/// What the last frames cost, by stage.
#[derive(Debug)]
pub struct PerfStats {
    pub frame_start: Option<Duration>,
    pub pre_end: Option<Duration>,
    pub update_end: Option<Duration>,
    pub samples: Vec<Duration>,
    pub pre_samples: Vec<Duration>,
    pub update_samples: Vec<Duration>,
    pub post_samples: Vec<Duration>,
    /// Writes that the confirmation of landings sent again.
    pub verify_repushes: u64,
    /// Events that the pump drained, the frames it did so in, and the most in
    /// one frame.
    pub drain_events: u64,
    pub drain_frames: u64,
    pub drain_max: usize,
}

impl PerfStats {
    /// Every stage has one sample for each frame.
    pub open spec fn wf(self) -> bool {
        &&& self.samples@.len() < PERF_SAMPLE_WINDOW
        &&& self.pre_samples@.len() == self.samples@.len()
        &&& self.update_samples@.len() == self.samples@.len()
        &&& self.post_samples@.len() == self.samples@.len()
    }
}

impl Default for PerfStats {
    fn default() -> (perf: PerfStats)
        ensures
            perf.wf(),
            perf.frame_start is None,
            perf.pre_end is None,
            perf.update_end is None,
            perf.samples@.len() == 0,
            perf.verify_repushes == 0,
            perf.drain_events == 0,
            perf.drain_frames == 0,
            perf.drain_max == 0,
    {
        PerfStats {
            frame_start: None,
            pre_end: None,
            update_end: None,
            samples: Vec::new(),
            pre_samples: Vec::new(),
            update_samples: Vec::new(),
            post_samples: Vec::new(),
            verify_repushes: 0,
            drain_events: 0,
            drain_frames: 0,
            drain_max: 0,
        }
    }
}

/// What is present at the start of a frame.
#[derive(Debug)]
pub struct FramePresence {
    /// A mouse button is down on a window.
    pub held: bool,
    /// For each strip that scrolls, whether fingers drive it.
    pub scrolling: Vec<bool>,
    /// A window or a strip is driven, or a drag settles.
    pub motion: bool,
    pub flash: bool,
    pub warming: bool,
}

/// Derives how urgent the frame is and starts the frame's clock. A strip that
/// scrolls counts as motion, also while it only coasts.
pub fn classify_frame_priority(
    presence: &FramePresence,
    now: Duration,
    orchestrator: &mut FrameOrchestrator,
    perf: &mut PerfStats,
)
    ensures
        *final(orchestrator) == (FrameOrchestrator {
            priority: frame_class(
                presence.held,
                presence.scrolling@.contains(true),
                presence.warming,
                presence.scrolling@.len() > 0 || presence.motion,
                presence.flash,
            ),
            ..*old(orchestrator)
        }),
        *final(perf) == (PerfStats { frame_start: Some(now), ..*old(perf) }),
{
    let mut user_driving = false;
    let mut i: usize = 0;
    while i < presence.scrolling.len()
        invariant
            i <= presence.scrolling.len(),
            user_driving == presence.scrolling@.take(i as int).contains(true),
        decreases presence.scrolling.len() - i,
    {
        let ghost before = presence.scrolling@.take(i as int);
        let ghost after = presence.scrolling@.take(i as int + 1);
        assert(after =~= before.push(presence.scrolling@[i as int]));
        if presence.scrolling[i] {
            user_driving = true;
            assert(after[i as int]);
        } else if user_driving {
            let ghost at = choose|k: int| 0 <= k < before.len() && before[k];
            assert(after[at]);
        }
        i = i + 1;
    }
    assert(presence.scrolling@.take(i as int) =~= presence.scrolling@);
    orchestrator.priority = classify_frame(
        presence.held,
        user_driving,
        presence.warming,
        presence.scrolling.len() > 0 || presence.motion,
        presence.flash,
    );
    perf.frame_start = Some(now);
}

/// Marks the end of the stage that takes events in.
pub fn mark_preupdate_end(perf: &mut PerfStats, now: Duration)
    ensures
        *final(perf) == (PerfStats { pre_end: Some(now), ..*old(perf) }),
{
    perf.pre_end = Some(now);
}

/// Marks the end of the stage that drives windows and lays them out.
pub fn mark_update_end(perf: &mut PerfStats, now: Duration)
    ensures
        *final(perf) == (PerfStats { update_end: Some(now), ..*old(perf) }),
{
    perf.update_end = Some(now);
}

/// The order of spans by length.
pub open spec fn shorter() -> spec_fn(Duration, Duration) -> bool {
    |a: Duration, b: Duration| a.nanos <= b.nanos
}

/// The spans from the shortest to the longest.
pub open spec fn arranged(samples: Seq<Duration>) -> Seq<Duration> {
    samples.sort_by(shorter())
}

proof fn lemma_shorter_is_an_order()
    ensures
        total_ordering(shorter()),
{
}

/// The spans from the shortest to the longest.
pub fn sort_samples(samples: &Vec<Duration>) -> (sorted: Vec<Duration>)
    ensures
        sorted@ == arranged(samples@),
        sorted@.len() == samples@.len(),
        sorted_by(sorted@, shorter()),
{
    broadcast use vstd::seq_lib::group_to_multiset_ensures;

    let mut sorted: Vec<Duration> = Vec::new();
    let mut i: usize = 0;
    while i < samples.len()
        invariant
            i <= samples.len(),
            sorted@.len() == i,
            sorted_by(sorted@, shorter()),
            sorted@.to_multiset() == samples@.take(i as int).to_multiset(),
        decreases samples.len() - i,
    {
        let sample = samples[i];
        let mut at: usize = sorted.len();
        while at > 0 && sorted[at - 1].nanos > sample.nanos
            invariant
                at <= sorted.len(),
                sorted_by(sorted@, shorter()),
                forall|k: int| at <= k < sorted@.len() ==> (#[trigger] sorted@[k]).nanos > sample.nanos,
            decreases at,
        {
            at = at - 1;
        }
        let ghost before = sorted@;
        sorted.insert(at, sample);
        proof {
            broadcast use vstd::seq_lib::group_to_multiset_ensures;

            assert(sorted@ == before.insert(at as int, sample));
            assert(samples@.take(i as int + 1) =~= samples@.take(i as int).push(sample));
            assert forall|j: int, k: int| 0 <= j < k < sorted@.len() implies #[trigger] (shorter())(
                sorted@[j],
                sorted@[k],
            ) by {
                if k < at {
                    assert((shorter())(before[j], before[k]));
                } else if j > at {
                    assert((shorter())(before[j - 1], before[k - 1]));
                } else if j < at && k > at {
                    assert((shorter())(before[j], before[k - 1]));
                } else if j < at {
                    assert(j <= at - 1);
                    if j < at - 1 {
                        assert((shorter())(before[j], before[at - 1]));
                    }
                }
            }
        }
        i = i + 1;
    }
    proof {
        assert(samples@.take(i as int) =~= samples@);
        lemma_shorter_is_an_order();
        samples@.lemma_sort_by_ensures(shorter());
        lemma_sorted_unique(sorted@, arranged(samples@), shorter());
    }
    sorted
}

/// The place of the nearest rank among `count` values.
pub open spec fn rank_place(count: int, percent: int) -> int {
    let rank = (percent * count + 99) / 100;
    if rank < 1 {
        0
    } else if rank > count {
        count - 1
    } else {
        rank - 1
    }
}

/// The nearest-rank percentile of sorted spans; zero where there are none.
pub open spec fn percentile_of(sorted: Seq<Duration>, percent: int) -> Duration {
    if sorted.len() == 0 {
        Duration { nanos: 0 }
    } else {
        sorted[rank_place(sorted.len() as int, percent)]
    }
}

/// The nearest-rank percentile of sorted spans; zero where there are none.
pub fn percentile(sorted: &Vec<Duration>, percent: u8) -> (value: Duration)
    requires
        percent <= 100,
    ensures
        value == percentile_of(sorted@, percent as int),
{
    if sorted.len() == 0 {
        return Duration::zero();
    }
    let count: u128 = sorted.len() as u128;
    assert(percent as int * count <= 100 * count) by (nonlinear_arith)
        requires
            0 <= percent <= 100,
            count >= 0,
    ;
    assert(percent as int * count >= 0) by (nonlinear_arith)
        requires
            0 <= percent,
            count >= 0,
    ;
    let rank: u128 = (percent as u128 * count + 99) / 100;
    let place: usize = if rank < 1 {
        0
    } else {
        (rank - 1) as usize
    };
    sorted[place]
}

/// The upper median of spans; zero where there are none.
pub open spec fn median_of(samples: Seq<Duration>) -> Duration {
    if samples.len() == 0 {
        Duration { nanos: 0 }
    } else {
        arranged(samples)[samples.len() as int / 2]
    }
}

/// The upper median of a stage, which it empties.
pub fn stage_median(samples: &mut Vec<Duration>) -> (median: Duration)
    ensures
        final(samples)@.len() == 0,
        median == median_of(old(samples)@),
{
    let sorted = sort_samples(samples);
    samples.clear();
    if sorted.len() == 0 {
        Duration::zero()
    } else {
        sorted[sorted.len() / 2]
    }
}

/// What one window of frames cost.
#[derive(Clone, Copy, Debug, PartialEq, Eq, Structural)]
pub struct PerfSummary {
    pub p50: Duration,
    pub p95: Duration,
    pub max: Duration,
    pub pre: Duration,
    pub update: Duration,
    pub post: Duration,
    pub priority: FramePriority,
    pub verify_repushes: u64,
    pub drain_events: u64,
    pub drain_frames: u64,
    pub drain_max: usize,
}

/// The stamps of one frame.
pub struct FrameStamps {
    pub start: Duration,
    pub pre: Duration,
    pub update: Duration,
    pub end: Duration,
}

/// The span from one stamp to a later one, zero where the clock went back.
pub open spec fn span(from: Duration, to: Duration) -> Duration {
    Duration { nanos: to.minus(from) as u128 }
}

/// The samples of whole frames with one frame more.
pub open spec fn samples_with(perf: PerfStats, clock: FrameStamps) -> Seq<Duration> {
    perf.samples@.push(span(clock.start, clock.end))
}

pub open spec fn pre_with(perf: PerfStats, clock: FrameStamps) -> Seq<Duration> {
    perf.pre_samples@.push(span(clock.start, clock.pre))
}

pub open spec fn update_with(perf: PerfStats, clock: FrameStamps) -> Seq<Duration> {
    perf.update_samples@.push(span(clock.pre, clock.update))
}

pub open spec fn post_with(perf: PerfStats, clock: FrameStamps) -> Seq<Duration> {
    perf.post_samples@.push(span(clock.update, clock.end))
}

/// The summary of a window that this frame fills.
pub open spec fn summary_with(perf: PerfStats, clock: FrameStamps, priority: FramePriority) -> PerfSummary {
    let sorted = arranged(samples_with(perf, clock));
    PerfSummary {
        p50: percentile_of(sorted, 50),
        p95: percentile_of(sorted, 95),
        max: sorted.last(),
        pre: median_of(pre_with(perf, clock)),
        update: median_of(update_with(perf, clock)),
        post: median_of(post_with(perf, clock)),
        priority,
        verify_repushes: perf.verify_repushes,
        drain_events: perf.drain_events,
        drain_frames: perf.drain_frames,
        drain_max: perf.drain_max,
    }
}

/// Stops the frame's clock and notes what the frame cost. A frame whose clock
/// misses a mark counts for nothing. A full window is summed up and starts
/// over.
pub fn log_frame_stats(perf: &mut PerfStats, priority: FramePriority, now: Duration) -> (summary:
    Option<PerfSummary>)
    requires
        old(perf).wf(),
    ensures
        final(perf).wf(),
        final(perf).frame_start is None,
        final(perf).pre_end is None,
        final(perf).update_end is None,
        match (old(perf).frame_start, old(perf).pre_end, old(perf).update_end) {
            (Some(start), Some(pre), Some(update)) => {
                let clock = FrameStamps { start, pre, update, end: now };
                if old(perf).samples@.len() + 1 < PERF_SAMPLE_WINDOW {
                    &&& summary is None
                    &&& final(perf).samples@ == samples_with(*old(perf), clock)
                    &&& final(perf).pre_samples@ == pre_with(*old(perf), clock)
                    &&& final(perf).update_samples@ == update_with(*old(perf), clock)
                    &&& final(perf).post_samples@ == post_with(*old(perf), clock)
                    &&& final(perf).verify_repushes == old(perf).verify_repushes
                    &&& final(perf).drain_events == old(perf).drain_events
                    &&& final(perf).drain_frames == old(perf).drain_frames
                    &&& final(perf).drain_max == old(perf).drain_max
                } else {
                    &&& summary == Some(summary_with(*old(perf), clock, priority))
                    &&& final(perf).samples@.len() == 0
                    &&& final(perf).verify_repushes == 0
                    &&& final(perf).drain_events == 0
                    &&& final(perf).drain_frames == 0
                    &&& final(perf).drain_max == 0
                }
            },
            _ => summary is None && *final(perf) == (PerfStats {
                frame_start: None,
                pre_end: None,
                update_end: None,
                ..*old(perf)
            }),
        },
{
    let start = perf.frame_start;
    let pre = perf.pre_end;
    let update = perf.update_end;
    perf.frame_start = None;
    perf.pre_end = None;
    perf.update_end = None;
    let (start, pre, update) = match (start, pre, update) {
        (Some(start), Some(pre), Some(update)) => (start, pre, update),
        _ => {
            return None;
        },
    };
    perf.samples.push(now.saturating_sub(start));
    perf.pre_samples.push(pre.saturating_sub(start));
    perf.update_samples.push(update.saturating_sub(pre));
    perf.post_samples.push(now.saturating_sub(update));
    if perf.samples.len() < PERF_SAMPLE_WINDOW {
        return None;
    }
    let sorted = sort_samples(&perf.samples);
    perf.samples.clear();
    let summary = PerfSummary {
        p50: percentile(&sorted, 50),
        p95: percentile(&sorted, 95),
        max: sorted[sorted.len() - 1],
        pre: stage_median(&mut perf.pre_samples),
        update: stage_median(&mut perf.update_samples),
        post: stage_median(&mut perf.post_samples),
        priority,
        verify_repushes: perf.verify_repushes,
        drain_events: perf.drain_events,
        drain_frames: perf.drain_frames,
        drain_max: perf.drain_max,
    };
    perf.verify_repushes = 0;
    perf.drain_events = 0;
    perf.drain_frames = 0;
    perf.drain_max = 0;
    Some(summary)
}

/// A worker thread as its supervisor sees it.
#[derive(Clone, Copy, Debug, PartialEq, Eq, Structural)]
pub enum Worker {
    /// Not started, or not started again.
    Absent,
    Running,
    /// The thread is over.
    Finished,
}

/// The worker threads that the window manager keeps alive.
#[derive(Clone, Copy, Debug, PartialEq, Eq, Structural)]
pub struct ThreadSupervisor {
    pub ax_writer: Worker,
    pub snapshot: Worker,
}

impl Default for ThreadSupervisor {
    fn default() -> (supervisor: ThreadSupervisor)
        ensures
            supervisor == (ThreadSupervisor { ax_writer: Worker::Absent, snapshot: Worker::Absent }),
    {
        ThreadSupervisor { ax_writer: Worker::Absent, snapshot: Worker::Absent }
    }
}

/// How often worker threads are looked after, in seconds.
pub const SUPERVISION_INTERVAL_SECS: u64 = 30;

/// Which workers to start again.
#[derive(Clone, Copy, Debug, PartialEq, Eq, Structural)]
pub struct Restarts {
    pub ax_writer: bool,
    pub snapshot: bool,
}

/// What becomes of a worker.
pub open spec fn supervised(worker: Worker, can_restart: bool) -> Worker {
    match worker {
        Worker::Finished => if can_restart {
            Worker::Running
        } else {
            Worker::Absent
        },
        other => other,
    }
}

/// Says which workers died and have to start again. A dead writer never
/// acknowledges what it was given, so the state of the writes starts over with
/// it. Without an event channel nothing can be started.
pub fn supervise_threads(
    supervisor: &mut ThreadSupervisor,
    can_restart: bool,
    write_state: &mut AxWriteState,
) -> (restarts: Restarts)
    ensures
        restarts.ax_writer == (can_restart && old(supervisor).ax_writer == Worker::Finished),
        restarts.snapshot == (can_restart && old(supervisor).snapshot == Worker::Finished),
        final(supervisor).ax_writer == supervised(old(supervisor).ax_writer, can_restart),
        final(supervisor).snapshot == supervised(old(supervisor).snapshot, can_restart),
        old(supervisor).ax_writer != Worker::Finished ==> *final(write_state) == *old(write_state),
        old(supervisor).ax_writer == Worker::Finished ==> final(write_state).is_fresh(),
{
    let mut restarts = Restarts { ax_writer: false, snapshot: false };
    if supervisor.ax_writer == Worker::Finished {
        supervisor.ax_writer = Worker::Absent;
        *write_state = AxWriteState::default();
        if can_restart {
            restarts.ax_writer = true;
            supervisor.ax_writer = Worker::Running;
        }
    }
    if supervisor.snapshot == Worker::Finished {
        supervisor.snapshot = Worker::Absent;
        if can_restart {
            restarts.snapshot = true;
            supervisor.snapshot = Worker::Running;
        }
    }
    restarts
}

/// A supervised worker is never left dead: it runs again or is known to be
/// absent, and looking again changes nothing.
pub proof fn supervision_settles(worker: Worker, can_restart: bool)
    ensures
        supervised(worker, can_restart) != Worker::Finished,
        supervised(supervised(worker, can_restart), can_restart) == supervised(worker, can_restart),
{
}

} // verus!
