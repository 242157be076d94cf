//! Scrolling of a strip: what a gesture asks for, where a strip comes to rest
//! and how far it may go.
use vstd::prelude::*;

pub mod rest;

use crate::commands::{Command, Direction, Operation};
use crate::ecs::layout::{top_at, tops_to, LayoutStrip};
use crate::ecs::params::{moving_frame_of, slot_of, WindowRecord, Windows};
use crate::ecs::{Message, Request, Requests, SendMessageTrigger};
use crate::geometry::{
    clamp_i32, clamped, distance, fits, half, halved, Entity, IRect, Origin,
};
use crate::time::Duration;

verus! {

pub struct ScrollEventsPlugin;

/// Which way a strip follows the fingers.
#[derive(Clone, Copy, Debug, PartialEq, Eq, Structural)]
pub enum SwipeGestureDirection {
    Natural,
    Reversed,
}

/// An input event as scrolling sees it, without its distance.
#[derive(Clone, Copy, Debug, PartialEq, Eq, Structural)]
pub enum ScrollEvent {
    TouchpadDown,
    Scroll,
    Swipe { fingers: usize },
    Other,
}

/// Whether the event is a swipe with as many fingers as the settings ask for.
pub open spec fn is_gesture(configured: Option<usize>) -> spec_fn(ScrollEvent) -> bool {
    |event: ScrollEvent| event matches ScrollEvent::Swipe { fingers } && configured == Some(fingers)
}

/// What the events of one frame add up to.
#[derive(Clone, Copy, Debug, PartialEq, Eq, Structural)]
pub struct GestureReading {
    /// Fingers came down.
    pub touchpad_down: bool,
    /// The strip is to move.
    pub scrolled: bool,
    /// Fingers swiped, so the strip gets momentum of its own.
    pub gestured: bool,
    /// The distances of events before this one no longer count: fingers came
    /// down after them.
    pub counts_from: usize,
}

/// The place after the last event among the first `n` that put fingers down.
pub open spec fn after_last_touch(events: Seq<ScrollEvent>, n: int) -> int
    decreases n,
{
    if n <= 0 {
        0
    } else if events[n - 1] == ScrollEvent::TouchpadDown {
        n
    } else {
        after_last_touch(events, n - 1)
    }
}

/// What the first `n` events add up to.
pub open spec fn reading_to(events: Seq<ScrollEvent>, configured: Option<usize>, n: int) -> GestureReading {
    GestureReading {
        touchpad_down: exists|k: int|
            0 <= k < n && #[trigger] events[k] == ScrollEvent::TouchpadDown,
        scrolled: exists|k: int|
            0 <= k < n && (#[trigger] events[k] == ScrollEvent::Scroll || (is_gesture(configured))(
                events[k],
            )),
        gestured: exists|k: int| 0 <= k < n && (is_gesture(configured))(#[trigger] events[k]),
        counts_from: after_last_touch(events, n) as usize,
    }
}

/// Adds up the events of one frame.
pub fn read_gestures(events: &Vec<ScrollEvent>, configured: Option<usize>) -> (reading:
    GestureReading)
    ensures
        reading == reading_to(events@, configured, events@.len() as int),
{
    let mut reading = GestureReading {
        touchpad_down: false,
        scrolled: false,
        gestured: false,
        counts_from: 0,
    };
    let mut i: usize = 0;
    while i < events.len()
        invariant
            i <= events.len(),
            reading == reading_to(events@, configured, i as int),
        decreases events.len() - i,
    {
        let ghost before = reading_to(events@, configured, i as int);
        let ghost after = reading_to(events@, configured, i as int + 1);
        assert(0 <= after_last_touch(events@, i as int + 1) <= i + 1) by {
            lemma_after_last_touch(events@, i as int + 1);
        }
        let event = events[i];
        assert(event == events@[i as int]);
        match event {
            ScrollEvent::TouchpadDown => {
                reading.touchpad_down = true;
                reading.counts_from = i + 1;
            },
            ScrollEvent::Scroll => {
                reading.scrolled = true;
            },
            ScrollEvent::Swipe { fingers } => {
                if configured == Some(fingers) {
                    reading.scrolled = true;
                    reading.gestured = true;
                }
            },
            ScrollEvent::Other => {},
        }
        assert(after.touchpad_down == (before.touchpad_down || event == ScrollEvent::TouchpadDown));
        assert(after.gestured == (before.gestured || (is_gesture(configured))(event)));
        assert(after.scrolled == (before.scrolled || event == ScrollEvent::Scroll || (is_gesture(
            configured,
        ))(event)));
        i = i + 1;
    }
    reading
}

proof fn lemma_after_last_touch(events: Seq<ScrollEvent>, n: int)
    requires
        n >= 0,
    ensures
        0 <= after_last_touch(events, n) <= n,
    decreases n,
{
    if n > 0 {
        lemma_after_last_touch(events, n - 1);
    }
}

/// What a frame of gestures does to the strip on screen.
#[derive(Clone, Copy, Debug, PartialEq, Eq, Structural)]
pub struct SwipePlan {
    /// Stop the strip under the fingers.
    pub halt: bool,
    /// Move the strip by what the events count to.
    pub drive: Drive,
}

/// How the strip's motion changes.
#[derive(Clone, Copy, Debug, PartialEq, Eq, Structural)]
pub enum Drive {
    Nothing,
    /// The strip moves and keeps no momentum: the system adds its own.
    Follow,
    /// The strip moves and its momentum follows the fingers.
    Fling,
    /// The strip starts to move, without or with momentum.
    Start { fling: bool },
}

pub open spec fn swipe_plan(reading: GestureReading, scrolling: bool) -> SwipePlan {
    SwipePlan {
        halt: reading.touchpad_down && scrolling,
        drive: if !reading.scrolled {
            Drive::Nothing
        } else if !scrolling {
            Drive::Start { fling: reading.gestured }
        } else if reading.gestured {
            Drive::Fling
        } else {
            Drive::Follow
        },
    }
}

/// The requests of a frame of gestures: the user drives the strip by hand now,
/// so it is no longer placed by hand. Only fingers give up a pending settle;
/// the scroll events left over from the drag that asked for it do not.
pub open spec fn swipe_requests(reading: GestureReading, strip: Entity) -> Seq<Request> {
    if !reading.touchpad_down && !reading.scrolled {
        Seq::empty()
    } else if reading.touchpad_down || reading.gestured {
        seq![Request::UnpinOffset { strip }, Request::DropSettle { strip }]
    } else {
        seq![Request::UnpinOffset { strip }]
    }
}

/// Decides what a frame of gestures does to the strip on screen.
pub fn swipe_gesture(
    reading: GestureReading,
    strip: Entity,
    scrolling: bool,
    requests: &mut Requests,
) -> (plan: SwipePlan)
    ensures
        plan == swipe_plan(reading, scrolling),
        final(requests)@ == old(requests)@ + swipe_requests(reading, strip),
{
    let mut plan = SwipePlan { halt: false, drive: Drive::Nothing };
    if !reading.touchpad_down && !reading.scrolled {
        assert(requests@ =~= old(requests)@ + swipe_requests(reading, strip));
        return plan;
    }
    requests.push(Request::UnpinOffset { strip });
    if reading.touchpad_down || reading.gestured {
        requests.push(Request::DropSettle { strip });
    }
    assert(requests@ =~= old(requests)@ + swipe_requests(reading, strip));
    plan.halt = reading.touchpad_down && scrolling;
    if reading.scrolled {
        plan.drive = if !scrolling {
            Drive::Start { fling: reading.gestured }
        } else if reading.gestured {
            Drive::Fling
        } else {
            Drive::Follow
        };
    }
    plan
}

/// How long after its last event a swipe counts as over, in milliseconds.
pub const FINGER_LIFT_THRESHOLD: u64 = 50;

/// Whether the last event is so far away that the fingers are up.
pub open spec fn fingers_up(now: Duration, last_event: Duration) -> bool {
    distance(now.nanos as int, last_event.nanos as int) > FINGER_LIFT_THRESHOLD * 1_000_000
}

/// What becomes of a strip that scrolls.
#[derive(Clone, Copy, Debug, PartialEq, Eq, Structural)]
pub struct LiftPlan {
    /// The fingers are up.
    pub lifted: bool,
    /// The glide is over.
    pub over: bool,
    /// Tell the pipeline where the pointer is: windows moved under it.
    pub pointer: Option<SendMessageTrigger>,
}

/// What becomes of a strip that scrolls.
pub open spec fn lift_plan(
    now: Duration,
    last_event: Duration,
    slow: bool,
    cursor: Option<Origin>,
) -> LiftPlan {
    LiftPlan {
        lifted: fingers_up(now, last_event),
        over: fingers_up(now, last_event) && slow,
        pointer: match cursor {
            Some(point) if fingers_up(now, last_event) => Some(
                SendMessageTrigger(Message::MouseMoved { point }),
            ),
            _ => None,
        },
    }
}

/// Decides what becomes of a strip that scrolls. `slow` says that the next step
/// would hardly move it.
pub fn swiping_timeout(
    now: Duration,
    last_event: Duration,
    slow: bool,
    cursor: Option<Origin>,
) -> (plan: LiftPlan)
    ensures
        plan == lift_plan(now, last_event, slow, cursor),
{
    let since: u128 = if now.nanos >= last_event.nanos {
        now.nanos - last_event.nanos
    } else {
        last_event.nanos - now.nanos
    };
    if since > Duration::from_millis(FINGER_LIFT_THRESHOLD).nanos {
        let pointer = match cursor {
            Some(point) => Some(SendMessageTrigger(Message::MouseMoved { point })),
            None => None,
        };
        LiftPlan { lifted: true, over: slow, pointer }
    } else {
        LiftPlan { lifted: false, over: false, pointer: None }
    }
}

/// The requests that end the glides of the first `n` strips.
pub open spec fn glide_ends(strips: Seq<Entity>, n: int) -> Seq<Request>
    decreases n,
{
    if n <= 0 {
        Seq::empty()
    } else {
        glide_ends(strips, n - 1).push(Request::DropGlide { strip: strips[n - 1] }).push(
            Request::DropSettle { strip: strips[n - 1] },
        )
    }
}

/// Ends the glide of every strip that a programmatic move takes over: the
/// latest intent wins.
pub fn cancel_driven_strip_glide(strips: &Vec<Entity>, requests: &mut Requests)
    ensures
        final(requests)@ == old(requests)@ + glide_ends(strips@, strips@.len() as int),
{
    let mut i: usize = 0;
    assert(requests@ =~= old(requests)@ + glide_ends(strips@, 0));
    while i < strips.len()
        invariant
            i <= strips.len(),
            requests@ == old(requests)@ + glide_ends(strips@, i as int),
        decreases strips.len() - i,
    {
        requests.push(Request::DropGlide { strip: strips[i] });
        requests.push(Request::DropSettle { strip: strips[i] });
        i = i + 1;
        assert(requests@ =~= old(requests)@ + glide_ends(strips@, i as int));
    }
}

/// A column of a strip: where it starts in the strip, and its width.
pub type Span = (i32, i32);

/// Whether a column lies inside the viewport at that offset of the strip.
pub open spec fn in_view(column: Span, offset: int, viewport: IRect) -> bool {
    viewport.min.x <= offset + column.0 && offset + column.0 + column.1 <= viewport.max.x
}

/// The offset that puts a column's left edge at the viewport's.
pub open spec fn left_aligned(column: Span, viewport: IRect) -> int {
    viewport.min.x - column.0
}

/// The offset that puts a column's right edge at the viewport's.
pub open spec fn right_aligned(column: Span, viewport: IRect) -> int {
    viewport.max.x - (column.0 + column.1)
}

/// The offset that reveals a column with the smaller move; a column that does
/// not fit goes to its left edge.
pub open spec fn reveal_offset(column: Span, offset: int, viewport: IRect) -> int {
    let left = left_aligned(column, viewport);
    let right = right_aligned(column, viewport);
    if column.1 < viewport.spec_width() && distance(right, offset) < distance(left, offset) {
        right
    } else {
        left
    }
}

/// The offset of the first column, among the first `n`, whose reveal takes the
/// smallest move.
pub open spec fn nearest_reveal(columns: Seq<Span>, offset: int, viewport: IRect, n: int) -> Option<int>
    decreases n,
{
    if n <= 0 {
        None
    } else {
        let here = reveal_offset(columns[n - 1], offset, viewport);
        match nearest_reveal(columns, offset, viewport, n - 1) {
            Some(best) if distance(best, offset) <= distance(here, offset) => Some(best),
            _ => Some(here),
        }
    }
}

/// Whether some column lies inside the viewport at that offset.
pub open spec fn some_in_view(columns: Seq<Span>, offset: int, viewport: IRect) -> bool {
    exists|k: int| 0 <= k < columns.len() && in_view(#[trigger] columns[k], offset, viewport)
}

/// Where the strip comes to rest: where it is while a column is in view, else
/// where the nearest column is revealed.
pub open spec fn settle_offset(columns: Seq<Span>, offset: int, viewport: IRect) -> int {
    if some_in_view(columns, offset, viewport) {
        offset
    } else {
        match nearest_reveal(columns, offset, viewport, columns.len() as int) {
            Some(best) => best,
            None => offset,
        }
    }
}

/// Both edges of every column can be aligned with the viewport's.
pub open spec fn alignable(columns: Seq<Span>, viewport: IRect) -> bool {
    forall|k: int|
        0 <= k < columns.len() ==> fits(left_aligned(#[trigger] columns[k], viewport)) && fits(
            right_aligned(columns[k], viewport),
        )
}

/// The strip offset that brings the nearest column into view with the smallest
/// move. Where a column is in view already the strip stays.
pub fn nearest_visible_target(columns: &Vec<Span>, current_offset: i32, viewport: IRect) -> (offset:
    i32)
    requires
        alignable(columns@, viewport),
    ensures
        offset == settle_offset(columns@, current_offset as int, viewport),
{
    let current: i64 = current_offset as i64;
    let left_edge: i64 = viewport.min.x as i64;
    let right_edge: i64 = viewport.max.x as i64;
    let mut best: Option<i64> = None;
    let mut i: usize = 0;
    while i < columns.len()
        invariant
            i <= columns.len(),
            current == current_offset,
            left_edge == viewport.min.x,
            right_edge == viewport.max.x,
            alignable(columns@, viewport),
            forall|k: int|
                0 <= k < i ==> !in_view(#[trigger] columns@[k], current_offset as int, viewport),
            match (best, nearest_reveal(columns@, current_offset as int, viewport, i as int)) {
                (Some(found), Some(wanted)) => found == wanted && fits(wanted),
                (None, None) => true,
                _ => false,
            },
        decreases columns.len() - i,
    {
        let start: i64 = columns[i].0 as i64;
        let width: i64 = columns[i].1 as i64;
        if current + start >= left_edge && current + start + width <= right_edge {
            assert(in_view(columns@[i as int], current_offset as int, viewport));
            return current_offset;
        }
        let left: i64 = left_edge - start;
        let right: i64 = right_edge - (start + width);
        let target: i64 = if width < right_edge - left_edge && span_between(right, current)
            < span_between(left, current) {
            right
        } else {
            left
        };
        assert(target == reveal_offset(columns@[i as int], current_offset as int, viewport));
        assert(fits(target as int)) by {
            let column = columns@[i as int];
            assert(fits(left_aligned(column, viewport)) && fits(right_aligned(column, viewport)));
        }
        best = match best {
            Some(found) => if span_between(found, current) <= span_between(target, current) {
                Some(found)
            } else {
                Some(target)
            },
            None => Some(target),
        };
        i = i + 1;
    }
    match best {
        Some(found) => found as i32,
        None => current_offset,
    }
}

fn span_between(a: i64, b: i64) -> (gap: i64)
    requires
        -0x4_0000_0000 <= a <= 0x4_0000_0000,
        -0x4_0000_0000 <= b <= 0x4_0000_0000,
    ensures
        gap == distance(a as int, b as int),
{
    if a >= b {
        a - b
    } else {
        b - a
    }
}

proof fn lemma_nearest(columns: Seq<Span>, offset: int, viewport: IRect, n: int)
    requires
        0 <= n <= columns.len(),
    ensures
        n > 0 ==> nearest_reveal(columns, offset, viewport, n) is Some,
        nearest_reveal(columns, offset, viewport, n) matches Some(best) ==> {
            &&& exists|k: int|
                0 <= k < n && best == reveal_offset(#[trigger] columns[k], offset, viewport)
            &&& forall|k: int|
                0 <= k < n ==> distance(best, offset) <= distance(
                    reveal_offset(#[trigger] columns[k], offset, viewport),
                    offset,
                )
        },
    decreases n,
{
    if n > 0 {
        lemma_nearest(columns, offset, viewport, n - 1);
        let best = nearest_reveal(columns, offset, viewport, n)->0;
        if best == reveal_offset(columns[n - 1], offset, viewport) {
            assert(0 <= n - 1 < n);
        }
    }
}

/// A settle that has to move reveals a column: where all columns fit the
/// viewport, one lies inside it afterwards, and settling again stays there.
pub proof fn settling_reveals_a_column(columns: Seq<Span>, offset: int, viewport: IRect)
    requires
        columns.len() > 0,
        forall|k: int|
            0 <= k < columns.len() ==> (#[trigger] columns[k]).1 <= viewport.spec_width(),
    ensures
        some_in_view(columns, settle_offset(columns, offset, viewport), viewport),
        settle_offset(columns, settle_offset(columns, offset, viewport), viewport) == settle_offset(
            columns,
            offset,
            viewport,
        ),
{
    if !some_in_view(columns, offset, viewport) {
        lemma_nearest(columns, offset, viewport, columns.len() as int);
        let best = nearest_reveal(columns, offset, viewport, columns.len() as int)->0;
        let k = choose|k: int|
            0 <= k < columns.len() && best == reveal_offset(#[trigger] columns[k], offset, viewport);
        assert(in_view(columns[k], best, viewport));
    }
}

/// No other offset that shows a column in full is nearer than the one that the
/// strip settles at.
pub proof fn settling_takes_the_smallest_move(
    columns: Seq<Span>,
    offset: int,
    viewport: IRect,
    other: int,
)
    requires
        some_in_view(columns, other, viewport),
        forall|k: int| 0 <= k < columns.len() ==> (#[trigger] columns[k]).1 >= 0,
    ensures
        distance(settle_offset(columns, offset, viewport), offset) <= distance(other, offset),
{
    if !some_in_view(columns, offset, viewport) {
        lemma_nearest(columns, offset, viewport, columns.len() as int);
        let k = choose|k: int|
            0 <= k < columns.len() && in_view(#[trigger] columns[k], other, viewport);
        assert(!in_view(columns[k], offset, viewport));
        assert(distance(reveal_offset(columns[k], offset, viewport), offset) <= distance(
            other,
            offset,
        ));
    }
}

/// The column that a window stands at the top of.
pub open spec fn span_of(windows: Seq<WindowRecord>, entity: Entity) -> Option<Span> {
    match (slot_of(windows, entity), moving_frame_of(windows, entity)) {
        (Some(slot), Some(frame)) => Some((slot.x, frame.spec_width() as i32)),
        _ => None,
    }
}

/// The columns of the first `n` windows that have a place.
pub open spec fn spans_to(windows: Seq<WindowRecord>, tops: Seq<Entity>, n: int) -> Seq<Span>
    decreases n,
{
    if n <= 0 {
        Seq::empty()
    } else {
        match span_of(windows, tops[n - 1]) {
            Some(span) => spans_to(windows, tops, n - 1).push(span),
            None => spans_to(windows, tops, n - 1),
        }
    }
}

/// The columns of a strip.
pub open spec fn strip_spans(windows: Seq<WindowRecord>, strip: LayoutStrip) -> Seq<Span> {
    let tops = tops_to(strip@, strip@.len() as int);
    spans_to(windows, tops, tops.len() as int)
}

/// Every window's width is a number that a point can hold.
pub open spec fn widths_fit(windows: Seq<WindowRecord>) -> bool {
    forall|entity: Entity|
        #[trigger] moving_frame_of(windows, entity) matches Some(frame) ==> fits(
            frame.spec_width(),
        )
}

fn window_span(windows: &Windows, entity: Entity) -> (span: Option<Span>)
    requires
        windows.wf(),
        widths_fit(windows.all@),
    ensures
        span == span_of(windows.all@, entity),
{
    match (windows.layout_position(entity), windows.moving_frame(entity)) {
        (Some(slot), Some(frame)) => Some((slot.x, frame.width())),
        _ => None,
    }
}

fn column_spans(layout_strip: &LayoutStrip, windows: &Windows) -> (columns: Vec<Span>)
    requires
        windows.wf(),
        widths_fit(windows.all@),
    ensures
        columns@ == strip_spans(windows.all@, *layout_strip),
{
    let tops = layout_strip.all_columns();
    let mut columns: Vec<Span> = Vec::new();
    let mut i: usize = 0;
    while i < tops.len()
        invariant
            i <= tops.len(),
            windows.wf(),
            widths_fit(windows.all@),
            columns@ == spans_to(windows.all@, tops@, i as int),
        decreases tops.len() - i,
    {
        if let Some(span) = window_span(windows, tops[i]) {
            columns.push(span);
        }
        i = i + 1;
    }
    columns
}

/// The strip offset that brings the nearest window into view with the smallest
/// move; none for a strip without windows.
pub fn nearest_visible_offset(
    layout_strip: &LayoutStrip,
    current_offset: i32,
    windows: &Windows,
    viewport: IRect,
) -> (offset: Option<i32>)
    requires
        windows.wf(),
        widths_fit(windows.all@),
        alignable(strip_spans(windows.all@, *layout_strip), viewport),
    ensures
        ({
            let columns = strip_spans(windows.all@, *layout_strip);
            offset == (if columns.len() == 0 {
                None::<i32>
            } else {
                Some(settle_offset(columns, current_offset as int, viewport) as i32)
            })
        }),
{
    let columns = column_spans(layout_strip, windows);
    if columns.len() == 0 {
        return None;
    }
    Some(nearest_visible_target(&columns, current_offset, viewport))
}

/// Where the last column ends in the strip.
pub open spec fn strip_end(windows: Seq<WindowRecord>, strip: LayoutStrip) -> Option<int> {
    match top_at(strip@, strip@.len() - 1) {
        Some(entity) => match span_of(windows, entity) {
            Some(span) => Some(span.0 + span.1),
            None => None,
        },
        None => None,
    }
}

/// Where the top window of a column starts in the strip.
pub open spec fn column_start(windows: Seq<WindowRecord>, strip: LayoutStrip, index: int) -> Option<int> {
    match top_at(strip@, index) {
        Some(entity) => match slot_of(windows, entity) {
            Some(slot) => Some(slot.x as int),
            None => None,
        },
        None => None,
    }
}

/// The offsets that a strip may have: with continuous swiping it may go until
/// only its last or its first window is left, else an edge of the strip stays
/// at an edge of the viewport.
pub open spec fn offset_range(
    windows: Seq<WindowRecord>,
    strip: LayoutStrip,
    viewport: IRect,
    continuous: bool,
) -> Option<(int, int)> {
    match strip_end(windows, strip) {
        None => None,
        Some(end) => {
            let last = column_start(windows, strip, strip@.len() - 1);
            let first = column_start(windows, strip, 0);
            if continuous && last is Some && first is Some {
                Some((viewport.min.x - last->0, viewport.max.x - first->0))
            } else if viewport.spec_width() < end {
                Some((viewport.max.x - end, viewport.min.x as int))
            } else {
                Some((viewport.min.x as int, viewport.max.x - end))
            }
        },
    }
}

/// Keeps the offset of a strip in its range; none for a strip whose end is not
/// known.
pub fn clamp_viewport_offset(
    current_offset: i32,
    layout_strip: &LayoutStrip,
    windows: &Windows,
    viewport: IRect,
    continuous_swipe: bool,
) -> (offset: Option<i32>)
    requires
        windows.wf(),
        widths_fit(windows.all@),
        offset_range(windows.all@, *layout_strip, viewport, continuous_swipe) matches Some((low, high))
            ==> low <= high && fits(low) && fits(high),
    ensures
        offset == (match offset_range(windows.all@, *layout_strip, viewport, continuous_swipe) {
            Some((low, high)) => Some(clamped(current_offset as int, low, high) as i32),
            None => None,
        }),
{
    let last = match layout_strip.last_top() {
        Some(entity) => entity,
        None => {
            return None;
        },
    };
    let (last_start, last_width) = match window_span(windows, last) {
        Some(span) => span,
        None => {
            return None;
        },
    };
    let end: i64 = last_start as i64 + last_width as i64;
    let left_edge: i64 = viewport.min.x as i64;
    let right_edge: i64 = viewport.max.x as i64;
    let first_start: Option<i32> = match layout_strip.first_top() {
        Some(entity) => match windows.layout_position(entity) {
            Some(slot) => Some(slot.x),
            None => None,
        },
        None => None,
    };
    if continuous_swipe {
        if let Some(first_start) = first_start {
            let low: i64 = left_edge - last_start as i64;
            let high: i64 = right_edge - first_start as i64;
            return Some(clamp_i32(current_offset, low as i32, high as i32));
        }
    }
    if right_edge - left_edge < end {
        Some(clamp_i32(current_offset, (right_edge - end) as i32, viewport.min.x))
    } else {
        Some(clamp_i32(current_offset, viewport.min.x, (right_edge - end) as i32))
    }
}

/// Without continuous swiping the range of a strip's offsets is never empty. A
/// strip wider than the viewport covers it in full at every offset of the
/// range, and a narrower one lies inside it in full.
pub proof fn strips_keep_to_the_viewport(
    windows: Seq<WindowRecord>,
    strip: LayoutStrip,
    viewport: IRect,
    offset: int,
)
    requires
        offset_range(windows, strip, viewport, false) is Some,
    ensures
        ({
            let (low, high) = offset_range(windows, strip, viewport, false)->0;
            let end = strip_end(windows, strip)->0;
            &&& low <= high
            &&& viewport.spec_width() < end ==> clamped(offset, low, high) <= viewport.min.x
                && viewport.max.x <= clamped(offset, low, high) + end
            &&& viewport.spec_width() >= end ==> viewport.min.x <= clamped(offset, low, high)
                && clamped(offset, low, high) + end <= viewport.max.x
        }),
{
}

/// Keeping an offset in its range a second time changes nothing.
pub proof fn clamping_settles(offset: int, low: int, high: int)
    requires
        low <= high,
    ensures
        clamped(clamped(offset, low, high), low, high) == clamped(offset, low, high),
        low <= offset <= high ==> clamped(offset, low, high) == offset,
{
}

/// Where a column is centred, among the first `n` windows that have a slot, the
/// first with the smallest move.
pub open spec fn nearest_center(
    windows: Seq<WindowRecord>,
    tops: Seq<Entity>,
    center: int,
    position: int,
    n: int,
) -> Option<int>
    decreases n,
{
    if n <= 0 {
        None
    } else {
        let before = nearest_center(windows, tops, center, position, n - 1);
        match centering_offset(windows, tops[n - 1], center) {
            None => before,
            Some(here) => match before {
                Some(best) if distance(position, best) <= distance(position, here) => Some(best),
                _ => Some(here),
            },
        }
    }
}

/// The offset that centres a window's column; a window without a frame counts
/// as a line.
pub open spec fn centering_offset(windows: Seq<WindowRecord>, entity: Entity, center: int) -> Option<int> {
    match slot_of(windows, entity) {
        Some(slot) => {
            let width = match moving_frame_of(windows, entity) {
                Some(frame) => frame.spec_width(),
                None => 0,
            };
            Some(center - (slot.x + halved(width)))
        },
        None => None,
    }
}

/// What is known of a strip that scrolls when its rest is decided.
#[derive(Clone, Copy, Debug, PartialEq, Eq, Structural)]
pub struct SnapFacts {
    /// Where the strip is.
    pub position: i32,
    /// A drag let the strip go.
    pub settling: bool,
    /// Fingers drive the strip.
    pub swiping: bool,
    /// The glide is too fast to settle.
    pub gliding: bool,
    /// The glide is too fast for the pull to the centre.
    pub fast: bool,
    pub auto_center: bool,
    pub center_single_column: bool,
    pub continuous_swipe: bool,
}

/// How a strip that scrolls comes to rest.
#[derive(Clone, Copy, Debug, PartialEq, Eq, Structural)]
pub enum SnapPlan {
    /// Nothing pulls.
    Rest,
    /// The settle waits for the glide; the scroll state stays alive.
    Wait,
    /// Nothing to reveal: the settle and the glide end.
    GiveUp,
    /// The strip has arrived: the settle and the glide end there.
    Arrive { target: i32 },
    /// The strip moves towards the target, by a pixel at least.
    Settle { target: i32 },
    /// The strip is pulled towards the offset that centres a column.
    Pull { center: i64 },
}

/// Whether the strip is pulled to a centre.
pub open spec fn magnetic(facts: SnapFacts, columns: int) -> bool {
    facts.auto_center || (facts.center_single_column && columns == 1)
}

/// Whether the pull reaches: within this share of the viewport's width.
pub open spec fn pull_reaches(position: int, target: int, width: int) -> bool {
    distance(position, target) * 100 < 45 * width
}

/// How a strip that scrolls comes to rest.
pub open spec fn snap_plan(
    facts: SnapFacts,
    windows: Seq<WindowRecord>,
    strip: LayoutStrip,
    viewport: IRect,
) -> SnapPlan {
    let columns = strip_spans(windows, strip);
    let tops = tops_to(strip@, strip@.len() as int);
    if !magnetic(facts, strip@.len() as int) {
        if !facts.settling {
            SnapPlan::Rest
        } else if facts.swiping || facts.gliding {
            SnapPlan::Wait
        } else {
            match offset_range(windows, strip, viewport, facts.continuous_swipe) {
                Some((low, high)) if columns.len() > 0 => {
                    let nearest = settle_offset(columns, facts.position as int, viewport) as i32;
                    let target = clamped(nearest as int, low, high) as i32;
                    if target == facts.position {
                        SnapPlan::Arrive { target }
                    } else {
                        SnapPlan::Settle { target }
                    }
                },
                _ => SnapPlan::GiveUp,
            }
        }
    } else if facts.swiping || facts.fast {
        SnapPlan::Rest
    } else {
        let center = viewport.spec_center().x as int;
        match nearest_center(windows, tops, center, facts.position as int, tops.len() as int) {
            Some(target) if pull_reaches(facts.position as int, target, viewport.spec_width()) =>
                SnapPlan::Pull { center: target as i64 },
            None if pull_reaches(
                facts.position as int,
                facts.position as int,
                viewport.spec_width(),
            ) => SnapPlan::Pull { center: facts.position as i64 },
            _ => SnapPlan::Rest,
        }
    }
}

fn window_center(windows: &Windows, entity: Entity, center: i32) -> (offset: Option<i64>)
    requires
        windows.wf(),
        widths_fit(windows.all@),
    ensures
        match (offset, centering_offset(windows.all@, entity, center as int)) {
            (Some(found), Some(wanted)) => found == wanted && -0x4_0000_0000 <= wanted
                <= 0x4_0000_0000,
            (None, None) => true,
            _ => false,
        },
{
    match windows.layout_position(entity) {
        Some(slot) => {
            let width: i32 = match windows.moving_frame(entity) {
                Some(frame) => frame.width(),
                None => 0,
            };
            Some(center as i64 - (slot.x as i64 + half(width) as i64))
        },
        None => None,
    }
}

/// Decides how a strip that scrolls comes to rest: pulled to the nearest centre
/// where the settings ask for it, else, after a drag, where the nearest window
/// is revealed.
pub fn apply_snap_force(
    facts: SnapFacts,
    layout_strip: &LayoutStrip,
    windows: &Windows,
    viewport: IRect,
) -> (plan: SnapPlan)
    requires
        windows.wf(),
        widths_fit(windows.all@),
        viewport.centerable(),
        alignable(strip_spans(windows.all@, *layout_strip), viewport),
        offset_range(windows.all@, *layout_strip, viewport, facts.continuous_swipe) matches Some(
            (low, high),
        ) ==> low <= high && fits(low) && fits(high),
    ensures
        plan == snap_plan(facts, windows.all@, *layout_strip, viewport),
{
    let pulled = facts.auto_center || (facts.center_single_column && layout_strip.len() == 1);
    if !pulled {
        if !facts.settling {
            return SnapPlan::Rest;
        }
        if facts.swiping || facts.gliding {
            return SnapPlan::Wait;
        }
        let nearest = match nearest_visible_offset(layout_strip, facts.position, windows, viewport) {
            Some(nearest) => nearest,
            None => {
                return SnapPlan::GiveUp;
            },
        };
        return match clamp_viewport_offset(
            nearest,
            layout_strip,
            windows,
            viewport,
            facts.continuous_swipe,
        ) {
            Some(target) => if target == facts.position {
                SnapPlan::Arrive { target }
            } else {
                SnapPlan::Settle { target }
            },
            None => SnapPlan::GiveUp,
        };
    }
    if facts.swiping || facts.fast {
        return SnapPlan::Rest;
    }
    let center = viewport.center().x;
    let position: i64 = facts.position as i64;
    let tops = layout_strip.all_columns();
    let mut best: Option<i64> = None;
    let mut i: usize = 0;
    while i < tops.len()
        invariant
            i <= tops.len(),
            windows.wf(),
            widths_fit(windows.all@),
            position == facts.position,
            match (
                best,
                nearest_center(
                    windows.all@,
                    tops@,
                    center as int,
                    facts.position as int,
                    i as int,
                ),
            ) {
                (Some(found), Some(wanted)) => found == wanted && -0x4_0000_0000 <= wanted
                    <= 0x4_0000_0000,
                (None, None) => true,
                _ => false,
            },
        decreases tops.len() - i,
    {
        if let Some(here) = window_center(windows, tops[i], center) {
            best = match best {
                Some(found) => if span_between(position, found) <= span_between(position, here) {
                    Some(found)
                } else {
                    Some(here)
                },
                None => Some(here),
            };
        }
        i = i + 1;
    }
    let target: i64 = match best {
        Some(found) => found,
        None => position,
    };
    let width: i64 = viewport.max.x as i64 - viewport.min.x as i64;
    if span_between(position, target) * 100 < 45 * width {
        SnapPlan::Pull { center: target }
    } else {
        SnapPlan::Rest
    }
}

/// The vertical swipe that is under way.
#[derive(Clone, Copy, Debug, PartialEq, Eq, Structural)]
pub struct VerticalGestureState {
    pub last_event: Option<Duration>,
    /// The swipe has switched the strip already.
    pub fired: bool,
}

impl Default for VerticalGestureState {
    fn default() -> (state: VerticalGestureState)
        ensures
            state == (VerticalGestureState { last_event: None, fired: false }),
    {
        VerticalGestureState { last_event: None, fired: false }
    }
}

/// How long after its last event a vertical swipe is over, in milliseconds.
pub const GESTURE_TIMEOUT: u64 = 150;

impl VerticalGestureState {
    pub open spec fn is_over(self, now: Duration) -> bool {
        self.last_event matches Some(last) && now.minus(last) > GESTURE_TIMEOUT * 1_000_000
    }

    /// The state at the start of a frame.
    pub open spec fn at_frame(self, now: Duration) -> VerticalGestureState {
        VerticalGestureState { fired: self.fired && !self.is_over(now), ..self }
    }

    /// Whether the distance of a swipe counts: only with the set number of
    /// fingers, and only until the swipe has fired.
    pub open spec fn counts(self, fingers: usize, configured: Option<usize>) -> bool {
        configured == Some(fingers) && !self.fired
    }

    /// The state after a swipe came in.
    pub open spec fn swiped(self, fingers: usize, configured: Option<usize>, now: Duration) -> VerticalGestureState {
        if configured == Some(fingers) {
            VerticalGestureState { last_event: Some(now), ..self }
        } else {
            self
        }
    }

    /// The state once the swipe has gathered enough, or not.
    pub open spec fn after(self, enough: bool) -> VerticalGestureState {
        VerticalGestureState { fired: self.fired || enough, ..self }
    }

    /// Starts over once the fingers are up; answers whether what the swipe has
    /// gathered is to be forgotten.
    pub fn expire(&mut self, now: Duration) -> (forgets: bool)
        ensures
            forgets == old(self).is_over(now),
            *final(self) == old(self).at_frame(now),
    {
        let over = match self.last_event {
            Some(last) => now.saturating_sub(last).nanos > Duration::from_millis(
                GESTURE_TIMEOUT,
            ).nanos,
            None => false,
        };
        if over {
            self.fired = false;
        }
        over
    }

    /// Takes in a vertical swipe; answers whether its distance counts.
    pub fn swipe(&mut self, fingers: usize, configured: Option<usize>, now: Duration) -> (counts: bool)
        ensures
            counts == old(self).counts(fingers, configured),
            *final(self) == old(self).swiped(fingers, configured, now),
    {
        if configured == Some(fingers) {
            self.last_event = Some(now);
            !self.fired
        } else {
            false
        }
    }

    /// Fires the swipe once it has gathered enough.
    pub fn fire(&mut self, enough: bool) -> (switches: bool)
        ensures
            switches == enough,
            *final(self) == old(self).after(enough),
    {
        if enough {
            self.fired = true;
        }
        enough
    }
}

/// The command that a vertical swipe gives: the way of the fingers, or against
/// it where the strip follows them.
pub open spec fn switch_command(downwards: bool, setting: SwipeGestureDirection) -> Command {
    let physical = if downwards {
        Direction::South
    } else {
        Direction::North
    };
    Command::Window(
        Operation::Virtual(
            match setting {
                SwipeGestureDirection::Natural => physical.reversed(),
                SwipeGestureDirection::Reversed => physical,
            },
        ),
    )
}

/// Switches to the virtual strip that a vertical swipe asks for.
pub fn switch_virtual_workspace(downwards: bool, setting: SwipeGestureDirection) -> (trigger:
    SendMessageTrigger)
    ensures
        trigger == SendMessageTrigger(
            Message::Command { command: switch_command(downwards, setting) },
        ),
{
    let physical = if downwards {
        Direction::South
    } else {
        Direction::North
    };
    let direction = match setting {
        SwipeGestureDirection::Natural => physical.reverse(),
        SwipeGestureDirection::Reversed => physical,
    };
    SendMessageTrigger(
        Message::Command { command: Command::Window(Operation::Virtual(direction)) },
    )
}

/// A vertical swipe fires at most once: after it has, no distance counts while
/// its events keep coming.
pub proof fn a_swipe_fires_once(
    state: VerticalGestureState,
    now: Duration,
    fingers: usize,
    configured: Option<usize>,
)
    requires
        !state.is_over(now),
    ensures
        !state.after(true).at_frame(now).counts(fingers, configured),
        state.after(true).at_frame(now).swiped(fingers, configured, now).fired,
{
}

} // verus!
