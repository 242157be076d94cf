//! Where a strip that scrolls comes to rest, and how far it may go.
use vstd::prelude::*;

use crate::commands::{Command, Direction, Operation};
use crate::ecs::layout::places::shown_at;
use crate::ecs::layout::{strip_wf, top_at, tops_to, ColumnView, LayoutStrip};
use crate::ecs::params::{place_of, WindowRecord};
use crate::ecs::scroll::{
    after_last_touch, centering_offset, glide_ends, in_view, is_gesture, lift_plan, nearest_center, offset_range,
    reading_to, settle_offset, settling_reveals_a_column, settling_takes_the_smallest_move, snap_plan,
    some_in_view, span_of, spans_to, strip_spans, swipe_plan, swipe_requests, switch_command, Drive,
    ScrollEvent, SnapFacts, SnapPlan, SwipeGestureDirection,
};
use crate::ecs::Request;
use crate::geometry::{clamped, distance, fits, halved, Entity, IRect, Origin};
use crate::seqs::lemma_pushed;
use crate::time::Duration;

verus! {

/// Where the middle of a column lies on its strip, by the window at its top and the
/// width that this window has or is on its way to.
pub open spec fn middle_of(windows: Seq<WindowRecord>, top: Entity) -> Option<int> {
    match place_of(windows, top) {
        Some(place) => Some(
            place.layout.x + halved(place.spec_moving_frame().max.x - place.spec_moving_frame().min.x),
        ),
        None => None,
    }
}

pub(crate) proof fn lemma_tops(columns: Seq<ColumnView>, n: int)
    requires
        strip_wf(columns),
        0 <= n <= columns.len(),
    ensures
        tops_to(columns, n).len() == n,
        forall|k: int| 0 <= k < n ==> #[trigger] tops_to(columns, n)[k] == shown_at(columns, k, 0),
    decreases n,
{
    if n > 0 {
        lemma_tops(columns, n - 1);
        assert(columns[n - 1].wf());
        assert(columns[n - 1].items[0].len() >= 1);
        let before = tops_to(columns, n - 1);
        let after = tops_to(columns, n);
        assert(after == before.push(shown_at(columns, n - 1, 0)));
        assert forall|k: int| 0 <= k < n implies #[trigger] after[k] == shown_at(columns, k, 0) by {
            if k < n - 1 {
                assert(after[k] == before[k]);
            }
        }
    }
}

proof fn lemma_nearest_center(
    windows: Seq<WindowRecord>,
    tops: Seq<Entity>,
    center: int,
    position: int,
    n: int,
)
    requires
        0 <= n <= tops.len(),
    ensures
        nearest_center(windows, tops, center, position, n) matches Some(best) ==> {
            &&& exists|k: int|
                0 <= k < n && (middle_of(windows, #[trigger] tops[k]) matches Some(middle) && best
                    == center - middle)
            &&& forall|k: int|
                0 <= k < n ==> (middle_of(windows, #[trigger] tops[k]) matches Some(middle)
                    ==> distance(position, best) <= distance(position, center - middle))
        },
        nearest_center(windows, tops, center, position, n) is None ==> forall|k: int|
            0 <= k < n ==> middle_of(windows, #[trigger] tops[k]) is None,
    decreases n,
{
    if n > 0 {
        lemma_nearest_center(windows, tops, center, position, n - 1);
        assert(centering_offset(windows, tops[n - 1], center) == (match middle_of(
            windows,
            tops[n - 1],
        ) {
            Some(middle) => Some(center - middle),
            None => None,
        }));
        if nearest_center(windows, tops, center, position, n) is Some {
            let best = nearest_center(windows, tops, center, position, n)->0;
            let before = nearest_center(windows, tops, center, position, n - 1);
            if before == Some(best) {
                let k = choose|k: int|
                    0 <= k < n - 1 && (middle_of(windows, #[trigger] tops[k]) matches Some(middle)
                        && best == center - middle);
                assert(0 <= k < n);
            } else {
                assert(middle_of(windows, tops[n - 1]) is Some);
            }
        }
    }
}

/// A strip is pulled to where the middle of one of its columns comes to the middle of
/// the viewport, and no other column takes a shorter way there.
pub proof fn pulls_go_to_the_nearest_middle(
    facts: SnapFacts,
    windows: Seq<WindowRecord>,
    strip: LayoutStrip,
    viewport: IRect,
    center: i64,
    other: int,
)
    requires
        strip_wf(strip@),
        snap_plan(facts, windows, strip, viewport) == (SnapPlan::Pull { center }),
        0 <= other < strip@.len(),
        middle_of(windows, shown_at(strip@, other, 0)) is Some,
    ensures
        exists|k: int|
            0 <= k < strip@.len() && (middle_of(windows, #[trigger] shown_at(strip@, k, 0)) matches Some(
                middle,
            ) && center + middle == viewport.spec_center().x),
        distance(facts.position as int, center as int) <= distance(
            facts.position as int,
            viewport.spec_center().x - middle_of(windows, shown_at(strip@, other, 0))->0,
        ),
{
    let tops = tops_to(strip@, strip@.len() as int);
    let middle = viewport.spec_center().x as int;
    lemma_tops(strip@, strip@.len() as int);
    lemma_nearest_center(windows, tops, middle, facts.position as int, tops.len() as int);
    assert(tops[other] == shown_at(strip@, other, 0));
    let best = nearest_center(windows, tops, middle, facts.position as int, tops.len() as int)->0;
    let k = choose|k: int|
        0 <= k < tops.len() && (middle_of(windows, #[trigger] tops[k]) matches Some(m) && best
            == middle - m);
    assert(tops[k] == shown_at(strip@, k, 0));
}

/// A strip that comes to rest by itself, where columns are centred, is pulled to any
/// column within the reach of the pull, and by none beyond it; nothing pulls under
/// fingers, or too fast, or where columns are not centred.
pub proof fn pulls_reach_a_share_of_the_viewport(
    facts: SnapFacts,
    windows: Seq<WindowRecord>,
    strip: LayoutStrip,
    viewport: IRect,
    near: int,
)
    requires
        strip_wf(strip@),
        0 <= near < strip@.len(),
        middle_of(windows, shown_at(strip@, near, 0)) is Some,
    ensures
        ({
            let plan = snap_plan(facts, windows, strip, viewport);
            let width = viewport.max.x - viewport.min.x;
            let to = viewport.spec_center().x - middle_of(windows, shown_at(strip@, near, 0))->0;
            let centers = facts.auto_center || (facts.center_single_column && strip@.len() == 1);
            &&& plan is Pull ==> centers && !facts.swiping && !facts.fast
            &&& plan matches SnapPlan::Pull { center } ==> distance(
                facts.position as int,
                center as int,
            ) * 100 < width * 45
            &&& centers && !facts.swiping && !facts.fast && distance(facts.position as int, to)
                * 100 < width * 45 ==> plan is Pull
        }),
{
    let tops = tops_to(strip@, strip@.len() as int);
    let middle = viewport.spec_center().x as int;
    lemma_tops(strip@, strip@.len() as int);
    lemma_nearest_center(windows, tops, middle, facts.position as int, tops.len() as int);
    assert(tops[near] == shown_at(strip@, near, 0));
}

/// A strip without a known column is pulled nowhere: it stays where it is.
pub proof fn unknown_strips_stay_where_they_are(
    facts: SnapFacts,
    windows: Seq<WindowRecord>,
    strip: LayoutStrip,
    viewport: IRect,
)
    requires
        strip_wf(strip@),
        forall|k: int|
            0 <= k < strip@.len() ==> middle_of(windows, #[trigger] shown_at(strip@, k, 0)) is None,
    ensures
        snap_plan(facts, windows, strip, viewport) matches SnapPlan::Pull { center } ==> center
            == facts.position,
        !(snap_plan(facts, windows, strip, viewport) is Settle),
        !(snap_plan(facts, windows, strip, viewport) is Arrive),
{
    let tops = tops_to(strip@, strip@.len() as int);
    let n = tops.len() as int;
    lemma_tops(strip@, strip@.len() as int);
    assert forall|k: int| 0 <= k < n implies middle_of(windows, #[trigger] tops[k]) is None by {
        assert(middle_of(windows, shown_at(strip@, k, 0)) is None);
    }
    lemma_nearest_center(windows, tops, viewport.spec_center().x as int, facts.position as int, n);
    if let Some(best) = nearest_center(
        windows,
        tops,
        viewport.spec_center().x as int,
        facts.position as int,
        n,
    ) {
        let k = choose|k: int|
            0 <= k < n && (middle_of(windows, #[trigger] tops[k]) matches Some(middle) && best
                == viewport.spec_center().x - middle);
        assert(middle_of(windows, tops[k]) is None);
    }
    lemma_no_spans(windows, tops, n);
}

proof fn lemma_no_spans(windows: Seq<WindowRecord>, tops: Seq<Entity>, n: int)
    requires
        0 <= n <= tops.len(),
        forall|k: int| 0 <= k < n ==> middle_of(windows, #[trigger] tops[k]) is None,
    ensures
        spans_to(windows, tops, n).len() == 0,
    decreases n,
{
    if n > 0 {
        lemma_no_spans(windows, tops, n - 1);
        assert(middle_of(windows, tops[n - 1]) is None);
    }
}

/// A strip whose columns are not centred rests until it has to settle.
pub proof fn strips_rest_until_they_settle(
    facts: SnapFacts,
    windows: Seq<WindowRecord>,
    strip: LayoutStrip,
    viewport: IRect,
)
    requires
        !facts.auto_center,
        !(facts.center_single_column && strip@.len() == 1),
    ensures
        snap_plan(facts, windows, strip, viewport) is Rest <==> !facts.settling,
        snap_plan(facts, windows, strip, viewport) is GiveUp ==> strip_spans(
            windows,
            strip,
        ).len() == 0 || offset_range(windows, strip, viewport, facts.continuous_swipe) is None,
{
}

/// While fingers drive the strip, nothing moves it to a rest.
pub proof fn fingers_keep_the_strip(
    facts: SnapFacts,
    windows: Seq<WindowRecord>,
    strip: LayoutStrip,
    viewport: IRect,
)
    requires
        facts.swiping,
    ensures
        snap_plan(facts, windows, strip, viewport) is Rest || snap_plan(
            facts,
            windows,
            strip,
            viewport,
        ) is Wait,
{
}

/// The column of a strip as a stretch of it, by its top window.
pub open spec fn stretch_of(windows: Seq<WindowRecord>, columns: Seq<ColumnView>, k: int) -> Option<
    (int, int),
> {
    match place_of(windows, shown_at(columns, k, 0)) {
        Some(place) => Some(
            (
                place.layout.x as int,
                place.spec_moving_frame().max.x - place.spec_moving_frame().min.x,
            ),
        ),
        None => None,
    }
}

/// A strip that settles ends where it may be, moves only where it is not there yet, and
/// waits for its glide. Only a strip without a known column, or without a known end, is
/// given up.
pub proof fn settling_strips_end_in_their_range(
    facts: SnapFacts,
    windows: Seq<WindowRecord>,
    strip: LayoutStrip,
    viewport: IRect,
    low: int,
    high: int,
)
    requires
        !facts.auto_center,
        !(facts.center_single_column && strip@.len() == 1),
        facts.settling,
        offset_range(windows, strip, viewport, facts.continuous_swipe) == Some((low, high)),
        low <= high,
        fits(low),
        fits(high),
        strip_spans(windows, strip).len() > 0,
    ensures
        ({
            let plan = snap_plan(facts, windows, strip, viewport);
            &&& facts.swiping || facts.gliding <==> plan is Wait
            &&& plan is Wait || plan is Arrive || plan is Settle
            &&& plan matches SnapPlan::Arrive { target } ==> target == facts.position && low
                <= target <= high
            &&& plan matches SnapPlan::Settle { target } ==> target != facts.position && low
                <= target <= high
        }),
{
}

/// A strip that settles shows a column in full where its range lets it, and takes the
/// shortest way to one.
pub proof fn settling_strips_show_a_column(
    facts: SnapFacts,
    windows: Seq<WindowRecord>,
    strip: LayoutStrip,
    viewport: IRect,
    low: int,
    high: int,
    other: int,
)
    requires
        !facts.auto_center,
        !(facts.center_single_column && strip@.len() == 1),
        facts.settling,
        !facts.swiping,
        !facts.gliding,
        offset_range(windows, strip, viewport, facts.continuous_swipe) == Some((low, high)),
        low <= high,
        fits(low),
        fits(high),
        strip_spans(windows, strip).len() > 0,
        forall|k: int|
            0 <= k < strip_spans(windows, strip).len() ==> 0 <= (#[trigger] strip_spans(
                windows,
                strip,
            )[k]).1 <= viewport.spec_width(),
        low <= settle_offset(
            strip_spans(windows, strip),
            facts.position as int,
            viewport,
        ) <= high,
        some_in_view(strip_spans(windows, strip), other, viewport),
    ensures
        ({
            let columns = strip_spans(windows, strip);
            let target = match snap_plan(facts, windows, strip, viewport) {
                SnapPlan::Arrive { target } => Some(target),
                SnapPlan::Settle { target } => Some(target),
                _ => None,
            };
            target matches Some(at) && some_in_view(columns, at as int, viewport) && distance(
                at as int,
                facts.position as int,
            ) <= distance(other, facts.position as int)
        }),
{
    let columns = strip_spans(windows, strip);
    settling_reveals_a_column(columns, facts.position as int, viewport);
    settling_takes_the_smallest_move(columns, facts.position as int, viewport, other);
}

proof fn lemma_spans(windows: Seq<WindowRecord>, tops: Seq<Entity>, n: int, k: int)
    requires
        0 <= k < n <= tops.len(),
        span_of(windows, tops[k]) is Some,
    ensures
        spans_to(windows, tops, n).contains(span_of(windows, tops[k])->0),
    decreases n,
{
    let before = spans_to(windows, tops, n - 1);
    let after = spans_to(windows, tops, n);
    let span = span_of(windows, tops[k])->0;
    if k < n - 1 {
        lemma_spans(windows, tops, n - 1, k);
        let i = choose|i: int| 0 <= i < before.len() && before[i] == span;
        assert(after[i] == span);
    } else {
        assert(after[after.len() - 1] == span);
    }
}

/// Every known column of a strip counts when it is looked for one to show.
pub proof fn every_known_column_counts(
    windows: Seq<WindowRecord>,
    strip: LayoutStrip,
    k: int,
    start: int,
    width: int,
    offset: int,
    viewport: IRect,
)
    requires
        strip_wf(strip@),
        0 <= k < strip@.len(),
        stretch_of(windows, strip@, k) == Some((start, width)),
        fits(width),
        viewport.min.x <= offset + start,
        offset + start + width <= viewport.max.x,
    ensures
        some_in_view(strip_spans(windows, strip), offset, viewport),
        settle_offset(strip_spans(windows, strip), offset, viewport) == offset,
{
    let tops = tops_to(strip@, strip@.len() as int);
    lemma_tops(strip@, strip@.len() as int);
    assert(tops[k] == shown_at(strip@, k, 0));
    let span = span_of(windows, tops[k])->0;
    lemma_spans(windows, tops, tops.len() as int, k);
    let columns = strip_spans(windows, strip);
    let i = choose|i: int| 0 <= i < columns.len() && columns[i] == span;
    assert(in_view(columns[i], offset, viewport));
}

/// With continuous swiping a strip may go on until only its last column is left at the
/// left edge of the viewport, or only its first one at the right edge, and no further.
pub proof fn continuous_strips_keep_a_column(
    windows: Seq<WindowRecord>,
    strip: LayoutStrip,
    viewport: IRect,
    offset: int,
    first: int,
    last: int,
)
    requires
        strip_wf(strip@),
        strip@.len() > 0,
        stretch_of(windows, strip@, 0) matches Some(stretch) && stretch.0 == first,
        stretch_of(windows, strip@, strip@.len() - 1) matches Some(stretch) && stretch.0 == last,
        first <= last,
        viewport.min.x <= viewport.max.x,
    ensures
        ({
            let (low, high) = offset_range(windows, strip, viewport, true)->0;
            let kept = clamped(offset, low, high);
            &&& offset_range(windows, strip, viewport, true) is Some
            &&& low + last == viewport.min.x
            &&& high + first == viewport.max.x
            &&& viewport.min.x <= kept + last
            &&& kept + first <= viewport.max.x
            &&& viewport.min.x <= offset + last && offset + first <= viewport.max.x ==> kept
                == offset
        }),
{
    assert(strip@[0].wf() && strip@[0].items[0].len() >= 1);
    let end = strip@.len() - 1;
    assert(strip@[end].wf() && strip@[end].items[0].len() >= 1);
    assert(top_at(strip@, 0) == Some(shown_at(strip@, 0, 0)));
    assert(top_at(strip@, end) == Some(shown_at(strip@, end, 0)));
}

/// Without continuous swiping the range of a strip goes from the offset that puts its
/// right end at the right edge of the viewport to the one that puts its left end at the
/// left edge.
pub proof fn ranges_end_at_the_edges(
    windows: Seq<WindowRecord>,
    strip: LayoutStrip,
    viewport: IRect,
    start: int,
    width: int,
)
    requires
        strip_wf(strip@),
        strip@.len() > 0,
        stretch_of(windows, strip@, strip@.len() - 1) == Some((start, width)),
        fits(width),
    ensures
        ({
            let (low, high) = offset_range(windows, strip, viewport, false)->0;
            let right = viewport.max.x - (start + width);
            &&& offset_range(windows, strip, viewport, false) is Some
            &&& low == viewport.min.x || high == viewport.min.x
            &&& low == right || high == right
            &&& low <= high
        }),
{
    let end = strip@.len() - 1;
    assert(strip@[end].wf() && strip@[end].items[0].len() >= 1);
    assert(top_at(strip@, end) == Some(shown_at(strip@, end, 0)));
}

proof fn lemma_last_touch(events: Seq<ScrollEvent>, n: int)
    requires
        0 <= n <= events.len(),
    ensures
        0 <= after_last_touch(events, n) <= n,
        after_last_touch(events, n) > 0 ==> events[after_last_touch(events, n) - 1]
            == ScrollEvent::TouchpadDown,
        forall|k: int|
            after_last_touch(events, n) <= k < n ==> #[trigger] events[k]
                != ScrollEvent::TouchpadDown,
    decreases n,
{
    if n > 0 {
        lemma_last_touch(events, n - 1);
    }
}

/// What a frame of events adds up to: the strip moves for a wheel, or for a swipe with
/// the fingers that are set, and gets momentum only from the latter. Only what came
/// after the last touch counts.
pub proof fn gestures_count_after_the_last_touch(
    events: Seq<ScrollEvent>,
    configured: Option<usize>,
    k: int,
)
    requires
        events.len() <= usize::MAX,
        0 <= k < events.len(),
    ensures
        ({
            let reading = reading_to(events, configured, events.len() as int);
            &&& events[k] == ScrollEvent::Scroll ==> reading.scrolled
            &&& events[k] matches ScrollEvent::Swipe { fingers } ==> (configured == Some(fingers)
                ==> reading.scrolled && reading.gestured)
            &&& events[k] == ScrollEvent::TouchpadDown ==> reading.touchpad_down && k
                < reading.counts_from
            &&& reading.gestured ==> reading.scrolled
            &&& reading.counts_from <= events.len()
            &&& reading.counts_from > 0 ==> events[reading.counts_from - 1]
                == ScrollEvent::TouchpadDown
            &&& reading.touchpad_down <==> reading.counts_from > 0
        }),
{
    let n = events.len() as int;
    lemma_last_touch(events, n);
    let reading = reading_to(events, configured, n);
    if reading.gestured {
        let i = choose|i: int| 0 <= i < n && (is_gesture(configured))(#[trigger] events[i]);
        assert((is_gesture(configured))(events[i]));
    }
    assert((is_gesture(configured))(events[k]) == (events[k] matches ScrollEvent::Swipe { fingers }
        && configured == Some(fingers)));
}

/// No swipe with other fingers moves the strip.
pub proof fn other_fingers_move_nothing(events: Seq<ScrollEvent>, configured: Option<usize>)
    requires
        forall|k: int|
            0 <= k < events.len() ==> (#[trigger] events[k] is Other || (events[k]
                matches ScrollEvent::Swipe { fingers } && configured != Some(fingers))),
    ensures
        ({
            let reading = reading_to(events, configured, events.len() as int);
            &&& !reading.scrolled && !reading.gestured && !reading.touchpad_down
            &&& swipe_plan(reading, true).drive is Nothing && !swipe_plan(reading, true).halt
            &&& swipe_plan(reading, false).drive is Nothing
        }),
{
    let n = events.len() as int;
    let reading = reading_to(events, configured, n);
    assert forall|k: int| 0 <= k < n implies !(is_gesture(configured))(#[trigger] events[k])
        && events[k] != ScrollEvent::Scroll && events[k] != ScrollEvent::TouchpadDown by {}
}

/// Fingers that come down stop a strip that scrolls. The strip moves exactly when it is
/// scrolled, and only fingers give it momentum.
pub proof fn fingers_stop_and_fling(events: Seq<ScrollEvent>, configured: Option<usize>, scrolling: bool)
    ensures
        ({
            let reading = reading_to(events, configured, events.len() as int);
            let plan = swipe_plan(reading, scrolling);
            &&& plan.halt <==> scrolling && reading.touchpad_down
            &&& plan.drive is Nothing <==> !reading.scrolled
            &&& (plan.drive is Fling || plan.drive == (Drive::Start { fling: true }))
                <==> reading.scrolled && reading.gestured
            &&& plan.drive is Start <==> reading.scrolled && !scrolling
        }),
{
}

/// Whoever drives the strip takes it over from where it was placed by hand. Only fingers
/// give up a settle that a drag has left; a wheel does not. A quiet frame asks for
/// nothing.
pub proof fn wheels_leave_a_settle_alone(
    events: Seq<ScrollEvent>,
    configured: Option<usize>,
    strip: Entity,
    request: Request,
)
    ensures
        ({
            let reading = reading_to(events, configured, events.len() as int);
            let asked = swipe_requests(reading, strip);
            &&& reading.touchpad_down || reading.scrolled <==> asked.contains(
                Request::UnpinOffset { strip },
            )
            &&& reading.touchpad_down || (reading.scrolled && reading.gestured) <==> asked.contains(
                Request::DropSettle { strip },
            )
            &&& asked.contains(request) ==> request == (Request::UnpinOffset { strip }) || request
                == (Request::DropSettle { strip })
        }),
{
    let n = events.len() as int;
    let reading = reading_to(events, configured, n);
    let asked = swipe_requests(reading, strip);
    if reading.gestured {
        let i = choose|i: int| 0 <= i < n && (is_gesture(configured))(#[trigger] events[i]);
        assert((is_gesture(configured))(events[i]));
        assert(reading.scrolled);
    }
    if reading.touchpad_down || reading.gestured {
        assert(asked[0] == (Request::UnpinOffset { strip }));
        assert(asked[1] == (Request::DropSettle { strip }));
    } else if reading.scrolled {
        assert(asked[0] == (Request::UnpinOffset { strip }));
    }
}

/// A vertical swipe the way of the fingers and one against it give opposite commands,
/// and so do the two settings.
pub proof fn vertical_swipes_have_two_ways(downwards: bool, setting: SwipeGestureDirection)
    ensures
        switch_command(true, SwipeGestureDirection::Reversed) == Command::Window(
            Operation::Virtual(Direction::South),
        ),
        switch_command(downwards, SwipeGestureDirection::Natural) == switch_command(
            !downwards,
            SwipeGestureDirection::Reversed,
        ),
        switch_command(downwards, setting) != switch_command(!downwards, setting),
        switch_command(downwards, setting) == Command::Window(Operation::Virtual(Direction::North))
            || switch_command(downwards, setting) == Command::Window(
            Operation::Virtual(Direction::South),
        ),
{
}

/// A glide goes on while events keep coming, and for a short time after the last one;
/// then the fingers count as lifted. It is over only then, and only where it hardly moves.
pub proof fn glides_outlast_their_fingers(
    now: Duration,
    last_event: Duration,
    slow: bool,
    cursor: Option<Origin>,
)
    ensures
        ({
            let plan = lift_plan(now, last_event, slow, cursor);
            &&& now.nanos <= last_event.nanos + 50_000_000 && last_event.nanos <= now.nanos
                + 50_000_000 ==> !plan.lifted && !plan.over && plan.pointer is None
            &&& now.nanos > last_event.nanos + 50_000_000 ==> plan.lifted && plan.over == slow && (
            plan.pointer is Some) == (cursor is Some)
            &&& plan.over ==> plan.lifted && slow
        }),
{
}

/// Every strip that is let go neither glides nor settles any more, and nothing else is
/// asked of it.
pub proof fn released_strips_neither_glide_nor_settle(
    strips: Seq<Entity>,
    n: int,
    k: int,
    request: Request,
)
    requires
        0 <= k < n <= strips.len(),
    ensures
        glide_ends(strips, n).contains(Request::DropGlide { strip: strips[k] }),
        glide_ends(strips, n).contains(Request::DropSettle { strip: strips[k] }),
        glide_ends(strips, n).contains(request) ==> request is DropGlide || request is DropSettle,
    decreases n,
{
    let before = glide_ends(strips, n - 1);
    let glide = Request::DropGlide { strip: strips[n - 1] };
    let settle = Request::DropSettle { strip: strips[n - 1] };
    let own_glide = Request::DropGlide { strip: strips[k] };
    let own_settle = Request::DropSettle { strip: strips[k] };
    lemma_pushed(before, glide, own_glide);
    lemma_pushed(before, glide, own_settle);
    lemma_pushed(before, glide, request);
    lemma_pushed(before.push(glide), settle, own_glide);
    lemma_pushed(before.push(glide), settle, own_settle);
    lemma_pushed(before.push(glide), settle, request);
    if n > 1 {
        released_strips_neither_glide_nor_settle(
            strips,
            n - 1,
            if k < n - 1 {
                k
            } else {
                0
            },
            request,
        );
    } else {
        assert(before.len() == 0);
    }
}

/// A column is in view if both of its sides lie between those of the viewport.
pub proof fn columns_in_view_lie_inside(start: i32, width: i32, offset: int, viewport: IRect)
    ensures
        in_view((start, width), offset, viewport) <==> viewport.min.x <= offset + start && offset
            + start + width <= viewport.max.x,
{
}

} // verus!
