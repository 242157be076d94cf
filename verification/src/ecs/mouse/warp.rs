//! Resizing with the mouse, and the pointer's jump over the edge of a display.
use vstd::prelude::*;

use crate::ecs::layout::{strip_has, LayoutStrip};
use crate::ecs::mouse::drag::{armed_on, is_armed_on, Held};
use crate::ecs::params::{is_window, origin_of, Windows};
use crate::ecs::{resizing, Request, Requests};
use crate::geometry::{
    abs_diff, clamp_i32, clamped, distance, fits, Entity, IRect, IVec2, Origin, WinID,
};
use crate::seqs::{any_where, find_where, first_from, first_where};
use crate::time::Duration;

verus! {

/// The last point of a resize, and the window that it took hold of.
#[derive(Clone, Copy, Debug, PartialEq, Eq, Structural)]
pub struct MouseResizeState {
    pub last_point: Option<Origin>,
    pub window_id: Option<WinID>,
}

impl Default for MouseResizeState {
    fn default() -> (state: MouseResizeState)
        ensures
            state == (MouseResizeState { last_point: None, window_id: None }),
    {
        MouseResizeState { last_point: None, window_id: None }
    }
}

/// The change of a window's width for a horizontal step of the pointer.
pub open spec fn resize_step(from: Origin, to: Origin) -> int {
    (to.x - from.x) * 5
}

/// The window that a resize works on: the one it took hold of, or the one under
/// the pointer.
pub open spec fn resize_target(state: MouseResizeState, under_pointer: Option<WinID>) -> Option<
    WinID,
> {
    match state.window_id {
        Some(id) => Some(id),
        None => under_pointer,
    }
}

/// The frame after its nearer side moved.
pub open spec fn side_moved(frame: IRect, pointer: Origin, dx: int) -> IRect {
    if pointer.x < frame.spec_center().x {
        IRect { min: IVec2 { x: (frame.min.x + dx) as i32, y: frame.min.y }, max: frame.max }
    } else {
        IRect { min: frame.min, max: IVec2 { x: (frame.max.x + dx) as i32, y: frame.max.y } }
    }
}

/// What a step of a resize asks for. Moving the left side also moves the window
/// itself, or its strip for a tiled one, so that the right side stays.
pub open spec fn resize_step_requests(
    entity: Entity,
    frame: IRect,
    pointer: Origin,
    dx: int,
    floating: Option<Origin>,
    strip: Entity,
    strip_position: Origin,
) -> Seq<Request> {
    let moved = if pointer.x < frame.spec_center().x {
        match floating {
            Some(origin) => seq![
                Request::Reposition {
                    entity,
                    origin: Origin { x: (origin.x + dx) as i32, y: origin.y },
                },
            ],
            None => seq![
                Request::Reposition {
                    entity: strip,
                    origin: Origin { x: (strip_position.x + dx) as i32, y: strip_position.y },
                },
            ],
        }
    } else {
        Seq::empty()
    };
    moved + resizing(entity, side_moved(frame, pointer, dx).spec_size())
}

/// The numbers of one step of a resize fit their types.
pub open spec fn resize_step_fits(
    frame: IRect,
    pointer: Origin,
    dx: int,
    floating: Option<Origin>,
    strip_position: Origin,
) -> bool {
    &&& fits(dx)
    &&& frame.centerable()
    &&& fits(frame.min.x + dx)
    &&& fits(frame.max.x + dx)
    &&& side_moved(frame, pointer, dx).measurable()
    &&& fits(strip_position.x + dx)
    &&& floating matches Some(origin) ==> fits(origin.x + dx)
}

/// What a resize sees of the window it works on.
#[derive(Clone, Copy, Debug, PartialEq, Eq, Structural)]
pub struct ResizeView {
    /// The frame of the window that the resize works on.
    pub frame: IRect,
    pub strip: Entity,
    pub strip_position: Origin,
}

/// What one pointer event does to a running resize.
pub open spec fn resize_event(
    pointer: Origin,
    shortcut: bool,
    under_pointer: Option<WinID>,
    windows: Windows,
    strip: LayoutStrip,
    held: Seq<Held>,
    view: ResizeView,
    state: MouseResizeState,
) -> (MouseResizeState, Seq<Request>) {
    let cleared = MouseResizeState { last_point: None, window_id: None };
    let moved = MouseResizeState { last_point: Some(pointer), window_id: state.window_id };
    if !shortcut {
        (cleared, Seq::empty())
    } else if state.last_point is None || resize_step(state.last_point->0, pointer) == 0 {
        (moved, Seq::empty())
    } else {
        match resize_target(state, under_pointer) {
            None => (moved, Seq::empty()),
            Some(id) => {
                let latched = MouseResizeState {
                    last_point: Some(pointer),
                    window_id: Some(id),
                };
                match find_where(windows.all@, is_window(id)) {
                    None => (latched, Seq::empty()),
                    Some(window) => if any_where(held, armed_on(window.entity)) {
                        (cleared, Seq::empty())
                    } else {
                        (
                            latched,
                            resize_step_requests(
                                window.entity,
                                view.frame,
                                pointer,
                                resize_step(state.last_point->0, pointer),
                                if strip_has(strip@, window.entity) {
                                    None
                                } else {
                                    origin_of(windows.all@, window.entity)
                                },
                                view.strip,
                                view.strip_position,
                            ),
                        )
                    },
                }
            },
        }
    }
}

/// Answers a move of the pointer with the resize modifiers held: the window
/// grows or shrinks at its nearer side, five pixels for each. A drag to another
/// display has precedence and lets the window go; so do released modifiers.
pub fn mouse_resize_trigger(
    pointer: Origin,
    shortcut: bool,
    under_pointer: Option<WinID>,
    windows: &Windows,
    strip: &LayoutStrip,
    held: &Vec<Held>,
    view: ResizeView,
    state: &mut MouseResizeState,
    requests: &mut Requests,
)
    requires
        old(state).last_point matches Some(last) ==> ({
            let dx = resize_step(last, pointer);
            fits(dx) && (resize_target(*old(state), under_pointer) matches Some(id) ==> (find_where(
                windows.all@,
                is_window(id),
            ) matches Some(window) ==> resize_step_fits(
                view.frame,
                pointer,
                dx,
                origin_of(windows.all@, window.entity),
                view.strip_position,
            )))
        }),
    ensures
        ({
            let (after, asked) = resize_event(
                pointer,
                shortcut,
                under_pointer,
                *windows,
                *strip,
                held@,
                view,
                *old(state),
            );
            *final(state) == after && final(requests)@ == old(requests)@ + asked
        }),
{
    if !shortcut {
        state.last_point = None;
        state.window_id = None;
        assert(requests@ =~= old(requests)@ + Seq::<Request>::empty());
        return;
    }
    let last = state.last_point;
    state.last_point = Some(pointer);
    let from = match last {
        Some(from) => from,
        None => {
            assert(requests@ =~= old(requests)@ + Seq::<Request>::empty());
            return;
        },
    };
    let wide: i64 = (pointer.x as i64 - from.x as i64) * 5;
    let dx: i32 = wide as i32;
    assert(dx == resize_step(from, pointer));
    if dx == 0 {
        assert(requests@ =~= old(requests)@ + Seq::<Request>::empty());
        return;
    }
    let id = match state.window_id {
        Some(id) => id,
        None => match under_pointer {
            Some(id) => {
                state.window_id = Some(id);
                id
            },
            None => {
                assert(requests@ =~= old(requests)@ + Seq::<Request>::empty());
                return;
            },
        },
    };
    let entity = match windows.find(id) {
        Some(window) => window.entity,
        None => {
            assert(requests@ =~= old(requests)@ + Seq::<Request>::empty());
            return;
        },
    };
    if is_armed_on(held, entity) {
        state.last_point = None;
        state.window_id = None;
        assert(requests@ =~= old(requests)@ + Seq::<Request>::empty());
        return;
    }
    let frame = view.frame;
    let mut grown = frame;
    if pointer.x < frame.center().x {
        let floating: Option<Origin> = if strip.contains(entity) {
            None
        } else {
            windows.origin(entity)
        };
        match floating {
            Some(origin) => {
                requests.reposition_entity(entity, Origin { x: origin.x + dx, y: origin.y });
            },
            None => {
                requests.reposition_entity(
                    view.strip,
                    Origin { x: view.strip_position.x + dx, y: view.strip_position.y },
                );
            },
        }
        grown = IRect { min: IVec2 { x: frame.min.x + dx, y: frame.min.y }, max: frame.max };
    } else {
        grown = IRect { min: frame.min, max: IVec2 { x: frame.max.x + dx, y: frame.max.y } };
    }
    requests.resize_entity(entity, grown.size());
    assert(requests@ =~= old(requests)@ + resize_step_requests(
        entity,
        frame,
        pointer,
        dx as int,
        if strip_has(strip@, entity) {
            None
        } else {
            origin_of(windows.all@, entity)
        },
        view.strip,
        view.strip_position,
    ));
}

/// Pixels from an edge within which the pointer is on it.
pub const EDGE_THRESHOLD: i32 = 3;

/// How far from the edge the pointer lands, so that it does not jump back.
pub const LANDING_INSET: i32 = 6;

/// The most that the pointer's speed carries it on.
pub const MAX_CARRY_PX: i32 = 80;

/// The condition of holding the point.
pub open spec fn holding(point: Origin) -> spec_fn(IRect) -> bool {
    |bounds: IRect| bounds.holds(point)
}

/// A jump over an edge leads to displays below, or to those above: from the left
/// edge down and from the right edge up, or the other way round for a negative
/// direction.
pub open spec fn leads_to(from: IRect, to: IRect, on_left: bool, direction: i16) -> bool {
    if on_left == (direction > 0) {
        to.min.y > from.min.y
    } else {
        to.min.y < from.min.y
    }
}

/// Of the first `n` displays that the jump leads to, the nearest one vertically,
/// the first of several.
pub open spec fn jump_to(
    from: IRect,
    displays: Seq<IRect>,
    on_left: bool,
    direction: i16,
    n: int,
) -> Option<IRect>
    decreases n,
{
    if n <= 0 {
        None
    } else {
        let before = jump_to(from, displays, on_left, direction, n - 1);
        let candidate = displays[n - 1];
        if !leads_to(from, candidate, on_left, direction) {
            before
        } else {
            match before {
                Some(best) => if distance(candidate.min.y as int, from.min.y as int) < distance(
                    best.min.y as int,
                    from.min.y as int,
                ) {
                    Some(candidate)
                } else {
                    before
                },
                None => Some(candidate),
            }
        }
    }
}

/// The point is within reach of the edge.
pub open spec fn at_edge(x: int, edge: int) -> bool {
    distance(x, edge) < EDGE_THRESHOLD
}

/// Where the pointer lands on the other display, horizontally: at the opposite
/// edge, carried on by its speed, inside the display.
pub open spec fn landing_x(target: IRect, on_left: bool, carry: int) -> int {
    let carried = clamped(carry, -MAX_CARRY_PX as int, MAX_CARRY_PX as int);
    clamped(
        if on_left {
            target.max.x - LANDING_INSET + carried
        } else {
            target.min.x + LANDING_INSET + carried
        },
        target.min.x + 1,
        target.max.x - 1,
    )
}

/// Where the pointer lands, vertically: as far from the top as it was, shifted
/// by the configured offset, downwards for a display below and upwards for one
/// above.
pub open spec fn landing_y(from: IRect, target: IRect, y: int, offset: int) -> int {
    target.min.y + (y - from.min.y) + (if target.min.y > from.min.y {
        offset
    } else {
        -offset
    })
}

/// The display that a pointer at an edge would jump to.
pub open spec fn warp_target(point: Origin, direction: i16, displays: Seq<IRect>) -> Option<IRect> {
    match find_where(displays, holding(point)) {
        None => None,
        Some(from) => {
            let on_left = at_edge(point.x as int, from.min.x as int);
            if on_left || at_edge(point.x as int, from.max.x as int) {
                jump_to(from, displays, on_left, direction, displays.len() as int)
            } else {
                None
            }
        },
    }
}

/// The display that a pointer at an edge would jump to has room inside its edges.
pub open spec fn warp_fits(point: Origin, direction: i16, displays: Seq<IRect>) -> bool {
    warp_target(point, direction, displays) matches Some(target) ==> target.min.x + 2
        <= target.max.x
}

/// Where a pointer at an edge jumps to, if it does.
pub open spec fn warp_of(
    point: Origin,
    carry: int,
    direction: i16,
    displays: Seq<IRect>,
    offset: int,
) -> Option<Origin> {
    match find_where(displays, holding(point)) {
        None => None,
        Some(from) => {
            let on_left = at_edge(point.x as int, from.min.x as int);
            let on_right = at_edge(point.x as int, from.max.x as int);
            if !on_left && !on_right {
                None
            } else {
                match jump_to(from, displays, on_left, direction, displays.len() as int) {
                    None => None,
                    Some(target) => {
                        let y = landing_y(from, target, point.y as int, offset);
                        if target.min.y <= y < target.max.y {
                            Some(
                                Origin {
                                    x: landing_x(target, on_left, carry) as i32,
                                    y: y as i32,
                                },
                            )
                        } else {
                            None
                        }
                    },
                }
            }
        },
    }
}

/// Where a pointer at the left or right edge of a display jumps to: the opposite
/// edge of the nearest display above or below, at the same height, carried on by
/// its speed. It does not jump where the other display does not reach to that
/// height.
pub fn warp_landing(
    point: Origin,
    carry: i32,
    direction: i16,
    displays: &Vec<IRect>,
    offset: i32,
) -> (landing: Option<Origin>)
    requires
        warp_fits(point, direction, displays@),
    ensures
        landing == warp_of(point, carry as int, direction, displays@, offset as int),
{
    let mut i: usize = 0;
    while i < displays.len() && !displays[i].contains(point)
        invariant
            i <= displays.len(),
            first_where(displays@, holding(point)) == first_from(
                displays@,
                holding(point),
                i as int,
            ),
        decreases displays.len() - i,
    {
        i = i + 1;
    }
    if i >= displays.len() {
        return None;
    }
    let from = displays[i];
    let on_left: bool = abs_diff(point.x, from.min.x) < EDGE_THRESHOLD as u32;
    let on_right: bool = abs_diff(point.x, from.max.x) < EDGE_THRESHOLD as u32;
    if !on_left && !on_right {
        return None;
    }
    let mut best: Option<IRect> = None;
    let mut k: usize = 0;
    while k < displays.len()
        invariant
            k <= displays.len(),
            best == jump_to(from, displays@, on_left, direction, k as int),
        decreases displays.len() - k,
    {
        let candidate = displays[k];
        let leads: bool = if on_left == (direction > 0) {
            candidate.min.y > from.min.y
        } else {
            candidate.min.y < from.min.y
        };
        if leads {
            match best {
                Some(found) => {
                    if abs_diff(candidate.min.y, from.min.y) < abs_diff(found.min.y, from.min.y) {
                        best = Some(candidate);
                    }
                },
                None => {
                    best = Some(candidate);
                },
            }
        }
        k = k + 1;
    }
    let target = match best {
        Some(target) => target,
        None => {
            return None;
        },
    };
    let shift: i64 = if target.min.y > from.min.y {
        offset as i64
    } else {
        -(offset as i64)
    };
    let y: i64 = target.min.y as i64 + (point.y as i64 - from.min.y as i64) + shift;
    if y < target.min.y as i64 || y >= target.max.y as i64 {
        return None;
    }
    let carried: i64 = clamp_i32(carry, -MAX_CARRY_PX, MAX_CARRY_PX) as i64;
    let near: i64 = if on_left {
        target.max.x as i64 - LANDING_INSET as i64 + carried
    } else {
        target.min.x as i64 + LANDING_INSET as i64 + carried
    };
    let low: i64 = target.min.x as i64 + 1;
    let high: i64 = target.max.x as i64 - 1;
    let x: i64 = if near < low {
        low
    } else if near > high {
        high
    } else {
        near
    };
    Some(Origin { x: x as i32, y: y as i32 })
}

/// A jump leads from an edge to a display above or below, strictly inside its width
/// and inside its height, at the height that the pointer had on its own display, moved
/// by the offset.
pub proof fn warps_keep_their_height(
    point: Origin,
    carry: int,
    direction: i16,
    displays: Seq<IRect>,
    offset: int,
)
    requires
        warp_fits(point, direction, displays),
        warp_of(point, carry, direction, displays, offset) is Some,
    ensures
        find_where(displays, holding(point)) matches Some(from) && warp_target(
            point,
            direction,
            displays,
        ) matches Some(target) && warp_of(point, carry, direction, displays, offset) matches Some(
            landing,
        ) && {
            &&& at_edge(point.x as int, from.min.x as int) || at_edge(
                point.x as int,
                from.max.x as int,
            )
            &&& target.min.y != from.min.y
            &&& target.min.x < landing.x < target.max.x
            &&& target.min.y <= landing.y < target.max.y
            &&& landing.y - target.min.y == point.y - from.min.y + (if target.min.y > from.min.y {
                offset
            } else {
                -offset
            })
        },
{
    let from = find_where(displays, holding(point))->0;
    let on_left = at_edge(point.x as int, from.min.x as int);
    lemma_jump_leads(from, displays, on_left, direction, displays.len() as int);
}

/// A jump goes where it leads to.
proof fn lemma_jump_leads(
    from: IRect,
    displays: Seq<IRect>,
    on_left: bool,
    direction: i16,
    n: int,
)
    ensures
        jump_to(from, displays, on_left, direction, n) matches Some(target) ==> leads_to(
            from,
            target,
            on_left,
            direction,
        ),
    decreases n,
{
    if n > 0 {
        lemma_jump_leads(from, displays, on_left, direction, n - 1);
    }
}

/// The pointer always lands strictly inside the width of the other display.
pub proof fn warp_lands_inside(target: IRect, on_left: bool, carry: int)
    requires
        target.min.x + 2 <= target.max.x,
    ensures
        target.min.x < landing_x(target, on_left, carry) < target.max.x,
{
}

/// The last place of the pointer, and when it was there.
#[derive(Clone, Copy, Debug, PartialEq, Eq, Structural)]
pub struct WarpVelocityState {
    pub last: Option<Origin>,
    pub at: Duration,
}

impl Default for WarpVelocityState {
    fn default() -> (state: WarpVelocityState)
        ensures
            state.last is None,
            state.at.nanos == 0,
    {
        WarpVelocityState { last: None, at: Duration::zero() }
    }
}

/// Samples older than this carry nothing, in milliseconds.
pub const VELOCITY_FRESHNESS: u64 = 80;

/// A horizontal step and the time it took.
#[derive(Clone, Copy, Debug, PartialEq, Eq, Structural)]
pub struct WarpStep {
    pub dx: i64,
    pub dt: Duration,
}

impl WarpVelocityState {
    /// The step since the last sample, if that one is fresh.
    pub open spec fn step(self, point: Origin, now: Duration) -> Option<WarpStep> {
        match self.last {
            Some(last) => {
                let dt = now.minus(self.at);
                if dt == 0 || dt > 80_000_000 {
                    None
                } else {
                    Some(
                        WarpStep {
                            dx: (point.x - last.x) as i64,
                            dt: Duration { nanos: dt as u128 },
                        },
                    )
                }
            },
            None => None,
        }
    }

    /// Takes a sample; answers the step since the last one, if that one is
    /// fresh.
    pub fn sample(&mut self, point: Origin, now: Duration) -> (step: Option<WarpStep>)
        ensures
            step == old(self).step(point, now),
            *final(self) == (WarpVelocityState { last: Some(point), at: now }),
    {
        let step = match self.last {
            Some(last) => {
                let dt = now.saturating_sub(self.at);
                if dt.nanos == 0 || dt.nanos > Duration::from_millis(VELOCITY_FRESHNESS).nanos {
                    None
                } else {
                    Some(WarpStep { dx: point.x as i64 - last.x as i64, dt })
                }
            },
            None => None,
        };
        self.last = Some(point);
        self.at = now;
        step
    }
}

/// Whether an event of the mouse may jump over an edge: a plain move, or a drag
/// armed for another display with its shortcut held.
pub fn warp_applies(dragging: bool, held: &Vec<Held>, shortcut: bool) -> (applies: bool)
    ensures
        applies == (!dragging || shortcut && any_where(
            held@,
            crate::ecs::mouse::drag::armed_drag(),
        )),
{
    if !dragging {
        return true;
    }
    if !shortcut {
        return false;
    }
    let mut i: usize = 0;
    while i < held.len()
        invariant
            i <= held.len(),
            dragging && shortcut,
            first_where(held@, crate::ecs::mouse::drag::armed_drag()) == first_from(
                held@,
                crate::ecs::mouse::drag::armed_drag(),
                i as int,
            ),
        decreases held.len() - i,
    {
        if held[i].display_armed {
            return true;
        }
        i = i + 1;
    }
    false
}

/// Answers a move of the pointer at the edge of a display. With a direction set
/// and more than one display, the pointer may jump; its next step is then
/// measured from where it landed.
pub fn horizontal_warp_mouse_trigger(
    point: Origin,
    now: Duration,
    carry: i32,
    direction: Option<i16>,
    displays: &Vec<IRect>,
    offset: i32,
    state: &mut WarpVelocityState,
) -> (warp: Option<Origin>)
    requires
        direction matches Some(towards) ==> (displays@.len() >= 2 ==> warp_fits(
            point,
            towards,
            displays@,
        )),
    ensures
        warp == (match direction {
            Some(towards) => if displays@.len() >= 2 {
                warp_of(point, carry as int, towards, displays@, offset as int)
            } else {
                None
            },
            None => None,
        }),
        *final(state) == (WarpVelocityState {
            last: match warp {
                Some(landing) => Some(landing),
                None => Some(point),
            },
            at: now,
        }),
{
    state.last = Some(point);
    state.at = now;
    let towards = match direction {
        Some(towards) => towards,
        None => {
            return None;
        },
    };
    if displays.len() < 2 {
        return None;
    }
    let landing = warp_landing(point, carry, towards, displays, offset);
    if let Some(there) = landing {
        state.last = Some(there);
    }
    landing
}

} // verus!
