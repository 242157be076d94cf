//! What the rules read of the world: the windows with their places, the active
//! display, and the spatial ring of displays.
use vstd::prelude::*;

pub mod records;

use crate::ecs::layout::{strip_has, LayoutStrip};
use crate::ecs::{NativeFullscreenMarker, Unmanaged};
use crate::geometry::{abs_diff, distance, DisplayId, Entity, IRect, IVec2, Origin, Size, WinID};
use crate::seqs::{first_from, first_where, find_where, lemma_first_from};

verus! {

/// Flags that steer how a focus change is answered.
#[derive(Clone, Copy, Debug, PartialEq, Eq, Structural)]
pub struct GlobalState {
    /// The window that the mouse is about to give the focus to.
    pub focus_follows_mouse_id: Option<WinID>,
    /// Whether the next focus change leaves the strip where it is.
    pub skip_reshuffle: bool,
    /// Whether the first layout is still being made.
    pub initializing: bool,
}

impl GlobalState {
    pub fn ffm_flag(&self) -> (flag: Option<WinID>)
        ensures
            flag == self.focus_follows_mouse_id,
    {
        self.focus_follows_mouse_id
    }

    pub fn set_ffm_flag(&mut self, flag: Option<WinID>)
        ensures
            *final(self) == (GlobalState { focus_follows_mouse_id: flag, ..*old(self) }),
    {
        self.focus_follows_mouse_id = flag;
    }

    pub fn set_skip_reshuffle(&mut self, to: bool)
        ensures
            *final(self) == (GlobalState { skip_reshuffle: to, ..*old(self) }),
    {
        self.skip_reshuffle = to;
    }

    pub fn skip_reshuffle(&self) -> (skip: bool)
        ensures
            skip == self.skip_reshuffle,
    {
        self.skip_reshuffle
    }

    pub fn initializing(&self) -> (initializing: bool)
        ensures
            initializing == self.initializing,
    {
        self.initializing
    }
}

/// A display's number and bounds.
pub type DisplaySnapshot = (DisplayId, IRect);

/// The order of the ring: from left to right, then from top to bottom, then by
/// number.
pub open spec fn ring_before(a: DisplaySnapshot, b: DisplaySnapshot) -> bool {
    ||| a.1.min.x < b.1.min.x
    ||| a.1.min.x == b.1.min.x && a.1.min.y < b.1.min.y
    ||| a.1.min.x == b.1.min.x && a.1.min.y == b.1.min.y && a.0 < b.0
}

/// The condition that a display comes after `display` in the ring.
pub open spec fn ring_after(display: DisplaySnapshot) -> spec_fn(DisplaySnapshot) -> bool {
    |other: DisplaySnapshot| ring_before(display, other)
}

/// The ring with one more display at its place.
pub open spec fn ring_with(ring: Seq<DisplaySnapshot>, display: DisplaySnapshot) -> Seq<
    DisplaySnapshot,
> {
    ring.insert(first_where(ring, ring_after(display)), display)
}

/// The displays in the order of the ring; of two with the same place and number
/// the one that came first stays first.
pub open spec fn ring_of(displays: Seq<DisplaySnapshot>) -> Seq<DisplaySnapshot>
    decreases displays.len(),
{
    if displays.len() == 0 {
        Seq::empty()
    } else {
        ring_with(ring_of(displays.drop_last()), displays.last())
    }
}

/// No display comes before one that stands ahead of it.
pub open spec fn ring_sorted(ring: Seq<DisplaySnapshot>) -> bool {
    forall|i: int, j: int| 0 <= i < j < ring.len() ==> !ring_before(#[trigger] ring[j], #[trigger] ring[i])
}

/// The condition that a display has that number.
pub open spec fn has_id(id: DisplayId) -> spec_fn(DisplaySnapshot) -> bool {
    |display: DisplaySnapshot| display.0 == id
}

/// The condition that a display holds the point.
pub open spec fn under(point: IVec2) -> spec_fn(DisplaySnapshot) -> bool {
    |display: DisplaySnapshot| display.1.holds(point)
}

/// The place one step on from `place` in a ring of `count`.
pub open spec fn ring_step(place: int, count: int, next: bool) -> int {
    if next {
        if place + 1 == count {
            0
        } else {
            place + 1
        }
    } else {
        if place == 0 {
            count - 1
        } else {
            place - 1
        }
    }
}

/// The neighbour of a display in the ring.
pub open spec fn neighbour_in(id: DisplayId, ring: Seq<DisplaySnapshot>, next: bool) -> Option<
    DisplaySnapshot,
> {
    let place = first_where(ring, has_id(id));
    if ring.len() < 2 || place >= ring.len() {
        None
    } else {
        Some(ring[ring_step(place, ring.len() as int, next)])
    }
}

fn ring_sorts_before(a: DisplaySnapshot, b: DisplaySnapshot) -> (before: bool)
    ensures
        before == ring_before(a, b),
{
    if a.1.min.x != b.1.min.x {
        a.1.min.x < b.1.min.x
    } else if a.1.min.y != b.1.min.y {
        a.1.min.y < b.1.min.y
    } else {
        a.0 < b.0
    }
}

/// Puts the displays into the order of the ring.
pub fn sort_ring(displays: &Vec<DisplaySnapshot>) -> (ring: Vec<DisplaySnapshot>)
    ensures
        ring@ == ring_of(displays@),
{
    let mut ring: Vec<DisplaySnapshot> = Vec::new();
    let mut i: usize = 0;
    while i < displays.len()
        invariant
            i <= displays.len(),
            ring@ == ring_of(displays@.take(i as int)),
        decreases displays.len() - i,
    {
        let display = displays[i];
        let mut place: usize = 0;
        while place < ring.len() && !ring_sorts_before(display, ring[place])
            invariant
                place <= ring.len(),
                first_where(ring@, ring_after(display)) == first_from(
                    ring@,
                    ring_after(display),
                    place as int,
                ),
            decreases ring.len() - place,
        {
            place = place + 1;
        }
        assert(place == first_where(ring@, ring_after(display)));
        ring.insert(place, display);
        assert(displays@.take(i as int + 1).drop_last() =~= displays@.take(i as int));
        i = i + 1;
    }
    assert(displays@.take(i as int) =~= displays@);
    ring
}

/// The active display and all others in the order of the ring.
pub fn ordered_display_ring(active: DisplaySnapshot, others: Vec<DisplaySnapshot>) -> (ring: Vec<
    DisplaySnapshot,
>)
    ensures
        ring@ == ring_of(seq![active] + others@),
{
    let mut all: Vec<DisplaySnapshot> = Vec::new();
    all.push(active);
    let mut rest = others;
    all.append(&mut rest);
    assert(all@ =~= seq![active] + others@);
    sort_ring(&all)
}

/// The neighbour of the display with that number: the next one in the ring, or
/// the previous one, round the ends. There is none in a ring of one, nor for a
/// number that the ring does not hold.
pub fn ring_neighbour(active_id: DisplayId, ordered: &Vec<DisplaySnapshot>, next: bool) -> (found:
    Option<DisplaySnapshot>)
    ensures
        found == neighbour_in(active_id, ordered@, next),
{
    if ordered.len() < 2 {
        return None;
    }
    let mut place: usize = 0;
    while place < ordered.len() && ordered[place].0 != active_id
        invariant
            place <= ordered.len(),
            first_where(ordered@, has_id(active_id)) == first_from(
                ordered@,
                has_id(active_id),
                place as int,
            ),
        decreases ordered.len() - place,
    {
        place = place + 1;
    }
    if place >= ordered.len() {
        return None;
    }
    let step: usize = if next {
        if place == ordered.len() - 1 {
            0
        } else {
            place + 1
        }
    } else {
        if place == 0 {
            ordered.len() - 1
        } else {
            place - 1
        }
    };
    Some(ordered[step])
}

/// The neighbour of the display that the pointer is on.
pub fn ring_neighbour_of_cursor(displays: Vec<DisplaySnapshot>, cursor: IVec2, next: bool) -> (found:
    Option<DisplaySnapshot>)
    ensures
        found == (match find_where(ring_of(displays@), under(cursor)) {
            Some(anchor) => neighbour_in(anchor.0, ring_of(displays@), next),
            None => None,
        }),
{
    let ordered = sort_ring(&displays);
    let mut place: usize = 0;
    while place < ordered.len() && !ordered[place].1.contains(cursor)
        invariant
            place <= ordered.len(),
            first_where(ordered@, under(cursor)) == first_from(
                ordered@,
                under(cursor),
                place as int,
            ),
        decreases ordered.len() - place,
    {
        place = place + 1;
    }
    if place >= ordered.len() {
        return None;
    }
    ring_neighbour(ordered[place].0, &ordered, next)
}

/// Whether a display lies strictly above or below.
pub open spec fn beyond(bounds: IRect, other: IRect, north: bool) -> bool {
    if north {
        other.min.y < bounds.min.y
    } else {
        other.min.y > bounds.min.y
    }
}

/// Whether `a` is strictly nearer than `b`: by the vertical gap, then by the
/// horizontal gap, then by number.
pub open spec fn nearer(bounds: IRect, a: DisplaySnapshot, b: DisplaySnapshot) -> bool {
    let ay = distance(bounds.min.y as int, a.1.min.y as int);
    let by = distance(bounds.min.y as int, b.1.min.y as int);
    let ax = distance(bounds.min.x as int, a.1.min.x as int);
    let bx = distance(bounds.min.x as int, b.1.min.x as int);
    ay < by || ay == by && (ax < bx || ax == bx && a.0 < b.0)
}

/// `at` is the nearest display of the list in that direction, the first of
/// several that are equally near.
pub open spec fn nearest_beyond(
    bounds: IRect,
    others: Seq<DisplaySnapshot>,
    north: bool,
    at: int,
) -> bool {
    &&& 0 <= at < others.len()
    &&& beyond(bounds, others[at].1, north)
    &&& forall|j: int|
        0 <= j < others.len() && beyond(bounds, #[trigger] others[j].1, north) ==> !nearer(
            bounds,
            others[j],
            others[at],
        )
    &&& forall|j: int|
        0 <= j < at && beyond(bounds, #[trigger] others[j].1, north) ==> nearer(
            bounds,
            others[at],
            others[j],
        )
}

fn is_nearer(bounds: IRect, a: DisplaySnapshot, b: DisplaySnapshot) -> (closer: bool)
    ensures
        closer == nearer(bounds, a, b),
{
    let ay: u32 = abs_diff(bounds.min.y, a.1.min.y);
    let by: u32 = abs_diff(bounds.min.y, b.1.min.y);
    let ax: u32 = abs_diff(bounds.min.x, a.1.min.x);
    let bx: u32 = abs_diff(bounds.min.x, b.1.min.x);
    if ay != by {
        ay < by
    } else if ax != bx {
        ax < bx
    } else {
        a.0 < b.0
    }
}

/// The nearest display strictly above or below the given one.
pub fn nearest_display_above_or_below(
    bounds: IRect,
    others: &Vec<DisplaySnapshot>,
    north: bool,
) -> (found: Option<DisplaySnapshot>)
    ensures
        match found {
            Some(display) => exists|at: int| #[trigger]
                nearest_beyond(bounds, others@, north, at) && others@[at] == display,
            None => forall|j: int|
                0 <= j < others@.len() ==> !beyond(bounds, #[trigger] others@[j].1, north),
        },
{
    let mut best: Option<usize> = None;
    let mut i: usize = 0;
    while i < others.len()
        invariant
            i <= others.len(),
            match best {
                Some(at) => at < i && nearest_beyond(
                    bounds,
                    others@.take(i as int),
                    north,
                    at as int,
                ),
                None => forall|j: int|
                    0 <= j < i ==> !beyond(bounds, #[trigger] others@[j].1, north),
            },
        decreases others.len() - i,
    {
        let other = others[i];
        let in_direction: bool = if north {
            other.1.min.y < bounds.min.y
        } else {
            other.1.min.y > bounds.min.y
        };
        let ghost seen = others@.take(i as int);
        let ghost next = others@.take(i as int + 1);
        assert(forall|j: int| 0 <= j < i ==> #[trigger] next[j] == seen[j]);
        if in_direction {
            match best {
                Some(at) => {
                    if is_nearer(bounds, other, others[at]) {
                        best = Some(i);
                    }
                },
                None => {
                    best = Some(i);
                },
            }
        }
        i = i + 1;
    }
    assert(others@.take(i as int) =~= others@);
    match best {
        Some(at) => {
            assert(nearest_beyond(bounds, others@, north, at as int));
            Some(others[at])
        },
        None => None,
    }
}

/// What the rules read of the display that commands act on.
#[derive(Debug)]
pub struct ActiveDisplay {
    pub entity: Entity,
    pub id: DisplayId,
    pub bounds: IRect,
    /// The area that windows may use, without dock and padding.
    pub viewport: IRect,
    /// The strip on screen.
    pub strip_entity: Entity,
    /// Where the strip's window came from, when it is a native fullscreen space.
    pub fullscreen: Option<NativeFullscreenMarker>,
    /// All other displays.
    pub others: Vec<DisplaySnapshot>,
}

impl ActiveDisplay {
    pub fn id(&self) -> (id: DisplayId)
        ensures
            id == self.id,
    {
        self.id
    }

    pub fn entity(&self) -> (entity: Entity)
        ensures
            entity == self.entity,
    {
        self.entity
    }

    pub fn active_strip_entity(&self) -> (strip: Entity)
        ensures
            strip == self.strip_entity,
    {
        self.strip_entity
    }

    pub fn fullscreen(&self) -> (marker: Option<NativeFullscreenMarker>)
        ensures
            marker == self.fullscreen,
    {
        self.fullscreen
    }

    pub fn bounds(&self) -> (bounds: IRect)
        ensures
            bounds == self.bounds,
    {
        self.bounds
    }

    /// The area that windows may use.
    pub fn actual_bounds(&self) -> (area: IRect)
        ensures
            area == self.viewport,
    {
        self.viewport
    }

    /// The nearest display strictly above or below this one.
    pub fn above_or_below(&self, north: bool) -> (found: Option<DisplaySnapshot>)
        ensures
            match found {
                Some(display) => exists|at: int| #[trigger]
                    nearest_beyond(self.bounds, self.others@, north, at) && self.others@[at]
                        == display,
                None => forall|j: int|
                    0 <= j < self.others@.len() ==> !beyond(
                        self.bounds,
                        #[trigger] self.others@[j].1,
                        north,
                    ),
            },
    {
        nearest_display_above_or_below(self.bounds, &self.others, north)
    }

    /// The next or the previous display of the ring.
    pub fn adjacent(&self, next: bool) -> (found: Option<DisplaySnapshot>)
        ensures
            found == neighbour_in(
                self.id,
                ring_of(seq![(self.id, self.bounds)] + self.others@),
                next,
            ),
    {
        let mut others: Vec<DisplaySnapshot> = Vec::new();
        let mut i: usize = 0;
        while i < self.others.len()
            invariant
                i <= self.others.len(),
                others@ == self.others@.take(i as int),
            decreases self.others.len() - i,
        {
            others.push(self.others[i]);
            assert(self.others@.take(i as int + 1) =~= self.others@.take(i as int).push(
                self.others@[i as int],
            ));
            i = i + 1;
        }
        assert(self.others@.take(i as int) =~= self.others@);
        let ordered = ordered_display_ring((self.id, self.bounds), others);
        ring_neighbour(self.id, &ordered, next)
    }
}

/// A strip with its handle, where it is, and what it is to its display.
#[derive(Debug)]
pub struct StripEntry {
    pub entity: Entity,
    pub strip: LayoutStrip,
    /// The display that the strip belongs to.
    pub display: Entity,
    pub position: Origin,
    /// The strip is on screen.
    pub active: bool,
    /// The strip is the one that its display shows.
    pub selected: bool,
    /// The strip is a native fullscreen space.
    pub native_fullscreen: bool,
}

/// The condition of holding the window.
pub open spec fn holds_window(entity: Entity) -> spec_fn(StripEntry) -> bool {
    |entry: StripEntry| strip_has(entry.strip@, entity)
}

/// The first strip that holds the window.
pub fn owner_index(entity: Entity, strips: &Vec<StripEntry>) -> (index: Option<usize>)
    ensures
        match index {
            Some(at) => at == first_where(strips@, holds_window(entity)) && at < strips@.len(),
            None => first_where(strips@, holds_window(entity)) == strips@.len(),
        },
{
    let mut i: usize = 0;
    while i < strips.len()
        invariant
            i <= strips.len(),
            first_where(strips@, holds_window(entity)) == first_from(
                strips@,
                holds_window(entity),
                i as int,
            ),
        decreases strips.len() - i,
    {
        if strips[i].strip.contains(entity) {
            return Some(i);
        }
        i = i + 1;
    }
    None
}

/// The display of the strip that holds the window.
pub fn owner_display(entity: Entity, strips: &Vec<StripEntry>) -> (display: Option<Entity>)
    ensures
        display == (match find_where(strips@, holds_window(entity)) {
            Some(entry) => Some(entry.display),
            None => None,
        }),
{
    match owner_index(entity, strips) {
        Some(at) => Some(strips[at].display),
        None => None,
    }
}

/// What is still in motion on the screen.
#[derive(Clone, Copy, Debug, PartialEq, Eq, Structural)]
pub struct FrameActivity {
    pub repositioning: bool,
    pub resizing: bool,
    pub scrolling: bool,
    pub flash_messages: bool,
    pub held: bool,
}

impl FrameActivity {
    /// Whether frames still need drawing.
    pub fn mid_frame(&self) -> (busy: bool)
        ensures
            busy == (self.repositioning || self.resizing || self.scrolling || self.flash_messages
                || self.held),
    {
        self.repositioning || self.resizing || self.scrolling || self.flash_messages || self.held
    }
}

/// Where a window is, and where it is going.
#[derive(Clone, Copy, Debug, PartialEq, Eq, Structural)]
pub struct Placement {
    /// The slot relative to the strip.
    pub layout: Origin,
    pub position: Origin,
    pub size: Size,
    pub reposition: Option<Origin>,
    pub resize: Option<Size>,
}

impl Placement {
    /// Both frames of the window lie in the coordinate space.
    pub open spec fn wf(self) -> bool {
        &&& self.position.sum_fits(self.size)
        &&& self.reposition matches Some(origin) ==> origin.sum_fits(self.size)
        &&& self.resize matches Some(size) ==> self.goal().sum_fits(size)
    }

    /// The corner that a window on its way grows from.
    pub open spec fn goal(self) -> Origin {
        match self.reposition {
            Some(origin) => origin,
            None => self.spec_frame().min,
        }
    }

    pub open spec fn spec_frame(self) -> IRect {
        IRect::framed(self.position, self.size)
    }

    /// The frame that the window is on its way to.
    pub open spec fn spec_moving_frame(self) -> IRect {
        let still = IRect::framed(self.position, self.size);
        let moved = match self.reposition {
            Some(origin) => IRect { min: origin, max: origin.spec_plus(self.size) },
            None => still,
        };
        match self.resize {
            Some(size) => IRect { min: moved.min, max: moved.min.spec_plus(size) },
            None => moved,
        }
    }
}

/// A window as the rules see it.
#[derive(Clone, Copy, Debug, PartialEq, Eq, Structural)]
pub struct WindowRecord {
    pub entity: Entity,
    pub id: WinID,
    /// The application that owns the window.
    pub parent: Entity,
    pub unmanaged: Option<Unmanaged>,
    pub focused: bool,
    /// Whether the window fills the width of its display.
    pub full_width: bool,
    pub placement: Option<Placement>,
}

/// All windows.
#[derive(Debug)]
pub struct Windows {
    pub all: Vec<WindowRecord>,
}

/// The condition of being that window.
pub open spec fn is_entity(entity: Entity) -> spec_fn(WindowRecord) -> bool {
    |window: WindowRecord| window.entity == entity
}

/// The condition of having that number.
pub open spec fn is_window(id: WinID) -> spec_fn(WindowRecord) -> bool {
    |window: WindowRecord| window.id == id
}

/// The condition of being a tiled window with that number.
pub open spec fn is_managed_window(id: WinID) -> spec_fn(WindowRecord) -> bool {
    |window: WindowRecord| window.unmanaged is None && window.id == id
}

/// The condition of having the focus.
pub open spec fn is_focused() -> spec_fn(WindowRecord) -> bool {
    |window: WindowRecord| window.focused
}

/// The one window with the focus; none where no window or more than one has it.
pub open spec fn focus_of(windows: Seq<WindowRecord>) -> Option<WindowRecord> {
    let at = first_where(windows, is_focused());
    if at < windows.len() && first_from(windows, is_focused(), at + 1) >= windows.len() {
        Some(windows[at])
    } else {
        None
    }
}

/// The place of a window.
pub open spec fn place_of(windows: Seq<WindowRecord>, entity: Entity) -> Option<Placement> {
    match find_where(windows, is_entity(entity)) {
        Some(window) => window.placement,
        None => None,
    }
}

pub open spec fn size_of(windows: Seq<WindowRecord>, entity: Entity) -> Option<Size> {
    match place_of(windows, entity) {
        Some(place) => Some(place.size),
        None => None,
    }
}

pub open spec fn origin_of(windows: Seq<WindowRecord>, entity: Entity) -> Option<Origin> {
    match place_of(windows, entity) {
        Some(place) => Some(place.position),
        None => None,
    }
}

pub open spec fn slot_of(windows: Seq<WindowRecord>, entity: Entity) -> Option<Origin> {
    match place_of(windows, entity) {
        Some(place) => Some(place.layout),
        None => None,
    }
}

pub open spec fn frame_of(windows: Seq<WindowRecord>, entity: Entity) -> Option<IRect> {
    match place_of(windows, entity) {
        Some(place) => Some(place.spec_frame()),
        None => None,
    }
}

pub open spec fn moving_frame_of(windows: Seq<WindowRecord>, entity: Entity) -> Option<IRect> {
    match place_of(windows, entity) {
        Some(place) => Some(place.spec_moving_frame()),
        None => None,
    }
}

/// Whether a known window fills the width of its display.
pub open spec fn fills_width(windows: Seq<WindowRecord>, entity: Entity) -> bool {
    find_where(windows, is_entity(entity)) matches Some(window) && window.full_width
}

/// Whether the window is known and floats.
pub open spec fn floats(windows: Seq<WindowRecord>, entity: Entity) -> bool {
    find_where(windows, is_entity(entity)) matches Some(window) && window.unmanaged == Some(
        Unmanaged::Floating,
    )
}

/// Whether the window is known and tiled.
pub open spec fn tiled(windows: Seq<WindowRecord>, entity: Entity) -> bool {
    find_where(windows, is_entity(entity)) matches Some(window) && window.unmanaged is None
}

impl Windows {
    /// Every frame lies in the coordinate space.
    pub open spec fn wf(self) -> bool {
        forall|i: int|
            #![trigger self.all@[i]]
            0 <= i < self.all@.len() ==> (self.all@[i].placement matches Some(place)
                ==> place.wf())
    }

    pub fn get(&self, entity: Entity) -> (window: Option<WindowRecord>)
        ensures
            window == find_where(self.all@, is_entity(entity)),
            self.wf() ==> (window matches Some(found) ==> (found.placement matches Some(place)
                ==> place.wf())),
    {
        let mut i: usize = 0;
        while i < self.all.len()
            invariant
                i <= self.all.len(),
                first_where(self.all@, is_entity(entity)) == first_from(
                    self.all@,
                    is_entity(entity),
                    i as int,
                ),
            decreases self.all.len() - i,
        {
            if self.all[i].entity == entity {
                return Some(self.all[i]);
            }
            i = i + 1;
        }
        None
    }

    /// The window with that number.
    pub fn find(&self, window_id: WinID) -> (window: Option<WindowRecord>)
        ensures
            window == find_where(self.all@, is_window(window_id)),
    {
        let mut i: usize = 0;
        while i < self.all.len()
            invariant
                i <= self.all.len(),
                first_where(self.all@, is_window(window_id)) == first_from(
                    self.all@,
                    is_window(window_id),
                    i as int,
                ),
            decreases self.all.len() - i,
        {
            if self.all[i].id == window_id {
                return Some(self.all[i]);
            }
            i = i + 1;
        }
        None
    }

    /// The application that owns the window with that number.
    pub fn find_parent(&self, window_id: WinID) -> (parent: Option<Entity>)
        ensures
            parent == (match find_where(self.all@, is_window(window_id)) {
                Some(window) => Some(window.parent),
                None => None,
            }),
    {
        match self.find(window_id) {
            Some(window) => Some(window.parent),
            None => None,
        }
    }

    /// The tiled window with that number.
    pub fn find_managed(&self, window_id: WinID) -> (window: Option<WindowRecord>)
        ensures
            window == find_where(self.all@, is_managed_window(window_id)),
    {
        let mut i: usize = 0;
        while i < self.all.len()
            invariant
                i <= self.all.len(),
                first_where(self.all@, is_managed_window(window_id)) == first_from(
                    self.all@,
                    is_managed_window(window_id),
                    i as int,
                ),
            decreases self.all.len() - i,
        {
            if self.all[i].unmanaged.is_none() && self.all[i].id == window_id {
                return Some(self.all[i]);
            }
            i = i + 1;
        }
        None
    }

    /// The one window with the focus.
    pub fn focused(&self) -> (window: Option<WindowRecord>)
        ensures
            window == focus_of(self.all@),
    {
        let mut i: usize = 0;
        while i < self.all.len() && !self.all[i].focused
            invariant
                i <= self.all.len(),
                first_where(self.all@, is_focused()) == first_from(
                    self.all@,
                    is_focused(),
                    i as int,
                ),
            decreases self.all.len() - i,
        {
            i = i + 1;
        }
        if i >= self.all.len() {
            return None;
        }
        let mut j: usize = i + 1;
        while j < self.all.len() && !self.all[j].focused
            invariant
                i < j <= self.all.len(),
                first_from(self.all@, is_focused(), i + 1) == first_from(
                    self.all@,
                    is_focused(),
                    j as int,
                ),
            decreases self.all.len() - j,
        {
            j = j + 1;
        }
        if j < self.all.len() {
            None
        } else {
            Some(self.all[i])
        }
    }

    pub fn placement(&self, entity: Entity) -> (place: Option<Placement>)
        ensures
            place == place_of(self.all@, entity),
            self.wf() ==> (place matches Some(found) ==> found.wf()),
    {
        match self.get(entity) {
            Some(window) => window.placement,
            None => None,
        }
    }

    pub fn full_width(&self, entity: Entity) -> (fills: bool)
        ensures
            fills == fills_width(self.all@, entity),
    {
        match self.get(entity) {
            Some(window) => window.full_width,
            None => false,
        }
    }

    pub fn is_floating(&self, entity: Entity) -> (floating: bool)
        ensures
            floating == floats(self.all@, entity),
    {
        match self.get(entity) {
            Some(window) => match window.unmanaged {
                Some(Unmanaged::Floating) => true,
                _ => false,
            },
            None => false,
        }
    }

    pub fn is_tiled(&self, entity: Entity) -> (managed: bool)
        ensures
            managed == tiled(self.all@, entity),
    {
        match self.get(entity) {
            Some(window) => window.unmanaged.is_none(),
            None => false,
        }
    }

    pub fn origin(&self, entity: Entity) -> (origin: Option<Origin>)
        ensures
            origin == origin_of(self.all@, entity),
    {
        match self.placement(entity) {
            Some(place) => Some(place.position),
            None => None,
        }
    }

    pub fn size(&self, entity: Entity) -> (size: Option<Size>)
        ensures
            size == size_of(self.all@, entity),
    {
        match self.placement(entity) {
            Some(place) => Some(place.size),
            None => None,
        }
    }

    pub fn layout_position(&self, entity: Entity) -> (slot: Option<Origin>)
        ensures
            slot == slot_of(self.all@, entity),
    {
        match self.placement(entity) {
            Some(place) => Some(place.layout),
            None => None,
        }
    }

    /// The frame of a window where it is.
    pub fn frame(&self, entity: Entity) -> (frame: Option<IRect>)
        requires
            self.wf(),
        ensures
            frame == frame_of(self.all@, entity),
    {
        match self.placement(entity) {
            Some(place) => Some(IRect::from_frame(place.position, place.size)),
            None => None,
        }
    }

    /// The frame that a window is on its way to.
    pub fn moving_frame(&self, entity: Entity) -> (frame: Option<IRect>)
        requires
            self.wf(),
        ensures
            frame == moving_frame_of(self.all@, entity),
    {
        match self.placement(entity) {
            Some(place) => {
                let mut frame = IRect::from_frame(place.position, place.size);
                if let Some(origin) = place.reposition {
                    frame = IRect { min: origin, max: origin.plus(place.size) };
                }
                if let Some(size) = place.resize {
                    frame = IRect { min: frame.min, max: frame.min.plus(size) };
                }
                Some(frame)
            },
            None => None,
        }
    }
}

/// A window that is looked up by its handle has that handle.
pub proof fn find_window_handle(windows: Seq<WindowRecord>, entity: Entity)
    ensures
        find_where(windows, is_entity(entity)) matches Some(window) ==> window.entity == entity,
{
    lemma_first_from(windows, is_entity(entity), 0);
}

/// Putting a display at its place keeps the ring in order.
proof fn lemma_ring_with_sorted(ring: Seq<DisplaySnapshot>, display: DisplaySnapshot)
    requires
        ring_sorted(ring),
    ensures
        ring_sorted(ring_with(ring, display)),
{
    let place = first_where(ring, ring_after(display));
    lemma_first_from(ring, ring_after(display), 0);
    let after = ring_with(ring, display);
    assert forall|i: int, j: int| 0 <= i < j < after.len() implies !ring_before(
        #[trigger] after[j],
        #[trigger] after[i],
    ) by {
        if j == place {
            assert(!(ring_after(display))(ring[i]));
        } else if i == place {
            assert((ring_after(display))(ring[place]));
            if j - 1 > place {
                assert(!ring_before(ring[j - 1], ring[place]));
            }
        } else {
            let a = if i < place { i } else { i - 1 };
            let b = if j < place { j } else { j - 1 };
            assert(!ring_before(ring[b], ring[a]));
        }
    }
}

/// The ring is in order and holds exactly the displays that went into it.
pub proof fn ring_is_a_sorted_arrangement(displays: Seq<DisplaySnapshot>)
    ensures
        ring_sorted(ring_of(displays)),
        ring_of(displays).to_multiset() == displays.to_multiset(),
    decreases displays.len(),
{
    broadcast use vstd::seq_lib::group_to_multiset_ensures;

    if displays.len() > 0 {
        let before = ring_of(displays.drop_last());
        ring_is_a_sorted_arrangement(displays.drop_last());
        lemma_ring_with_sorted(before, displays.last());
        let place = first_where(before, ring_after(displays.last()));
        lemma_first_from(before, ring_after(displays.last()), 0);
        assert(before.insert(place, displays.last()).to_multiset() =~= before.to_multiset().insert(
            displays.last(),
        ));
        assert(displays.drop_last().push(displays.last()) =~= displays);
    }
}

/// Stepping to the next display and back, or to the previous one and on again,
/// ends where it began, for any number of displays with different numbers.
pub proof fn next_and_previous_are_inverses(ring: Seq<DisplaySnapshot>, id: DisplayId, next: bool)
    requires
        ring.len() >= 2,
        forall|i: int, j: int|
            0 <= i < ring.len() && 0 <= j < ring.len() && i != j ==> (#[trigger] ring[i]).0 != (
            #[trigger] ring[j]).0,
        first_where(ring, has_id(id)) < ring.len(),
    ensures
        neighbour_in(id, ring, next) matches Some(beside) && neighbour_in(beside.0, ring, !next)
            matches Some(back) && back.0 == id,
{
    let place = first_where(ring, has_id(id));
    lemma_first_from(ring, has_id(id), 0);
    let beside = ring[ring_step(place, ring.len() as int, next)];
    let there = first_where(ring, has_id(beside.0));
    lemma_first_from(ring, has_id(beside.0), 0);
    if there > ring_step(place, ring.len() as int, next) {
        assert(!(has_id(beside.0))(ring[ring_step(place, ring.len() as int, next)]));
    }
    assert(there == ring_step(place, ring.len() as int, next));
}

} // verus!
