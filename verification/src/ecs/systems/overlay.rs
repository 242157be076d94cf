//! Borders around windows: whether they show, which frame they hug, and which
//! windows get one.
use vstd::prelude::*;

use crate::ecs::PositionDrive;
use crate::geometry::{clamped, fits, Entity, IRect, IVec2, Size, WinID};
use crate::seqs::{any_where, first_from, first_where};
use crate::time::Duration;

verus! {

/// Whether borders follow the layout's frames: while a strip scrolls, a drag is
/// held or a release settles, the window server lags behind.
pub fn overlay_tracks_live(swiping: bool, drag_held: bool, settle_grace: bool) -> (live: bool)
    ensures
        live == (swiping || drag_held || settle_grace),
{
    swiping || drag_held || settle_grace
}

/// What drives a window right now.
#[derive(Clone, Copy, Debug, PartialEq, Eq, Structural)]
pub struct Flight {
    pub repositioning: bool,
    pub resizing: bool,
    pub drive: Option<PositionDrive>,
}

impl Flight {
    pub open spec fn drives(self) -> bool {
        self.repositioning || self.resizing || (self.drive matches Some(drive) && drive.phase
            is Verifying)
    }
}

/// Whether we own the frame of a window right now: we move it, resize it, or
/// confirm its landing.
pub fn flight_driving(flight: &Flight) -> (driving: bool)
    ensures
        driving == flight.drives(),
{
    flight.repositioning || flight.resizing || (match flight.drive {
        Some(drive) => drive.is_verifying(),
        None => false,
    })
}

/// How far the layout's frame of a driven window is trusted.
#[derive(Clone, Copy, Debug, PartialEq, Eq, Structural)]
pub enum DriveTrust {
    /// Exactly: writes flow.
    Full,
    /// No further than a bound from where the window was last seen.
    Clamped,
}

/// The layout's frame is trusted while a move, a resize or a drag produces it;
/// while only a landing is confirmed the window may still be elsewhere.
pub fn drive_trust(animator_owns: bool, holder_driven: bool) -> (trust: DriveTrust)
    ensures
        trust == (if animator_owns || holder_driven {
            DriveTrust::Full
        } else {
            DriveTrust::Clamped
        }),
{
    if animator_owns || holder_driven {
        DriveTrust::Full
    } else {
        DriveTrust::Clamped
    }
}

/// Whether a frame can be widened by the paddings.
pub open spec fn pads_fit(raw: IRect, h_pad: i32, v_pad: i32) -> bool {
    &&& fits(raw.min.x - h_pad)
    &&& fits(raw.min.y - v_pad)
    &&& fits(raw.max.x + h_pad)
    &&& fits(raw.max.y + v_pad)
}

/// A recorded frame with the window's paddings put back.
pub open spec fn padded(raw: IRect, h_pad: i32, v_pad: i32) -> IRect {
    IRect {
        min: IVec2 { x: (raw.min.x - h_pad) as i32, y: (raw.min.y - v_pad) as i32 },
        max: IVec2 { x: (raw.max.x + h_pad) as i32, y: (raw.max.y + v_pad) as i32 },
    }
}

/// Puts a window's paddings back around a frame from the record, so that it
/// agrees with a direct read.
pub fn pad_snapshot_frame(raw: IRect, h_pad: i32, v_pad: i32) -> (frame: IRect)
    requires
        pads_fit(raw, h_pad, v_pad),
    ensures
        frame == padded(raw, h_pad, v_pad),
{
    IRect {
        min: IVec2 { x: raw.min.x - h_pad, y: raw.min.y - v_pad },
        max: IVec2 { x: raw.max.x + h_pad, y: raw.max.y + v_pad },
    }
}

/// How far a border may run ahead of where its window was last seen, in pixels.
pub const BORDER_LEAD_MAX_PX: i32 = 24;

/// An edge kept near where it was last seen.
pub open spec fn edge_near(presented: int, truth: int) -> int {
    clamped(presented, truth - BORDER_LEAD_MAX_PX, truth + BORDER_LEAD_MAX_PX)
}

/// A frame whose edges are all kept near those of another.
pub open spec fn frame_near(frame: IRect, os: IRect) -> IRect {
    IRect::spanning(
        IVec2 {
            x: edge_near(frame.min.x as int, os.min.x as int) as i32,
            y: edge_near(frame.min.y as int, os.min.y as int) as i32,
        },
        IVec2 {
            x: edge_near(frame.max.x as int, os.max.x as int) as i32,
            y: edge_near(frame.max.y as int, os.max.y as int) as i32,
        },
    )
}

fn keep_edge(presented: i32, truth: i32) -> (edge: i32)
    ensures
        edge == edge_near(presented as int, truth as int),
{
    let lead: i64 = presented as i64 - truth as i64;
    if lead > BORDER_LEAD_MAX_PX as i64 {
        truth + BORDER_LEAD_MAX_PX
    } else if lead < -(BORDER_LEAD_MAX_PX as i64) {
        truth - BORDER_LEAD_MAX_PX
    } else {
        presented
    }
}

/// Keeps a presented frame near where its window was last seen, edge by edge.
pub fn clamp_lead_to_os(frame: IRect, os: IRect) -> (near: IRect)
    ensures
        near == frame_near(frame, os),
{
    IRect::new(
        keep_edge(frame.min.x, os.min.x),
        keep_edge(frame.min.y, os.min.y),
        keep_edge(frame.max.x, os.max.x),
        keep_edge(frame.max.y, os.max.y),
    )
}

/// A border runs ahead by no more than its bound on any edge, a frame that is
/// near already is left alone, and keeping it near again changes nothing.
pub proof fn borders_hug_their_windows(frame: IRect, os: IRect)
    requires
        frame.ordered(),
        os.ordered(),
    ensures
        frame_near(frame, os).min.near(os.min, BORDER_LEAD_MAX_PX as int),
        frame_near(frame, os).max.near(os.max, BORDER_LEAD_MAX_PX as int),
        frame.min.near(os.min, BORDER_LEAD_MAX_PX as int) && frame.max.near(
            os.max,
            BORDER_LEAD_MAX_PX as int,
        ) ==> frame_near(frame, os) == frame,
        frame_near(frame_near(frame, os), os) == frame_near(frame, os),
{
}

/// A window as borders see it.
#[derive(Clone, Copy, Debug, PartialEq, Eq, Structural)]
pub struct BorderWindow {
    pub entity: Entity,
    pub id: WinID,
    /// The window is tiled.
    pub managed: bool,
    pub full_screen: bool,
    /// The window server shows it.
    pub on_screen: bool,
    /// Its application is known, and with it the shape of its corners.
    pub app_known: bool,
    /// The size that the layout gives it.
    pub size: Option<Size>,
    /// The frame that the layout presents.
    pub layout: Option<IRect>,
    /// A fresh frame from the record, without paddings.
    pub recorded: Option<IRect>,
    /// The frame that it was last seen with.
    pub cached: IRect,
    pub h_pad: i32,
    pub v_pad: i32,
    pub flight: Option<Flight>,
    /// A drag that moves the layout holds it.
    pub holder_driven: bool,
}

impl BorderWindow {
    /// Its recorded frame can be widened by its paddings.
    pub open spec fn wf(self) -> bool {
        self.recorded matches Some(raw) ==> pads_fit(raw, self.h_pad, self.v_pad)
    }

    pub open spec fn is_sized(self) -> bool {
        self.size matches Some(size) && size.x > 0 && size.y > 0
    }

    pub open spec fn is_flying(self) -> bool {
        self.flight matches Some(flight) && flight.drives()
    }

    pub open spec fn animator_owns(self) -> bool {
        self.flight matches Some(flight) && (flight.repositioning || flight.resizing)
    }

    /// The frame outside of every drive: the record's, else the cached one.
    pub open spec fn seen_frame(self) -> IRect {
        match self.recorded {
            Some(raw) => padded(raw, self.h_pad, self.v_pad),
            None => self.cached,
        }
    }

    /// The frame that a border hugs.
    pub open spec fn border_frame(self, live: bool, native_held: bool, paint: Option<IRect>) -> IRect {
        if native_held {
            match paint {
                Some(frame) => frame,
                None => self.seen_frame(),
            }
        } else if live || self.is_flying() {
            match self.layout {
                Some(frame) => if self.animator_owns() || self.holder_driven {
                    frame
                } else {
                    frame_near(frame, self.cached)
                },
                None => self.cached,
            }
        } else {
            self.seen_frame()
        }
    }
}

/// The frame that a border hugs. A native drag leaves the slot behind, so its
/// border follows the pointer. A window that we drive or confirm is hugged at the
/// presented frame, the one that was just written. Anything else is hugged where
/// the record saw it, or where it was last seen.
pub fn border_frame_for(
    window: &BorderWindow,
    tracking_live: bool,
    native_held: bool,
    paint_frame: Option<IRect>,
) -> (frame: IRect)
    requires
        window.wf(),
    ensures
        frame == window.border_frame(tracking_live, native_held, paint_frame),
{
    if native_held {
        if let Some(frame) = paint_frame {
            return frame;
        }
        return match window.recorded {
            Some(raw) => pad_snapshot_frame(raw, window.h_pad, window.v_pad),
            None => window.cached,
        };
    }
    let (flying, owned) = match window.flight {
        Some(flight) => (flight_driving(&flight), flight.repositioning || flight.resizing),
        None => (false, false),
    };
    if tracking_live || flying {
        if let Some(frame) = window.layout {
            return match drive_trust(owned, window.holder_driven) {
                DriveTrust::Full => frame,
                DriveTrust::Clamped => clamp_lead_to_os(frame, window.cached),
            };
        }
        return window.cached;
    }
    match window.recorded {
        Some(raw) => pad_snapshot_frame(raw, window.h_pad, window.v_pad),
        None => window.cached,
    }
}

/// A border's place on the screen.
#[derive(Clone, Copy, Debug, PartialEq, Eq, Structural)]
pub struct ScreenRect {
    pub x: i64,
    pub y: i64,
    pub width: i64,
    pub height: i64,
}

/// A frame without its paddings, by its corner and its extent.
pub open spec fn inset(frame: IRect, h_pad: i32, v_pad: i32) -> ScreenRect {
    ScreenRect {
        x: (frame.min.x + h_pad) as i64,
        y: (frame.min.y + v_pad) as i64,
        width: (frame.spec_width() - 2 * h_pad) as i64,
        height: (frame.spec_height() - 2 * v_pad) as i64,
    }
}

/// The place of a border: the frame without the window's paddings.
pub fn abs_cg_rect(frame: IRect, h_pad: i32, v_pad: i32) -> (rect: ScreenRect)
    ensures
        rect == inset(frame, h_pad, v_pad),
{
    ScreenRect {
        x: frame.min.x as i64 + h_pad as i64,
        y: frame.min.y as i64 + v_pad as i64,
        width: frame.max.x as i64 - frame.min.x as i64 - 2 * h_pad as i64,
        height: frame.max.y as i64 - frame.min.y as i64 - 2 * v_pad as i64,
    }
}

/// How often the window under an untracked press is looked up at most, in
/// milliseconds.
pub const PRESS_HIT_THROTTLE: u64 = 100;

/// Whether the last untracked press was over a known window.
#[derive(Clone, Copy, Debug, PartialEq, Eq, Structural)]
pub struct PressHitCache {
    pub at: Option<Duration>,
    pub hit: bool,
}

impl Default for PressHitCache {
    fn default() -> (cache: PressHitCache)
        ensures
            cache == (PressHitCache { at: None, hit: false }),
    {
        PressHitCache { at: None, hit: false }
    }
}

impl PressHitCache {
    pub open spec fn is_stale(self, now: Duration) -> bool {
        match self.at {
            Some(at) => now.minus(at) >= PRESS_HIT_THROTTLE * 1_000_000,
            None => true,
        }
    }

    /// Whether the window has to be looked up again.
    pub fn stale(&self, now: Duration) -> (stale: bool)
        ensures
            stale == self.is_stale(now),
    {
        match self.at {
            Some(at) => now.saturating_sub(at).nanos >= Duration::from_millis(
                PRESS_HIT_THROTTLE,
            ).nanos,
            None => true,
        }
    }

    /// Answers with what is known; `looked_up` counts only where that is stale.
    pub fn press_hit_cached(&mut self, looked_up: bool, now: Duration) -> (hit: bool)
        ensures
            hit == (if old(self).is_stale(now) {
                looked_up
            } else {
                old(self).hit
            }),
            *final(self) == (if old(self).is_stale(now) {
                PressHitCache { at: Some(now), hit: looked_up }
            } else {
                *old(self)
            }),
    {
        if self.stale(now) {
            self.at = Some(now);
            self.hit = looked_up;
        }
        self.hit
    }
}

/// What is on when overlays are drawn.
#[derive(Clone, Copy, Debug, PartialEq, Eq, Structural)]
pub struct OverlayFacts {
    /// There is a strip on screen.
    pub has_workspace: bool,
    pub mission_control: bool,
    /// The strip on screen is a native fullscreen space.
    pub fullscreen: bool,
    /// The settings dim windows.
    pub dims: bool,
    /// The settings put borders around windows.
    pub borders: bool,
    /// A mouse button is down on a window.
    pub holder_held: bool,
    /// A held gesture moves the layout.
    pub driven_held: bool,
    /// A mouse button is down somewhere.
    pub button_held: bool,
    /// Windows that have the focus.
    pub focused: usize,
    /// The focused window is in native fullscreen.
    pub focused_full_screen: bool,
    /// The display of the focused window's strip is known.
    pub focused_owned: bool,
    /// The focused window is in a space that some display shows.
    pub focused_visible: bool,
}

/// What becomes of the overlays.
#[derive(Clone, Copy, Debug, PartialEq, Eq, Structural)]
pub enum OverlayGate {
    /// They stay as they are.
    Leave,
    /// Borders and dimming are hidden.
    HideAll,
    /// Nothing is wanted: they are taken away.
    RemoveAll,
    /// Borders are hidden, dimming stays.
    HideBorders,
    /// They are drawn.
    Draw,
}

pub open spec fn overlay_gate(facts: OverlayFacts) -> OverlayGate {
    if !facts.has_workspace || facts.mission_control || facts.fullscreen {
        OverlayGate::HideAll
    } else if !facts.dims && !facts.borders {
        OverlayGate::RemoveAll
    } else if !facts.holder_held && facts.button_held {
        OverlayGate::Leave
    } else if facts.holder_held && !facts.driven_held {
        OverlayGate::HideBorders
    } else if facts.focused == 0 {
        OverlayGate::HideAll
    } else if facts.focused > 1 {
        OverlayGate::Leave
    } else if facts.focused_full_screen || !(facts.focused_owned || facts.focused_visible) {
        OverlayGate::HideAll
    } else {
        OverlayGate::Draw
    }
}

/// Decides what becomes of the overlays. They hide where windows leave the
/// tiled layout and where nothing is focused; in the moment in which two windows
/// have the focus they stay, so that they do not flicker.
pub fn gate_overlays(facts: &OverlayFacts) -> (gate: OverlayGate)
    ensures
        gate == overlay_gate(*facts),
{
    if !facts.has_workspace || facts.mission_control || facts.fullscreen {
        return OverlayGate::HideAll;
    }
    if !facts.dims && !facts.borders {
        return OverlayGate::RemoveAll;
    }
    if !facts.holder_held && facts.button_held {
        return OverlayGate::Leave;
    }
    if facts.holder_held && !facts.driven_held {
        return OverlayGate::HideBorders;
    }
    if facts.focused == 0 {
        return OverlayGate::HideAll;
    }
    if facts.focused > 1 {
        return OverlayGate::Leave;
    }
    if facts.focused_full_screen || !(facts.focused_owned || facts.focused_visible) {
        return OverlayGate::HideAll;
    }
    OverlayGate::Draw
}

/// The condition of covering the middle of a frame.
pub open spec fn covers_middle(frame: IRect) -> spec_fn(IRect) -> bool {
    |bounds: IRect| bounds.holds(frame.spec_center())
}

fn some_display_shows(displays: &Vec<IRect>, frame: IRect) -> (shown: bool)
    ensures
        shown == any_where(displays@, covers_middle(frame)),
{
    let center = frame.middle();
    let mut i: usize = 0;
    while i < displays.len()
        invariant
            i <= displays.len(),
            center == frame.spec_center(),
            first_where(displays@, covers_middle(frame)) == first_from(
                displays@,
                covers_middle(frame),
                i as int,
            ),
        decreases displays.len() - i,
    {
        if displays[i].contains(center) {
            return true;
        }
        i = i + 1;
    }
    false
}

/// Whether the focused window gets a border: it has a size, and its middle is on
/// its own display. One that is parked would put a stripe on its neighbour.
pub open spec fn focus_bordered(
    borders: bool,
    window: BorderWindow,
    frame: IRect,
    owner: Option<IRect>,
    displays: Seq<IRect>,
) -> bool {
    &&& borders
    &&& window.is_sized()
    &&& match owner {
        Some(bounds) => bounds.holds(frame.spec_center()),
        None => any_where(displays, covers_middle(frame)),
    }
}

/// One border to draw.
#[derive(Clone, Copy, Debug, PartialEq, Eq, Structural)]
pub struct BorderSpot {
    pub window: WinID,
    pub rect: ScreenRect,
}

/// What is drawn.
#[derive(Debug)]
pub struct OverlayScene {
    pub windows: Vec<BorderWindow>,
    pub displays: Vec<IRect>,
    pub focused: BorderWindow,
    /// The display of the focused window's strip.
    pub owner: Option<IRect>,
    pub swiping: bool,
    pub holder_held: bool,
    /// A release settles.
    pub settling: bool,
    pub borders: bool,
    /// Unfocused windows get borders, and it is known what is on screen.
    pub inactive_borders: bool,
}

/// The condition of being driven.
pub open spec fn flies() -> spec_fn(BorderWindow) -> bool {
    |window: BorderWindow| window.is_flying()
}

impl OverlayScene {
    pub open spec fn wf(self) -> bool {
        &&& self.focused.wf()
        &&& forall|k: int| 0 <= k < self.windows@.len() ==> (#[trigger] self.windows@[k]).wf()
    }

    /// Whether all borders follow the layout's frames: as soon as one window is
    /// driven, so that no border of a frame lags behind its neighbours.
    pub open spec fn is_live(self) -> bool {
        self.swiping || self.holder_held || self.settling || any_where(self.windows@, flies())
    }

    pub open spec fn focused_frame(self) -> IRect {
        self.focused.border_frame(self.is_live(), false, None)
    }

    /// Whether an unfocused window gets a border.
    pub open spec fn inactive_bordered(self, window: BorderWindow) -> bool {
        &&& window.managed
        &&& window.id != self.focused.id
        &&& !window.full_screen
        &&& window.on_screen
        &&& window.is_sized()
        &&& any_where(
            self.displays@,
            covers_middle(window.border_frame(self.is_live(), false, None)),
        )
        &&& window.app_known
    }

    pub open spec fn spot(self, window: BorderWindow) -> BorderSpot {
        BorderSpot {
            window: window.id,
            rect: inset(
                window.border_frame(self.is_live(), false, None),
                window.h_pad,
                window.v_pad,
            ),
        }
    }

    /// The borders of unfocused windows among the first `n`.
    pub open spec fn inactive_to(self, n: int) -> Seq<BorderSpot>
        decreases n,
    {
        if n <= 0 {
            Seq::empty()
        } else if self.inactive_bordered(self.windows@[n - 1]) {
            self.inactive_to(n - 1).push(self.spot(self.windows@[n - 1]))
        } else {
            self.inactive_to(n - 1)
        }
    }

    pub open spec fn wants_focus_border(self) -> bool {
        focus_bordered(
            self.borders,
            self.focused,
            self.focused_frame(),
            self.owner,
            self.displays@,
        )
    }
}

/// What is drawn: a hole for the focused window in the dimming, and borders.
#[derive(Debug)]
pub struct OverlayPicture {
    pub focused: ScreenRect,
    /// The focused window's border.
    pub active: Option<BorderSpot>,
    /// The borders of the others, in the order of the windows.
    pub inactive: Vec<BorderSpot>,
}

/// What is done to the overlays.
#[derive(Debug)]
pub enum OverlayStep {
    /// They stay as they are.
    Leave,
    /// Borders and dimming are hidden, and nothing is drawn.
    HideAll,
    /// They are taken away.
    RemoveAll,
    /// Borders are hidden, dimming stays.
    HideBorders,
    /// This is drawn.
    Draw(OverlayPicture),
}

impl OverlayScene {
    /// The application of a focused window that should get a border is gone.
    pub open spec fn is_orphaned(self) -> bool {
        self.wants_focus_border() && !self.focused.app_known
    }

    /// The picture is that of the scene.
    pub open spec fn is_drawn(self, picture: OverlayPicture) -> bool {
        &&& picture.focused == self.spot(self.focused).rect
        &&& picture.active == (if self.wants_focus_border() {
            Some(self.spot(self.focused))
        } else {
            None
        })
        &&& picture.inactive@ == (if self.inactive_borders {
            self.inactive_to(self.windows@.len() as int)
        } else {
            Seq::empty()
        })
    }
}

/// Updates the overlays: they are hidden, taken away or left as the facts say, and
/// drawn only where the facts let them be. A scene is needed only for that. Where the
/// application of the focused window is gone, everything is hidden.
pub fn update_overlays(facts: &OverlayFacts, scene: Option<&OverlayScene>) -> (step: OverlayStep)
    requires
        overlay_gate(*facts) == OverlayGate::Draw ==> (scene matches Some(scene) && scene.wf()),
    ensures
        match overlay_gate(*facts) {
            OverlayGate::Leave => step is Leave,
            OverlayGate::HideAll => step is HideAll,
            OverlayGate::RemoveAll => step is RemoveAll,
            OverlayGate::HideBorders => step is HideBorders,
            OverlayGate::Draw => scene matches Some(scene) && (if scene.is_orphaned() {
                step is HideAll
            } else {
                step matches OverlayStep::Draw(picture) && scene.is_drawn(picture)
            }),
        },
{
    match gate_overlays(facts) {
        OverlayGate::Leave => OverlayStep::Leave,
        OverlayGate::HideAll => OverlayStep::HideAll,
        OverlayGate::RemoveAll => OverlayStep::RemoveAll,
        OverlayGate::HideBorders => OverlayStep::HideBorders,
        OverlayGate::Draw => match scene {
            Some(scene) => match draw_overlays(scene) {
                Some(picture) => OverlayStep::Draw(picture),
                None => OverlayStep::HideAll,
            },
            None => OverlayStep::HideAll,
        },
    }
}

/// Under Mission Control, and on a native fullscreen space, everything is hidden and
/// nothing is drawn, whatever is focused, held or set.
pub proof fn hidden_states_draw_nothing(facts: OverlayFacts)
    requires
        facts.mission_control || facts.fullscreen,
    ensures
        overlay_gate(facts) == OverlayGate::HideAll,
{
}

/// Lays the overlays out. None where the focused window should get a border and
/// its application is gone.
pub fn draw_overlays(scene: &OverlayScene) -> (picture: Option<OverlayPicture>)
    requires
        scene.wf(),
    ensures
        picture is None == scene.is_orphaned(),
        picture matches Some(drawn) ==> scene.is_drawn(drawn),
{
    let live = overlay_tracks_live(scene.swiping, scene.holder_held, scene.settling)
        || some_flying(&scene.windows);
    let frame = border_frame_for(&scene.focused, live, false, None);
    let focused = abs_cg_rect(frame, scene.focused.h_pad, scene.focused.v_pad);
    let at_home = match scene.owner {
        Some(bounds) => bounds.contains(frame.middle()),
        None => some_display_shows(&scene.displays, frame),
    };
    let wanted = scene.borders && sized(&scene.focused) && at_home;
    let mut active: Option<BorderSpot> = None;
    if wanted {
        if !scene.focused.app_known {
            return None;
        }
        active = Some(BorderSpot { window: scene.focused.id, rect: focused });
    }
    let mut inactive: Vec<BorderSpot> = Vec::new();
    if scene.inactive_borders {
        let mut i: usize = 0;
        while i < scene.windows.len()
            invariant
                i <= scene.windows.len(),
                scene.wf(),
                live == scene.is_live(),
                inactive@ == scene.inactive_to(i as int),
            decreases scene.windows.len() - i,
        {
            let window = &scene.windows[i];
            let frame = border_frame_for(window, live, false, None);
            if window.managed && window.id != scene.focused.id && !window.full_screen
                && window.on_screen && sized(window) && some_display_shows(&scene.displays, frame)
                && window.app_known {
                inactive.push(
                    BorderSpot {
                        window: window.id,
                        rect: abs_cg_rect(frame, window.h_pad, window.v_pad),
                    },
                );
            }
            i = i + 1;
        }
    }
    Some(OverlayPicture { focused, active, inactive })
}

fn sized(window: &BorderWindow) -> (yes: bool)
    ensures
        yes == window.is_sized(),
{
    match window.size {
        Some(size) => size.x > 0 && size.y > 0,
        None => false,
    }
}

fn some_flying(windows: &Vec<BorderWindow>) -> (flying: bool)
    ensures
        flying == any_where(windows@, flies()),
{
    let mut i: usize = 0;
    while i < windows.len()
        invariant
            i <= windows.len(),
            first_where(windows@, flies()) == first_from(windows@, flies(), i as int),
        decreases windows.len() - i,
    {
        if let Some(flight) = windows[i].flight {
            if flight_driving(&flight) {
                return true;
            }
        }
        i = i + 1;
    }
    false
}

/// A drawn frame never puts two kinds of border on the focused window, and no
/// border on a window that is in fullscreen, off screen or without a size.
pub proof fn borders_stay_apart(scene: OverlayScene, n: int, k: int)
    requires
        0 <= n <= scene.windows@.len(),
        0 <= k < scene.inactive_to(n).len(),
    ensures
        scene.inactive_to(n)[k].window != scene.focused.id,
        exists|j: int|
            0 <= j < n && scene.inactive_bordered(#[trigger] scene.windows@[j])
                && scene.inactive_to(n)[k] == scene.spot(scene.windows@[j]),
    decreases n,
{
    if n > 0 {
        if scene.inactive_bordered(scene.windows@[n - 1]) && k == scene.inactive_to(n).len() - 1 {
            assert(scene.inactive_to(n)[k] == scene.spot(scene.windows@[n - 1]));
        } else {
            borders_stay_apart(scene, n - 1, k);
            let j = choose|j: int|
                0 <= j < n - 1 && scene.inactive_bordered(#[trigger] scene.windows@[j])
                    && scene.inactive_to(n - 1)[k] == scene.spot(scene.windows@[j]);
            assert(scene.inactive_bordered(scene.windows@[j]));
        }
    }
}

} // verus!
