//! Which windows get a border, and where it is drawn.
use vstd::prelude::*;

use crate::ecs::systems::overlay::{
    covers_middle, inset, overlay_gate, padded, pads_fit, BorderWindow, OverlayFacts, OverlayGate,
    OverlayScene, PressHitCache,
};
use crate::geometry::IRect;
use crate::seqs::{any_where, lemma_first_from, lemma_pushed};
use crate::time::Duration;

verus! {

/// A border is drawn around what the window server shows: the paddings that are added to
/// a recorded frame are taken off again.
pub proof fn borders_fit_what_shows(raw: IRect, h_pad: i32, v_pad: i32)
    requires
        pads_fit(raw, h_pad, v_pad),
    ensures
        ({
            let rect = inset(padded(raw, h_pad, v_pad), h_pad, v_pad);
            &&& rect.x == raw.min.x
            &&& rect.y == raw.min.y
            &&& rect.width == raw.max.x - raw.min.x
            &&& rect.height == raw.max.y - raw.min.y
        }),
{
}

/// A window at rest is drawn where it was seen; one that a native drag holds where the
/// drag paints it; one that moves where the layout has it, exactly if its movement is the
/// layout's own.
pub proof fn borders_follow_the_right_frame(window: BorderWindow, frame: IRect, paint: IRect)
    requires
        window.layout == Some(frame),
    ensures
        window.border_frame(true, true, Some(paint)) == paint,
        window.border_frame(true, true, None) == window.seen_frame(),
        !window.is_flying() ==> window.border_frame(false, false, Some(paint))
            == window.seen_frame(),
        window.animator_owns() || window.holder_driven ==> window.border_frame(true, false, None)
            == frame,
        window.recorded is None ==> window.seen_frame() == window.cached,
{
}

/// Every tiled window on screen with a size, whose middle lies on a display, gets a border
/// where unfocused windows get one; the focused window does not get a second one, and no
/// other window gets any.
pub proof fn unfocused_windows_get_their_border(scene: OverlayScene, n: int, k: int)
    requires
        0 <= k < n <= scene.windows@.len(),
    ensures
        ({
            let window = scene.windows@[k];
            &&& scene.inactive_bordered(window) ==> scene.inactive_to(n).contains(scene.spot(window))
            &&& window.id == scene.focused.id || !window.managed || window.full_screen
                || !window.on_screen || !window.is_sized() ==> !scene.inactive_bordered(window)
        }),
    decreases n,
{
    let window = scene.windows@[k];
    lemma_pushed(scene.inactive_to(n - 1), scene.spot(scene.windows@[n - 1]), scene.spot(window));
    if k < n - 1 {
        unfocused_windows_get_their_border(scene, n - 1, k);
    }
}

/// The focused window gets a border where it has a size and its middle lies on its own
/// display, or on any where its own is not known.
pub proof fn the_focused_window_gets_its_border(scene: OverlayScene, k: int)
    requires
        0 <= k < scene.displays@.len(),
    ensures
        ({
            let frame = scene.focused_frame();
            &&& scene.wants_focus_border() ==> scene.borders && scene.focused.is_sized()
            &&& scene.borders && scene.focused.is_sized() ==> {
                &&& scene.owner matches Some(bounds) ==> (scene.wants_focus_border()
                    <==> bounds.holds(frame.spec_center()))
                &&& scene.owner is None && scene.displays@[k].holds(frame.spec_center())
                    ==> scene.wants_focus_border()
            }
        }),
{
    let frame = scene.focused_frame();
    lemma_first_from(scene.displays@, covers_middle(frame), 0);
    assert((covers_middle(frame))(scene.displays@[k]) == scene.displays@[k].holds(
        frame.spec_center(),
    ));
    if scene.owner is None && scene.displays@[k].holds(frame.spec_center()) {
        assert(any_where(scene.displays@, covers_middle(frame)));
    }
}

/// Borders and dimming are drawn only on a strip on screen, for one focused window that is
/// not in full screen, and where the settings ask for one of them. Nothing is touched
/// while a button is down elsewhere.
pub proof fn overlays_are_drawn_for_one_window(facts: OverlayFacts)
    ensures
        ({
            let gate = overlay_gate(facts);
            &&& gate == OverlayGate::Draw ==> {
                &&& facts.has_workspace && !facts.mission_control && !facts.fullscreen
                &&& facts.dims || facts.borders
                &&& facts.focused == 1 && !facts.focused_full_screen
                &&& facts.focused_owned || facts.focused_visible
            }
            &&& !facts.has_workspace || facts.mission_control || facts.fullscreen ==> gate
                == OverlayGate::HideAll
            &&& facts.has_workspace && !facts.mission_control && !facts.fullscreen && !facts.dims
                && !facts.borders ==> gate == OverlayGate::RemoveAll
            &&& gate == OverlayGate::HideBorders ==> facts.holder_held && !facts.driven_held
            &&& facts.has_workspace && !facts.mission_control && !facts.fullscreen && facts.borders
                && !facts.holder_held && !facts.button_held && facts.focused == 1
                && !facts.focused_full_screen && facts.focused_owned ==> gate == OverlayGate::Draw
        }),
{
}

/// What a press hit is looked up anew once the last answer is old, and only then.
pub proof fn press_answers_grow_old(cache: PressHitCache, now: Duration, later: Duration)
    requires
        now.nanos <= later.nanos,
    ensures
        cache.at is None ==> cache.is_stale(now),
        cache.is_stale(now) ==> cache.is_stale(later),
        cache.at == Some(now) ==> !cache.is_stale(now),
{
}

} // verus!
