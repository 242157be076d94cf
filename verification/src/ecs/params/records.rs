//! What is known of a window, and which one has the focus.
use vstd::prelude::*;

use crate::ecs::params::{
    fills_width, floats, focus_of, frame_of, is_entity, is_focused, moving_frame_of, origin_of,
    place_of, size_of, slot_of, tiled, Placement, WindowRecord,
};
use crate::ecs::Unmanaged;
use crate::geometry::{Origin, Size};
use crate::seqs::{find_where, lemma_first_from, lemma_first_is};

verus! {

/// The window with the focus is the only one that has it; where no window has it, or more
/// than one, none counts.
pub proof fn the_focus_is_one_window(windows: Seq<WindowRecord>, j: int, k: int)
    requires
        0 <= j < k < windows.len(),
    ensures
        focus_of(windows) matches Some(window) ==> window.focused && windows.contains(window),
        windows[j].focused && windows[k].focused ==> focus_of(windows) is None,
        (forall|i: int| 0 <= i < windows.len() && i != k ==> !(#[trigger] windows[i]).focused)
            && windows[k].focused ==> focus_of(windows) == Some(windows[k]),
        (forall|i: int| 0 <= i < windows.len() ==> !(#[trigger] windows[i]).focused) ==> focus_of(
            windows,
        ) is None,
{
    let p = is_focused();
    lemma_first_from(windows, p, 0);
    let at = crate::seqs::first_where(windows, p);
    assert(p(windows[j]) == windows[j].focused);
    assert(p(windows[k]) == windows[k].focused);
    if at < windows.len() {
        assert(p(windows[at]));
        lemma_first_from(windows, p, at + 1);
        let next = crate::seqs::first_from(windows, p, at + 1);
        if next < windows.len() {
            assert(p(windows[next]));
        }
    }
}

/// What is known of a window is what its own record says, wherever in the list that
/// stands.
pub proof fn records_tell_of_their_window(windows: Seq<WindowRecord>, k: int)
    requires
        0 <= k < windows.len(),
        forall|j: int| 0 <= j < k ==> (#[trigger] windows[j]).entity != windows[k].entity,
    ensures
        ({
            let window = windows[k];
            let entity = window.entity;
            &&& find_where(windows, is_entity(entity)) == Some(window)
            &&& place_of(windows, entity) == window.placement
            &&& fills_width(windows, entity) == window.full_width
            &&& floats(windows, entity) == (window.unmanaged == Some(Unmanaged::Floating))
            &&& tiled(windows, entity) == (window.unmanaged is None)
            &&& window.placement matches Some(place) ==> {
                &&& size_of(windows, entity) == Some(place.size)
                &&& origin_of(windows, entity) == Some(place.position)
                &&& slot_of(windows, entity) == Some(place.layout)
                &&& frame_of(windows, entity) == Some(place.spec_frame())
                &&& moving_frame_of(windows, entity) == Some(place.spec_moving_frame())
            }
            &&& window.placement is None ==> frame_of(windows, entity) is None && size_of(
                windows,
                entity,
            ) is None
        }),
{
    let p = is_entity(windows[k].entity);
    assert forall|j: int| 0 <= j < k implies !p(#[trigger] windows[j]) by {}
    lemma_first_is(windows, p, k);
}

/// The frame of a window at rest is where it is, at its size. One on its way to a place
/// or a size is taken to be there already.
pub proof fn moving_frames_are_where_they_go(place: Placement, origin: Origin, size: Size)
    requires
        place.position.sum_fits(place.size),
        0 <= place.size.x,
        0 <= place.size.y,
        0 <= size.x,
        0 <= size.y,
        origin.sum_fits(size),
        origin.sum_fits(place.size),
        place.position.sum_fits(size),
    ensures
        ({
            let still = Placement { reposition: None, resize: None, ..place };
            let moved = Placement { reposition: Some(origin), resize: None, ..place };
            let resized = Placement { reposition: None, resize: Some(size), ..place };
            let both = Placement { reposition: Some(origin), resize: Some(size), ..place };
            &&& place.spec_frame().min == place.position
            &&& place.spec_frame().max.x - place.position.x == place.size.x
            &&& place.spec_frame().max.y - place.position.y == place.size.y
            &&& still.spec_moving_frame() == place.spec_frame()
            &&& moved.spec_moving_frame().min == origin
            &&& moved.spec_moving_frame().spec_size() == place.size
            &&& resized.spec_moving_frame().min == place.position
            &&& resized.spec_moving_frame().spec_size() == size
            &&& both.spec_moving_frame().min == origin
            &&& both.spec_moving_frame().spec_size() == size
        }),
{
}

} // verus!
