//! Properties of the selection state machine that span several events.
use vstd::prelude::*;
use crate::selection::{
    MIN_BOX_SIZE, CaptureError, ElementState, MouseButton, RegionSelectionState, SelectionPhase,
    bounds_from, clamp_coord,
};

verus! {

/// From `Idle`, a press of the primary button is the only button event that
/// leads to `Drawing`; every other button event leaves the state as it was,
/// and a cursor move changes nothing but the cursor.
pub proof fn lemma_idle_only_press_draws(
    s: RegionSelectionState,
    button: MouseButton,
    state: ElementState,
    x: i32,
    y: i32,
)
    requires
        s.phase == SelectionPhase::Idle,
    ensures
        (s.mouse_step(button, state).phase == SelectionPhase::Drawing) == (button
            == MouseButton::Left && state == ElementState::Pressed),
        !(button == MouseButton::Left && state == ElementState::Pressed) ==> s.mouse_step(
            button,
            state,
        ) == s,
        s.cursor_step(x, y) == (RegionSelectionState {
            cursor_pos: (clamp_coord(x), clamp_coord(y)),
            ..s
        }),
{
}

/// Releasing a drag whose rectangle is narrower or lower than the minimum
/// returns to `Idle` with both corners cleared.
pub proof fn lemma_small_drag_collapses(s: RegionSelectionState)
    requires
        s.wf(),
        s.phase == SelectionPhase::Drawing,
        s.bounds_spec()->Some_0.2 < MIN_BOX_SIZE || s.bounds_spec()->Some_0.3 < MIN_BOX_SIZE,
    ensures
        s.mouse_step(MouseButton::Left, ElementState::Released).phase == SelectionPhase::Idle,
        s.mouse_step(MouseButton::Left, ElementState::Released).start is None,
        s.mouse_step(MouseButton::Left, ElementState::Released).end is None,
{
}

/// Releasing a drag whose rectangle has at least the minimum width and height
/// confirms it unchanged.
pub proof fn lemma_large_drag_confirms(s: RegionSelectionState)
    requires
        s.wf(),
        s.phase == SelectionPhase::Drawing,
        s.bounds_spec()->Some_0.2 >= MIN_BOX_SIZE,
        s.bounds_spec()->Some_0.3 >= MIN_BOX_SIZE,
    ensures
        s.mouse_step(MouseButton::Left, ElementState::Released).phase
            == SelectionPhase::Confirmed,
        s.mouse_step(MouseButton::Left, ElementState::Released).bounds_spec()
            == s.bounds_spec(),
{
}

/// The hit test is inclusive: every point on the rectangle's edges is
/// inside, and every point one unit beyond an edge is outside.
pub proof fn lemma_hit_test_edges(s: RegionSelectionState)
    requires
        s.bounds_spec() is Some,
    ensures
        ({
            let (bx, by, bw, bh) = s.bounds_spec()->Some_0;
            &&& forall|x: int|
                bx <= x <= bx + bw ==> #[trigger] s.contains_spec(x, by as int) && s.contains_spec(
                    x,
                    by + bh,
                )
            &&& forall|y: int|
                by <= y <= by + bh ==> #[trigger] s.contains_spec(bx as int, y) && s.contains_spec(
                    bx + bw,
                    y,
                )
            &&& forall|y: int| !#[trigger] s.contains_spec(bx - 1, y) && !s.contains_spec(bx + bw + 1, y)
            &&& forall|x: int| !#[trigger] s.contains_spec(x, by - 1) && !s.contains_spec(x, by + bh + 1)
        }),
{
}

/// A capture hands out exactly the rectangle that the selection reports at
/// that moment, and once the cycle is over the selection is back in `Idle`
/// with the guard cleared, whatever the screenshot's outcome.
pub proof fn lemma_capture_round_trip(s: RegionSelectionState)
    requires
        s.bounds_spec() is Some,
    ensures
        s.capture_spec() == Ok::<_, CaptureError>(
            bounds_from(s.bounds_spec()->Some_0),
        ),
        s.finished_spec().phase == SelectionPhase::Idle,
        s.finished_spec().bounds_spec() is None,
        !s.finished_spec().capture_debounce,
{
}

} // verus!
