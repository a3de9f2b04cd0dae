//! The overlay's command surface: each host event or command becomes a change
//! of the selection state and an action for the host to perform.
use vstd::prelude::*;
use crate::selection::{
    Bounds, CaptureError, ElementState, MouseButton, RegionSelectionState, SelectionPhase,
    WindowSize, bounds_from, fits_region,
};

verus! {

/// What the host is to do after an event.
#[derive(Clone, Copy, Debug, PartialEq, Eq, Structural)]
pub enum OverlayAction {
    /// Nothing.
    Ignore,
    /// Paint a new frame.
    Redraw,
    /// Close the overlay window.
    Close,
    /// Paint one transparent frame, present it, then run the capture.
    BeginCapture,
}

/// A snapshot of the selection for a remote interface to poll.
#[derive(Clone, Debug, PartialEq, Eq)]
pub struct RSStateResponse {
    pub phase: String,
    pub bounds: Option<Bounds>,
}

/// The name of a phase as the snapshot reports it.
pub open spec fn phase_name(p: SelectionPhase) -> Seq<char> {
    match p {
        SelectionPhase::Idle => "Idle"@,
        SelectionPhase::Drawing => "Drawing"@,
        SelectionPhase::Confirmed => "Confirmed"@,
        SelectionPhase::Moving { .. } => "Moving"@,
        SelectionPhase::Capturing => "Capturing"@,
    }
}

/// The pointer moved to `(x, y)`.
pub fn rs_cursor(fsm: &mut RegionSelectionState, x: i32, y: i32) -> (r: OverlayAction)
    ensures
        *final(fsm) == old(fsm).cursor_step(x, y),
        r == OverlayAction::Redraw,
{
    fsm.update_cursor(x, y);
    OverlayAction::Redraw
}

/// A button went down; only the primary button counts.
pub fn rs_mousedown(fsm: &mut RegionSelectionState, button: MouseButton) -> (r: OverlayAction)
    ensures
        *final(fsm) == old(fsm).mouse_step(button, ElementState::Pressed),
        r == (if button == MouseButton::Left {
            OverlayAction::Redraw
        } else {
            OverlayAction::Ignore
        }),
{
    if button == MouseButton::Left {
        fsm.handle_mouse(button, ElementState::Pressed);
        OverlayAction::Redraw
    } else {
        OverlayAction::Ignore
    }
}

/// A button went up; only the primary button counts.
pub fn rs_mouseup(fsm: &mut RegionSelectionState, button: MouseButton) -> (r: OverlayAction)
    ensures
        *final(fsm) == old(fsm).mouse_step(button, ElementState::Released),
        r == (if button == MouseButton::Left {
            OverlayAction::Redraw
        } else {
            OverlayAction::Ignore
        }),
{
    if button == MouseButton::Left {
        fsm.handle_mouse(button, ElementState::Released);
        OverlayAction::Redraw
    } else {
        OverlayAction::Ignore
    }
}

/// The confirm key: a confirmed selection enters `Capturing` once; repeated
/// presses before the cycle ends do nothing.
pub fn rs_key_enter(fsm: &mut RegionSelectionState) -> (r: OverlayAction)
    ensures
        old(fsm).phase == SelectionPhase::Confirmed && !old(fsm).capture_debounce ==> {
            &&& r == OverlayAction::BeginCapture
            &&& *final(fsm) == (RegionSelectionState {
                phase: SelectionPhase::Capturing,
                capture_debounce: true,
                ..*old(fsm)
            })
        },
        !(old(fsm).phase == SelectionPhase::Confirmed && !old(fsm).capture_debounce) ==> {
            &&& r == OverlayAction::Ignore
            &&& *final(fsm) == *old(fsm)
        },
        old(fsm).wf() ==> final(fsm).wf(),
{
    if fsm.phase == SelectionPhase::Confirmed && !fsm.capture_debounce {
        fsm.capture_debounce = true;
        fsm.phase = SelectionPhase::Capturing;
        OverlayAction::BeginCapture
    } else {
        OverlayAction::Ignore
    }
}

/// The escape key: closes the overlay from `Idle`, otherwise drops the
/// selection.
pub fn rs_key_escape(fsm: &mut RegionSelectionState) -> (r: OverlayAction)
    ensures
        old(fsm).phase == SelectionPhase::Idle ==> r == OverlayAction::Close && *final(fsm)
            == *old(fsm),
        old(fsm).phase != SelectionPhase::Idle ==> r == OverlayAction::Redraw && *final(fsm)
            == old(fsm).reset_spec(),
        final(fsm).phase == SelectionPhase::Idle,
        old(fsm).wf() ==> final(fsm).wf(),
{
    if fsm.phase == SelectionPhase::Idle {
        OverlayAction::Close
    } else {
        fsm.reset();
        OverlayAction::Redraw
    }
}

/// The window was resized.
pub fn rs_set_window_size(fsm: &mut RegionSelectionState, width: u32, height: u32)
    ensures
        *final(fsm) == (RegionSelectionState {
            window_size: WindowSize { width, height },
            ..*old(fsm)
        }),
{
    fsm.window_size = WindowSize::new(width, height);
}

/// A snapshot of the phase and the rectangle.
pub fn rs_get_state(fsm: &RegionSelectionState) -> (r: RSStateResponse)
    ensures
        r.phase@ == phase_name(fsm.phase),
        r.bounds == (match fsm.bounds_spec() {
            Some(t) => Some(bounds_from(t)),
            None => None,
        }),
{
    let name = match fsm.phase {
        SelectionPhase::Idle => "Idle",
        SelectionPhase::Drawing => "Drawing",
        SelectionPhase::Confirmed => "Confirmed",
        SelectionPhase::Moving { .. } => "Moving",
        SelectionPhase::Capturing => "Capturing",
    };
    let bounds = match fsm.selection_bounds() {
        Some((x, y, w, h)) => Some(Bounds { x, y, w, h }),
        None => None,
    };
    RSStateResponse { phase: name.to_owned(), bounds }
}

/// The first half of a capture cycle, once the transparent frame is on
/// screen: the region for the screenshot service. When there is none, or it
/// does not fit the service's types, the cycle ends here with the selection
/// reset and the guard cleared.
pub fn rs_do_capture(fsm: &mut RegionSelectionState) -> (r: Result<
    (i32, i32, u32, u32),
    CaptureError,
>)
    ensures
        match old(fsm).capture_spec() {
            Ok(b) => if fits_region(b) {
                &&& r == Ok::<(i32, i32, u32, u32), CaptureError>(
                    (b.x as i32, b.y as i32, b.w as u32, b.h as u32),
                )
                &&& *final(fsm) == *old(fsm)
            } else {
                &&& r == Err::<(i32, i32, u32, u32), CaptureError>(
                    CaptureError::InvalidGeometry,
                )
                &&& *final(fsm) == old(fsm).finished_spec()
            },
            Err(e) => r == Err::<(i32, i32, u32, u32), CaptureError>(e) && *final(fsm)
                == old(fsm).finished_spec(),
        },
{
    let region = match fsm.capture() {
        Ok(b) => b.to_region(),
        Err(e) => Err(e),
    };
    if region.is_err() {
        fsm.reset();
        fsm.capture_debounce = false;
    }
    region
}

} // verus!
