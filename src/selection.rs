//! The region-selection state machine: geometry of the selected rectangle and
//! the phase of the interaction (drawing, confirmed, moving, capturing).
use vstd::prelude::*;

verus! {

/// Smallest width and height a freshly drawn selection may have.
pub const MIN_BOX_SIZE: usize = 25;

/// A window's size in physical pixels.
#[derive(Clone, Copy, Debug, PartialEq, Eq, Structural)]
pub struct WindowSize {
    pub width: u32,
    pub height: u32,
}

impl WindowSize {
    pub fn new(width: u32, height: u32) -> (r: WindowSize)
        ensures
            r.width == width,
            r.height == height,
    {
        WindowSize { width, height }
    }
}

/// The pointer button an event concerns.
#[derive(Clone, Copy, Debug, PartialEq, Eq, Structural)]
pub enum MouseButton {
    Left,
    Right,
    Middle,
    Back,
    Forward,
    Other(u16),
}

/// Whether a button went down or up.
#[derive(Clone, Copy, Debug, PartialEq, Eq, Structural)]
pub enum ElementState {
    Pressed,
    Released,
}

/// The vector from a rectangle's top-left corner to the point that grabbed it.
#[derive(Clone, Copy, Debug, PartialEq, Eq, Structural)]
pub struct Offset {
    pub x: u32,
    pub y: u32,
}

/// The phase of the interaction.
#[derive(Clone, Copy, Debug, PartialEq, Eq, Structural)]
pub enum SelectionPhase {
    /// No selection exists.
    Idle,
    /// A new rectangle is being dragged out; `end` follows the cursor.
    Drawing,
    /// A rectangle of at least the minimum size exists and is not being edited.
    Confirmed,
    /// The confirmed rectangle is being dragged; `offset` runs from its
    /// top-left corner to the point where the drag started.
    Moving { offset: Offset },
    /// One transparent frame is to be shown, then the region is captured.
    Capturing,
}

/// The whole mutable state of one overlay session. Coordinates are physical
/// pixels in window space.
#[derive(Clone, Copy, Debug)]
pub struct RegionSelectionState {
    pub start: Option<(u32, u32)>,
    pub end: Option<(u32, u32)>,
    pub cursor_pos: (u32, u32),
    pub window_size: WindowSize,
    pub phase: SelectionPhase,
    pub capture_debounce: bool,
}

/// Clamps a signed coordinate to be non-negative.
pub open spec fn clamp_coord(v: i32) -> u32 {
    if v < 0 {
        0
    } else {
        v as u32
    }
}

pub open spec fn min_u32(a: u32, b: u32) -> u32 {
    if a <= b {
        a
    } else {
        b
    }
}

pub open spec fn dist_u32(a: u32, b: u32) -> u32 {
    if a >= b {
        (a - b) as u32
    } else {
        (b - a) as u32
    }
}

/// The rectangle `(x, y, w, h)` spanned by two corner points.
pub open spec fn rect_of(s: (u32, u32), e: (u32, u32)) -> (usize, usize, usize, usize) {
    (
        min_u32(s.0, e.0) as usize,
        min_u32(s.1, e.1) as usize,
        dist_u32(s.0, e.0) as usize,
        dist_u32(s.1, e.1) as usize,
    )
}

/// Where a rectangle of extent `len` starts along one axis of a window of
/// extent `win` when its start is dragged to `cursor - offset`: the candidate
/// is pushed right of zero, then back left so that the far edge stays inside
/// the window where the rectangle fits at all.
pub open spec fn moved_start(cursor: u32, offset: u32, len: int, win: u32) -> int {
    let cand = cursor - offset;
    let a = if cand < 0 {
        0
    } else {
        cand
    };
    if a + len > win {
        if win - len >= 0 {
            win - len
        } else {
            0
        }
    } else {
        a
    }
}

impl RegionSelectionState {
    /// The selection rectangle, present exactly when both corners are.
    pub open spec fn bounds_spec(&self) -> Option<(usize, usize, usize, usize)> {
        match (self.start, self.end) {
            (Some(s), Some(e)) => Some(rect_of(s, e)),
            _ => None,
        }
    }

    /// Both corners are present together, and exactly outside `Idle`.
    pub open spec fn wf(&self) -> bool {
        &&& self.start.is_some() == self.end.is_some()
        &&& (self.phase == SelectionPhase::Idle) == self.start.is_none()
    }

    /// Inclusive test of a point against the selection rectangle.
    pub open spec fn contains_spec(&self, x: int, y: int) -> bool {
        match self.bounds_spec() {
            Some((bx, by, bw, bh)) => bx <= x <= bx + bw && by <= y <= by + bh,
            None => false,
        }
    }

    /// The state after `reset`.
    pub open spec fn reset_spec(self) -> Self {
        RegionSelectionState { start: None, end: None, phase: SelectionPhase::Idle, ..self }
    }

    /// The state after the cursor moves to `(x, y)`.
    pub open spec fn cursor_step(self, x: i32, y: i32) -> Self {
        let c = (clamp_coord(x), clamp_coord(y));
        let moved = RegionSelectionState { cursor_pos: c, ..self };
        match self.phase {
            SelectionPhase::Drawing => RegionSelectionState { end: Some(c), ..moved },
            SelectionPhase::Moving { offset } => match self.bounds_spec() {
                Some((_bx, _by, w, h)) => {
                    let nx = moved_start(c.0, offset.x, w as int, self.window_size.width);
                    let ny = moved_start(c.1, offset.y, h as int, self.window_size.height);
                    RegionSelectionState {
                        start: Some((nx as u32, ny as u32)),
                        end: Some(((nx + w) as u32, (ny + h) as u32)),
                        ..moved
                    }
                },
                None => moved,
            },
            _ => moved,
        }
    }

    /// The transition table of the primary button.
    pub open spec fn mouse_step(self, button: MouseButton, state: ElementState) -> Self {
        if button != MouseButton::Left {
            self
        } else {
            match (self.phase, state) {
                (SelectionPhase::Idle, ElementState::Pressed) => RegionSelectionState {
                    start: Some(self.cursor_pos),
                    end: Some(self.cursor_pos),
                    phase: SelectionPhase::Drawing,
                    ..self
                },
                (SelectionPhase::Drawing, ElementState::Released) => match self.bounds_spec() {
                    Some((_x, _y, w, h)) => if w < MIN_BOX_SIZE || h < MIN_BOX_SIZE {
                        self.reset_spec()
                    } else {
                        RegionSelectionState { phase: SelectionPhase::Confirmed, ..self }
                    },
                    None => self.reset_spec(),
                },
                (SelectionPhase::Confirmed, ElementState::Pressed) => match self.bounds_spec() {
                    Some((bx, by, _w, _h)) => if self.contains_spec(
                        self.cursor_pos.0 as int,
                        self.cursor_pos.1 as int,
                    ) {
                        RegionSelectionState {
                            phase: SelectionPhase::Moving {
                                offset: Offset {
                                    x: (self.cursor_pos.0 - bx) as u32,
                                    y: (self.cursor_pos.1 - by) as u32,
                                },
                            },
                            ..self
                        }
                    } else {
                        self
                    },
                    None => self,
                },
                (SelectionPhase::Moving { .. }, ElementState::Released) => RegionSelectionState {
                    phase: SelectionPhase::Confirmed,
                    ..self
                },
                _ => self,
            }
        }
    }
}

impl Default for RegionSelectionState {
    fn default() -> (r: RegionSelectionState)
        ensures
            r.start.is_none(),
            r.end.is_none(),
            r.phase == SelectionPhase::Idle,
            r.cursor_pos == (0u32, 0u32),
            r.window_size == (WindowSize { width: 1, height: 1 }),
            !r.capture_debounce,
            r.wf(),
    {
        RegionSelectionState {
            start: None,
            end: None,
            phase: SelectionPhase::Idle,
            cursor_pos: (0, 0),
            window_size: WindowSize::new(1, 1),
            capture_debounce: false,
        }
    }
}

impl RegionSelectionState {
    /// The rectangle `(x, y, w, h)` spanned by `start` and `end`, or `None`
    /// unless both are set.
    pub fn selection_bounds(&self) -> (r: Option<(usize, usize, usize, usize)>)
        ensures
            r == self.bounds_spec(),
    {
        match (self.start, self.end) {
            (Some((sx, sy)), Some((ex, ey))) => {
                let x = if sx <= ex {
                    sx
                } else {
                    ex
                };
                let y = if sy <= ey {
                    sy
                } else {
                    ey
                };
                let w = if sx >= ex {
                    sx - ex
                } else {
                    ex - sx
                };
                let h = if sy >= ey {
                    sy - ey
                } else {
                    ey - sy
                };
                Some((x as usize, y as usize, w as usize, h as usize))
            },
            _ => None,
        }
    }

    /// Whether `(x, y)` lies in the selection rectangle, edges included;
    /// `false` when there is no rectangle.
    pub fn hit_test(&self, x: i64, y: i64) -> (r: bool)
        ensures
            r == self.contains_spec(x as int, y as int),
    {
        match self.selection_bounds() {
            Some((bx, by, bw, bh)) => {
                let bx = bx as i64;
                let by = by as i64;
                let bw = bw as i64;
                let bh = bh as i64;
                x >= bx && y >= by && x <= bx + bw && y <= by + bh
            },
            None => false,
        }
    }

    /// Stores the cursor, clamped to be non-negative. While drawing, the free
    /// corner follows it; while moving, the rectangle follows it with its size
    /// kept and its far edges held inside the window where it fits.
    pub fn update_cursor(&mut self, x: i32, y: i32)
        ensures
            *final(self) == old(self).cursor_step(x, y),
            old(self).wf() ==> final(self).wf(),
            final(self).phase == old(self).phase,
            final(self).cursor_pos == (clamp_coord(x), clamp_coord(y)),
            old(self).phase is Moving && old(self).bounds_spec() is Some ==> {
                let (_ox, _oy, w, h) = old(self).bounds_spec().unwrap();
                let (nx, ny, nw, nh) = final(self).bounds_spec().unwrap();
                &&& final(self).bounds_spec() is Some
                &&& nw == w && nh == h
                &&& w <= old(self).window_size.width ==> nx + nw <= old(self).window_size.width
                &&& h <= old(self).window_size.height ==> ny + nh <= old(self).window_size.height
            },
    {
        let cx: u32 = if x < 0 {
            0
        } else {
            x as u32
        };
        let cy: u32 = if y < 0 {
            0
        } else {
            y as u32
        };
        self.cursor_pos = (cx, cy);
        match self.phase {
            SelectionPhase::Drawing => {
                self.end = Some((cx, cy));
            },
            SelectionPhase::Moving { offset } => {
                if let Some((_bx, _by, w, h)) = self.selection_bounds() {
                    let nx = Self::moved_axis(cx, offset.x, w as u32, self.window_size.width);
                    let ny = Self::moved_axis(cy, offset.y, h as u32, self.window_size.height);
                    self.start = Some((nx, ny));
                    self.end = Some((nx + w as u32, ny + h as u32));
                }
            },
            _ => {},
        }
    }

    /// One axis of a move: the new start of a span of extent `len`.
    fn moved_axis(cursor: u32, offset: u32, len: u32, win: u32) -> (r: u32)
        ensures
            r == moved_start(cursor, offset, len as int, win),
            r + len <= u32::MAX,
    {
        let cand: i64 = cursor as i64 - offset as i64;
        let a: i64 = if cand < 0 {
            0
        } else {
            cand
        };
        if a + len as i64 > win as i64 {
            if win >= len {
                win - len
            } else {
                0
            }
        } else {
            a as u32
        }
    }

    /// Applies a primary-button event; other buttons are ignored.
    pub fn handle_mouse(&mut self, button: MouseButton, state: ElementState)
        ensures
            *final(self) == old(self).mouse_step(button, state),
            old(self).wf() ==> final(self).wf(),
    {
        if button != MouseButton::Left {
            return ;
        }
        match (self.phase, state) {
            (SelectionPhase::Idle, ElementState::Pressed) => {
                self.start = Some(self.cursor_pos);
                self.end = Some(self.cursor_pos);
                self.phase = SelectionPhase::Drawing;
            },
            (SelectionPhase::Drawing, ElementState::Released) => {
                if let Some((_x, _y, w, h)) = self.selection_bounds() {
                    if w < MIN_BOX_SIZE || h < MIN_BOX_SIZE {
                        self.reset();
                    } else {
                        self.phase = SelectionPhase::Confirmed;
                    }
                } else {
                    self.reset();
                }
            },
            (SelectionPhase::Confirmed, ElementState::Pressed) => {
                let (cx, cy) = self.cursor_pos;
                if let Some((x, y, _w, _h)) = self.selection_bounds() {
                    if self.hit_test(cx as i64, cy as i64) {
                        let offset = Offset { x: (cx as usize - x) as u32, y: (cy as usize - y) as u32 };
                        self.phase = SelectionPhase::Moving { offset };
                    }
                }
            },
            (SelectionPhase::Moving { .. }, ElementState::Released) => {
                self.phase = SelectionPhase::Confirmed;
            },
            _ => {},
        }
    }

    /// Drops the selection and returns to `Idle`; the cursor, the window size
    /// and the capture guard are kept.
    pub fn reset(&mut self)
        ensures
            *final(self) == old(self).reset_spec(),
            final(self).wf(),
    {
        self.start = None;
        self.end = None;
        self.phase = SelectionPhase::Idle;
    }
}

/// Why a capture did not happen.
#[derive(Clone, Debug, PartialEq, Eq)]
pub enum CaptureError {
    /// There was no rectangle to capture.
    NoSelection,
    /// The screenshot service failed, with its message.
    CaptureFailed(String),
    /// The rectangle does not fit the screenshot service's coordinate types.
    InvalidGeometry,
}

/// A selection rectangle: top-left corner, width and height.
#[derive(Clone, Copy, Debug, PartialEq, Eq, Structural)]
pub struct Bounds {
    pub x: usize,
    pub y: usize,
    pub w: usize,
    pub h: usize,
}

pub open spec fn bounds_from(t: (usize, usize, usize, usize)) -> Bounds {
    Bounds { x: t.0, y: t.1, w: t.2, h: t.3 }
}

/// Whether a rectangle can be handed to a screenshot service that takes a
/// signed 32-bit corner and an unsigned 32-bit size.
pub open spec fn fits_region(b: Bounds) -> bool {
    b.x <= i32::MAX && b.y <= i32::MAX && b.w <= u32::MAX && b.h <= u32::MAX
}

impl Bounds {
    /// The rectangle as the `(x, y, w, h)` arguments of a screenshot service.
    pub fn to_region(&self) -> (r: Result<(i32, i32, u32, u32), CaptureError>)
        ensures
            fits_region(*self) ==> r == Ok::<(i32, i32, u32, u32), CaptureError>(
                (self.x as i32, self.y as i32, self.w as u32, self.h as u32),
            ),
            !fits_region(*self) ==> r == Err::<(i32, i32, u32, u32), CaptureError>(
                CaptureError::InvalidGeometry,
            ),
    {
        if self.x <= i32::MAX as usize && self.y <= i32::MAX as usize && self.w <= u32::MAX as usize
            && self.h <= u32::MAX as usize {
            Ok((self.x as i32, self.y as i32, self.w as u32, self.h as u32))
        } else {
            Err(CaptureError::InvalidGeometry)
        }
    }
}

impl RegionSelectionState {
    /// What `capture` returns.
    pub open spec fn capture_spec(&self) -> Result<Bounds, CaptureError> {
        match self.bounds_spec() {
            Some(t) => Ok(bounds_from(t)),
            None => Err(CaptureError::NoSelection),
        }
    }

    /// The state once a capture cycle is over, whatever its outcome.
    pub open spec fn finished_spec(self) -> Self {
        RegionSelectionState { capture_debounce: false, ..self.reset_spec() }
    }

    /// The rectangle to capture, or `NoSelection`. The capture itself is left
    /// to the caller.
    pub fn capture(&self) -> (r: Result<Bounds, CaptureError>)
        ensures
            r == self.capture_spec(),
    {
        match self.selection_bounds() {
            Some((x, y, w, h)) => Ok(Bounds { x, y, w, h }),
            None => Err(CaptureError::NoSelection),
        }
    }

    /// Ends a capture cycle: the selection is reset and the capture guard is
    /// cleared, whether the screenshot (`shot`: a handle or a message)
    /// succeeded or not.
    pub fn finish_capture(&mut self, shot: Result<String, String>) -> (r: Result<
        String,
        CaptureError,
    >)
        ensures
            *final(self) == old(self).finished_spec(),
            final(self).wf(),
            shot is Ok ==> r == Ok::<String, CaptureError>(shot->Ok_0),
            shot is Err ==> r == Err::<String, CaptureError>(
                CaptureError::CaptureFailed(shot->Err_0),
            ),
    {
        self.reset();
        self.capture_debounce = false;
        match shot {
            Ok(handle) => Ok(handle),
            Err(message) => Err(CaptureError::CaptureFailed(message)),
        }
    }
}

} // verus!
