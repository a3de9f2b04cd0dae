//! Software painting of the overlay's frames into a row-major ARGB pixel
//! buffer. Every write goes through `put_pixel`, which drops any pixel whose
//! index falls outside the buffer.
use vstd::prelude::*;
use crate::selection::{RegionSelectionState, SelectionPhase};

verus! {

/// Period of the marching-ants dash pattern, in pixels.
pub const DASH: u64 = 8;

/// Length of the drawn part of each dash, in pixels.
pub const LINE: u64 = 4;

/// Backdrop: black at half opacity.
pub const DIM_COLOR: u32 = 0x8000_0000;

/// Fully transparent.
pub const CLEAR_COLOR: u32 = 0x0000_0000;

/// Outline of a rectangle being drawn.
pub const DRAW_COLOR: u32 = 0xFFFF_FFFF;

/// Solid outline of a confirmed rectangle.
pub const ACCENT_COLOR: u32 = 0xFFFF_FF00;

/// The marching ants over the solid outline.
pub const ANT_COLOR: u32 = 0xFF00_0000;

/// Index of the pixel in column `col` of row `row` when rows are `wt` wide.
pub open spec fn at(wt: int, col: int, row: int) -> int {
    row * wt + col
}

/// Index `j` lies on row `row`, between columns `c0` and `c1` inclusive.
pub open spec fn on_row(wt: int, row: int, c0: int, c1: int, j: int) -> bool {
    at(wt, c0, row) <= j <= at(wt, c1, row)
}

/// Index `j` lies in column `col`, between rows `r0` and `r1` inclusive.
pub open spec fn on_col(wt: int, col: int, r0: int, r1: int, j: int) -> bool {
    exists|row: int| r0 <= row <= r1 && j == #[trigger] at(wt, col, row)
}

/// The one-pixel outline of the rectangle with corner `(x, y)` and extent
/// `(w, h)`; its right and bottom edges are columns `x + w` and row `y + h`.
pub open spec fn border_set(wt: int, x: int, y: int, w: int, h: int, j: int) -> bool {
    ||| on_row(wt, y, x, x + w, j)
    ||| on_row(wt, y + h, x, x + w, j)
    ||| on_col(wt, x, y, y + h, j)
    ||| on_col(wt, x + w, y, y + h, j)
}

/// Index `j` lies in the run of `w` pixels that starts at column `x` of some
/// row from `r0` to `r1`, and that whole run lies within `len` pixels.
pub open spec fn in_fill(wt: int, x: int, r0: int, r1: int, w: int, len: int, j: int) -> bool {
    exists|row: int|
        r0 <= row <= r1 && #[trigger] at(wt, x, row) <= j < at(wt, x, row) + w && at(wt, x, row)
            + w <= len
}

/// Whether position `t` along a dashed edge is drawn at animation frame `f`.
pub open spec fn on_dash(t: int, f: int) -> bool {
    (t + f) % (DASH as int) < LINE as int
}

/// The marching ants around the rectangle at frame `f`: the top and right
/// edges count forward from the top-left corner, the bottom and left edges
/// count backward, so that the dashes run around the outline.
pub open spec fn ants_set(wt: int, x: int, y: int, w: int, h: int, f: int, j: int) -> bool {
    ||| on_row(wt, y, x, x + w, j) && on_dash(j - at(wt, x, y), f)
    ||| on_row(wt, y + h, x, x + w, j) && on_dash(w - (j - at(wt, x, y + h)), f)
    ||| exists|row: int| y <= row <= y + h && j == #[trigger] at(wt, x + w, row) && on_dash(row - y, f)
    ||| exists|row: int|
        y <= row <= y + h && j == #[trigger] at(wt, x, row) && on_dash(h - (row - y), f)
}

/// One less, but not below zero.
pub open spec fn dec_sat(v: int) -> int {
    if v >= 1 {
        v - 1
    } else {
        0
    }
}

/// The two-pixel outline of a confirmed rectangle: its own outline and one
/// grown by a pixel on every side (on the left and top only where there is
/// room).
pub open spec fn bold_set(wt: int, x: int, y: int, w: int, h: int, j: int) -> bool {
    border_set(wt, x, y, w, h, j) || border_set(wt, dec_sat(x), dec_sat(y), w + 2, h + 2, j)
}

/// A surface dimension: the window's, but at least one pixel.
pub open spec fn surface_dim(v: u32) -> int {
    if v == 0 {
        1
    } else {
        v as int
    }
}

/// The rectangle as drawn on a `wt` by `ht` surface: its corner moved onto
/// the surface and its extent cut so that its far edges stay one pixel inside.
pub open spec fn clamp_rect(b: (usize, usize, usize, usize), wt: int, ht: int) -> (
    int,
    int,
    int,
    int,
) {
    let x = if b.0 >= wt {
        wt - 1
    } else {
        b.0 as int
    };
    let y = if b.1 >= ht {
        ht - 1
    } else {
        b.1 as int
    };
    let w = if x + b.2 >= wt {
        wt - 1 - x
    } else {
        b.2 as int
    };
    let h = if y + b.3 >= ht {
        ht - 1 - y
    } else {
        b.3 as int
    };
    (x, y, w, h)
}

/// The colour of pixel `j` of a frame of `len` pixels painted for `state` at
/// animation frame `frame`.
pub open spec fn frame_pixel(state: RegionSelectionState, frame: u32, len: int, j: int) -> u32 {
    let wt = surface_dim(state.window_size.width);
    let ht = surface_dim(state.window_size.height);
    match state.bounds_spec() {
        None => DIM_COLOR,
        Some(b) => {
            let (x, y, w, h) = clamp_rect(b, wt, ht);
            match state.phase {
                SelectionPhase::Idle => DIM_COLOR,
                SelectionPhase::Drawing => if border_set(wt, x, y, w, h, j) {
                    DRAW_COLOR
                } else if in_fill(wt, x, y, y + h, w, len, j) {
                    CLEAR_COLOR
                } else {
                    DIM_COLOR
                },
                SelectionPhase::Confirmed | SelectionPhase::Moving { .. } => if ants_set(
                    wt,
                    x,
                    y,
                    w,
                    h,
                    frame as int,
                    j,
                ) {
                    ANT_COLOR
                } else if bold_set(wt, x, y, w, h, j) {
                    ACCENT_COLOR
                } else if in_fill(wt, x, y, y + h, w, len, j) {
                    CLEAR_COLOR
                } else {
                    DIM_COLOR
                },
                SelectionPhase::Capturing => CLEAR_COLOR,
            }
        },
    }
}

/// The frame counter after one more frame, wrapping to zero.
pub open spec fn next_frame(frame: u32) -> u32 {
    if frame == u32::MAX {
        0
    } else {
        (frame + 1) as u32
    }
}

/// Writes `color` at column `col` of row `row` when that index lies in the
/// buffer; otherwise leaves the buffer as it is.
fn put_pixel(buffer: &mut [u32], wt: u64, col: u64, row: u64, color: u32)
    ensures
        final(buffer)@ == (if at(wt as int, col as int, row as int) < old(buffer)@.len() {
            old(buffer)@.update(at(wt as int, col as int, row as int), color)
        } else {
            old(buffer)@
        }),
{
    let n = buffer.len();
    assert(n <= u64::MAX);
    match row.checked_mul(wt) {
        Some(base) => match base.checked_add(col) {
            Some(i) => {
                if i < n as u64 {
                    buffer[i as usize] = color;
                }
            },
            None => {},
        },
        None => {
            assert(at(wt as int, col as int, row as int) >= row * wt);
        },
    }
}

/// Sets every pixel of the buffer to `color`.
fn fill_all(buffer: &mut [u32], color: u32)
    ensures
        final(buffer)@.len() == old(buffer)@.len(),
        forall|j: int| 0 <= j < final(buffer)@.len() ==> final(buffer)@[j] == color,
{
    let n = buffer.len();
    let mut i: usize = 0;
    while i < n
        invariant
            n == buffer@.len(),
            n == old(buffer)@.len(),
            i <= n,
            forall|j: int| 0 <= j < i ==> buffer@[j] == color,
        decreases n - i,
    {
        buffer[i] = color;
        i += 1;
    }
}

/// Draws the one-pixel outline of a rectangle.
fn draw_border(buffer: &mut [u32], wt: u64, x: u64, y: u64, w: u64, h: u64, color: u32)
    requires
        x + w < u64::MAX,
        y + h < u64::MAX,
    ensures
        final(buffer)@.len() == old(buffer)@.len(),
        forall|j: int|
            0 <= j < old(buffer)@.len() ==> final(buffer)@[j] == if border_set(
                wt as int,
                x as int,
                y as int,
                w as int,
                h as int,
                j,
            ) {
                color
            } else {
                old(buffer)@[j]
            },
{
    let ghost orig = buffer@;
    let ghost wi = wt as int;
    let top = y;
    let bottom = y + h;
    let left = x;
    let right = x + w;
    let mut dx = left;
    while dx <= right
        invariant
            buffer@.len() == orig.len(),
            left <= dx <= right + 1,
            top == y,
            bottom == y + h,
            left == x,
            right == x + w,
            wi == wt,
            right < u64::MAX,
            forall|j: int|
                0 <= j < orig.len() ==> buffer@[j] == if on_row(wi, top as int, left as int, dx - 1, j)
                    || on_row(wi, bottom as int, left as int, dx - 1, j) {
                    color
                } else {
                    orig[j]
                },
        decreases right + 1 - dx,
    {
        put_pixel(buffer, wt, dx, top, color);
        put_pixel(buffer, wt, dx, bottom, color);
        dx += 1;
    }
    let mut dy = top;
    while dy <= bottom
        invariant
            buffer@.len() == orig.len(),
            top <= dy <= bottom + 1,
            top == y,
            bottom == y + h,
            left == x,
            right == x + w,
            wi == wt,
            bottom < u64::MAX,
            forall|j: int|
                0 <= j < orig.len() ==> buffer@[j] == if on_row(wi, top as int, left as int, right as int, j)
                    || on_row(wi, bottom as int, left as int, right as int, j)
                    || on_col(wi, left as int, top as int, dy - 1, j)
                    || on_col(wi, right as int, top as int, dy - 1, j) {
                    color
                } else {
                    orig[j]
                },
        decreases bottom + 1 - dy,
    {
        let ghost before = buffer@;
        put_pixel(buffer, wt, left, dy, color);
        put_pixel(buffer, wt, right, dy, color);
        assert forall|j: int| 0 <= j < orig.len() implies buffer@[j] == if on_row(wi, top as int, left as int, right as int, j)
            || on_row(wi, bottom as int, left as int, right as int, j)
            || on_col(wi, left as int, top as int, dy as int, j)
            || on_col(wi, right as int, top as int, dy as int, j) {
            color
        } else {
            orig[j]
        } by {
            let pl = at(wi, left as int, dy as int);
            let pr = at(wi, right as int, dy as int);
            if on_col(wi, left as int, top as int, dy as int, j) && j != pl {
                let row = choose|row: int| top <= row <= dy && j == #[trigger] at(wi, left as int, row);
                assert(row != dy);
                assert(on_col(wi, left as int, top as int, dy - 1, j));
            }
            if on_col(wi, right as int, top as int, dy as int, j) && j != pr {
                let row = choose|row: int| top <= row <= dy && j == #[trigger] at(wi, right as int, row);
                assert(row != dy);
                assert(on_col(wi, right as int, top as int, dy - 1, j));
            }
            if on_col(wi, left as int, top as int, dy - 1, j) {
                let row = choose|row: int| top <= row <= dy - 1 && j == #[trigger] at(wi, left as int, row);
                assert(on_col(wi, left as int, top as int, dy as int, j));
            }
            if on_col(wi, right as int, top as int, dy - 1, j) {
                let row = choose|row: int| top <= row <= dy - 1 && j == #[trigger] at(wi, right as int, row);
                assert(on_col(wi, right as int, top as int, dy as int, j));
            }
            if j == pl {
                assert(on_col(wi, left as int, top as int, dy as int, j));
            }
            if j == pr {
                assert(on_col(wi, right as int, top as int, dy as int, j));
            }
        }
        dy += 1;
    }
}

/// Fills, on every row from `y` to `y + h`, the run of `w` pixels that starts
/// at column `x`; a run that does not lie wholly in the buffer is skipped.
fn fill_region(buffer: &mut [u32], wt: u64, x: u64, y: u64, w: u64, h: u64, color: u32)
    requires
        y + h < u64::MAX,
    ensures
        final(buffer)@.len() == old(buffer)@.len(),
        forall|j: int|
            0 <= j < old(buffer)@.len() ==> final(buffer)@[j] == if in_fill(
                wt as int,
                x as int,
                y as int,
                y + h,
                w as int,
                old(buffer)@.len() as int,
                j,
            ) {
                color
            } else {
                old(buffer)@[j]
            },
{
    let ghost orig = buffer@;
    let ghost wi = wt as int;
    let n = buffer.len();
    assert(n <= u64::MAX);
    let last = y + h;
    let mut row = y;
    while row <= last
        invariant
            buffer@.len() == orig.len(),
            n == orig.len(),
            n <= u64::MAX,
            wi == wt,
            last == y + h,
            last < u64::MAX,
            y <= row <= last + 1,
            forall|j: int|
                0 <= j < orig.len() ==> buffer@[j] == if in_fill(
                    wi,
                    x as int,
                    y as int,
                    row - 1,
                    w as int,
                    n as int,
                    j,
                ) {
                    color
                } else {
                    orig[j]
                },
        decreases last + 1 - row,
    {
        let ghost base = at(wi, x as int, row as int);
        let mut span: Option<(u64, u64)> = None;
        match row.checked_mul(wt) {
            Some(r) => match r.checked_add(x) {
                Some(s) => match s.checked_add(w) {
                    Some(e) => {
                        if e <= n as u64 {
                            span = Some((s, e));
                        }
                    },
                    None => {},
                },
                None => {},
            },
            None => {
                assert(base >= row * wt);
            },
        }
        assert(span is None ==> base + w > n);
        assert(span is Some ==> span->Some_0.0 == base && span->Some_0.1 == base + w && base + w
            <= n);
        if let Some((s, e)) = span {
            let mut i = s;
            while i < e
                invariant
                    buffer@.len() == orig.len(),
                    n == orig.len(),
                    wi == wt,
                    y <= row <= last,
                    s == base,
                    e == base + w,
                    e <= n,
                    s <= i <= e,
                    forall|j: int|
                        0 <= j < orig.len() ==> buffer@[j] == if in_fill(
                            wi,
                            x as int,
                            y as int,
                            row - 1,
                            w as int,
                            n as int,
                            j,
                        ) || s <= j < i {
                            color
                        } else {
                            orig[j]
                        },
                decreases e - i,
            {
                buffer[i as usize] = color;
                i += 1;
            }
        }
        assert forall|j: int| 0 <= j < orig.len() implies buffer@[j] == if in_fill(
            wi,
            x as int,
            y as int,
            row as int,
            w as int,
            n as int,
            j,
        ) {
            color
        } else {
            orig[j]
        } by {
            if in_fill(wi, x as int, y as int, row as int, w as int, n as int, j) {
                let r = choose|r: int|
                    y <= r <= row && #[trigger] at(wi, x as int, r) <= j < at(wi, x as int, r) + w
                        && at(wi, x as int, r) + w <= n;
                if r < row {
                    assert(in_fill(wi, x as int, y as int, row - 1, w as int, n as int, j));
                }
            }
            if in_fill(wi, x as int, y as int, row - 1, w as int, n as int, j) {
                let r = choose|r: int|
                    y <= r <= row - 1 && #[trigger] at(wi, x as int, r) <= j < at(wi, x as int, r)
                        + w && at(wi, x as int, r) + w <= n;
                assert(in_fill(wi, x as int, y as int, row as int, w as int, n as int, j));
            }
            if span is Some && base <= j < base + w {
                assert(in_fill(wi, x as int, y as int, row as int, w as int, n as int, j));
            }
        }
        row += 1;
    }
}

/// Draws the marching ants around a rectangle at animation frame `frame`.
fn draw_marching_ants(
    buffer: &mut [u32],
    wt: u64,
    x: u64,
    y: u64,
    w: u64,
    h: u64,
    frame: u32,
    color: u32,
)
    requires
        w <= u32::MAX,
        h <= u32::MAX,
        x + w < u64::MAX,
        y + h < u64::MAX,
    ensures
        final(buffer)@.len() == old(buffer)@.len(),
        forall|j: int|
            0 <= j < old(buffer)@.len() ==> final(buffer)@[j] == if ants_set(
                wt as int,
                x as int,
                y as int,
                w as int,
                h as int,
                frame as int,
                j,
            ) {
                color
            } else {
                old(buffer)@[j]
            },
{
    let ghost orig = buffer@;
    let ghost wi = wt as int;
    let ghost xi = x as int;
    let ghost yi = y as int;
    let ghost wd = w as int;
    let ghost hd = h as int;
    let ghost f = frame as int;
    let top = y;
    let bottom = y + h;
    let left = x;
    let right = x + w;
    let phase = frame as u64;
    let mut dx: u64 = 0;
    while dx <= w
        invariant
            buffer@.len() == orig.len(),
            dx <= w + 1,
            w <= u32::MAX,
            hd == h,
            wi == wt,
            xi == x,
            yi == y,
            wd == w,
            f == frame,
            phase == frame,
            top == y,
            bottom == y + h,
            left == x,
            right == x + w,
            right < u64::MAX,
            forall|j: int|
                0 <= j < orig.len() ==> buffer@[j] == if (on_row(wi, yi, xi, xi + dx - 1, j)
                    && on_dash(j - at(wi, xi, yi), f)) || (on_row(
                    wi,
                    yi + hd,
                    xi,
                    xi + dx - 1,
                    j,
                ) && on_dash(wd - (j - at(wi, xi, yi + hd)), f)) {
                    color
                } else {
                    orig[j]
                },
        decreases w + 1 - dx,
    {
        let px = left + dx;
        let ghost pt = at(wi, xi + dx, yi);
        let ghost pb = at(wi, xi + dx, yi + hd);
        assert(pt - at(wi, xi, yi) == dx);
        assert(pb - at(wi, xi, yi + hd) == dx);
        let ghost top_on = on_dash(dx as int, f);
        let ghost bottom_on = on_dash(wd - dx, f);
        if (dx + phase) % DASH < LINE {
            put_pixel(buffer, wt, px, top, color);
        }
        if (w - dx + phase) % DASH < LINE {
            put_pixel(buffer, wt, px, bottom, color);
        }
        assert forall|j: int| 0 <= j < orig.len() implies buffer@[j] == if (on_row(
            wi,
            yi,
            xi,
            xi + dx,
            j,
        ) && on_dash(j - at(wi, xi, yi), f)) || (on_row(wi, yi + hd, xi, xi + dx, j) && on_dash(
            wd - (j - at(wi, xi, yi + hd)),
            f,
        )) {
            color
        } else {
            orig[j]
        } by {
            assert(on_row(wi, yi, xi, xi + dx, j) <==> on_row(wi, yi, xi, xi + dx - 1, j) || j
                == pt);
            assert(on_row(wi, yi + hd, xi, xi + dx, j) <==> on_row(wi, yi + hd, xi, xi + dx - 1, j)
                || j == pb);
        }
        dx += 1;
    }
    let mut dy: u64 = 0;
    while dy <= h
        invariant
            buffer@.len() == orig.len(),
            dy <= h + 1,
            h <= u32::MAX,
            wi == wt,
            xi == x,
            yi == y,
            wd == w,
            hd == h,
            f == frame,
            phase == frame,
            top == y,
            bottom == y + h,
            left == x,
            right == x + w,
            bottom < u64::MAX,
            forall|j: int|
                0 <= j < orig.len() ==> buffer@[j] == if (on_row(wi, yi, xi, xi + wd, j) && on_dash(
                    j - at(wi, xi, yi),
                    f,
                )) || (on_row(wi, yi + hd, xi, xi + wd, j) && on_dash(
                    wd - (j - at(wi, xi, yi + hd)),
                    f,
                )) || (exists|row: int|
                    yi <= row <= yi + dy - 1 && j == #[trigger] at(wi, xi + wd, row) && on_dash(
                        row - yi,
                        f,
                    )) || (exists|row: int|
                    yi <= row <= yi + dy - 1 && j == #[trigger] at(wi, xi, row) && on_dash(
                        hd - (row - yi),
                        f,
                    )) {
                    color
                } else {
                    orig[j]
                },
        decreases h + 1 - dy,
    {
        let py = top + dy;
        let ghost pr = at(wi, xi + wd, py as int);
        let ghost pl = at(wi, xi, py as int);
        let ghost right_on = on_dash(dy as int, f);
        let ghost left_on = on_dash(hd - dy, f);
        if (dy + phase) % DASH < LINE {
            put_pixel(buffer, wt, right, py, color);
        }
        if (h - dy + phase) % DASH < LINE {
            put_pixel(buffer, wt, left, py, color);
        }
        assert forall|j: int| 0 <= j < orig.len() implies buffer@[j] == if (on_row(
            wi,
            yi,
            xi,
            xi + wd,
            j,
        ) && on_dash(j - at(wi, xi, yi), f)) || (on_row(wi, yi + hd, xi, xi + wd, j) && on_dash(
            wd - (j - at(wi, xi, yi + hd)),
            f,
        )) || (exists|row: int|
            yi <= row <= yi + dy && j == #[trigger] at(wi, xi + wd, row) && on_dash(
                row - yi,
                f,
            )) || (exists|row: int|
            yi <= row <= yi + dy && j == #[trigger] at(wi, xi, row) && on_dash(
                hd - (row - yi),
                f,
            )) {
            color
        } else {
            orig[j]
        } by {
            if exists|row: int|
                yi <= row <= yi + dy && j == #[trigger] at(wi, xi + wd, row) && on_dash(
                    row - yi,
                    f,
                ) {
                let row = choose|row: int|
                    yi <= row <= yi + dy && j == #[trigger] at(wi, xi + wd, row) && on_dash(
                        row - yi,
                        f,
                    );
                if row < yi + dy {
                    assert(yi <= row <= yi + dy - 1 && j == at(wi, xi + wd, row));
                }
            }
            if exists|row: int|
                yi <= row <= yi + dy && j == #[trigger] at(wi, xi, row) && on_dash(
                    hd - (row - yi),
                    f,
                ) {
                let row = choose|row: int|
                    yi <= row <= yi + dy && j == #[trigger] at(wi, xi, row) && on_dash(
                        hd - (row - yi),
                        f,
                    );
                if row < yi + dy {
                    assert(yi <= row <= yi + dy - 1 && j == at(wi, xi, row));
                }
            }
            if exists|row: int|
                yi <= row <= yi + dy - 1 && j == #[trigger] at(wi, xi + wd, row) && on_dash(
                    row - yi,
                    f,
                ) {
                let row = choose|row: int|
                    yi <= row <= yi + dy - 1 && j == #[trigger] at(wi, xi + wd, row) && on_dash(
                        row - yi,
                        f,
                    );
                assert(yi <= row <= yi + dy && j == at(wi, xi + wd, row));
            }
            if exists|row: int|
                yi <= row <= yi + dy - 1 && j == #[trigger] at(wi, xi, row) && on_dash(
                    hd - (row - yi),
                    f,
                ) {
                let row = choose|row: int|
                    yi <= row <= yi + dy - 1 && j == #[trigger] at(wi, xi, row) && on_dash(
                        hd - (row - yi),
                        f,
                    );
                assert(yi <= row <= yi + dy && j == at(wi, xi, row));
            }
            if j == pr && right_on {
                assert(yi <= py <= yi + dy && j == at(wi, xi + wd, py as int));
            }
            if j == pl && left_on {
                assert(yi <= py <= yi + dy && j == at(wi, xi, py as int));
            }
        }
        dy += 1;
    }
}

/// Clears the rectangle's inside and draws its two-pixel outline.
fn draw_bold_border(buffer: &mut [u32], wt: u64, x: u64, y: u64, w: u64, h: u64, color: u32)
    requires
        x + w + 2 < u64::MAX,
        y + h + 2 < u64::MAX,
    ensures
        final(buffer)@.len() == old(buffer)@.len(),
        forall|j: int|
            0 <= j < old(buffer)@.len() ==> final(buffer)@[j] == if bold_set(
                wt as int,
                x as int,
                y as int,
                w as int,
                h as int,
                j,
            ) {
                color
            } else if in_fill(
                wt as int,
                x as int,
                y as int,
                y + h,
                w as int,
                old(buffer)@.len() as int,
                j,
            ) {
                CLEAR_COLOR
            } else {
                old(buffer)@[j]
            },
{
    fill_region(buffer, wt, x, y, w, h, CLEAR_COLOR);
    draw_border(buffer, wt, x, y, w, h, color);
    let ox = x.saturating_sub(1);
    let oy = y.saturating_sub(1);
    draw_border(buffer, wt, ox, oy, w + 2, h + 2, color);
}

/// Paints one frame for `state` at animation frame `frame`: the dimmed
/// backdrop, then the selection as its phase shows it. Rows are as wide as
/// the window; pixels that fall outside the buffer are not written.
pub fn paint_frame(buffer: &mut [u32], state: &RegionSelectionState, frame: u32)
    ensures
        final(buffer)@.len() == old(buffer)@.len(),
        forall|j: int|
            0 <= j < old(buffer)@.len() ==> final(buffer)@[j] == frame_pixel(
                *state,
                frame,
                old(buffer)@.len() as int,
                j,
            ),
{
    let wt: u64 = if state.window_size.width == 0 {
        1
    } else {
        state.window_size.width as u64
    };
    let ht: u64 = if state.window_size.height == 0 {
        1
    } else {
        state.window_size.height as u64
    };
    fill_all(buffer, DIM_COLOR);
    if let Some((bx, by, bw, bh)) = state.selection_bounds() {
        let mut x = bx as u64;
        let mut y = by as u64;
        let mut w = bw as u64;
        let mut h = bh as u64;
        if x >= wt {
            x = wt - 1;
        }
        if y >= ht {
            y = ht - 1;
        }
        if w >= wt - x {
            w = wt - 1 - x;
        }
        if h >= ht - y {
            h = ht - 1 - y;
        }
        assert((x as int, y as int, w as int, h as int) == clamp_rect(
            (bx, by, bw, bh),
            wt as int,
            ht as int,
        ));
        match state.phase {
            SelectionPhase::Idle => {},
            SelectionPhase::Drawing => {
                fill_region(buffer, wt, x, y, w, h, CLEAR_COLOR);
                draw_border(buffer, wt, x, y, w, h, DRAW_COLOR);
            },
            SelectionPhase::Confirmed | SelectionPhase::Moving { .. } => {
                draw_bold_border(buffer, wt, x, y, w, h, ACCENT_COLOR);
                draw_marching_ants(buffer, wt, x, y, w, h, frame, ANT_COLOR);
            },
            SelectionPhase::Capturing => {
                fill_all(buffer, CLEAR_COLOR);
            },
        }
    }
}

/// Paints successive frames of the overlay; the frame counter drives the
/// marching ants.
#[derive(Clone, Copy, Debug)]
pub struct RegionSelectionRenderer {
    pub frame: u32,
}

impl RegionSelectionRenderer {
    pub fn new() -> (r: RegionSelectionRenderer)
        ensures
            r.frame == 0,
    {
        RegionSelectionRenderer { frame: 0 }
    }

    /// The size the pixel surface must have for `state`: the window's, at
    /// least one pixel each way.
    pub fn surface_size(state: &RegionSelectionState) -> (r: (u32, u32))
        ensures
            r.0 == surface_dim(state.window_size.width),
            r.1 == surface_dim(state.window_size.height),
    {
        let w = if state.window_size.width == 0 {
            1
        } else {
            state.window_size.width
        };
        let h = if state.window_size.height == 0 {
            1
        } else {
            state.window_size.height
        };
        (w, h)
    }

    /// Advances the frame counter, wrapping on overflow, and paints the new
    /// frame into `buffer`.
    pub fn draw(&mut self, buffer: &mut [u32], state: &RegionSelectionState)
        ensures
            final(self).frame == next_frame(old(self).frame),
            final(buffer)@.len() == old(buffer)@.len(),
            forall|j: int|
                0 <= j < old(buffer)@.len() ==> final(buffer)@[j] == frame_pixel(
                    *state,
                    final(self).frame,
                    old(buffer)@.len() as int,
                    j,
                ),
    {
        self.frame = self.frame.wrapping_add(1);
        paint_frame(buffer, state, self.frame);
    }
}

/// The marching ants repeat every `DASH` frames: two frame counters that
/// agree modulo the dash period paint the same pixel.
pub proof fn lemma_ants_period(state: RegionSelectionState, f1: u32, f2: u32, len: int, j: int)
    requires
        f1 as int % DASH as int == f2 as int % DASH as int,
    ensures
        frame_pixel(state, f1, len, j) == frame_pixel(state, f2, len, j),
{
    assert forall|t: int| #[trigger] on_dash(t, f1 as int) == on_dash(t, f2 as int) by {
        vstd::arithmetic::div_mod::lemma_add_mod_noop(t, f1 as int, DASH as int);
        vstd::arithmetic::div_mod::lemma_add_mod_noop(t, f2 as int, DASH as int);
    }
}

} // verus!
