use umod::render::{
    paint_frame, RegionSelectionRenderer, ACCENT_COLOR, ANT_COLOR, CLEAR_COLOR, DIM_COLOR,
    DRAW_COLOR,
};
use umod::selection::{RegionSelectionState, SelectionPhase, WindowSize};

fn with_rect(
    width: u32,
    height: u32,
    start: (u32, u32),
    end: (u32, u32),
    phase: SelectionPhase,
) -> RegionSelectionState {
    let mut s = RegionSelectionState::default();
    s.window_size = WindowSize::new(width, height);
    s.start = Some(start);
    s.end = Some(end);
    s.phase = phase;
    s
}

#[test]
fn idle_frame_is_dimmed() {
    let mut s = RegionSelectionState::default();
    s.window_size = WindowSize::new(4, 3);
    let mut buf = vec![7u32; 12];
    paint_frame(&mut buf, &s, 0);
    assert!(buf.iter().all(|&p| p == DIM_COLOR));
    assert_eq!(DIM_COLOR, 0x8000_0000);
}

#[test]
fn drawing_frame_cuts_hole_and_outlines() {
    let s = with_rect(10, 10, (2, 2), (6, 5), SelectionPhase::Drawing);
    let mut buf = vec![0u32; 100];
    paint_frame(&mut buf, &s, 0);
    assert_eq!(buf[2 * 10 + 2], DRAW_COLOR);
    assert_eq!(buf[3 * 10 + 6], DRAW_COLOR);
    assert_eq!(buf[5 * 10 + 4], DRAW_COLOR);
    assert_eq!(buf[3 * 10 + 3], CLEAR_COLOR);
    assert_eq!(buf[4 * 10 + 5], CLEAR_COLOR);
    assert_eq!(buf[3 * 10 + 7], DIM_COLOR);
    assert_eq!(buf[6 * 10 + 3], DIM_COLOR);
    assert_eq!(buf[0], DIM_COLOR);
}

#[test]
fn confirmed_frame_has_bold_border_and_ants() {
    let s = with_rect(10, 10, (2, 2), (6, 5), SelectionPhase::Confirmed);
    let mut buf = vec![0u32; 100];
    paint_frame(&mut buf, &s, 0);
    // top edge: dashes on for the first four pixels, off for the fifth
    assert_eq!(buf[2 * 10 + 2], ANT_COLOR);
    assert_eq!(buf[2 * 10 + 5], ANT_COLOR);
    // outer ring of the bold border
    assert_eq!(buf[10 + 1], ACCENT_COLOR);
    assert_eq!(buf[6 * 10 + 7], ACCENT_COLOR);
    assert_eq!(buf[10 + 4], ACCENT_COLOR);
    // inside is cleared, outside dimmed
    assert_eq!(buf[3 * 10 + 3], CLEAR_COLOR);
    assert_eq!(buf[8 * 10 + 8], DIM_COLOR);
}

#[test]
fn moving_frame_matches_confirmed_frame() {
    let a = with_rect(10, 10, (2, 2), (6, 5), SelectionPhase::Confirmed);
    let b = with_rect(
        10,
        10,
        (2, 2),
        (6, 5),
        SelectionPhase::Moving { offset: umod::selection::Offset { x: 1, y: 1 } },
    );
    let mut p = vec![0u32; 100];
    let mut q = vec![0u32; 100];
    paint_frame(&mut p, &a, 5);
    paint_frame(&mut q, &b, 5);
    assert_eq!(p, q);
}

#[test]
fn capturing_frame_is_transparent() {
    let s = with_rect(8, 8, (1, 1), (5, 5), SelectionPhase::Capturing);
    let mut buf = vec![1u32; 64];
    paint_frame(&mut buf, &s, 9);
    assert!(buf.iter().all(|&p| p == CLEAR_COLOR));
}

#[test]
fn ants_repeat_every_eight_frames() {
    let s = with_rect(30, 20, (3, 4), (25, 15), SelectionPhase::Confirmed);
    let mut a = vec![0u32; 600];
    let mut b = vec![0u32; 600];
    let mut c = vec![0u32; 600];
    paint_frame(&mut a, &s, 3);
    paint_frame(&mut b, &s, 11);
    paint_frame(&mut c, &s, 4);
    assert_eq!(a, b);
    assert_ne!(a, c);
    let mut d = vec![0u32; 600];
    let mut e = vec![0u32; 600];
    paint_frame(&mut d, &s, u32::MAX);
    paint_frame(&mut e, &s, 7);
    assert_eq!(d, e);
}

#[test]
fn rect_past_the_edges_stays_in_buffer() {
    let s = with_rect(10, 10, (5, 5), (40, 40), SelectionPhase::Confirmed);
    let mut buf = vec![0u32; 100];
    paint_frame(&mut buf, &s, 0);
    assert_eq!(buf.len(), 100);
    let corner = with_rect(10, 10, (0, 0), (9, 9), SelectionPhase::Moving {
        offset: umod::selection::Offset { x: 0, y: 0 },
    });
    paint_frame(&mut buf, &corner, 1);
    assert_eq!(buf.len(), 100);
}

#[test]
fn short_buffer_drops_writes() {
    let s = with_rect(10, 10, (1, 1), (9, 9), SelectionPhase::Drawing);
    let mut buf = vec![0u32; 37];
    paint_frame(&mut buf, &s, 0);
    assert_eq!(buf.len(), 37);
    assert_eq!(buf[10 + 1], DRAW_COLOR);
    let mut empty: Vec<u32> = Vec::new();
    paint_frame(&mut empty, &s, 0);
    assert!(empty.is_empty());
}

#[test]
fn randomized_rects_stay_in_buffer() {
    let mut seed: u64 = 0x2545_f491_4f6c_dd1d;
    let mut next = |m: u64| {
        seed ^= seed << 13;
        seed ^= seed >> 7;
        seed ^= seed << 17;
        seed % m
    };
    let phases = [
        SelectionPhase::Drawing,
        SelectionPhase::Confirmed,
        SelectionPhase::Capturing,
        SelectionPhase::Idle,
    ];
    for round in 0..200 {
        let w = next(40) as u32;
        let h = next(40) as u32;
        let len = next(1700) as usize;
        let start = (next(80) as u32, next(80) as u32);
        let end = (next(80) as u32, next(80) as u32);
        let s = with_rect(w, h, start, end, phases[round % 4]);
        let mut buf = vec![3u32; len];
        paint_frame(&mut buf, &s, next(1000) as u32);
        assert_eq!(buf.len(), len);
    }
}

#[test]
fn renderer_advances_and_wraps_frame() {
    let s = with_rect(10, 10, (2, 2), (6, 5), SelectionPhase::Confirmed);
    let mut r = RegionSelectionRenderer::new();
    assert_eq!(r.frame, 0);
    let mut buf = vec![0u32; 100];
    r.draw(&mut buf, &s);
    assert_eq!(r.frame, 1);
    let mut expected = vec![0u32; 100];
    paint_frame(&mut expected, &s, 1);
    assert_eq!(buf, expected);
    r.frame = u32::MAX;
    r.draw(&mut buf, &s);
    assert_eq!(r.frame, 0);
}

#[test]
fn surface_is_at_least_one_pixel() {
    let mut s = RegionSelectionState::default();
    s.window_size = WindowSize::new(0, 0);
    assert_eq!(RegionSelectionRenderer::surface_size(&s), (1, 1));
    s.window_size = WindowSize::new(640, 480);
    assert_eq!(RegionSelectionRenderer::surface_size(&s), (640, 480));
}
