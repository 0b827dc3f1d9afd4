use grid_ink::session::{Action, Color, Event, Session, Tool};

fn draw(x: i32, y: i32, pressure: u16) -> Event {
    Event::Draw { x, y, pressure }
}

#[test]
fn hover_exits_clear_history_then_one_draw_keeps_one_sample() {
    let mut s = Session::new();
    // Fill the history with two in-canvas samples.
    assert!(matches!(s.handle_event(draw(300, 300, 100)), Action::Nothing));
    assert!(matches!(s.handle_event(draw(310, 300, 100)), Action::Nothing));
    assert_eq!(s.history_len(), 2);
    // Three clear hover exits wipe it each time.
    for _ in 0..3 {
        assert!(matches!(s.handle_event(Event::Hover { distance: 10 }), Action::Nothing));
        assert_eq!(s.history_len(), 0);
    }
    // One draw inside the grid: exactly one sample, no tessellation yet.
    let a = s.handle_event(draw(320, 300, 100));
    assert!(matches!(a, Action::Nothing));
    assert_eq!(s.history_len(), 1);
}

#[test]
fn grazing_hover_does_not_clear() {
    let mut s = Session::new();
    s.handle_event(draw(300, 300, 100));
    assert!(matches!(s.handle_event(Event::Hover { distance: 1 }), Action::Nothing));
    assert_eq!(s.history_len(), 1);
    assert!(!s.tap_armed());
}

#[test]
fn tap_through_fires_exactly_once() {
    let mut s = Session::new();
    s.handle_event(draw(300, 300, 100));
    s.handle_event(Event::Hover { distance: 5 });
    assert!(s.tap_armed());
    let mut taps = 0;
    let mut paints = 0;
    for _ in 0..3 {
        match s.handle_event(draw(10, 20, 100)) {
            Action::TapThrough { x, y } => {
                assert_eq!((x, y), (10, 20));
                taps += 1;
            }
            Action::Paint { .. } => paints += 1,
            Action::Nothing => {}
        }
        assert_eq!(s.history_len(), 0);
    }
    assert_eq!(taps, 1);
    assert_eq!(paints, 0);
}

#[test]
fn out_of_canvas_draw_unarmed_does_nothing() {
    let mut s = Session::new();
    s.handle_event(draw(300, 300, 100));
    s.handle_event(draw(310, 300, 100));
    let a = s.handle_event(draw(2000, 2000, 100));
    assert!(matches!(a, Action::Nothing));
    assert_eq!(s.history_len(), 0);
}

#[test]
fn touch_release_clears_history_wholly() {
    let mut s = Session::new();
    s.handle_event(draw(300, 300, 100));
    s.handle_event(draw(310, 300, 100));
    let a = s.handle_event(Event::InstrumentChange { tool: Tool::Touch, state: false });
    assert!(matches!(a, Action::Nothing));
    assert_eq!(s.history_len(), 0);
}

#[test]
fn history_length_stays_within_window() {
    let mut s = Session::new();
    for k in 0..50 {
        s.handle_event(draw(300 + k, 300, 100));
        assert!(s.history_len() <= 3);
        assert!(s.history_len() <= 2);
    }
}

#[test]
fn third_sample_tessellates_with_midpoint_anchors_and_tapered_widths() {
    let mut s = Session::new();
    s.handle_event(draw(300, 300, 100));
    s.handle_event(draw(310, 302, 200));
    let a = s.handle_event(draw(320, 304, 300));
    match a {
        Action::Paint { seg, color } => {
            assert_eq!(color, Color::Black);
            // Doubled coordinates: start is the midpoint of the two newest
            // samples, control the middle sample, end the midpoint of the
            // two oldest.
            assert_eq!((seg.sx2, seg.sy2), (630, 606));
            assert_eq!((seg.cx2, seg.cy2), (620, 604));
            assert_eq!((seg.ex2, seg.ey2), (610, 602));
            // Widths: sums of the flanking pressure-scaled radii, pen
            // multiplier 3.
            assert_eq!(seg.ws, 3 * 300 + 3 * 200);
            assert_eq!(seg.wc, 2 * 3 * 200);
            assert_eq!(seg.we, 3 * 200 + 3 * 100);
        }
        _ => panic!("expected a paint action"),
    }
    assert_eq!(s.history_len(), 2);
}

#[test]
fn widths_grow_with_pressure() {
    let mut low = Session::new();
    low.handle_event(draw(300, 300, 100));
    low.handle_event(draw(310, 300, 100));
    let a_low = low.handle_event(draw(320, 300, 100));
    let mut high = Session::new();
    high.handle_event(draw(300, 300, 900));
    high.handle_event(draw(310, 300, 900));
    let a_high = high.handle_event(draw(320, 300, 900));
    match (a_low, a_high) {
        (Action::Paint { seg: sl, .. }, Action::Paint { seg: sh, .. }) => {
            assert!(sl.ws < sh.ws);
            assert!(sl.wc < sh.wc);
            assert!(sl.we < sh.we);
        }
        _ => panic!("expected paint actions"),
    }
}

#[test]
fn eraser_nib_takes_effect_on_next_draw() {
    let mut s = Session::new();
    // A pen stroke first.
    s.handle_event(draw(300, 300, 100));
    s.handle_event(draw(310, 300, 100));
    let pen = s.handle_event(draw(320, 300, 100));
    match pen {
        Action::Paint { seg, color } => {
            assert_eq!(color, Color::Black);
            assert_eq!(seg.wc, 2 * 3 * 100);
        }
        _ => panic!("expected a paint action"),
    }
    // Toggle to the eraser end: the very next draw paints white with the
    // wide multiplier.
    s.handle_event(Event::InstrumentChange { tool: Tool::Rubber, state: true });
    assert!(s.is_eraser());
    let erase = s.handle_event(draw(330, 300, 100));
    match erase {
        Action::Paint { seg, color } => {
            assert_eq!(color, Color::White);
            assert_eq!(seg.wc, 2 * 50 * 100);
            assert_eq!(seg.ws, 50 * 100 + 50 * 100);
        }
        _ => panic!("expected a paint action"),
    }
    // And back to the pen restores the narrow black nib.
    s.handle_event(Event::InstrumentChange { tool: Tool::Pen, state: true });
    assert!(!s.is_eraser());
    let again = s.handle_event(draw(340, 300, 100));
    match again {
        Action::Paint { seg, color } => {
            assert_eq!(color, Color::Black);
            assert_eq!(seg.wc, 2 * 3 * 100);
        }
        _ => panic!("expected a paint action"),
    }
}

#[test]
fn instrument_change_tracks_range() {
    let mut s = Session::new();
    s.handle_event(Event::InstrumentChange { tool: Tool::Pen, state: true });
    assert!(s.is_in_range());
    assert!(!s.is_eraser());
    s.handle_event(Event::InstrumentChange { tool: Tool::Rubber, state: false });
    assert!(!s.is_in_range());
    assert!(s.is_eraser());
}

#[test]
fn ignored_events_change_nothing() {
    let mut s = Session::new();
    s.handle_event(draw(300, 300, 100));
    let a = s.handle_event(Event::Other);
    assert!(matches!(a, Action::Nothing));
    assert_eq!(s.history_len(), 1);
}
