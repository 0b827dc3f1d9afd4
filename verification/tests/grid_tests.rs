use grid_ink::geometry::cell_position;
use grid_ink::grid::{
    clear_polygon_points, digit_cmds, generate_puzzle, grid_line_cmds, grid_refresh,
    stroke_refresh, GridMask, RefreshKind,
};

#[test]
fn mask_holds_exactly_the_given_digits() {
    let mut digits = vec![0u8; 81];
    digits[0] = 5;
    digits[40] = 9;
    digits[80] = 1;
    let mask = GridMask::from_digits(digits.clone());
    for (i, d) in digits.iter().enumerate() {
        assert_eq!(mask.digit(i), *d);
        assert_eq!(mask.is_protected(i), *d != 0);
    }
}

#[test]
fn writable_respects_givens_and_borders() {
    let mut digits = vec![0u8; 81];
    digits[0] = 7;
    let mask = GridMask::from_digits(digits);
    // Middle of cell 0: protected by the given.
    assert!(!mask.writable(182, 182));
    // Middle of cell 1: open.
    assert!(mask.writable(312, 182));
    // On the border line between cells 0 and 1: reserved.
    assert!(!mask.writable(247, 182));
    // Outside the grid extent entirely.
    assert!(!mask.writable(50, 50));
    assert!(!mask.writable(1400, 200));
}

#[test]
fn generated_puzzle_has_81_digits_up_to_nine() {
    let mask = generate_puzzle();
    let mut givens = 0;
    for i in 0..81 {
        let d = mask.digit(i);
        assert!(d <= 9);
        if d != 0 {
            givens += 1;
        }
    }
    // A generated puzzle always shows at least some clues.
    assert!(givens > 0);
}

#[test]
fn skeleton_has_twenty_lines_with_box_emphasis() {
    let lines = grid_line_cmds();
    assert_eq!(lines.len(), 20);
    // First vertical line: the grid's left edge, double-thick.
    let l0 = lines[0];
    assert_eq!((l0.x0, l0.y0, l0.x1, l0.y1, l0.width), (117, 117, 117, 1287, 4));
    // Second vertical line: thin.
    let l1 = lines[1];
    assert_eq!((l1.x0, l1.width), (247, 2));
    // Every third line is double-thick.
    for (i, l) in lines.iter().take(10).enumerate() {
        assert_eq!(l.width, if i % 3 == 0 { 4 } else { 2 });
        assert_eq!(l.x0, 117 + 130 * i as u32);
        assert_eq!(l.x0, l.x1);
    }
    // Last horizontal line: the grid's bottom edge.
    let l19 = lines[19];
    assert_eq!((l19.x0, l19.y0, l19.x1, l19.y1, l19.width), (117, 1287, 1287, 1287, 4));
}

#[test]
fn clear_polygon_spans_the_bordered_grid() {
    let pts = clear_polygon_points();
    assert_eq!(pts.len(), 4);
    assert_eq!(pts[0], (115, 115));
    assert_eq!(pts[1], (115, 1285));
    assert_eq!(pts[2], (1285, 1285));
    assert_eq!(pts[3], (1285, 115));
}

#[test]
fn digit_labels_sit_inside_their_cells() {
    let mut digits = vec![0u8; 81];
    digits[0] = 5;
    digits[10] = 3;
    digits[80] = 9;
    let mask = GridMask::from_digits(digits);
    let cmds = digit_cmds(&mask);
    assert_eq!(cmds.len(), 3);
    assert_eq!((cmds[0].x, cmds[0].y, cmds[0].digit), (160, 214, 5));
    assert_eq!((cmds[1].x, cmds[1].y, cmds[1].digit), (160 + 130, 214 + 130, 3));
    assert_eq!((cmds[2].x, cmds[2].y, cmds[2].digit), (160 + 130 * 8, 214 + 130 * 8, 9));
}

#[test]
fn empty_mask_yields_no_labels() {
    let mask = GridMask::from_digits(vec![0u8; 81]);
    assert_eq!(digit_cmds(&mask).len(), 0);
}

#[test]
fn label_positions_match_cell_position() {
    assert_eq!(cell_position(0, 0), (160, 214));
    assert_eq!(cell_position(2, 3), (160 + 260, 214 + 390));
    assert_eq!(cell_position(8, 8), (160 + 1040, 214 + 1040));
}

#[test]
fn stroke_refresh_is_fast_and_async() {
    let region = grid_ink::geometry::Rect { top: 200, left: 300, width: 10, height: 12 };
    let c = stroke_refresh(region);
    assert_eq!(c.region, region);
    assert_eq!(c.kind, RefreshKind::FastPartial);
    assert!(!c.wait);
}

#[test]
fn grid_refresh_covers_the_bordered_grid_in_full_fidelity_and_blocks() {
    let c = grid_refresh();
    assert_eq!((c.region.top, c.region.left), (115, 115));
    assert_eq!((c.region.width, c.region.height), (1174, 1174));
    assert_eq!(c.kind, RefreshKind::FullFidelity);
    assert!(c.wait);
}

#[test]
fn canvas_membership_matches_the_centered_grid() {
    let r = grid_ink::geometry::canvas_rect();
    assert_eq!((r.top, r.left, r.width, r.height), (117, 117, 1170, 1170));
    assert!(grid_ink::geometry::in_canvas(117, 117));
    assert!(grid_ink::geometry::in_canvas(1286, 1286));
    assert!(!grid_ink::geometry::in_canvas(116, 200));
    assert!(!grid_ink::geometry::in_canvas(200, 1287));
}
