use grid_ink::grid::GridMask;
use grid_ink::raster::{rasterize, Segment};

fn empty_mask() -> GridMask {
    GridMask::from_digits(vec![0u8; 81])
}

/// A segment sitting still at one doubled coordinate with a constant width,
/// scaled by 4096: it stamps a disc of radius `width / 2` pixels.
fn dot_segment(x2: i32, y2: i32, width_px: i32) -> Segment {
    let w = 4096 * width_px;
    Segment { sx2: x2, sy2: y2, cx2: x2, cy2: y2, ex2: x2, ey2: y2, ws: w, wc: w, we: w }
}

#[test]
fn off_grid_curve_writes_nothing_and_rect_is_empty() {
    let mask = empty_mask();
    // A dot at pixel (20, 20), far outside the grid extent.
    let seg = dot_segment(40, 40, 10);
    assert!(seg.check_valid());
    let (writes, rect) = rasterize(&mask, &seg);
    assert_eq!(writes.len(), 0);
    assert_eq!((rect.top, rect.left, rect.width, rect.height), (0, 0, 0, 0));
}

#[test]
fn dot_in_open_cell_writes_and_reports_its_box() {
    let mask = empty_mask();
    // A dot of radius 5 at pixel (182, 182), the middle of cell 0.
    let seg = dot_segment(364, 364, 10);
    assert!(seg.check_valid());
    let (writes, rect) = rasterize(&mask, &seg);
    assert!(!writes.is_empty());
    // The center pixel itself is written.
    assert!(writes.iter().any(|p| p.x == 182 && p.y == 182));
    // The box is exactly the disc's bounding square.
    assert_eq!((rect.left, rect.top, rect.width, rect.height), (177, 177, 11, 11));
    // Every write stays within the reported rectangle and within cell 0.
    for p in writes.iter() {
        assert!(rect.left <= p.x && p.x < rect.left + rect.width);
        assert!(rect.top <= p.y && p.y < rect.top + rect.height);
        let lx = p.x - 117;
        let ly = p.y - 117;
        assert!(lx / 130 == 0 && ly / 130 == 0);
    }
}

#[test]
fn protected_cell_takes_no_ink_but_is_still_considered() {
    let mut digits = vec![0u8; 81];
    digits[0] = 5;
    let mask = GridMask::from_digits(digits);
    // The same dot as above, wholly inside the now-protected cell 0.
    let seg = dot_segment(364, 364, 10);
    let (writes, rect) = rasterize(&mask, &seg);
    assert_eq!(writes.len(), 0);
    // The refresh region still covers the considered pixels.
    assert_eq!((rect.left, rect.top, rect.width, rect.height), (177, 177, 11, 11));
}

#[test]
fn border_margin_pixels_are_skipped() {
    let mask = empty_mask();
    // A dot of radius 5 straddling the vertical border between cells 0 and
    // 1, at pixel (247, 182).
    let seg = dot_segment(494, 364, 10);
    let (writes, rect) = rasterize(&mask, &seg);
    assert!(!writes.is_empty());
    assert_eq!((rect.left, rect.top, rect.width, rect.height), (242, 177, 11, 11));
    for p in writes.iter() {
        let fx = (p.x - 117) % 130;
        let fy = (p.y - 117) % 130;
        assert!((2..=127).contains(&fx), "write at folded x {fx}");
        assert!((2..=127).contains(&fy), "write at folded y {fy}");
    }
    // Ink lands on both sides of the reserved border lines.
    assert!(writes.iter().any(|p| p.x <= 243));
    assert!(writes.iter().any(|p| p.x >= 251));
    // But never on the border columns themselves.
    assert!(!writes.iter().any(|p| (245..=248).contains(&p.x)));
}

#[test]
fn moving_segment_covers_both_ends() {
    let mask = empty_mask();
    // A stroke from pixel (150, 150) to pixel (230, 150), radius 3.
    let w = 4096 * 6;
    let seg = Segment {
        sx2: 300,
        sy2: 300,
        cx2: 380,
        cy2: 300,
        ex2: 460,
        ey2: 300,
        ws: w,
        wc: w,
        we: w,
    };
    assert!(seg.check_valid());
    let (writes, rect) = rasterize(&mask, &seg);
    assert!(writes.iter().any(|p| p.x == 150 && p.y == 150));
    assert!(writes.iter().any(|p| p.x == 230 && p.y == 150));
    assert_eq!((rect.left, rect.top, rect.width, rect.height), (147, 147, 87, 7));
}

#[test]
fn curve_clipped_at_grid_edge_never_writes_off_grid() {
    let mask = empty_mask();
    // A wide dot centered near the grid's left edge at pixel (120, 400).
    let seg = dot_segment(240, 800, 40);
    let (writes, _rect) = rasterize(&mask, &seg);
    assert!(!writes.is_empty());
    for p in writes.iter() {
        assert!(p.x >= 117 && p.x <= 1287);
        assert!(p.y >= 117 && p.y <= 1287);
    }
}
