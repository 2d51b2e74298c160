//! The light between the keys of a keyboard.

use std::io::Cursor;

use openlogi::app_icon::{
    alternate_file, apply, preview_file, render_image_from_rgba, restore, swap_red_and_blue,
    IconStep,
};
use openlogi::glow::{GlowGeometry, GlowMask, GlowSeg, MAX_MASK_DIM};
use openlogi::holes::{compute_glow_geometry, enclosed, glow_of_file, resolve_glow_geometry};

/// A part of a whole as a number.
fn fraction(part: u32, whole: u32) -> f32 {
    part as f32 / whole as f32
}

#[test]
fn from_mask_extracts_on_runs_as_normalized_segments() {
    // 4x2 mask, runs alternate off/on starting off: off2, on2, off3, on1.
    // Row-major idx 2..4 ON (row 0, cols 2-3); idx 7 ON (row 1, col 3).
    let mask = GlowMask { width: 4, height: 2, runs: vec![2, 2, 3, 1] };
    let geom = GlowGeometry::from_mask(&mask).expect("valid mask");
    assert!((fraction(geom.width, geom.height) - 2.0).abs() < 1e-6);
    assert_eq!(geom.segments.len(), 2);
    let first = geom.segments[0];
    assert!((fraction(first.col, geom.width) - 0.5).abs() < 1e-6); // col 2 / 4
    assert!((fraction(first.row, geom.height) - 0.0).abs() < 1e-6); // row 0
    assert!((fraction(first.len, geom.width) - 0.5).abs() < 1e-6); // len 2 / 4
    let second = geom.segments[1];
    assert!((fraction(second.col, geom.width) - 0.75).abs() < 1e-6); // col 3 / 4
    assert!((fraction(second.row, geom.height) - 0.5).abs() < 1e-6); // row 1 / 2
}

#[test]
fn from_mask_splits_a_run_across_rows() {
    // 2x2, runs off1 on3: idx 1 (row 0 col 1) + idx 2..4 (row 1) → 2 segments.
    let mask = GlowMask { width: 2, height: 2, runs: vec![1, 3] };
    let geom = GlowGeometry::from_mask(&mask).expect("valid mask");
    assert_eq!(geom.segments.len(), 2);
}

#[test]
fn from_mask_rejects_bad_run_total() {
    let mask = GlowMask {
        width: 4,
        height: 4,
        runs: vec![3, 2], // sums to 5, not 16
    };
    assert!(GlowGeometry::from_mask(&mask).is_none());
}

#[test]
fn a_mask_out_of_range_is_rejected() {
    let too_wide = GlowMask { width: MAX_MASK_DIM + 1, height: 1, runs: vec![MAX_MASK_DIM + 1] };
    assert!(GlowGeometry::from_mask(&too_wide).is_none());
    let empty = GlowMask { width: 0, height: 0, runs: vec![] };
    assert!(GlowGeometry::from_mask(&empty).is_none());
}

/// An RGBA png where `1` cells are solid and the rest fully transparent.
fn png(rows: &[&[u8]]) -> Vec<u8> {
    let h = u32::try_from(rows.len()).expect("test image height fits u32");
    let w = u32::try_from(rows[0].len()).expect("test image width fits u32");
    let mut img = image::RgbaImage::new(w, h);
    for (y, row) in rows.iter().enumerate() {
        for (x, &cell) in row.iter().enumerate() {
            let alpha = if cell == 1 { 255 } else { 0 };
            let (x, y) = (
                u32::try_from(x).expect("test x fits u32"),
                u32::try_from(y).expect("test y fits u32"),
            );
            img.put_pixel(x, y, image::Rgba([40, 40, 40, alpha]));
        }
    }
    let mut bytes = Vec::new();
    img.write_to(&mut Cursor::new(&mut bytes), image::ImageFormat::Png)
        .expect("write png");
    bytes
}

#[test]
fn computed_geometry_finds_only_enclosed_holes() {
    // A ring of opaque pixels around one transparent pixel (a hole), with
    // border-connected transparency everywhere else.
    let bytes = png(&[
        &[0, 0, 0, 0, 0],
        &[0, 1, 1, 1, 0],
        &[0, 1, 0, 1, 0],
        &[0, 1, 1, 1, 0],
        &[0, 0, 0, 0, 0],
    ]);
    let geom = compute_glow_geometry("ring.png", &bytes).expect("hole found");
    assert_eq!(geom.segments.len(), 1);
    let seg = geom.segments[0];
    assert!((fraction(seg.col, geom.width) - 0.4).abs() < 1e-6, "hole at col 2 of 5");
    assert!((fraction(seg.row, geom.height) - 0.4).abs() < 1e-6, "hole at row 2 of 5");
    assert!((fraction(geom.width, geom.height) - 1.0).abs() < 1e-6);
}

#[test]
fn computed_geometry_ignores_border_connected_transparency() {
    // A C-shape: the notch opens to the border, so nothing is enclosed.
    let bytes = png(&[&[1, 1, 1], &[1, 0, 0], &[1, 1, 1]]);
    assert!(compute_glow_geometry("open.png", &bytes).is_none());
}

#[test]
fn computed_geometry_skips_fully_opaque_renders() {
    let bytes = png(&[&[1, 1], &[1, 1]]);
    assert!(compute_glow_geometry("solid.png", &bytes).is_none());
}

#[test]
fn what_is_no_image_has_no_geometry() {
    assert!(compute_glow_geometry("ring.png", &vec![1, 2, 3]).is_none());
    let bytes = png(&[&[1, 1, 1], &[1, 0, 1], &[1, 1, 1]]);
    assert!(compute_glow_geometry("ring", &bytes).is_none(), "the name picks the decoder");
    assert!(compute_glow_geometry("ring.png", &bytes).is_some());
    assert!(compute_glow_geometry("a//b.d/ring.png/", &bytes).is_some());
    assert!(compute_glow_geometry("ring.png/..", &bytes).is_none());
}

#[test]
fn the_extension_picks_the_decoder() {
    let bytes = png(&[&[1, 1, 1], &[1, 0, 1], &[1, 1, 1]]);
    let geometry = glow_of_file(&Some("PNG".into()), &bytes).expect("an image");
    assert_eq!(geometry.segments, vec![GlowSeg { col: 1, row: 1, len: 1 }]);
    assert!(glow_of_file(&Some("jpg".into()), &bytes).is_none());
    assert!(glow_of_file(&Some("text".into()), &bytes).is_none());
    assert!(glow_of_file(&None, &bytes).is_none());
}

#[test]
fn a_mask_that_ships_wins_over_the_image() {
    let bytes = png(&[&[1, 1, 1], &[1, 0, 1], &[1, 1, 1]]);
    let mask = GlowMask { width: 2, height: 1, runs: vec![1, 1] };
    let shipped = resolve_glow_geometry(&Some(mask), "ring.png", &Some(bytes.clone()))
        .expect("a valid mask");
    assert_eq!((shipped.width, shipped.height), (2, 1));
    let malformed = GlowMask { width: 2, height: 1, runs: vec![7] };
    let computed = resolve_glow_geometry(&Some(malformed), "ring.png", &Some(bytes))
        .expect("the holes of the image");
    assert_eq!(computed.segments, vec![GlowSeg { col: 1, row: 1, len: 1 }]);
    assert!(resolve_glow_geometry(&None, "ring.png", &None).is_none());
}

#[test]
fn a_hole_touches_the_border_at_no_corner_only() {
    // The clear cell in the middle is reached from the border by its sides only.
    let clear = vec![
        true, false, false, //
        false, true, false, //
        false, false, true,
    ];
    let holes = enclosed(&clear, 3, 3);
    assert_eq!(holes.iter().filter(|hole| **hole).count(), 1);
    assert!(holes[4]);
}

#[test]
fn icons_are_painted_with_blue_first() {
    let mut bytes = vec![1, 2, 3, 4, 5, 6, 7, 8, 9, 10];
    swap_red_and_blue(&mut bytes);
    assert_eq!(bytes, vec![3, 2, 1, 4, 7, 6, 5, 8, 9, 10]);
    swap_red_and_blue(&mut bytes);
    assert_eq!(bytes, vec![1, 2, 3, 4, 5, 6, 7, 8, 9, 10]);

    assert_eq!(render_image_from_rgba(1, 1, vec![1, 2, 3, 4]), Some(vec![3, 2, 1, 4]));
    assert_eq!(render_image_from_rgba(2, 1, vec![1, 2, 3, 4]), None);
}

#[test]
fn a_start_leaves_the_default_icon_alone() {
    assert_eq!(restore(true, None), IconStep::Leave);
    assert_eq!(apply(true, None), IconStep::Reset);
    assert_eq!(restore(false, Some("a.icns".into())), IconStep::Wear("a.icns".into()));
    assert_eq!(apply(false, Some("a.icns".into())), IconStep::Wear("a.icns".into()));
    assert_eq!(apply(false, None), IconStep::Leave);
    assert_eq!(alternate_file("dark"), "dark.icns");
    assert_eq!(preview_file("dark"), "dark.png");
}
