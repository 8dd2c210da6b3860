//! Tests of the pixel-buffer primitives and the canvas-level reconstructor.

use descrambler::canvas::{copy_rect, Canvas};
use descrambler::error::DescrambleError;
use descrambler::geometry::compute_geometry;
use descrambler::reconstruct::descramble_canvas;

fn pat(x: u32, y: u32) -> u8 {
    ((x * 7 + y * 13) % 251) as u8
}

/// A 200x290 grayscale canvas filled with the deterministic pattern.
fn patterned_canvas(width: u32, height: u32) -> Canvas {
    let mut c = Canvas::new_zeroed(width, height, 1, 1);
    for y in 0..height {
        for x in 0..width {
            c.set_byte(x, y, 0, pat(x, y));
        }
    }
    c
}

#[test]
fn new_zeroed_is_zero() {
    let c = Canvas::new_zeroed(5, 4, 3, 1);
    assert_eq!(c.data.len(), 5 * 4 * 3);
    assert!(c.data.iter().all(|&b| b == 0));
    assert_eq!(c.bpp(), 3);
}

#[test]
fn set_and_get_bytes() {
    let mut c = Canvas::new_zeroed(4, 4, 2, 1);
    c.set_byte(2, 3, 1, 77);
    assert_eq!(c.byte_at(2, 3, 1), 77);
    assert_eq!(c.byte_at(2, 3, 0), 0);
}

#[test]
fn copy_rect_moves_the_rectangle_and_nothing_else() {
    let src = patterned_canvas(16, 16);
    let mut dest = Canvas::new_zeroed(16, 16, 1, 1);
    copy_rect(&mut dest, &src, 1, 2, 5, 6, 3, 4);
    for y in 0..16u32 {
        for x in 0..16u32 {
            let expected = if (1..4).contains(&x) && (2..6).contains(&y) {
                pat(x - 1 + 5, y - 2 + 6)
            } else {
                0
            };
            assert_eq!(dest.byte_at(x, y, 0), expected, "({x},{y})");
        }
    }
}

#[test]
fn geometry_of_1000_by_1000() {
    let g = compute_geometry(1000, 1000).expect("valid dimensions");
    assert_eq!(g.cropped_width, 910);
    assert_eq!(g.cropped_height, 860);
    assert_eq!(g.cell_width, 91);
    assert_eq!(g.cell_height, 57);
}

#[test]
fn geometry_rejects_margin_sized_images() {
    assert!(matches!(
        compute_geometry(90, 500),
        Err(DescrambleError::InvalidImageDimensions { width: 90, height: 500 })
    ));
    assert!(matches!(
        compute_geometry(500, 140),
        Err(DescrambleError::InvalidImageDimensions { width: 500, height: 140 })
    ));
    assert!(compute_geometry(91, 141).is_ok());
}

/// Borders land gutter-offset, identity keys land interior tiles in raster
/// order: the canvas-level counterpart of the byte-level scenario.
#[test]
fn reconstruct_identity_small() {
    let src = patterned_canvas(200, 290);
    let keys: Vec<u32> = (0..8).collect();
    let out = descramble_canvas(&src, &keys).expect("reconstruction succeeds");
    // x = 110, v = 150, b = 11, w = 10
    assert_eq!((out.width, out.height), (110, 150));
    for y in 0..10u32 {
        for x in 0..110u32 {
            assert_eq!(out.byte_at(x, y, 0), pat(x, y), "top ({x},{y})");
        }
    }
    for y in 140..150u32 {
        for x in 0..110u32 {
            assert_eq!(out.byte_at(x, y, 0), pat(x, y + 140), "bottom ({x},{y})");
        }
    }
    for y in 10..140u32 {
        for x in 0..11u32 {
            assert_eq!(out.byte_at(x, y, 0), pat(x, y + 10), "left ({x},{y})");
        }
    }
    for y in 10..140u32 {
        for x in 99..110u32 {
            assert_eq!(out.byte_at(x, y, 0), pat(x + 90, y + 10), "right ({x},{y})");
        }
    }
    for i in 0..8u32 {
        let (dx, dy) = ((i % 8 + 1) * 11, (i / 8 + 1) * 10);
        let (sx, sy) = ((i % 8 + 1) * 21, (i / 8 + 1) * 20);
        for ty in 0..10u32 {
            for tx in 0..11u32 {
                assert_eq!(out.byte_at(dx + tx, dy + ty, 0), pat(sx + tx, sy + ty), "tile {i}");
            }
        }
    }
    // interior cells no key names stay zero-initialized
    assert_eq!(out.byte_at(11, 20, 0), 0);
}

/// A permutation that swaps two cells places each source tile at the other's
/// cell.
#[test]
fn reconstruct_swapped_pair() {
    let src = patterned_canvas(200, 290);
    let keys: Vec<u32> = vec![1, 0];
    let out = descramble_canvas(&src, &keys).expect("reconstruction succeeds");
    for ty in 0..10u32 {
        for tx in 0..11u32 {
            // source tile 0 (at columns 21..) lands in cell 1 (columns 22..)
            assert_eq!(out.byte_at(22 + tx, 10 + ty, 0), pat(21 + tx, 20 + ty));
            // source tile 1 (at columns 42..) lands in cell 0 (columns 11..)
            assert_eq!(out.byte_at(11 + tx, 10 + ty, 0), pat(42 + tx, 20 + ty));
        }
    }
}

#[test]
fn reconstruct_rejects_out_of_bounds_key() {
    let src = patterned_canvas(200, 290);
    let keys: Vec<u32> = vec![0, 112];
    match descramble_canvas(&src, &keys) {
        Err(DescrambleError::TileCopyError { dest_x, dest_y, src_x, src_y, width, height }) => {
            assert_eq!((dest_x, dest_y), (11, 150));
            assert_eq!((src_x, src_y), (42, 20));
            assert_eq!((width, height), (11, 10));
        }
        other => panic!("expected TileCopyError, got {:?}", other),
    }
}

#[test]
fn reconstruct_rejects_undersized_source() {
    let src = patterned_canvas(90, 290);
    match descramble_canvas(&src, &vec![0]) {
        Err(DescrambleError::InvalidImageDimensions { width: 90, height: 290 }) => {}
        other => panic!("expected InvalidImageDimensions, got {:?}", other),
    }
}

/// An empty key sequence is a valid degenerate case: borders are copied and
/// the interior stays zero-initialized.
#[test]
fn reconstruct_empty_keys() {
    let src = patterned_canvas(200, 290);
    let out = descramble_canvas(&src, &Vec::new()).expect("degenerate case succeeds");
    assert_eq!((out.width, out.height), (110, 150));
    assert_eq!(out.byte_at(0, 0, 0), pat(0, 0));
    assert_eq!(out.byte_at(50, 75, 0), 0);
}

/// Multi-channel buffers copy every byte of every sample: an RGB canvas
/// reconstructs with each channel intact.
#[test]
fn reconstruct_identity_rgb() {
    let (width, height) = (200u32, 290u32);
    let mut src = Canvas::new_zeroed(width, height, 3, 1);
    for y in 0..height {
        for x in 0..width {
            for k in 0..3u16 {
                src.set_byte(x, y, k, ((x * 7 + y * 13 + k as u32 * 101) % 251) as u8);
            }
        }
    }
    let keys: Vec<u32> = (0..8).collect();
    let out = descramble_canvas(&src, &keys).expect("reconstruction succeeds");
    assert_eq!((out.channels, out.bytes_per_channel), (3, 1));
    let sample = |x: u32, y: u32, k: u16| ((x * 7 + y * 13 + k as u32 * 101) % 251) as u8;
    for k in 0..3u16 {
        // top border in place
        assert_eq!(out.byte_at(50, 5, k), sample(50, 5, k));
        // left border one gutter down
        assert_eq!(out.byte_at(5, 50, k), sample(5, 60, k));
        // tile 2 of the identity permutation: cell (3 * 11, 10) from (3 * 21, 20)
        assert_eq!(out.byte_at(33, 10, k), sample(63, 20, k));
    }
}

#[test]
fn error_kind_names() {
    let err = descramble_canvas(&patterned_canvas(90, 290), &vec![0]).unwrap_err();
    assert_eq!(err.kind_name(), "invalid image dimensions");
    let err = descramble_canvas(&patterned_canvas(200, 290), &vec![112]).unwrap_err();
    assert_eq!(err.kind_name(), "tile copy error");
}
