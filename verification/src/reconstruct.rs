//! Tile reconstruction: borders first, then the permuted interior tiles.
//!
//! The destination canvas starts zeroed, receives the four border strips
//! unpermuted, and then one copy per entry of the key sequence: entry `i`
//! names the destination grid cell of the source tile at raster position
//! `i`. The whole effect is pinned down by [`reconstruct_spec`], a fold of
//! exact byte-level pastes; any tile whose rectangles leave the buffers is
//! the first failure and aborts the reconstruction.

use crate::canvas::{copy_rect, Canvas, CanvasModel};
use crate::error::{DescrambleError, ErrorModel};
use crate::geometry::{
    bottom_border_rect, compute_geometry, left_border_rect, lemma_geometry_facts, right_border_rect,
    spec_cell_height, spec_cell_width, spec_cropped_height, spec_cropped_width, tile_in_bounds,
    tile_rect, top_border_rect, TileRect,
};
use vstd::arithmetic::div_mod::{lemma_div_is_ordered, lemma_div_plus_one};
use vstd::arithmetic::mul::{lemma_mul_inequality, lemma_mul_is_distributive_add_other_way};
use vstd::prelude::*;

verus! {

/// The zeroed cropped canvas a reconstruction starts from: same sample
/// layout as the source, both margins removed.
pub open spec fn blank_canvas(s: CanvasModel) -> CanvasModel {
    CanvasModel {
        width: spec_cropped_width(s.width as int) as nat,
        height: spec_cropped_height(s.height as int) as nat,
        channels: s.channels,
        bytes_per_channel: s.bytes_per_channel,
        data: Seq::new(
            (spec_cropped_width(s.width as int) * spec_cropped_height(s.height as int)
                * s.bpp()) as nat,
            |i: int| 0u8,
        ),
    }
}

/// Perform one rectangle copy order from `s` onto `c`.
pub open spec fn apply_rect(c: CanvasModel, s: CanvasModel, r: TileRect) -> CanvasModel {
    c.paste(s, r.dest_x, r.dest_y, r.src_x, r.src_y, r.width, r.height)
}

/// The cropped canvas with its four border strips copied, in order: top,
/// left, bottom, right.
pub open spec fn with_borders(s: CanvasModel) -> CanvasModel {
    let w = s.width as int;
    let h = s.height as int;
    apply_rect(
        apply_rect(
            apply_rect(
                apply_rect(blank_canvas(s), s, top_border_rect(w, h)),
                s,
                left_border_rect(w, h),
            ),
            s,
            bottom_border_rect(w, h),
        ),
        s,
        right_border_rect(w, h),
    )
}

/// The failure reported for the interior tile at position `idx` with key
/// `key`: both rectangle origins and the common size.
pub open spec fn tile_error(width: int, height: int, idx: int, key: int) -> ErrorModel {
    let r = tile_rect(width, height, idx, key);
    ErrorModel::TileCopy {
        dest_x: r.dest_x,
        dest_y: r.dest_y,
        src_x: r.src_x,
        src_y: r.src_y,
        width: r.width,
        height: r.height,
    }
}

/// The canvas after the first `n` interior tile copies onto `c`, or the
/// first out-of-bounds failure among them.
pub open spec fn apply_tiles(c: CanvasModel, s: CanvasModel, keys: Seq<u32>, n: int) -> Result<
    CanvasModel,
    ErrorModel,
>
    decreases n,
{
    if n <= 0 {
        Ok(c)
    } else {
        match apply_tiles(c, s, keys, n - 1) {
            Err(e) => Err(e),
            Ok(prev) => {
                let w = s.width as int;
                let h = s.height as int;
                if tile_in_bounds(w, h, n - 1, keys[n - 1] as int) {
                    Ok(apply_rect(prev, s, tile_rect(w, h, n - 1, keys[n - 1] as int)))
                } else {
                    Err(tile_error(w, h, n - 1, keys[n - 1] as int))
                }
            },
        }
    }
}

/// Everything a reconstruction returns: the rejection of undersized images,
/// the border copies, the interior permutation and the first tile failure.
pub open spec fn reconstruct_spec(s: CanvasModel, keys: Seq<u32>) -> Result<
    CanvasModel,
    ErrorModel,
> {
    if !(s.width > 90 && s.height > 140) {
        Err(ErrorModel::InvalidDimensions { width: s.width, height: s.height })
    } else {
        apply_tiles(with_borders(s), s, keys, keys.len() as int)
    }
}

/// A succeeding tile fold keeps the dimensions and layout of the canvas it
/// starts from.
pub proof fn lemma_apply_tiles_dims(c: CanvasModel, s: CanvasModel, keys: Seq<u32>, n: int)
    requires
        c.wf(),
    ensures
        apply_tiles(c, s, keys, n) matches Ok(r) ==> r.wf() && r.width == c.width && r.height
            == c.height && r.same_layout(c) && r.data.len() == c.data.len(),
    decreases n,
{
    if n > 0 {
        lemma_apply_tiles_dims(c, s, keys, n - 1);
        if let Ok(prev) = apply_tiles(c, s, keys, n - 1) {
            let w = s.width as int;
            let h = s.height as int;
            let r = tile_rect(w, h, n - 1, keys[n - 1] as int);
            crate::canvas::lemma_paste_wf(
                prev,
                s,
                r.dest_x,
                r.dest_y,
                r.src_x,
                r.src_y,
                r.width,
                r.height,
            );
        }
    }
}

/// If the first `n` tiles are all in bounds, the first `n` copies succeed.
pub proof fn lemma_apply_tiles_ok(c: CanvasModel, s: CanvasModel, keys: Seq<u32>, n: int)
    requires
        n <= keys.len(),
        forall|j: int|
            0 <= j < n ==> tile_in_bounds(s.width as int, s.height as int, j, keys[j] as int),
    ensures
        apply_tiles(c, s, keys, n) is Ok,
    decreases n,
{
    if n > 0 {
        lemma_apply_tiles_ok(c, s, keys, n - 1);
    }
}

/// The first out-of-bounds tile decides the failure, whatever follows it.
pub proof fn lemma_apply_tiles_first_bad(
    c: CanvasModel,
    s: CanvasModel,
    keys: Seq<u32>,
    i: int,
    n: int,
)
    requires
        0 <= i < n,
        n <= keys.len(),
        forall|j: int|
            0 <= j < i ==> tile_in_bounds(s.width as int, s.height as int, j, keys[j] as int),
        !tile_in_bounds(s.width as int, s.height as int, i, keys[i] as int),
    ensures
        apply_tiles(c, s, keys, n) == Err::<CanvasModel, ErrorModel>(
            tile_error(s.width as int, s.height as int, i, keys[i] as int),
        ),
    decreases n,
{
    if n - 1 == i {
        lemma_apply_tiles_ok(c, s, keys, i);
    } else {
        lemma_apply_tiles_first_bad(c, s, keys, i, n - 1);
    }
}

/// Source rows advance by at most one grid row per tile, so while every
/// earlier tile fit, the next source row origin stays barely past the image.
proof fn lemma_next_tile_src_bound(height: int, i: int)
    requires
        height > 140,
        i >= 1,
        (((i - 1) / 8) + 1) * (spec_cell_height(height) + 10) + spec_cell_height(height) <= height,
    ensures
        ((i / 8) + 1) * (spec_cell_height(height) + 10) <= height + 10,
{
    let w = spec_cell_height(height);
    let step = w + 10;
    vstd::arithmetic::div_mod::lemma_div_pos_is_pos(height - 140, 15);
    assert(w >= 0);
    lemma_div_is_ordered(i, i - 1 + 8, 8);
    lemma_div_plus_one(i - 1, 8);
    assert(i / 8 <= (i - 1) / 8 + 1);
    let q = (i - 1) / 8 + 1;
    assert((q + 1) * step == q * step + step) by {
        lemma_mul_is_distributive_add_other_way(step, q, 1);
    }
    assert(q * step <= height - w);
    lemma_mul_inequality(i / 8 + 1, q + 1, step);
}

/// Reassemble the page: allocate the cropped canvas, copy the four border
/// strips, then place each interior tile where its key directs. The result
/// is exactly [`reconstruct_spec`] of the source and the key sequence.
pub fn descramble_canvas(src: &Canvas, keys: &Vec<u32>) -> (r: Result<Canvas, DescrambleError>)
    requires
        src@.wf(),
    ensures
        match reconstruct_spec(src@, keys@) {
            Ok(m) => r matches Ok(c) && c@ == m && c@.wf(),
            Err(e) => r matches Err(err) && err@ == e,
        },
{
    let g = match compute_geometry(src.width, src.height) {
        Ok(g) => g,
        Err(e) => {
            return Err(e);
        },
    };
    let ghost sw = src@.width as int;
    let ghost sh = src@.height as int;
    proof {
        lemma_geometry_facts(sw, sh);
    }
    let x = g.cropped_width;
    let v = g.cropped_height;
    let b = g.cell_width;
    let w = g.cell_height;
    let src_len: usize = src.data.len();
    proof {
        assert(x as int * v as int * (src@.channels * src@.bytes_per_channel) <= sw * sh * (
        src@.channels * src@.bytes_per_channel)) by (nonlinear_arith)
            requires
                0 <= x <= sw,
                0 <= v <= sh,
                src@.channels * src@.bytes_per_channel >= 0,
        ;
    }
    let mut dest = Canvas::new_zeroed(x, v, src.channels, src.bytes_per_channel);
    proof {
        assert(dest@ =~= blank_canvas(src@));
    }
    // Borders: top, left, bottom, right, each a direct strip copy; the
    // source side of the three offset strips skips the scrambler's gutters.
    let ghost c_top = apply_rect(blank_canvas(src@), src@, top_border_rect(sw, sh));
    copy_rect(&mut dest, src, 0, 0, 0, 0, x, w);
    proof {
        assert(dest@ == c_top);
    }
    let ghost c_left = apply_rect(c_top, src@, left_border_rect(sw, sh));
    copy_rect(&mut dest, src, 0, w, 0, w + 10, b, v - 2 * w);
    proof {
        assert(dest@ == c_left);
    }
    let ghost c_bottom = apply_rect(c_left, src@, bottom_border_rect(sw, sh));
    copy_rect(&mut dest, src, 0, 14 * w, 0, 14 * (w + 10), x, src.height - 14 * (w + 10));
    proof {
        assert(dest@ == c_bottom);
    }
    let ghost c_right = apply_rect(c_bottom, src@, right_border_rect(sw, sh));
    copy_rect(&mut dest, src, 9 * b, w, 9 * (b + 10), w + 10, b + (x - 10 * b), v - 2 * w);
    proof {
        assert(dest@ == c_right);
        assert(dest@ == with_borders(src@));
    }
    let ghost c0 = dest@;
    let n = keys.len();
    let mut i: usize = 0;
    while i < n
        invariant
            i <= n,
            n == keys@.len(),
            src@.wf(),
            g.wf(),
            g.width == src@.width,
            g.height == src@.height,
            x == g.cropped_width,
            v == g.cropped_height,
            b == g.cell_width,
            w == g.cell_height,
            sw == src@.width,
            sh == src@.height,
            dest@.wf(),
            dest@.width == x,
            dest@.height == v,
            dest@.same_layout(src@),
            c0 == with_borders(src@),
            apply_tiles(c0, src@, keys@, i as int) == Ok::<CanvasModel, ErrorModel>(dest@),
            forall|j: int| 0 <= j < i ==> tile_in_bounds(sw, sh, j, keys@[j] as int),
        decreases n - i,
    {
        let key = keys[i];
        proof {
            lemma_geometry_facts(sw, sh);
            if i >= 1 {
                assert(tile_in_bounds(sw, sh, i - 1, keys@[i - 1] as int));
                lemma_next_tile_src_bound(sh, i as int);
            } else {
                assert(1 * ((w as int) + 10) == (w as int) + 10) by (nonlinear_arith);
            }
            assert(((i as int / 8) + 1) * ((w as int) + 10) <= sh + 10);
            assert(((key as u64 % 8) + 1) * (b as u64) <= 8 * 0xFFFF_FFFFu64) by (nonlinear_arith)
                requires
                    key as u64 % 8 < 8,
                    b <= 0xFFFF_FFFFu32,
            ;
            assert(((key as u64 / 8) + 1) * (w as u64) <= 0x2000_0001u64 * 0xFFFF_FFFFu64)
                by (nonlinear_arith)
                requires
                    key as u64 / 8 <= 0x2000_0000u64,
                    w <= 0xFFFF_FFFFu32,
            ;
            assert(((i as u64 % 8) + 1) * ((b as u64) + 10) <= 8 * 0x1_0000_0009u64)
                by (nonlinear_arith)
                requires
                    i as u64 % 8 < 8,
                    b <= 0xFFFF_FFFFu32,
            ;
        }
        let dest_x64: u64 = ((key as u64 % 8) + 1) * (b as u64);
        let dest_y64: u64 = ((key as u64 / 8) + 1) * (w as u64);
        let src_x64: u64 = ((i as u64 % 8) + 1) * ((b as u64) + 10);
        let src_y64: u64 = ((i as u64 / 8) + 1) * ((w as u64) + 10);
        if dest_x64 + b as u64 > x as u64 || dest_y64 + w as u64 > v as u64 || src_x64 + b as u64
            > src.width as u64 || src_y64 + w as u64 > src.height as u64 {
            proof {
                assert(!tile_in_bounds(sw, sh, i as int, key as int));
                lemma_apply_tiles_first_bad(c0, src@, keys@, i as int, n as int);
            }
            return Err(
                DescrambleError::TileCopyError {
                    dest_x: dest_x64,
                    dest_y: dest_y64,
                    src_x: src_x64,
                    src_y: src_y64,
                    width: b as u64,
                    height: w as u64,
                },
            );
        }
        proof {
            assert(tile_in_bounds(sw, sh, i as int, key as int));
        }
        let ghost prev = dest@;
        copy_rect(
            &mut dest,
            src,
            dest_x64 as u32,
            dest_y64 as u32,
            src_x64 as u32,
            src_y64 as u32,
            b,
            w,
        );
        proof {
            assert(dest@ == apply_rect(prev, src@, tile_rect(sw, sh, i as int, key as int)));
            assert(apply_tiles(c0, src@, keys@, i as int + 1) == Ok::<CanvasModel, ErrorModel>(
            dest@));
        }
        i = i + 1;
    }
    Ok(dest)
}


/// Whether the destination cell named by `key` covers the pixel `(px, py)`
/// of the cropped canvas.
pub open spec fn tile_dest_covers(width: int, height: int, key: int, px: int, py: int) -> bool {
    let r = tile_rect(width, height, 0, key);
    r.dest_x <= px < r.dest_x + r.width && r.dest_y <= py < r.dest_y + r.height
}

/// A pixel no interior tile covers keeps, through the whole tile fold, the
/// byte it had before the fold.
proof fn lemma_tiles_preserve_outside(
    c: CanvasModel,
    s: CanvasModel,
    keys: Seq<u32>,
    n: int,
    px: int,
    py: int,
    k: int,
)
    requires
        c.wf(),
        c.contains_pixel(px, py),
        0 <= k < c.bpp(),
        apply_tiles(c, s, keys, n) is Ok,
        forall|j: int|
            0 <= j < n ==> !tile_dest_covers(s.width as int, s.height as int, keys[j] as int, px, py),
    ensures
        apply_tiles(c, s, keys, n)->Ok_0.byte_at(px, py, k) == c.byte_at(px, py, k),
    decreases n,
{
    if n > 0 {
        lemma_apply_tiles_dims(c, s, keys, n - 1);
        lemma_tiles_preserve_outside(c, s, keys, n - 1, px, py, k);
        let prev = apply_tiles(c, s, keys, n - 1)->Ok_0;
        let r = tile_rect(s.width as int, s.height as int, n - 1, keys[n - 1] as int);
        crate::canvas::lemma_paste_byte(
            prev,
            s,
            r.dest_x,
            r.dest_y,
            r.src_x,
            r.src_y,
            r.width,
            r.height,
            px,
            py,
            k,
        );
        assert(!tile_dest_covers(s.width as int, s.height as int, keys[n - 1] as int, px, py));
    }
}

/// A pixel of tile `i`'s destination cell that no later tile covers holds,
/// after the fold, the byte of tile `i`'s gutter-offset source cell.
proof fn lemma_tile_pixel_survives(
    c: CanvasModel,
    s: CanvasModel,
    keys: Seq<u32>,
    n: int,
    i: int,
    px: int,
    py: int,
    k: int,
)
    requires
        c.wf(),
        c.contains_pixel(px, py),
        0 <= k < c.bpp(),
        0 <= i < n,
        apply_tiles(c, s, keys, n) is Ok,
        tile_dest_covers(s.width as int, s.height as int, keys[i] as int, px, py),
        forall|j: int|
            i < j < n ==> !tile_dest_covers(s.width as int, s.height as int, keys[j] as int, px, py),
    ensures
        apply_tiles(c, s, keys, n)->Ok_0.byte_at(px, py, k) == {
            let r = tile_rect(s.width as int, s.height as int, i, keys[i] as int);
            s.byte_at(r.src_x + (px - r.dest_x), r.src_y + (py - r.dest_y), k)
        },
    decreases n,
{
    lemma_apply_tiles_dims(c, s, keys, n - 1);
    let prev = apply_tiles(c, s, keys, n - 1)->Ok_0;
    let r = tile_rect(s.width as int, s.height as int, n - 1, keys[n - 1] as int);
    crate::canvas::lemma_paste_byte(
        prev,
        s,
        r.dest_x,
        r.dest_y,
        r.src_x,
        r.src_y,
        r.width,
        r.height,
        px,
        py,
        k,
    );
    if i == n - 1 {
        assert(tile_dest_covers(s.width as int, s.height as int, keys[i] as int, px, py));
    } else {
        assert(!tile_dest_covers(s.width as int, s.height as int, keys[n - 1] as int, px, py));
        lemma_tile_pixel_survives(c, s, keys, n - 1, i, px, py, k);
    }
}


/// `with_borders` keeps the cropped dimensions and the source's layout.
proof fn lemma_with_borders_wf(s: CanvasModel)
    requires
        s.wf(),
        s.width > 90,
        s.height > 140,
    ensures
        with_borders(s).wf(),
        with_borders(s).width == spec_cropped_width(s.width as int),
        with_borders(s).height == spec_cropped_height(s.height as int),
        with_borders(s).same_layout(s),
        blank_canvas(s).wf(),
{
    let sw = s.width as int;
    let sh = s.height as int;
    let blank = blank_canvas(s);
    assert(blank.wf());
    let c1 = apply_rect(blank, s, top_border_rect(sw, sh));
    let c2 = apply_rect(c1, s, left_border_rect(sw, sh));
    let c3 = apply_rect(c2, s, bottom_border_rect(sw, sh));
    let r1 = top_border_rect(sw, sh);
    let r2 = left_border_rect(sw, sh);
    let r3 = bottom_border_rect(sw, sh);
    let r4 = right_border_rect(sw, sh);
    crate::canvas::lemma_paste_wf(blank, s, r1.dest_x, r1.dest_y, r1.src_x, r1.src_y, r1.width, r1.height);
    crate::canvas::lemma_paste_wf(c1, s, r2.dest_x, r2.dest_y, r2.src_x, r2.src_y, r2.width, r2.height);
    crate::canvas::lemma_paste_wf(c2, s, r3.dest_x, r3.dest_y, r3.src_x, r3.src_y, r3.width, r3.height);
    crate::canvas::lemma_paste_wf(c3, s, r4.dest_x, r4.dest_y, r4.src_x, r4.src_y, r4.width, r4.height);
}

/// What one pixel byte of the bordered canvas holds, before any interior
/// tile is placed: the last border copy that covers it decides, and pixels
/// no border covers are still zero.
proof fn lemma_with_borders_byte(s: CanvasModel, px: int, py: int, k: int)
    requires
        s.wf(),
        s.width > 90,
        s.height > 140,
        0 <= px < spec_cropped_width(s.width as int),
        0 <= py < spec_cropped_height(s.height as int),
        0 <= k < s.bpp(),
    ensures
        with_borders(s).byte_at(px, py, k) == {
            let x = spec_cropped_width(s.width as int);
            let v = spec_cropped_height(s.height as int);
            let b = spec_cell_width(s.width as int);
            let w = spec_cell_height(s.height as int);
            if 9 * b <= px && w <= py < v - w {
                s.byte_at(px + 90, py + 10, k)
            } else if 14 * w <= py {
                s.byte_at(px, py + 140, k)
            } else if px < b && w <= py {
                s.byte_at(px, py + 10, k)
            } else if py < w {
                s.byte_at(px, py, k)
            } else {
                0u8
            }
        },
{
    let sw = s.width as int;
    let sh = s.height as int;
    lemma_geometry_facts(sw, sh);
    lemma_with_borders_wf(s);
    let blank = blank_canvas(s);
    let c1 = apply_rect(blank, s, top_border_rect(sw, sh));
    let c2 = apply_rect(c1, s, left_border_rect(sw, sh));
    let c3 = apply_rect(c2, s, bottom_border_rect(sw, sh));
    let r1 = top_border_rect(sw, sh);
    let r2 = left_border_rect(sw, sh);
    let r3 = bottom_border_rect(sw, sh);
    let r4 = right_border_rect(sw, sh);
    crate::canvas::lemma_paste_wf(blank, s, r1.dest_x, r1.dest_y, r1.src_x, r1.src_y, r1.width, r1.height);
    crate::canvas::lemma_paste_wf(c1, s, r2.dest_x, r2.dest_y, r2.src_x, r2.src_y, r2.width, r2.height);
    crate::canvas::lemma_paste_wf(c2, s, r3.dest_x, r3.dest_y, r3.src_x, r3.src_y, r3.width, r3.height);
    crate::canvas::lemma_paste_byte(blank, s, r1.dest_x, r1.dest_y, r1.src_x, r1.src_y, r1.width, r1.height, px, py, k);
    crate::canvas::lemma_paste_byte(c1, s, r2.dest_x, r2.dest_y, r2.src_x, r2.src_y, r2.width, r2.height, px, py, k);
    crate::canvas::lemma_paste_byte(c2, s, r3.dest_x, r3.dest_y, r3.src_x, r3.src_y, r3.width, r3.height, px, py, k);
    crate::canvas::lemma_paste_byte(c3, s, r4.dest_x, r4.dest_y, r4.src_x, r4.src_y, r4.width, r4.height, px, py, k);
    crate::canvas::lemma_offset_in_range(blank, px, py, k);
}

/// With a key below 104, a tile's destination cell stays strictly inside the
/// interior: between the left and right border columns and between the top
/// and bottom border rows.
proof fn lemma_tile_rect_inside(width: int, height: int, key: int)
    requires
        width > 90,
        height > 140,
        0 <= key < 104,
    ensures
        ({
            let r = tile_rect(width, height, 0, key);
            let b = spec_cell_width(width);
            let w = spec_cell_height(height);
            b <= r.dest_x && r.dest_x + r.width <= 9 * b && w <= r.dest_y && r.dest_y + r.height
                <= 14 * w
        }),
{
    lemma_geometry_facts(width, height);
    let b = spec_cell_width(width);
    let w = spec_cell_height(height);
    assert(0 <= key % 8 < 8 && 0 <= key / 8 <= 12) by (nonlinear_arith)
        requires
            0 <= key < 104,
    ;
    lemma_mul_inequality(1, key % 8 + 1, b);
    lemma_mul_inequality(key % 8 + 2, 9, b);
    lemma_mul_inequality(1, key / 8 + 1, w);
    lemma_mul_inequality(key / 8 + 2, 14, w);
    assert((key % 8 + 1) * b + b == (key % 8 + 2) * b) by {
        lemma_mul_is_distributive_add_other_way(b, key % 8 + 1, 1);
    }
    assert((key / 8 + 1) * w + w == (key / 8 + 2) * w) by {
        lemma_mul_is_distributive_add_other_way(w, key / 8 + 1, 1);
    }
    assert(1 * b == b && 1 * w == w) by (nonlinear_arith);
}

/// Border preservation, stated over the grid formulas: in a successful
/// output whose keys all stay inside the interior, the top strip equals the
/// source in place, the left and right strips equal the source one gutter
/// down (the right one also 90 columns over), and the bottom strip equals
/// the source 14 gutters down.
pub open spec fn borders_preserved(s: CanvasModel, out: CanvasModel) -> bool {
    let x = spec_cropped_width(s.width as int);
    let v = spec_cropped_height(s.height as int);
    let b = spec_cell_width(s.width as int);
    let w = spec_cell_height(s.height as int);
    &&& forall|px: int, py: int, k: int|
        0 <= px < x && 0 <= py < w && 0 <= k < s.bpp() ==> #[trigger] out.byte_at(px, py, k)
            == s.byte_at(px, py, k)
    &&& forall|px: int, py: int, k: int|
        0 <= px < b && w <= py < 14 * w && 0 <= k < s.bpp() ==> #[trigger] out.byte_at(px, py, k)
            == s.byte_at(px, py + 10, k)
    &&& forall|px: int, py: int, k: int|
        0 <= px < x && 14 * w <= py < v && (px < 9 * b || py >= v - w) && 0 <= k < s.bpp()
            ==> #[trigger] out.byte_at(px, py, k) == s.byte_at(px, py + 140, k)
    &&& forall|px: int, py: int, k: int|
        9 * b <= px < x && w <= py < v - w && 0 <= k < s.bpp() ==> #[trigger] out.byte_at(
            px,
            py,
            k,
        ) == s.byte_at(px + 90, py + 10, k)
}

/// Border preservation: when every key stays inside the interior (each key
/// below 104, the first grid row that meets the bottom border), the four
/// border strips of a successful reconstruction equal the corresponding
/// gutter-offset strips of the source, untouched by the permutation.
pub proof fn lemma_border_preservation(s: CanvasModel, keys: Seq<u32>, out: CanvasModel)
    requires
        s.wf(),
        reconstruct_spec(s, keys) == Ok::<CanvasModel, ErrorModel>(out),
        forall|i: int| 0 <= i < keys.len() ==> (#[trigger] keys[i]) < 104,
    ensures
        borders_preserved(s, out),
{
    let sw = s.width as int;
    let sh = s.height as int;
    let x = spec_cropped_width(sw);
    let v = spec_cropped_height(sh);
    let b = spec_cell_width(sw);
    let w = spec_cell_height(sh);
    lemma_geometry_facts(sw, sh);
    lemma_with_borders_wf(s);
    let c0 = with_borders(s);
    let n = keys.len() as int;
    assert forall|px: int, py: int, k: int|
        0 <= px < x && 0 <= py < v && 0 <= k < s.bpp() && (py < w || (px < b && py < 14 * w) || 14
            * w <= py || 9 * b <= px) implies #[trigger] out.byte_at(px, py, k) == c0.byte_at(
        px,
        py,
        k,
    ) by {
        assert forall|j: int| 0 <= j < n implies !tile_dest_covers(sw, sh, keys[j] as int, px, py) by {
            lemma_tile_rect_inside(sw, sh, keys[j] as int);
        }
        lemma_tiles_preserve_outside(c0, s, keys, n, px, py, k);
    }
    assert forall|px: int, py: int, k: int|
        0 <= px < x && 0 <= py < w && 0 <= k < s.bpp() implies #[trigger] out.byte_at(px, py, k)
        == s.byte_at(px, py, k) by {
        lemma_with_borders_byte(s, px, py, k);
    }
    assert forall|px: int, py: int, k: int|
        0 <= px < b && w <= py < 14 * w && 0 <= k < s.bpp() implies #[trigger] out.byte_at(
        px,
        py,
        k,
    ) == s.byte_at(px, py + 10, k) by {
        lemma_with_borders_byte(s, px, py, k);
    }
    assert forall|px: int, py: int, k: int|
        0 <= px < x && 14 * w <= py < v && (px < 9 * b || py >= v - w) && 0 <= k < s.bpp()
        implies #[trigger] out.byte_at(px, py, k) == s.byte_at(px, py + 140, k) by {
        lemma_with_borders_byte(s, px, py, k);
    }
    assert forall|px: int, py: int, k: int|
        9 * b <= px < x && w <= py < v - w && 0 <= k < s.bpp() implies #[trigger] out.byte_at(
        px,
        py,
        k,
    ) == s.byte_at(px + 90, py + 10, k) by {
        lemma_with_borders_byte(s, px, py, k);
    }
}


/// A successful fold had every one of its tiles in bounds.
pub proof fn lemma_apply_tiles_ok_implies_bounds(
    c: CanvasModel,
    s: CanvasModel,
    keys: Seq<u32>,
    n: int,
)
    requires
        apply_tiles(c, s, keys, n) is Ok,
    ensures
        forall|j: int|
            0 <= j < n ==> tile_in_bounds(s.width as int, s.height as int, j, keys[j] as int),
    decreases n,
{
    if n > 0 {
        lemma_apply_tiles_ok_implies_bounds(c, s, keys, n - 1);
    }
}

/// Distinct keys name distinct grid cells, and those cells are disjoint: a
/// pixel of one is in none of the others.
proof fn lemma_distinct_cells_disjoint(width: int, height: int, i: int, j: int, px: int, py: int)
    requires
        width > 90,
        height > 140,
        0 <= i,
        0 <= j,
        i != j,
        tile_dest_covers(width, height, i, px, py),
    ensures
        !tile_dest_covers(width, height, j, px, py),
{
    lemma_geometry_facts(width, height);
    let b = spec_cell_width(width);
    let w = spec_cell_height(height);
    vstd::arithmetic::div_mod::lemma_fundamental_div_mod(i, 8);
    vstd::arithmetic::div_mod::lemma_fundamental_div_mod(j, 8);
    assert((i % 8 + 1) * b + b == (i % 8 + 2) * b) by {
        lemma_mul_is_distributive_add_other_way(b, i % 8 + 1, 1);
    }
    assert((j % 8 + 1) * b + b == (j % 8 + 2) * b) by {
        lemma_mul_is_distributive_add_other_way(b, j % 8 + 1, 1);
    }
    assert((i / 8 + 1) * w + w == (i / 8 + 2) * w) by {
        lemma_mul_is_distributive_add_other_way(w, i / 8 + 1, 1);
    }
    assert((j / 8 + 1) * w + w == (j / 8 + 2) * w) by {
        lemma_mul_is_distributive_add_other_way(w, j / 8 + 1, 1);
    }
    if i % 8 == j % 8 && i / 8 == j / 8 {
        assert(i == j);
    } else if i % 8 < j % 8 {
        lemma_mul_inequality(i % 8 + 2, j % 8 + 1, b);
    } else if j % 8 < i % 8 {
        lemma_mul_inequality(j % 8 + 2, i % 8 + 1, b);
    } else if i / 8 < j / 8 {
        lemma_mul_inequality(i / 8 + 2, j / 8 + 1, w);
    } else {
        lemma_mul_inequality(j / 8 + 2, i / 8 + 1, w);
    }
}

/// The interior of `out` equals the interior tiles of `s` in raster order,
/// gutters removed: byte `(tx, ty, k)` of interior tile `i` of the output
/// equals the same byte of the gutter-padded source tile `i`.
pub open spec fn interior_in_raster_order(s: CanvasModel, n: int, out: CanvasModel) -> bool {
    let b = spec_cell_width(s.width as int);
    let w = spec_cell_height(s.height as int);
    forall|i: int, tx: int, ty: int, k: int|
        0 <= i < n && 0 <= tx < b && 0 <= ty < w && 0 <= k < s.bpp() ==> #[trigger] out.byte_at(
            (i % 8 + 1) * b + tx,
            (i / 8 + 1) * w + ty,
            k,
        ) == s.byte_at((i % 8 + 1) * (b + 10) + tx, (i / 8 + 1) * (w + 10) + ty, k)
}

/// Permutation bijectivity on the identity: when the key sequence is the
/// identity permutation, a successful reconstruction lays the interior tiles
/// out in raster order with the gutters removed.
pub proof fn lemma_identity_permutation(s: CanvasModel, keys: Seq<u32>, out: CanvasModel)
    requires
        s.wf(),
        reconstruct_spec(s, keys) == Ok::<CanvasModel, ErrorModel>(out),
        forall|i: int| 0 <= i < keys.len() ==> (#[trigger] keys[i]) as int == i,
    ensures
        interior_in_raster_order(s, keys.len() as int, out),
{
    let sw = s.width as int;
    let sh = s.height as int;
    let b = spec_cell_width(sw);
    let w = spec_cell_height(sh);
    let n = keys.len() as int;
    lemma_geometry_facts(sw, sh);
    lemma_with_borders_wf(s);
    let c0 = with_borders(s);
    lemma_apply_tiles_ok_implies_bounds(c0, s, keys, n);
    assert forall|i: int, tx: int, ty: int, k: int|
        0 <= i < n && 0 <= tx < b && 0 <= ty < w && 0 <= k < s.bpp() implies #[trigger] out.byte_at(
        (i % 8 + 1) * b + tx,
        (i / 8 + 1) * w + ty,
        k,
    ) == s.byte_at((i % 8 + 1) * (b + 10) + tx, (i / 8 + 1) * (w + 10) + ty, k) by {
        let px = (i % 8 + 1) * b + tx;
        let py = (i / 8 + 1) * w + ty;
        let r = tile_rect(sw, sh, i, keys[i] as int);
        assert(tile_in_bounds(sw, sh, i, keys[i] as int));
        assert(tile_dest_covers(sw, sh, keys[i] as int, px, py));
        assert(c0.contains_pixel(px, py));
        assert forall|j: int| i < j < n implies !tile_dest_covers(
            sw,
            sh,
            keys[j] as int,
            px,
            py,
        ) by {
            lemma_distinct_cells_disjoint(sw, sh, i, j, px, py);
        }
        lemma_tile_pixel_survives(c0, s, keys, n, i, px, py, k);
        assert(r.src_x + (px - r.dest_x) == (i % 8 + 1) * (b + 10) + tx);
        assert(r.src_y + (py - r.dest_y) == (i / 8 + 1) * (w + 10) + ty);
    }
}

/// Boundary rejection: a key sequence with any tile whose rectangles leave
/// the buffers is rejected with a tile-copy failure, never clamped.
pub proof fn lemma_boundary_rejection(s: CanvasModel, keys: Seq<u32>, i: int)
    requires
        s.width > 90,
        s.height > 140,
        0 <= i < keys.len(),
        !tile_in_bounds(s.width as int, s.height as int, i, keys[i] as int),
    ensures
        reconstruct_spec(s, keys) matches Err(e) && e is TileCopy,
    decreases i,
{
    let sw = s.width as int;
    let sh = s.height as int;
    if forall|l: int| 0 <= l < i ==> tile_in_bounds(sw, sh, l, (#[trigger] keys[l]) as int) {
        lemma_apply_tiles_first_bad(with_borders(s), s, keys, i, keys.len() as int);
    } else {
        let l = choose|l: int| 0 <= l < i && !tile_in_bounds(sw, sh, l, keys[l] as int);
        lemma_boundary_rejection(s, keys, l);
    }
}


/// Dimension invariant: a successful reconstruction of a `width x height`
/// source is exactly `width - 90` by `height - 140`, with the source's
/// sample layout.
pub proof fn lemma_dimension_invariant(s: CanvasModel, keys: Seq<u32>, out: CanvasModel)
    requires
        s.wf(),
        reconstruct_spec(s, keys) == Ok::<CanvasModel, ErrorModel>(out),
    ensures
        out.width == s.width - 90,
        out.height == s.height - 140,
        out.same_layout(s),
        out.wf(),
{
    lemma_with_borders_wf(s);
    lemma_apply_tiles_dims(with_borders(s), s, keys, keys.len() as int);
}

} // verus!
