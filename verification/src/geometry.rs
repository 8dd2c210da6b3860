//! Tile-grid geometry derived from the source image's pixel dimensions.
//!
//! A scrambled page reserves a 90-pixel-wide and 140-pixel-tall margin for
//! border strips; the remaining area is divided into a 10 x 15 grid of
//! nominal cells, of which the interior content tiles occupy a fixed 8
//! columns. In the scrambled source a 10-pixel gutter follows every cell, so
//! source rectangles are offset by one gutter per grid step.

use crate::error::{DescrambleError, ErrorModel};
use vstd::arithmetic::div_mod::{
    lemma_div_pos_is_pos, lemma_fundamental_div_mod, lemma_mod_division_less_than_divisor,
};
use vstd::prelude::*;

verus! {

/// Width of the margin reserved for the left/right border strips.
pub const CUT_WIDTH: u32 = 90;

/// Height of the margin reserved for the top/bottom border strips.
pub const CUT_HEIGHT: u32 = 140;

/// Nominal number of grid columns.
pub const CELL_WIDTH_COUNT: u32 = 10;

/// Nominal number of grid rows.
pub const CELL_HEIGHT_COUNT: u32 = 15;

/// Cropped output width for a source image `width` pixels wide.
pub open spec fn spec_cropped_width(width: int) -> int {
    width - 90
}

/// Cropped output height for a source image `height` pixels tall.
pub open spec fn spec_cropped_height(height: int) -> int {
    height - 140
}

/// Nominal cell width; the remainder of the division is absorbed by the
/// rightmost interior column.
pub open spec fn spec_cell_width(width: int) -> int {
    (width - 90) / 10
}

/// Nominal cell height.
pub open spec fn spec_cell_height(height: int) -> int {
    (height - 140) / 15
}

/// A rectangle copy order: one destination origin, one source origin, one
/// common size.
pub struct TileRect {
    pub dest_x: int,
    pub dest_y: int,
    pub src_x: int,
    pub src_y: int,
    pub width: int,
    pub height: int,
}

/// The top border strip: copied in place.
pub open spec fn top_border_rect(width: int, height: int) -> TileRect {
    TileRect {
        dest_x: 0,
        dest_y: 0,
        src_x: 0,
        src_y: 0,
        width: spec_cropped_width(width),
        height: spec_cell_height(height),
    }
}

/// The left border strip: the source sits one gutter below the destination.
pub open spec fn left_border_rect(width: int, height: int) -> TileRect {
    TileRect {
        dest_x: 0,
        dest_y: spec_cell_height(height),
        src_x: 0,
        src_y: spec_cell_height(height) + 10,
        width: spec_cell_width(width),
        height: spec_cropped_height(height) - 2 * spec_cell_height(height),
    }
}

/// The bottom border strip: the source sits 14 gutters below the destination.
pub open spec fn bottom_border_rect(width: int, height: int) -> TileRect {
    TileRect {
        dest_x: 0,
        dest_y: 14 * spec_cell_height(height),
        src_x: 0,
        src_y: 14 * (spec_cell_height(height) + 10),
        width: spec_cropped_width(width),
        height: height - 14 * (spec_cell_height(height) + 10),
    }
}

/// The right border strip, which also absorbs the width the nominal grid
/// leaves over; the source sits 9 gutters to the right and one below.
pub open spec fn right_border_rect(width: int, height: int) -> TileRect {
    TileRect {
        dest_x: 9 * spec_cell_width(width),
        dest_y: spec_cell_height(height),
        src_x: 9 * (spec_cell_width(width) + 10),
        src_y: spec_cell_height(height) + 10,
        width: spec_cell_width(width) + (spec_cropped_width(width) - 10 * spec_cell_width(width)),
        height: spec_cropped_height(height) - 2 * spec_cell_height(height),
    }
}

/// The copy order for the interior tile at raster position `idx` whose key is
/// `key`: the key names the destination grid cell, the position names the
/// gutter-padded source cell.
pub open spec fn tile_rect(width: int, height: int, idx: int, key: int) -> TileRect {
    TileRect {
        dest_x: (key % 8 + 1) * spec_cell_width(width),
        dest_y: (key / 8 + 1) * spec_cell_height(height),
        src_x: (idx % 8 + 1) * (spec_cell_width(width) + 10),
        src_y: (idx / 8 + 1) * (spec_cell_height(height) + 10),
        width: spec_cell_width(width),
        height: spec_cell_height(height),
    }
}

/// Whether an interior tile's destination rectangle lies within the cropped
/// canvas and its source rectangle within the source image.
pub open spec fn tile_in_bounds(width: int, height: int, idx: int, key: int) -> bool {
    let r = tile_rect(width, height, idx, key);
    &&& r.dest_x + r.width <= spec_cropped_width(width)
    &&& r.dest_y + r.height <= spec_cropped_height(height)
    &&& r.src_x + r.width <= width
    &&& r.src_y + r.height <= height
}

/// The elementary division facts every geometric bound rests on: the nominal
/// grid of 10 x 15 cells fits inside the cropped area.
pub proof fn lemma_geometry_facts(width: int, height: int)
    requires
        width > 90,
        height > 140,
    ensures
        0 <= spec_cell_width(width),
        10 * spec_cell_width(width) <= spec_cropped_width(width),
        0 <= spec_cell_height(height),
        15 * spec_cell_height(height) <= spec_cropped_height(height),
{
    let x = width - 90;
    let v = height - 140;
    lemma_div_pos_is_pos(x, 10);
    lemma_div_pos_is_pos(v, 15);
    lemma_fundamental_div_mod(x, 10);
    lemma_fundamental_div_mod(v, 15);
    lemma_mod_division_less_than_divisor(x, 10);
    lemma_mod_division_less_than_divisor(v, 15);
}

/// Derived, immutable grid geometry of one source image.
#[derive(Clone, Copy, PartialEq, Eq, Structural, Debug)]
pub struct GridGeometry {
    /// Source image width.
    pub width: u32,
    /// Source image height.
    pub height: u32,
    /// Output width: `width - 90`.
    pub cropped_width: u32,
    /// Output height: `height - 140`.
    pub cropped_height: u32,
    /// Nominal cell width: `cropped_width / 10`.
    pub cell_width: u32,
    /// Nominal cell height: `cropped_height / 15`.
    pub cell_height: u32,
}

impl GridGeometry {
    /// The geometry is the one derived from its image dimensions.
    pub open spec fn wf(self) -> bool {
        &&& self.width > 90
        &&& self.height > 140
        &&& self.cropped_width == spec_cropped_width(self.width as int)
        &&& self.cropped_height == spec_cropped_height(self.height as int)
        &&& self.cell_width == spec_cell_width(self.width as int)
        &&& self.cell_height == spec_cell_height(self.height as int)
    }
}

/// Derive the grid geometry from the source image's pixel dimensions.
/// Images not strictly larger than the reserved margins are rejected.
pub fn compute_geometry(width: u32, height: u32) -> (r: Result<GridGeometry, DescrambleError>)
    ensures
        width > 90 && height > 140 ==> (r matches Ok(g) && g.wf() && g.width == width && g.height
            == height),
        !(width > 90 && height > 140) ==> (r matches Err(e) && e@ == (ErrorModel::InvalidDimensions {
            width: width as nat,
            height: height as nat,
        })),
{
    if width <= CUT_WIDTH || height <= CUT_HEIGHT {
        return Err(DescrambleError::InvalidImageDimensions { width, height });
    }
    let cropped_width = width - CUT_WIDTH;
    let cropped_height = height - CUT_HEIGHT;
    Ok(
        GridGeometry {
            width,
            height,
            cropped_width,
            cropped_height,
            cell_width: cropped_width / CELL_WIDTH_COUNT,
            cell_height: cropped_height / CELL_HEIGHT_COUNT,
        },
    )
}

} // verus!
