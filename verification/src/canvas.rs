//! Pixel buffers and the exact rectangle-copy primitive.
//!
//! A [`Canvas`] is a decoded raster image: a flat byte buffer in row-major
//! order, `channels` samples per pixel and `bytes_per_channel` bytes per
//! sample. All tile reassembly is performed on canvases by [`copy_rect`],
//! whose effect is specified exactly, byte for byte, by [`CanvasModel::paste`].

use vstd::arithmetic::div_mod::{
    lemma_fundamental_div_mod_converse_div, lemma_fundamental_div_mod_converse_mod,
};
use vstd::prelude::*;

verus! {

/// Mathematical model of a pixel buffer.
#[verifier::ext_equal]
pub struct CanvasModel {
    pub width: nat,
    pub height: nat,
    pub channels: nat,
    pub bytes_per_channel: nat,
    pub data: Seq<u8>,
}

impl CanvasModel {
    /// Bytes per pixel.
    pub open spec fn bpp(self) -> nat {
        self.channels * self.bytes_per_channel
    }

    /// The buffer holds exactly its pixels, and the sample layout is one the
    /// codec produces: 1 to 4 channels of 1, 2 or 4 bytes each.
    pub open spec fn wf(self) -> bool {
        &&& self.data.len() == self.width * self.height * self.bpp()
        &&& 1 <= self.channels <= 4
        &&& (self.bytes_per_channel == 1 || self.bytes_per_channel == 2
            || self.bytes_per_channel == 4)
    }

    /// Offset of byte `k` of the pixel at `(x, y)` within the buffer.
    pub open spec fn offset_of(self, x: int, y: int, k: int) -> int {
        (y * self.width + x) * self.bpp() + k
    }

    /// Byte `k` of the pixel at `(x, y)`.
    pub open spec fn byte_at(self, x: int, y: int, k: int) -> u8 {
        self.data[self.offset_of(x, y, k)]
    }

    /// Whether `(x, y)` addresses a pixel of the buffer.
    pub open spec fn contains_pixel(self, x: int, y: int) -> bool {
        0 <= x < self.width && 0 <= y < self.height
    }

    /// Both buffers use the same sample layout.
    pub open spec fn same_layout(self, other: CanvasModel) -> bool {
        self.channels == other.channels && self.bytes_per_channel == other.bytes_per_channel
    }

    /// The result of copying the `w x h` rectangle of `src` at `(sx, sy)`
    /// onto `self` at `(dx, dy)`, byte for byte; every byte outside the
    /// destination rectangle keeps its value.
    pub open spec fn paste(
        self,
        src: CanvasModel,
        dx: int,
        dy: int,
        sx: int,
        sy: int,
        w: int,
        h: int,
    ) -> CanvasModel {
        CanvasModel {
            data: Seq::new(
                self.data.len(),
                |i: int|
                    {
                        let row_bytes = self.width * self.bpp();
                        let y = i / row_bytes as int;
                        let x = (i % row_bytes as int) / self.bpp() as int;
                        let k = (i % row_bytes as int) % self.bpp() as int;
                        if dx <= x < dx + w && dy <= y < dy + h {
                            src.byte_at(sx + (x - dx), sy + (y - dy), k)
                        } else {
                            self.data[i]
                        }
                    },
            ),
            ..self
        }
    }
}

/// Every valid pixel-byte offset is within the buffer, and so are the
/// intermediate values of its row-major computation.
pub proof fn lemma_offset_in_range(c: CanvasModel, x: int, y: int, k: int)
    requires
        c.wf(),
        c.contains_pixel(x, y),
        0 <= k < c.bpp(),
    ensures
        0 <= c.offset_of(x, y, k) < c.data.len(),
        c.offset_of(x, y, k) < c.width * c.height * c.bpp(),
        0 <= y * c.width,
        y * c.width + x <= c.offset_of(x, y, k),
        (y * c.width + x) * c.bpp() <= c.offset_of(x, y, k),
        c.bpp() <= 16,
{
    assert(1 <= c.channels * c.bytes_per_channel <= 16) by (nonlinear_arith)
        requires
            1 <= c.channels <= 4,
            c.bytes_per_channel == 1 || c.bytes_per_channel == 2 || c.bytes_per_channel == 4,
    ;
    assert(0 <= (y * c.width + x) * c.bpp() + k < c.width * c.height * c.bpp() && 0 <= y * c.width
        && y * c.width + x <= (y * c.width + x) * c.bpp() + k) by (nonlinear_arith)
        requires
            0 <= x < c.width,
            0 <= y < c.height,
            0 <= k < c.bpp(),
            c.bpp() >= 1,
    ;
}

/// Every buffer offset is the offset of exactly the pixel byte recovered by
/// row-major division: offsets and `(x, y, k)` coordinates are in bijection.
pub proof fn lemma_coords_of_offset(c: CanvasModel, i: int)
    ensures
        c.wf() && 0 <= i < c.data.len() ==> {
            let row_bytes = c.width * c.bpp();
            let y = i / row_bytes as int;
            let x = (i % row_bytes as int) / c.bpp() as int;
            let k = (i % row_bytes as int) % c.bpp() as int;
            c.contains_pixel(x, y) && 0 <= k < c.bpp() && c.offset_of(x, y, k) == i
        },
{
    if c.wf() && 0 <= i < c.data.len() {
        let b = c.bpp() as int;
        let row_bytes = c.width as int * b;
        assert(b >= 1) by (nonlinear_arith)
            requires
                c.channels >= 1,
                c.bytes_per_channel >= 1,
                b == c.channels * c.bytes_per_channel,
        ;
        assert(c.data.len() == c.height as int * row_bytes) by (nonlinear_arith)
            requires
                c.data.len() == c.width * c.height * c.bpp(),
                row_bytes == c.width as int * c.bpp(),
                b == c.bpp(),
        ;
        assert(row_bytes >= 1) by (nonlinear_arith)
            requires
                0 <= i < c.height as int * row_bytes,
        ;
        let y = i / row_bytes;
        let r = i % row_bytes;
        vstd::arithmetic::div_mod::lemma_fundamental_div_mod(i, row_bytes);
        vstd::arithmetic::div_mod::lemma_fundamental_div_mod(r, b);
        let x = r / b;
        let k = r % b;
        assert(0 <= r < row_bytes);
        assert(0 <= k < b);
        assert(0 <= x < c.width) by (nonlinear_arith)
            requires
                x == r / b,
                0 <= r < row_bytes,
                row_bytes == c.width as int * b,
                b >= 1,
        ;
        assert(0 <= y < c.height) by (nonlinear_arith)
            requires
                y == i / row_bytes,
                0 <= i < c.height as int * row_bytes,
                row_bytes >= 1,
        ;
        assert(c.offset_of(x, y, k) == (y * c.width + x) * b + k);
        assert((y * c.width + x) * b + k == y * row_bytes + (x * b + k)) by (nonlinear_arith)
            requires
                row_bytes == c.width as int * b,
        ;
        assert(i == y * row_bytes + r);
        assert(r == x * b + k);
    }
}

/// Two well-formed buffers of the same dimensions and layout whose pixel
/// bytes all agree are the same buffer.
pub proof fn lemma_bytes_eq(a: CanvasModel, b: CanvasModel)
    requires
        a.wf(),
        a.width == b.width,
        a.height == b.height,
        a.same_layout(b),
        b.data.len() == a.data.len(),
        forall|x: int, y: int, k: int|
            a.contains_pixel(x, y) && 0 <= k < a.bpp() ==> a.byte_at(x, y, k) == b.byte_at(x, y, k),
    ensures
        a =~= b,
{
    assert forall|i: int| 0 <= i < a.data.len() implies a.data[i] == b.data[i] by {
        lemma_coords_of_offset(a, i);
        let row_bytes = a.width * a.bpp();
        let y = i / row_bytes as int;
        let x = (i % row_bytes as int) / a.bpp() as int;
        let k = (i % row_bytes as int) % a.bpp() as int;
        assert(a.byte_at(x, y, k) == b.byte_at(x, y, k));
    }
    assert(a.data =~= b.data);
}

/// Row-major offsets decompose uniquely: dividing an offset by the row and
/// pixel strides recovers the coordinates it was built from.
pub proof fn lemma_offset_decompose(c: CanvasModel, x: int, y: int, k: int)
    requires
        c.wf(),
        c.contains_pixel(x, y),
        0 <= k < c.bpp(),
    ensures
        c.offset_of(x, y, k) / (c.width * c.bpp()) as int == y,
        (c.offset_of(x, y, k) % (c.width * c.bpp()) as int) / c.bpp() as int == x,
        (c.offset_of(x, y, k) % (c.width * c.bpp()) as int) % c.bpp() as int == k,
{
    let b = c.bpp() as int;
    let row_bytes = c.width as int * b;
    let i = c.offset_of(x, y, k);
    assert(b >= 1) by (nonlinear_arith)
        requires
            c.channels >= 1,
            c.bytes_per_channel >= 1,
            b == c.channels * c.bytes_per_channel,
    ;
    assert(i == y * row_bytes + (x * b + k)) by (nonlinear_arith)
        requires
            i == (y * c.width + x) * b + k,
            row_bytes == c.width as int * b,
    ;
    assert(0 <= x * b + k < row_bytes) by (nonlinear_arith)
        requires
            0 <= x < c.width,
            0 <= k < b,
            b >= 1,
            row_bytes == c.width as int * b,
    ;
    lemma_fundamental_div_mod_converse_div(i, row_bytes, y, x * b + k);
    lemma_fundamental_div_mod_converse_mod(i, row_bytes, y, x * b + k);
    lemma_fundamental_div_mod_converse_div(x * b + k, b, x, k);
    lemma_fundamental_div_mod_converse_mod(x * b + k, b, x, k);
}

/// Distinct pixel bytes live at distinct offsets.
pub proof fn lemma_offset_injective(
    c: CanvasModel,
    x1: int,
    y1: int,
    k1: int,
    x2: int,
    y2: int,
    k2: int,
)
    requires
        c.wf(),
        c.contains_pixel(x1, y1),
        0 <= k1 < c.bpp(),
        c.contains_pixel(x2, y2),
        0 <= k2 < c.bpp(),
        c.offset_of(x1, y1, k1) == c.offset_of(x2, y2, k2),
    ensures
        x1 == x2,
        y1 == y2,
        k1 == k2,
{
    lemma_offset_decompose(c, x1, y1, k1);
    lemma_offset_decompose(c, x2, y2, k2);
}

/// What `paste` does to a single pixel byte, and what it leaves alone.
pub proof fn lemma_paste_byte(
    d: CanvasModel,
    s: CanvasModel,
    dx: int,
    dy: int,
    sx: int,
    sy: int,
    w: int,
    h: int,
    x: int,
    y: int,
    k: int,
)
    requires
        d.wf(),
        d.contains_pixel(x, y),
        0 <= k < d.bpp(),
    ensures
        d.paste(s, dx, dy, sx, sy, w, h).byte_at(x, y, k) == if dx <= x < dx + w && dy <= y < dy
            + h {
            s.byte_at(sx + (x - dx), sy + (y - dy), k)
        } else {
            d.byte_at(x, y, k)
        },
{
    lemma_offset_in_range(d, x, y, k);
    lemma_offset_decompose(d, x, y, k);
}

/// `paste` keeps the dimensions, the layout and well-formedness.
pub proof fn lemma_paste_wf(
    d: CanvasModel,
    s: CanvasModel,
    dx: int,
    dy: int,
    sx: int,
    sy: int,
    w: int,
    h: int,
)
    requires
        d.wf(),
    ensures
        d.paste(s, dx, dy, sx, sy, w, h).wf(),
        d.paste(s, dx, dy, sx, sy, w, h).width == d.width,
        d.paste(s, dx, dy, sx, sy, w, h).height == d.height,
        d.paste(s, dx, dy, sx, sy, w, h).same_layout(d),
        d.paste(s, dx, dy, sx, sy, w, h).data.len() == d.data.len(),
{
}

/// A decoded or reconstructed pixel buffer: `width x height` pixels in
/// row-major order, each pixel `channels * bytes_per_channel` consecutive
/// bytes.
#[derive(Debug)]
pub struct Canvas {
    pub width: u32,
    pub height: u32,
    pub channels: u8,
    pub bytes_per_channel: u8,
    pub data: Vec<u8>,
}

impl View for Canvas {
    type V = CanvasModel;

    open spec fn view(&self) -> CanvasModel {
        CanvasModel {
            width: self.width as nat,
            height: self.height as nat,
            channels: self.channels as nat,
            bytes_per_channel: self.bytes_per_channel as nat,
            data: self.data@,
        }
    }
}

impl Canvas {
    /// Bytes per pixel.
    pub fn bpp(&self) -> (r: u16)
        requires
            self@.wf(),
        ensures
            r == self@.bpp(),
    {
        proof {
            assert(1 <= self@.channels * self@.bytes_per_channel <= 16) by (nonlinear_arith)
                requires
                    1 <= self@.channels <= 4,
                    1 <= self@.bytes_per_channel <= 4,
            ;
        }
        self.channels as u16 * self.bytes_per_channel as u16
    }

    /// Allocate a zero-filled canvas of the given dimensions and layout.
    pub fn new_zeroed(width: u32, height: u32, channels: u8, bytes_per_channel: u8) -> (r: Canvas)
        requires
            1 <= channels <= 4,
            bytes_per_channel == 1 || bytes_per_channel == 2 || bytes_per_channel == 4,
            width * height * (channels * bytes_per_channel) <= usize::MAX,
        ensures
            r@.wf(),
            r@.width == width,
            r@.height == height,
            r@.channels == channels,
            r@.bytes_per_channel == bytes_per_channel,
            r@.data == Seq::new((width * height * (channels * bytes_per_channel)) as nat, |i: int| 0u8),
    {
        let len_nat: Ghost<nat> = Ghost((width * height * (channels * bytes_per_channel)) as nat);
        proof {
            assert(1 <= channels * bytes_per_channel <= 16) by (nonlinear_arith)
                requires
                    1 <= channels <= 4,
                    bytes_per_channel == 1 || bytes_per_channel == 2 || bytes_per_channel == 4,
            ;
            assert(width * height <= width * height * (channels * bytes_per_channel))
                by (nonlinear_arith)
                requires
                    channels * bytes_per_channel >= 1,
            ;
        }
        let cb: usize = channels as usize * bytes_per_channel as usize;
        let wh: usize = width as usize * height as usize;
        let len: usize = wh * cb;
        let mut data: Vec<u8> = Vec::new();
        let mut i: usize = 0;
        while i < len
            invariant
                i <= len,
                data@.len() == i,
                forall|j: int| 0 <= j < i ==> data@[j] == 0u8,
            decreases len - i,
        {
            data.push(0u8);
            i = i + 1;
        }
        let r = Canvas { width, height, channels, bytes_per_channel, data };
        proof {
            assert(r@.data =~= Seq::new(len_nat@, |i: int| 0u8));
            assert(r@.wf()) by (nonlinear_arith)
                requires
                    r@.data.len() == width * height * (channels * bytes_per_channel),
                    r@.width == width,
                    r@.height == height,
                    r@.channels == channels,
                    r@.bytes_per_channel == bytes_per_channel,
                    1 <= channels <= 4,
                    bytes_per_channel == 1 || bytes_per_channel == 2 || bytes_per_channel == 4,
            ;
        }
        r
    }

    /// Read byte `k` of the pixel at `(x, y)`.
    pub fn byte_at(&self, x: u32, y: u32, k: u16) -> (r: u8)
        requires
            self@.wf(),
            self@.contains_pixel(x as int, y as int),
            k < self@.bpp(),
        ensures
            r == self@.byte_at(x as int, y as int, k as int),
    {
        proof {
            lemma_offset_in_range(self@, x as int, y as int, k as int);
        }
        let n: usize = self.data.len();
        let bpp: usize = self.channels as usize * self.bytes_per_channel as usize;
        let off: usize = (y as usize * self.width as usize + x as usize) * bpp + k as usize;
        assert(off == self@.offset_of(x as int, y as int, k as int));
        self.data[off]
    }

    /// Write byte `k` of the pixel at `(x, y)`.
    pub fn set_byte(&mut self, x: u32, y: u32, k: u16, v: u8)
        requires
            old(self)@.wf(),
            old(self)@.contains_pixel(x as int, y as int),
            k < old(self)@.bpp(),
        ensures
            final(self)@ == (CanvasModel {
                data: old(self)@.data.update(old(self)@.offset_of(x as int, y as int, k as int), v),
                ..old(self)@
            }),
            final(self)@.wf(),
    {
        proof {
            lemma_offset_in_range(self@, x as int, y as int, k as int);
        }
        let n: usize = self.data.len();
        let bpp: usize = self.channels as usize * self.bytes_per_channel as usize;
        let off: usize = (y as usize * self.width as usize + x as usize) * bpp + k as usize;
        assert(off == old(self)@.offset_of(x as int, y as int, k as int));
        self.data[off] = v;
    }
}

/// Copy the `w x h` pixel rectangle of `src` at `(sx, sy)` onto `dest` at
/// `(dx, dy)`. Both rectangles must lie within their buffers and the two
/// buffers must share one sample layout; the effect is exactly
/// [`CanvasModel::paste`].
pub fn copy_rect(dest: &mut Canvas, src: &Canvas, dx: u32, dy: u32, sx: u32, sy: u32, w: u32, h: u32)
    requires
        old(dest)@.wf(),
        src@.wf(),
        old(dest)@.same_layout(src@),
        dx + w <= old(dest)@.width,
        dy + h <= old(dest)@.height,
        sx + w <= src@.width,
        sy + h <= src@.height,
    ensures
        final(dest)@ == old(dest)@.paste(
            src@,
            dx as int,
            dy as int,
            sx as int,
            sy as int,
            w as int,
            h as int,
        ),
        final(dest)@.wf(),
        final(dest)@.width == old(dest)@.width,
        final(dest)@.height == old(dest)@.height,
        final(dest)@.same_layout(old(dest)@),
{
    let ghost d0 = dest@;
    let ghost target = d0.paste(src@, dx as int, dy as int, sx as int, sy as int, w as int, h as int);
    let bpp: u16 = dest.bpp();
    let mut y: u32 = 0;
    while y < h
        invariant
            y <= h,
            dest@.wf(),
            dest@.width == d0.width,
            dest@.height == d0.height,
            dest@.same_layout(d0),
            dest@.data.len() == d0.data.len(),
            d0.wf(),
            src@.wf(),
            d0.same_layout(src@),
            bpp == d0.bpp(),
            dx + w <= d0.width,
            dy + h <= d0.height,
            sx + w <= src@.width,
            sy + h <= src@.height,
            forall|px: int, py: int, kk: int|
                d0.contains_pixel(px, py) && 0 <= kk < d0.bpp() ==> #[trigger] dest@.byte_at(
                    px,
                    py,
                    kk,
                ) == if dx <= px < dx + w && dy <= py < dy + y {
                    src@.byte_at(sx + (px - dx), sy + (py - dy), kk)
                } else {
                    d0.byte_at(px, py, kk)
                },
        decreases h - y,
    {
        let mut x: u32 = 0;
        while x < w
            invariant
                x <= w,
                y < h,
                dest@.wf(),
                dest@.width == d0.width,
                dest@.height == d0.height,
                dest@.same_layout(d0),
                dest@.data.len() == d0.data.len(),
                d0.wf(),
                src@.wf(),
                d0.same_layout(src@),
                bpp == d0.bpp(),
                dx + w <= d0.width,
                dy + h <= d0.height,
                sx + w <= src@.width,
                sy + h <= src@.height,
                forall|px: int, py: int, kk: int|
                    d0.contains_pixel(px, py) && 0 <= kk < d0.bpp() ==> #[trigger] dest@.byte_at(
                        px,
                        py,
                        kk,
                    ) == if (dx <= px < dx + w && dy <= py < dy + y) || (py == dy + y && dx <= px
                        < dx + x) {
                        src@.byte_at(sx + (px - dx), sy + (py - dy), kk)
                    } else {
                        d0.byte_at(px, py, kk)
                    },
            decreases w - x,
        {
            let mut k: u16 = 0;
            while k < bpp
                invariant
                    k <= bpp,
                    x < w,
                    y < h,
                    dest@.wf(),
                    dest@.width == d0.width,
                    dest@.height == d0.height,
                    dest@.same_layout(d0),
                    dest@.data.len() == d0.data.len(),
                    d0.wf(),
                    src@.wf(),
                    d0.same_layout(src@),
                    bpp == d0.bpp(),
                    dx + w <= d0.width,
                    dy + h <= d0.height,
                    sx + w <= src@.width,
                    sy + h <= src@.height,
                    forall|px: int, py: int, kk: int|
                        d0.contains_pixel(px, py) && 0 <= kk < d0.bpp() ==> #[trigger] dest@.byte_at(
                            px,
                            py,
                            kk,
                        ) == if (dx <= px < dx + w && dy <= py < dy + y) || (py == dy + y && dx <= px
                            < dx + x) || (py == dy + y && px == dx + x && 0 <= kk < k) {
                            src@.byte_at(sx + (px - dx), sy + (py - dy), kk)
                        } else {
                            d0.byte_at(px, py, kk)
                        },
                decreases bpp - k,
            {
                let ghost before = dest@;
                let v = src.byte_at(sx + x, sy + y, k);
                dest.set_byte(dx + x, dy + y, k, v);
                proof {
                    let ox = dx + x as int;
                    let oy = dy + y as int;
                    let off = before.offset_of(ox, oy, k as int);
                    lemma_offset_in_range(before, ox, oy, k as int);
                    assert forall|px: int, py: int, kk: int|
                        before.contains_pixel(px, py) && 0 <= kk < before.bpp() && !(px == ox && py
                            == oy && kk == k as int) implies dest@.byte_at(px, py, kk)
                        == before.byte_at(px, py, kk) by {
                        lemma_offset_in_range(before, px, py, kk);
                        if before.offset_of(px, py, kk) == off {
                            lemma_offset_injective(before, px, py, kk, ox, oy, k as int);
                        }
                    }
                    assert(dest@.byte_at(ox, oy, k as int) == v);
                    assert forall|px: int, py: int, kk: int|
                        d0.contains_pixel(px, py) && 0 <= kk < d0.bpp() implies #[trigger] dest@.byte_at(
                        px,
                        py,
                        kk,
                    ) == if (dx <= px < dx + w && dy <= py < dy + y) || (py == dy + y && dx <= px
                        < dx + x) || (py == dy + y && px == dx + x && 0 <= kk < k + 1) {
                        src@.byte_at(sx + (px - dx), sy + (py - dy), kk)
                    } else {
                        d0.byte_at(px, py, kk)
                    } by {
                        assert(before.byte_at(px, py, kk) == if (dx <= px < dx + w && dy <= py < dy
                            + y) || (py == dy + y && dx <= px < dx + x) || (py == dy + y && px == dx
                            + x && 0 <= kk < k) {
                            src@.byte_at(sx + (px - dx), sy + (py - dy), kk)
                        } else {
                            d0.byte_at(px, py, kk)
                        });
                        if !(px == ox && py == oy && kk == k as int) {
                            assert(dest@.byte_at(px, py, kk) == before.byte_at(px, py, kk));
                        }
                    }
                }
                k = k + 1;
            }
            proof {
                assert forall|px: int, py: int, kk: int|
                    d0.contains_pixel(px, py) && 0 <= kk < d0.bpp() implies #[trigger] dest@.byte_at(
                    px,
                    py,
                    kk,
                ) == if (dx <= px < dx + w && dy <= py < dy + y) || (py == dy + y && dx <= px < dx
                    + (x + 1)) {
                    src@.byte_at(sx + (px - dx), sy + (py - dy), kk)
                } else {
                    d0.byte_at(px, py, kk)
                } by {
                    assert(dest@.byte_at(px, py, kk) == if (dx <= px < dx + w && dy <= py < dy + y)
                        || (py == dy + y && dx <= px < dx + x) || (py == dy + y && px == dx + x && 0
                        <= kk < bpp) {
                        src@.byte_at(sx + (px - dx), sy + (py - dy), kk)
                    } else {
                        d0.byte_at(px, py, kk)
                    });
                }
            }
            x = x + 1;
        }
        proof {
            assert forall|px: int, py: int, kk: int|
                d0.contains_pixel(px, py) && 0 <= kk < d0.bpp() implies #[trigger] dest@.byte_at(
                px,
                py,
                kk,
            ) == if dx <= px < dx + w && dy <= py < dy + (y + 1) {
                src@.byte_at(sx + (px - dx), sy + (py - dy), kk)
            } else {
                d0.byte_at(px, py, kk)
            } by {
                assert(dest@.byte_at(px, py, kk) == if (dx <= px < dx + w && dy <= py < dy + y) || (
                py == dy + y && dx <= px < dx + w) {
                    src@.byte_at(sx + (px - dx), sy + (py - dy), kk)
                } else {
                    d0.byte_at(px, py, kk)
                });
            }
        }
        y = y + 1;
    }
    proof {
        lemma_paste_wf(d0, src@, dx as int, dy as int, sx as int, sy as int, w as int, h as int);
        assert forall|px: int, py: int, kk: int|
            target.contains_pixel(px, py) && 0 <= kk < target.bpp() implies dest@.byte_at(px, py, kk)
            == target.byte_at(px, py, kk) by {
            lemma_paste_byte(
                d0,
                src@,
                dx as int,
                dy as int,
                sx as int,
                sy as int,
                w as int,
                h as int,
                px,
                py,
                kk,
            );
        }
        lemma_bytes_eq(target, dest@);
        assert(dest@ =~= target);
    }
}

} // verus!
