//! RGBA canvases and source-over painting onto them.
use vstd::prelude::*;

use image::Pixel;

verus! {

/// The pixel that painting `src` over `dst` gives.
pub uninterp spec fn blend_over(dst: [u8; 4], src: [u8; 4]) -> [u8; 4];

/// Relies on image's `Rgba::<u8>::blend` (source-over alpha compositing): a transparent
/// source leaves the destination as it is, an opaque one replaces it.
#[verifier::external_body]
fn blend_pixel(dst: [u8; 4], src: [u8; 4]) -> (r: [u8; 4])
    ensures
        r == blend_over(dst, src),
        src[3] == 0 ==> r == dst,
        src[3] == 255 ==> r == src,
{
    let mut p = image::Rgba(dst);
    p.blend(&image::Rgba(src));
    p.0
}

/// Pixel rows of an image, top to bottom, each left to right.
pub type Rows = Seq<Seq<[u8; 4]>>;

/// An RGBA image.
#[derive(Debug, Clone, PartialEq, Eq)]
pub struct Canvas {
    pub width: u32,
    pub height: u32,
    /// `height` rows of `width` pixels each.
    pub rows: Vec<Vec<[u8; 4]>>,
}

/// The rows of pixel rows held in vectors.
pub open spec fn rows_view(rows: Seq<Vec<[u8; 4]>>) -> Rows {
    rows.map_values(|r: Vec<[u8; 4]>| r@)
}

impl View for Canvas {
    type V = Rows;

    open spec fn view(&self) -> Rows {
        rows_view(self.rows@)
    }
}

/// A fully transparent row of `w` pixels.
pub open spec fn blank_row(w: nat) -> Seq<[u8; 4]> {
    Seq::new(w, |x: int| [0u8, 0u8, 0u8, 0u8])
}

/// A fully transparent image of `w` by `h` pixels.
pub open spec fn blank(w: nat, h: nat) -> Rows {
    Seq::new(h, |y: int| blank_row(w))
}

/// The pixel that painting `src` over `dst` gives: a fully transparent source leaves `dst`,
/// a fully opaque one replaces it, and anything between is blended.
pub open spec fn paint_pixel(dst: [u8; 4], src: [u8; 4]) -> [u8; 4] {
    if src[3] == 0 {
        dst
    } else if src[3] == 255 {
        src
    } else {
        blend_over(dst, src)
    }
}

/// `dst` with `src` painted over it from column `ox` on; columns outside `dst` are clipped.
pub open spec fn paint_row(dst: Seq<[u8; 4]>, src: Seq<[u8; 4]>, ox: int) -> Seq<[u8; 4]> {
    Seq::new(
        dst.len(),
        |x: int|
            if 0 <= x - ox < src.len() {
                paint_pixel(dst[x], src[x - ox])
            } else {
                dst[x]
            },
    )
}

/// `dst` with the rows `src` painted over it with their top left corner at (`ox`, `oy`);
/// what falls outside `dst` is clipped.
pub open spec fn paint(dst: Rows, src: Rows, ox: int, oy: int) -> Rows {
    Seq::new(
        dst.len(),
        |y: int|
            if 0 <= y - oy < src.len() {
                paint_row(dst[y], src[y - oy], ox)
            } else {
                dst[y]
            },
    )
}

/// The rows of a `w` by `h` image whose pixels `flat` holds row by row.
pub open spec fn rows_of(flat: Seq<[u8; 4]>, w: nat, h: nat) -> Rows {
    Seq::new(h, |y: int| flat.subrange(y * w, y * w + w))
}

impl Canvas {
    /// Whether the rows have the declared size.
    pub open spec fn wf(&self) -> bool {
        &&& self@.len() == self.height
        &&& forall|y: int| 0 <= y < self@.len() ==> #[trigger] self@[y].len() == self.width
    }

    /// A fully transparent canvas.
    pub fn new(width: u32, height: u32) -> (r: Canvas)
        ensures
            r.width == width,
            r.height == height,
            r@ == blank(width as nat, height as nat),
            r.wf(),
    {
        let mut rows: Vec<Vec<[u8; 4]>> = Vec::new();
        let mut y: u32 = 0;
        while y < height
            invariant
                y <= height,
                rows_view(rows@) =~= blank(width as nat, y as nat),
            decreases height - y,
        {
            let mut row: Vec<[u8; 4]> = Vec::new();
            let mut x: u32 = 0;
            while x < width
                invariant
                    x <= width,
                    y < height,
                    rows_view(rows@) =~= blank(width as nat, y as nat),
                    row@ =~= blank_row(x as nat),
                decreases width - x,
            {
                row.push([0u8, 0u8, 0u8, 0u8]);
                x += 1;
            }
            assert(rows_view(rows@) == blank(width as nat, y as nat));
            assert(rows_view(rows@).len() == y);
            assert(rows@.len() == y);
            let ghost prev = rows@;
            let ghost next = blank(width as nat, (y + 1) as nat);
            assert(prev.len() == y);
            assert(row@ =~= blank_row(width as nat));
            rows.push(row);
            assert(rows_view(rows@) =~= next) by {
                assert forall|i: int| 0 <= i < rows@.len() implies #[trigger] rows@[i]@ == next[i] by {
                    if i < prev.len() {
                        assert(rows_view(prev)[i] == prev[i]@);
                    }
                }
            }
            y += 1;
        }
        Canvas { width, height, rows }
    }

    /// The pixel at column `x` of row `y`.
    pub fn get_pixel(&self, x: u32, y: u32) -> (r: [u8; 4])
        requires
            self.wf(),
            x < self.width,
            y < self.height,
        ensures
            r == self@[y as int][x as int],
    {
        assert(self@[y as int] == self.rows@[y as int]@);
        self.rows[y as usize][x as usize]
    }

    /// Paints `src` over the canvas with its top left corner at (`ox`, `oy`).
    pub fn paint(&mut self, src: &Vec<Vec<[u8; 4]>>, ox: i32, oy: i32)
        requires
            old(self).wf(),
            src@.len() <= u32::MAX,
            forall|y: int| 0 <= y < src@.len() ==> #[trigger] src@[y]@.len() <= u32::MAX,
        ensures
            final(self).width == old(self).width,
            final(self).height == old(self).height,
            final(self)@ == paint(old(self)@, rows_view(src@), ox as int, oy as int),
            final(self).wf(),
    {
        let ghost s = rows_view(src@);
        let ghost d0 = self@;
        let mut sy: usize = 0;
        while sy < src.len()
            invariant
                sy <= src@.len() <= u32::MAX,
                forall|y: int| 0 <= y < src@.len() ==> #[trigger] src@[y]@.len() <= u32::MAX,
                s == rows_view(src@),
                d0 == old(self)@,
                self.width == old(self).width,
                self.height == old(self).height,
                self.wf(),
                self@ =~= paint(d0, s.take(sy as int), ox as int, oy as int),
            decreases src@.len() - sy,
        {
            let y = oy as i64 + sy as i64;
            let ghost before = self@;
            if 0 <= y && (y as u64) < (self.rows.len() as u64) {
                let yy = y as usize;
                assert(self@[yy as int] == self.rows@[yy as int]@);
                assert(s[sy as int] == src@[sy as int]@);
                let ghost row0 = self.rows@[yy as int]@;
                let ghost rows_before = self.rows@;
                paint_one_row(&mut self.rows[yy], &src[sy], ox);
                assert(self.rows@ == rows_before.update(yy as int, self.rows@[yy as int]));
                assert forall|i: int| 0 <= i < self@.len() implies #[trigger] self@[i] == paint(d0, s.take(sy as int + 1), ox as int, oy as int)[i] && self@[i].len() == self.width by {
                    assert(self@[i] == self.rows@[i]@);
                    assert(before[i] == rows_before[i]@);
                    if i != yy {
                        assert(self@[i] == before[i]);
                    }
                }
                assert(self@ =~= paint(d0, s.take(sy as int + 1), ox as int, oy as int));
            } else {
                assert(self@ =~= paint(d0, s.take(sy as int + 1), ox as int, oy as int));
            }
            sy += 1;
        }
        assert(s.take(src@.len() as int) =~= s);
    }
}


/// The `w` by `h` part of `src` (rows of `sw` pixels) whose top left corner is at
/// (`x`, `y`), shrunk to what lies inside `src`, as image's `crop_imm` cuts it.
pub open spec fn crop(src: Rows, sw: int, x: int, y: int, w: int, h: int) -> Rows {
    let x0 = if x < sw { x } else { sw };
    let y0 = if y < src.len() { y } else { src.len() as int };
    let cw = if w < sw - x0 { w } else { sw - x0 };
    let ch = if h < src.len() - y0 { h } else { src.len() - y0 };
    Seq::new(ch as nat, |j: int| Seq::new(cw as nat, |i: int| src[y0 + j][x0 + i]))
}

/// The length that a crop starting at `start` with length `len` keeps of an axis of length `total`.
pub open spec fn crop_len(total: int, start: int, len: int) -> int {
    let s = if start < total { start } else { total };
    if len < total - s { len } else { total - s }
}

impl Canvas {
    /// The `width` by `height` part of the canvas whose top left corner is at (`x`, `y`),
    /// shrunk to what lies inside the canvas.
    pub fn crop(&self, x: u32, y: u32, width: u32, height: u32) -> (r: Canvas)
        requires
            self.wf(),
        ensures
            r@ == crop(self@, self.width as int, x as int, y as int, width as int, height as int),
            r.width == crop_len(self.width as int, x as int, width as int),
            r.height == crop_len(self.height as int, y as int, height as int),
            r.wf(),
    {
        let x0 = if x < self.width { x } else { self.width };
        let y0 = if y < self.height { y } else { self.height };
        let cw = if width < self.width - x0 { width } else { self.width - x0 };
        let ch = if height < self.height - y0 { height } else { self.height - y0 };
        let ghost target = crop(self@, self.width as int, x as int, y as int, width as int, height as int);
        let mut rows: Vec<Vec<[u8; 4]>> = Vec::new();
        let mut j: u32 = 0;
        while j < ch
            invariant
                self.wf(),
                x0 + cw <= self.width,
                y0 + ch <= self.height,
                target == crop(self@, self.width as int, x as int, y as int, width as int, height as int),
                target.len() == ch,
                forall|k: int| 0 <= k < ch ==> #[trigger] target[k] == Seq::new(cw as nat, |i: int| self@[y0 + k][x0 + i]),
                j <= ch,
                rows@.len() == j,
                forall|k: int| 0 <= k < j ==> #[trigger] rows@[k]@ == target[k],
            decreases ch - j,
        {
            let src_row = &self.rows[(y0 + j) as usize];
            assert(src_row@ == self@[(y0 + j) as int]);
            let mut row: Vec<[u8; 4]> = Vec::new();
            let mut i: u32 = 0;
            while i < cw
                invariant
                    i <= cw,
                    x0 + cw <= self.width,
                    x0 + cw <= src_row@.len(),
                    row@ =~= Seq::new(i as nat, |k: int| src_row@[x0 + k]),
                decreases cw - i,
            {
                row.push(src_row[(x0 + i) as usize]);
                i += 1;
            }
            assert(row@ =~= target[j as int]);
            rows.push(row);
            j += 1;
        }
        let r = Canvas { width: cw, height: ch, rows };
        assert(r@ =~= target);
        r
    }
}

/// Paints the pixels `src` over the row `dst` from column `ox` on.
fn paint_one_row(dst: &mut Vec<[u8; 4]>, src: &Vec<[u8; 4]>, ox: i32)
    requires
        src@.len() <= u32::MAX,
    ensures
        final(dst)@ == paint_row(old(dst)@, src@, ox as int),
{
    let ghost d0 = dst@;
    let mut sx: usize = 0;
    while sx < src.len()
        invariant
            sx <= src@.len() <= u32::MAX,
            d0 == old(dst)@,
            dst@ =~= paint_row(d0, src@.take(sx as int), ox as int),
        decreases src@.len() - sx,
    {
        let x = ox as i64 + sx as i64;
        let ghost before = dst@;
        if 0 <= x && (x as u64) < (dst.len() as u64) {
            let xx = x as usize;
            let p = blend_pixel(dst[xx], src[sx]);
            assert(p == paint_pixel(dst@[xx as int], src@[sx as int]));
            dst.set(xx, p);
        }
        assert forall|i: int| 0 <= i < dst@.len() implies #[trigger] dst@[i] == paint_row(d0, src@.take(sx as int + 1), ox as int)[i] by {
            assert(before[i] == paint_row(d0, src@.take(sx as int), ox as int)[i]);
        }
        assert(dst@ =~= paint_row(d0, src@.take(sx as int + 1), ox as int));
        sx += 1;
    }
    assert(src@.take(src@.len() as int) =~= src@);
}

} // verus!
