use vstd::prelude::*;

use crate::canvas::{Canvas, Rows, crop, crop_len};
use crate::document::{Aseprite, AsepriteView};
use crate::error::{AseResult, AsepriteError};
use crate::raw::{AsepriteNinePatchInfo, RawAsepriteSlice};
use crate::render::{image_for_frame, merged_frame};

verus! {

/// A named rectangle of the canvas.
#[derive(Debug, Clone)]
pub struct AsepriteSlice {
    pub name: String,
    /// The frame from which the slice is valid.
    pub valid_frame: u16,
    pub position_x: i32,
    pub position_y: i32,
    pub width: u32,
    pub height: u32,
    pub nine_patch_info: Option<AsepriteNinePatchInfo>,
}

/// The mathematical value of a slice.
pub struct SliceView {
    pub name: Seq<char>,
    pub valid_frame: u16,
    pub position_x: i32,
    pub position_y: i32,
    pub width: u32,
    pub height: u32,
    pub nine_patch_info: Option<AsepriteNinePatchInfo>,
}

impl View for AsepriteSlice {
    type V = SliceView;

    open spec fn view(&self) -> SliceView {
        SliceView {
            name: self.name@,
            valid_frame: self.valid_frame,
            position_x: self.position_x,
            position_y: self.position_y,
            width: self.width,
            height: self.height,
            nine_patch_info: self.nine_patch_info,
        }
    }
}

impl SliceView {
    /// The slice that key `s` of a slice chunk named `name` describes.
    pub open spec fn from_key(name: Seq<char>, s: RawAsepriteSlice) -> SliceView {
        SliceView {
            name,
            valid_frame: s.frame as u16,
            position_x: s.x_origin,
            position_y: s.y_origin,
            width: s.width,
            height: s.height,
            nine_patch_info: s.nine_patch_info,
        }
    }
}


/// The nine parts of a nine-patch image.
#[derive(Debug, Clone, Copy, PartialEq, Eq, Hash, Structural)]
pub enum NineSlice {
    TopLeft,
    TopCenter,
    TopRight,
    RightCenter,
    BottomRight,
    BottomCenter,
    BottomLeft,
    LeftCenter,
    Center,
}

/// The nine parts, in the order in which slice images list them.
pub open spec fn nine_slices() -> Seq<NineSlice> {
    seq![
        NineSlice::TopLeft,
        NineSlice::TopCenter,
        NineSlice::TopRight,
        NineSlice::RightCenter,
        NineSlice::BottomRight,
        NineSlice::BottomCenter,
        NineSlice::BottomLeft,
        NineSlice::LeftCenter,
        NineSlice::Center,
    ]
}

/// The column of a part: 0 left, 1 center, 2 right.
pub open spec fn column_of(n: NineSlice) -> int {
    match n {
        NineSlice::TopLeft | NineSlice::LeftCenter | NineSlice::BottomLeft => 0,
        NineSlice::TopCenter | NineSlice::Center | NineSlice::BottomCenter => 1,
        _ => 2,
    }
}

/// The row of a part: 0 top, 1 center, 2 bottom.
pub open spec fn row_of(n: NineSlice) -> int {
    match n {
        NineSlice::TopLeft | NineSlice::TopCenter | NineSlice::TopRight => 0,
        NineSlice::LeftCenter | NineSlice::Center | NineSlice::RightCenter => 1,
        _ => 2,
    }
}

/// `v` held within `lo..=hi`.
pub open spec fn clamp(v: int, lo: int, hi: int) -> int {
    if v < lo {
        lo
    } else if v > hi {
        hi
    } else {
        v
    }
}

/// Band `k` of an axis of length `len` cut around a center patch that starts at `c` and
/// spans `size`: band 0 is `[0, c)`, band 1 is `[c, c + size)`, band 2 is `[c + size, len)`,
/// with the cuts held within the axis. Returns the band's start and end.
pub open spec fn band(len: int, c: int, size: int, k: int) -> (int, int) {
    let b1 = clamp(c, 0, len);
    let b2 = clamp(c + size, b1, len);
    if k == 0 {
        (0, b1)
    } else if k == 1 {
        (b1, b2)
    } else {
        (b2, len)
    }
}

/// The rectangle of part `n` of a `w` by `h` slice, as left, top, width and height.
pub open spec fn nine_region(w: u32, h: u32, info: AsepriteNinePatchInfo, n: NineSlice) -> (int, int, int, int) {
    let (x0, x1) = band(w as int, info.x_center as int, info.width as int, column_of(n));
    let (y0, y1) = band(h as int, info.y_center as int, info.height as int, row_of(n));
    (x0, y0, x1 - x0, y1 - y0)
}

/// Whether the point (`px`, `py`) lies in the rectangle `r`.
pub open spec fn in_region(r: (int, int, int, int), px: int, py: int) -> bool {
    r.0 <= px < r.0 + r.2 && r.1 <= py < r.1 + r.3
}

/// The area of the rectangle `r`.
pub open spec fn region_area(r: (int, int, int, int)) -> int {
    r.2 * r.3
}

/// Whether the point (`px`, `py`) lies in one of the nine parts of a `w` by `h` slice.
pub open spec fn covered(w: u32, h: u32, info: AsepriteNinePatchInfo, px: int, py: int) -> bool {
    exists|a: int| 0 <= a < 9 && #[trigger] in_region(nine_region(w, h, info, nine_slices()[a]), px, py)
}

/// The sum of the areas of the nine parts of a `w` by `h` slice.
pub open spec fn nine_area_sum(w: u32, h: u32, info: AsepriteNinePatchInfo) -> int {
    region_area(nine_region(w, h, info, NineSlice::TopLeft))
        + region_area(nine_region(w, h, info, NineSlice::TopCenter))
        + region_area(nine_region(w, h, info, NineSlice::TopRight))
        + region_area(nine_region(w, h, info, NineSlice::RightCenter))
        + region_area(nine_region(w, h, info, NineSlice::BottomRight))
        + region_area(nine_region(w, h, info, NineSlice::BottomCenter))
        + region_area(nine_region(w, h, info, NineSlice::BottomLeft))
        + region_area(nine_region(w, h, info, NineSlice::LeftCenter))
        + region_area(nine_region(w, h, info, NineSlice::Center))
}

/// The nine parts of a nine-patch slice tile it: their areas add up to the slice's area,
/// no two of them overlap, and every point of the slice lies in one of them.
pub proof fn lemma_nine_patch_partition(width: u32, height: u32, info: AsepriteNinePatchInfo)
    ensures
        nine_area_sum(width, height, info) == (width as int) * (height as int),
        forall|a: int, b: int, px: int, py: int|
            0 <= a < 9 && 0 <= b < 9 && a != b ==> !(#[trigger] in_region(nine_region(width, height, info, nine_slices()[a]), px, py)
                && #[trigger] in_region(nine_region(width, height, info, nine_slices()[b]), px, py)),
        forall|px: int, py: int| 0 <= px < width && 0 <= py < height ==> #[trigger] covered(width, height, info, px, py),
{
    let w = width as int;
    let h = height as int;
    let c0 = band(w, info.x_center as int, info.width as int, 0);
    let c1 = band(w, info.x_center as int, info.width as int, 1);
    let c2 = band(w, info.x_center as int, info.width as int, 2);
    let r0 = band(h, info.y_center as int, info.height as int, 0);
    let r1 = band(h, info.y_center as int, info.height as int, 1);
    let r2 = band(h, info.y_center as int, info.height as int, 2);
    let a0 = c0.1 - c0.0;
    let a1 = c1.1 - c1.0;
    let a2 = c2.1 - c2.0;
    let e0 = r0.1 - r0.0;
    let e1 = r1.1 - r1.0;
    let e2 = r2.1 - r2.0;
    assert(a0 + a1 + a2 == w);
    assert(e0 + e1 + e2 == h);
    assert(a0 * h == a0 * e0 + a0 * e1 + a0 * e2) by (nonlinear_arith)
        requires
            e0 + e1 + e2 == h,
    ;
    assert(a1 * h == a1 * e0 + a1 * e1 + a1 * e2) by (nonlinear_arith)
        requires
            e0 + e1 + e2 == h,
    ;
    assert(a2 * h == a2 * e0 + a2 * e1 + a2 * e2) by (nonlinear_arith)
        requires
            e0 + e1 + e2 == h,
    ;
    assert(w * h == a0 * h + a1 * h + a2 * h) by (nonlinear_arith)
        requires
            a0 + a1 + a2 == w,
    ;
    let ns = nine_slices();
    assert forall|px: int, py: int| 0 <= px < width && 0 <= py < height implies #[trigger] covered(width, height, info, px, py) by {
        let col = if px < c0.1 { 0int } else if px < c1.1 { 1int } else { 2int };
        let row = if py < r0.1 { 0int } else if py < r1.1 { 1int } else { 2int };
        let a = if row == 0 {
            if col == 0 { 0int } else if col == 1 { 1int } else { 2int }
        } else if row == 1 {
            if col == 0 { 7int } else if col == 1 { 8int } else { 3int }
        } else {
            if col == 0 { 6int } else if col == 1 { 5int } else { 4int }
        };
        assert(in_region(nine_region(width, height, info, ns[a]), px, py));
    }
}

/// The image of a slice and, for a nine-patch slice, its nine parts.
#[derive(Debug, Clone)]
pub struct AsepriteSliceImage {
    pub image: Canvas,
    /// The nine parts, in the order of [`NineSlice`]'s variants.
    pub nine_slices: Option<Vec<(NineSlice, Canvas)>>,
}

/// The spec view of the nine parts of a slice image.
pub open spec fn parts_view(parts: Seq<(NineSlice, Canvas)>) -> Seq<(NineSlice, Rows)> {
    parts.map_values(|p: (NineSlice, Canvas)| (p.0, p.1@))
}

/// `v`, or 0 if it is negative.
pub open spec fn at_least_zero(v: i32) -> int {
    if v < 0 { 0 } else { v as int }
}

/// The image of slice `s` of document `d`: the merged frame at the slice's first valid frame,
/// cropped to the slice (a negative origin held at the canvas edge), and, for a nine-patch
/// slice, that image cut into the nine parts.
pub open spec fn slice_image(d: AsepriteView, s: SliceView) -> Result<(Rows, Option<Seq<(NineSlice, Rows)>>), AsepriteError> {
    match merged_frame(d, s.valid_frame as int) {
        Err(e) => Err(e),
        Ok(frame) => {
            let x = at_least_zero(s.position_x);
            let y = at_least_zero(s.position_y);
            let img = crop(frame, d.width as int, x, y, s.width as int, s.height as int);
            let iw = crop_len(d.width as int, x, s.width as int);
            Ok((
                img,
                match s.nine_patch_info {
                    None => None,
                    Some(info) => Some(
                        nine_slices().map_values(
                            |n: NineSlice| {
                                let r = nine_region(s.width, s.height, info, n);
                                (n, crop(img, iw, r.0, r.1, r.2, r.3))
                            },
                        ),
                    ),
                },
            ))
        },
    }
}

/// The spec view of a slice image.
pub open spec fn slice_image_view(si: AsepriteSliceImage) -> (Rows, Option<Seq<(NineSlice, Rows)>>) {
    (
        si.image@,
        match si.nine_slices {
            None => None,
            Some(v) => Some(parts_view(v@)),
        },
    )
}

/// Whether the canvases of the image `si` of slice `s` of document `d` are well formed and
/// have the sizes of their crops: the slice image that of the slice's rectangle held within
/// the canvas, and each part that of its rectangle held within the slice image.
pub open spec fn slice_image_sized(d: AsepriteView, s: SliceView, si: AsepriteSliceImage) -> bool {
    let iw = crop_len(d.width as int, at_least_zero(s.position_x), s.width as int);
    let ih = crop_len(d.height as int, at_least_zero(s.position_y), s.height as int);
    &&& si.image.wf()
    &&& si.image.width == iw
    &&& si.image.height == ih
    &&& si.nine_slices matches Some(parts) ==> parts@.len() == 9 && forall|k: int|
        0 <= k < 9 ==> #[trigger] part_sized(parts@[k].1, iw, ih, nine_region(s.width, s.height, s.nine_patch_info->0, nine_slices()[k]))
}

/// Whether `c` is well formed and has the size of the crop of rectangle `r` from an image
/// of `iw` by `ih` pixels.
pub open spec fn part_sized(c: Canvas, iw: int, ih: int, r: (int, int, int, int)) -> bool {
    &&& c.wf()
    &&& c.width == crop_len(iw, r.0, r.2)
    &&& c.height == crop_len(ih, r.1, r.3)
}

/// The part with position `k` in [`nine_slices`].
fn nine_slice_at(k: usize) -> (r: NineSlice)
    requires
        k < 9,
    ensures
        r == nine_slices()[k as int],
{
    match k {
        0 => NineSlice::TopLeft,
        1 => NineSlice::TopCenter,
        2 => NineSlice::TopRight,
        3 => NineSlice::RightCenter,
        4 => NineSlice::BottomRight,
        5 => NineSlice::BottomCenter,
        6 => NineSlice::BottomLeft,
        7 => NineSlice::LeftCenter,
        _ => NineSlice::Center,
    }
}

/// `v` held within `lo..=hi`.
fn clamp_i64(v: i64, lo: i64, hi: i64) -> (r: i64)
    requires
        lo <= hi,
    ensures
        r == clamp(v as int, lo as int, hi as int),
{
    if v < lo {
        lo
    } else if v > hi {
        hi
    } else {
        v
    }
}

/// Start and end of band `k` of an axis; see [`band`].
fn band_of(len: u32, c: i32, size: u32, k: u8) -> (r: (u32, u32))
    ensures
        r.0 as int == band(len as int, c as int, size as int, k as int).0,
        r.1 as int == band(len as int, c as int, size as int, k as int).1,
{
    let b1 = clamp_i64(c as i64, 0, len as i64);
    let b2 = clamp_i64(c as i64 + size as i64, b1, len as i64);
    if k == 0 {
        (0, b1 as u32)
    } else if k == 1 {
        (b1 as u32, b2 as u32)
    } else {
        (b2 as u32, len)
    }
}

/// The rectangle of a part of a `w` by `h` slice; see [`nine_region`].
pub fn nine_patch_region(w: u32, h: u32, info: &AsepriteNinePatchInfo, n: NineSlice) -> (r: (u32, u32, u32, u32))
    ensures
        (r.0 as int, r.1 as int, r.2 as int, r.3 as int) == nine_region(w, h, *info, n),
{
    let col: u8 = match n {
        NineSlice::TopLeft | NineSlice::LeftCenter | NineSlice::BottomLeft => 0,
        NineSlice::TopCenter | NineSlice::Center | NineSlice::BottomCenter => 1,
        _ => 2,
    };
    let row: u8 = match n {
        NineSlice::TopLeft | NineSlice::TopCenter | NineSlice::TopRight => 0,
        NineSlice::LeftCenter | NineSlice::Center | NineSlice::RightCenter => 1,
        _ => 2,
    };
    let (x0, x1) = band_of(w, info.x_center, info.width, col);
    let (y0, y1) = band_of(h, info.y_center, info.height, row);
    (x0, y0, x1 - x0, y1 - y0)
}


/// The slices of a document.
#[derive(Debug)]
pub struct AsepriteSlices<'a> {
    aseprite: &'a Aseprite,
}

impl Aseprite {
    /// The slices of the document.
    pub fn slices(&self) -> (r: AsepriteSlices)
        ensures
            r.document() == self@,
    {
        AsepriteSlices { aseprite: self }
    }
}

impl<'a> AsepriteSlices<'a> {
    /// The document the slices belong to.
    pub closed spec fn document(&self) -> AsepriteView {
        self.aseprite@
    }

    /// The slice with the given name, if there is one.
    pub fn get_by_name(&self, name: &str) -> (r: Option<&'a AsepriteSlice>)
        ensures
            r is Some <==> exists|i: int| 0 <= i < self.document().slices.len() && #[trigger] self.document().slices[i].name == name@,
            r matches Some(s) ==> s@.name == name@ && self.document().slices.contains(s@),
    {
        let slices = self.aseprite.slice_list();
        let wanted: String = name.to_owned();
        let mut i: usize = 0;
        while i < slices.len()
            invariant
                slices@.map_values(|s: AsepriteSlice| s@) == self.document().slices,
                i <= slices@.len(),
                wanted@ == name@,
                forall|j: int| 0 <= j < i ==> #[trigger] self.document().slices[j].name != name@,
            decreases slices@.len() - i,
        {
            assert(slices@[i as int]@ == self.document().slices[i as int]);
            if slices[i].name == wanted {
                assert(self.document().slices[i as int].name == name@);
                return Some(&slices[i]);
            }
            i += 1;
        }
        None
    }

    /// All slices.
    pub fn get_all(&self) -> (r: &'a [AsepriteSlice])
        ensures
            r@.map_values(|s: AsepriteSlice| s@) == self.document().slices,
    {
        self.aseprite.slice_list().as_slice()
    }

    /// The images of the given slices, in order; the first error met, if any. A slice with a
    /// negative origin is cut from the canvas edge. A nine-patch center that reaches past
    /// the slice, or starts before it, has its cuts held within the slice (see [`band`]), so
    /// the nine parts still tile it.
    pub fn get_images(&self, wanted_slices: &[AsepriteSlice]) -> (r: AseResult<Vec<AsepriteSliceImage>>)
        ensures
            match r {
                Ok(v) => v@.len() == wanted_slices@.len() && forall|i: int| 0 <= i < v@.len()
                    ==> slice_image(self.document(), wanted_slices@[i]@) == Ok::<(Rows, Option<Seq<(NineSlice, Rows)>>), AsepriteError>(
                    slice_image_view(#[trigger] v@[i]),
                ) && slice_image_sized(self.document(), wanted_slices@[i]@, v@[i]),
                Err(e) => exists|i: int| 0 <= i < wanted_slices@.len()
                    && slice_image(self.document(), wanted_slices@[i]@) == Err::<(Rows, Option<Seq<(NineSlice, Rows)>>), AsepriteError>(e)
                    && forall|j: int| 0 <= j < i ==> #[trigger] slice_image(self.document(), wanted_slices@[j]@) is Ok,
            },
    {
        let mut images: Vec<AsepriteSliceImage> = Vec::new();
        let mut k: usize = 0;
        while k < wanted_slices.len()
            invariant
                k <= wanted_slices@.len(),
                images@.len() == k,
                forall|i: int| 0 <= i < k ==> slice_image(self.document(), wanted_slices@[i]@) == Ok::<(Rows, Option<Seq<(NineSlice, Rows)>>), AsepriteError>(
                    slice_image_view(#[trigger] images@[i]),
                ) && slice_image_sized(self.document(), wanted_slices@[i]@, images@[i]),
            decreases wanted_slices@.len() - k,
        {
            let slice = &wanted_slices[k];
            match slice_image_of(self.aseprite, slice) {
                Ok(si) => images.push(si),
                Err(e) => {
                    assert forall|j: int| 0 <= j < k implies #[trigger] slice_image(self.document(), wanted_slices@[j]@) is Ok by {
                        assert(slice_image(self.document(), wanted_slices@[j]@) == Ok::<(Rows, Option<Seq<(NineSlice, Rows)>>), AsepriteError>(
                            slice_image_view(images@[j]),
                        ));
                    }
                    return Err(e);
                },
            }
            k += 1;
        }
        Ok(images)
    }
}

/// The image of one slice; see [`slice_image`].
fn slice_image_of(aseprite: &Aseprite, slice: &AsepriteSlice) -> (r: AseResult<AsepriteSliceImage>)
    ensures
        match r {
            Ok(si) => slice_image(aseprite@, slice@) == Ok::<(Rows, Option<Seq<(NineSlice, Rows)>>), AsepriteError>(slice_image_view(si))
                && slice_image_sized(aseprite@, slice@, si),
            Err(e) => slice_image(aseprite@, slice@) == Err::<(Rows, Option<Seq<(NineSlice, Rows)>>), AsepriteError>(e),
        },
{
    let frame = image_for_frame(aseprite, slice.valid_frame)?;
    let x: u32 = if slice.position_x < 0 { 0 } else { slice.position_x as u32 };
    let y: u32 = if slice.position_y < 0 { 0 } else { slice.position_y as u32 };
    let image = frame.crop(x, y, slice.width, slice.height);
    let nine_slices = match &slice.nine_patch_info {
        None => None,
        Some(info) => {
            let ghost img = image@;
            let ghost iw = crop_len(aseprite@.width as int, x as int, slice.width as int);
            let ghost ih = crop_len(aseprite@.height as int, y as int, slice.height as int);
            let ghost target = nine_slices().map_values(
                |n: NineSlice| {
                    let r = nine_region(slice.width, slice.height, *info, n);
                    (n, crop(img, iw, r.0, r.1, r.2, r.3))
                },
            );
            let mut parts: Vec<(NineSlice, Canvas)> = Vec::new();
            let mut k: usize = 0;
            while k < 9
                invariant
                    k <= 9,
                    parts@.len() == k,
                    target.len() == 9,
                    image.wf(),
                    image@ == img,
                    image.width == iw,
                    image.height == ih,
                    forall|i: int| 0 <= i < k ==> #[trigger] part_sized(parts@[i].1, iw, ih, nine_region(slice.width, slice.height, *info, nine_slices()[i])),
                    target == nine_slices().map_values(
                        |n: NineSlice| {
                            let r = nine_region(slice.width, slice.height, *info, n);
                            (n, crop(img, iw, r.0, r.1, r.2, r.3))
                        },
                    ),
                    parts_view(parts@) =~= target.take(k as int),
                decreases 9 - k,
            {
                let n = nine_slice_at(k);
                let (rx, ry, rw, rh) = nine_patch_region(slice.width, slice.height, info, n);
                let part = image.crop(rx, ry, rw, rh);
                let ghost prev = parts@;
                parts.push((n, part));
                assert(forall|i: int| 0 <= i < k ==> parts@[i] == prev[i]);
                assert(part_sized(parts@[k as int].1, iw, ih, nine_region(slice.width, slice.height, *info, nine_slices()[k as int])));
                assert(parts_view(parts@) =~= target.take(k as int + 1)) by {
                    assert forall|i: int| 0 <= i < prev.len() implies #[trigger] parts_view(parts@)[i] == target[i] by {
                        assert(parts_view(prev)[i] == (prev[i].0, prev[i].1@));
                    }
                }
                k += 1;
            }
            assert(target.take(9) =~= target);
            Some(parts)
        },
    };
    Ok(AsepriteSliceImage { image, nine_slices })
}

impl AsepriteSlice {
    /// Creates the slice that key `s` of a slice chunk named `name` describes.
    pub fn from_key(name: String, s: &RawAsepriteSlice) -> (r: Self)
        ensures
            r@ == SliceView::from_key(name@, *s),
    {
        AsepriteSlice {
            name,
            valid_frame: s.frame as u16,
            position_x: s.x_origin,
            position_y: s.y_origin,
            width: s.width,
            height: s.height,
            nine_patch_info: s.nine_patch_info,
        }
    }
}

} // verus!
