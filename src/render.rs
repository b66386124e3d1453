//! Compositing: per-layer images and merged frames.
use vstd::prelude::*;

use crate::canvas::{Canvas, Rows, blank, paint, rows_of, rows_view};
use std::collections::HashMap;

use crate::document::{Aseprite, AsepriteFrameInfo, AsepriteView, frame_source, resolve_spec};
use crate::error::{AseResult, AsepriteError, AsepriteInvalidError, invalid};
use crate::cel::AsepriteCel;
use crate::layer::layers_view;
use crate::raw::{AsepriteColor, AsepritePixel, pixel_rgba};

verus! {

/// The RGBA values of the first `n` pixels, or the error of the first one that does not resolve.
pub open spec fn resolve_prefix(
    pixels: Seq<AsepritePixel>,
    n: nat,
    palette: Option<Seq<AsepriteColor>>,
    transparent: Option<u8>,
) -> Result<Seq<[u8; 4]>, AsepriteError>
    decreases n,
{
    if n == 0 {
        Ok(Seq::empty())
    } else {
        match resolve_prefix(pixels, (n - 1) as nat, palette, transparent) {
            Err(e) => Err(e),
            Ok(s) => match pixel_rgba(pixels[n - 1], palette, transparent) {
                Err(e) => Err(e),
                Ok(p) => Ok(s.push(p)),
            },
        }
    }
}

/// The RGBA rows of a `w` by `h` pixel block in the colors of document `d`.
pub open spec fn block_rgba(d: AsepriteView, w: u16, h: u16, pixels: Seq<AsepritePixel>) -> Result<Rows, AsepriteError> {
    let n = (w as nat) * (h as nat);
    if pixels.len() < n {
        Err(invalid(AsepriteInvalidError::InvalidPixelData(pixels.len() as usize)))
    } else {
        match resolve_prefix(pixels, n, d.palette, d.transparent_palette) {
            Err(e) => Err(e),
            Ok(flat) => Ok(rows_of(flat, w as nat, h as nat)),
        }
    }
}

/// The image of a resolved pixel source: its pixels on a canvas of its own size, with no
/// offset; `None` where there is no source.
pub open spec fn source_image(
    d: AsepriteView,
    src: Result<Option<(u16, u16, Seq<AsepritePixel>)>, AsepriteError>,
) -> Result<Option<Rows>, AsepriteError> {
    match src {
        Err(e) => Err(e),
        Ok(None) => Ok(None),
        Ok(Some((w, h, p))) => match block_rgba(d, w, h, p) {
            Err(e) => Err(e),
            Ok(rows) => Ok(Some(paint(blank(w as nat, h as nat), rows, 0, 0))),
        },
    }
}

/// Width and height of a resolved pixel source; none where there is no source.
pub open spec fn source_size(src: Result<Option<(u16, u16, Seq<AsepritePixel>)>, AsepriteError>) -> (int, int) {
    match src {
        Ok(Some((w, h, _))) => (w as int, h as int),
        _ => (0, 0),
    }
}

/// The image of layer `l` at frame `f`: the cel's pixels on a canvas of the cel's own
/// size, with no offset; `None` where the layer has no content at that frame (no cel, or
/// a link to a frame where it has no cel).
pub open spec fn layer_image(d: AsepriteView, l: int, f: int) -> Result<Option<Rows>, AsepriteError> {
    source_image(d, resolve_spec(d, l, f))
}

/// The image of layer `l` as compositing frame `f` sees it: as [`layer_image`], except that
/// a link to a frame where the layer has no cel is an error.
pub open spec fn frame_layer_image(d: AsepriteView, l: int, f: int) -> Result<Option<Rows>, AsepriteError> {
    source_image(d, frame_source(d, l, f))
}

/// What one layer brings to a merged frame.
pub struct StackEntry {
    pub visible: bool,
    /// The rows to paint and the canvas position of their top left corner, `None` where the
    /// layer has no cel at the frame, or the error that resolving the cel meets.
    pub content: Result<Option<(Rows, int, int)>, AsepriteError>,
}

/// What layer `l` brings to frame `f`: its cel's pixels at the position of that cel
/// (for a linked cel, the position of the linking cel).
pub open spec fn layer_content(d: AsepriteView, l: int, f: int) -> Result<Option<(Rows, int, int)>, AsepriteError> {
    match frame_source(d, l, f) {
        Err(e) => Err(e),
        Ok(None) => Ok(None),
        Ok(Some((w, h, p))) => match block_rgba(d, w, h, p) {
            Err(e) => Err(e),
            Ok(rows) => Ok(Some((rows, d.cels[l][f].x as int, d.cels[l][f].y as int))),
        },
    }
}

/// The layers of frame `f`, from the bottom of the stack to the top.
pub open spec fn frame_stack(d: AsepriteView, f: int) -> Seq<StackEntry> {
    Seq::new(d.layers.len(), |l: int| StackEntry { visible: d.layers[l].visible, content: layer_content(d, l, f) })
}

/// `base` with the visible entries of `entries` painted over it in order; the first
/// error of a visible entry, if any.
pub open spec fn composite(base: Rows, entries: Seq<StackEntry>) -> Result<Rows, AsepriteError>
    decreases entries.len(),
{
    if entries.len() == 0 {
        Ok(base)
    } else {
        match composite(base, entries.drop_last()) {
            Err(e) => Err(e),
            Ok(rows) => {
                let e = entries.last();
                if !e.visible {
                    Ok(rows)
                } else {
                    match e.content {
                        Err(x) => Err(x),
                        Ok(None) => Ok(rows),
                        Ok(Some((src, ox, oy))) => Ok(paint(rows, src, ox, oy)),
                    }
                }
            }
        }
    }
}

/// The merged image of frame `f`: every visible layer painted in index order over a
/// transparent canvas of the document's size.
pub open spec fn merged_frame(d: AsepriteView, f: int) -> Result<Rows, AsepriteError> {
    composite(blank(d.width as nat, d.height as nat), frame_stack(d, f))
}


/// A layer that is not visible changes nothing: compositing a stack in which entry `i` is
/// hidden gives what compositing the stack without that entry gives.
pub proof fn lemma_hidden_entry_removed(base: Rows, entries: Seq<StackEntry>, i: int)
    requires
        0 <= i < entries.len(),
        !entries[i].visible,
    ensures
        composite(base, entries) == composite(base, entries.remove(i)),
    decreases entries.len(),
{
    if i == entries.len() - 1 {
        assert(entries.remove(i) =~= entries.drop_last());
    } else {
        lemma_hidden_entry_removed(base, entries.drop_last(), i);
        assert(entries.remove(i).drop_last() =~= entries.drop_last().remove(i));
        assert(entries.remove(i).last() == entries.last());
    }
}

/// A merged frame in which layer `i` is not visible equals the merged frame of the same
/// document with that layer taken out of the stack.
pub proof fn lemma_hidden_layer_removed(d: AsepriteView, f: int, i: int)
    requires
        0 <= i < d.layers.len(),
        !d.layers[i].visible,
    ensures
        merged_frame(d, f) == composite(blank(d.width as nat, d.height as nat), frame_stack(d, f).remove(i)),
{
    lemma_hidden_entry_removed(blank(d.width as nat, d.height as nat), frame_stack(d, f), i);
}

/// The spec view of an image result.
pub open spec fn canvas_result(r: AseResult<Canvas>) -> Result<Rows, AsepriteError> {
    match r {
        Ok(c) => Ok(c@),
        Err(e) => Err(e),
    }
}

/// An error met by a prefix of the pixels is the error of every longer prefix.
proof fn lemma_resolve_error_sticks(
    pixels: Seq<AsepritePixel>,
    k: nat,
    n: nat,
    palette: Option<Seq<AsepriteColor>>,
    transparent: Option<u8>,
)
    requires
        k <= n,
        resolve_prefix(pixels, k, palette, transparent) is Err,
    ensures
        resolve_prefix(pixels, n, palette, transparent) == resolve_prefix(pixels, k, palette, transparent),
    decreases n - k,
{
    if k < n {
        lemma_resolve_error_sticks(pixels, k, (n - 1) as nat, palette, transparent);
    }
}

/// An error met by a prefix of the stack is the error of the whole stack.
proof fn lemma_composite_error_sticks(base: Rows, entries: Seq<StackEntry>, k: int)
    requires
        0 <= k <= entries.len(),
        composite(base, entries.take(k)) is Err,
    ensures
        composite(base, entries) == composite(base, entries.take(k)),
    decreases entries.len() - k,
{
    if k < entries.len() {
        assert(entries.take(k + 1).drop_last() =~= entries.take(k));
        lemma_composite_error_sticks(base, entries, k + 1);
    } else {
        assert(entries.take(k) =~= entries);
    }
}

/// Resolves the first `n` pixels of `pixels` to RGBA.
fn resolve_pixels(
    pixels: &Vec<AsepritePixel>,
    n: usize,
    palette: Option<&Vec<AsepriteColor>>,
    transparent: Option<u8>,
) -> (r: AseResult<Vec<[u8; 4]>>)
    requires
        n <= pixels@.len(),
    ensures
        match r {
            Ok(v) => resolve_prefix(pixels@, n as nat, palette_view(palette), transparent) == Ok::<Seq<[u8; 4]>, AsepriteError>(v@)
                && v@.len() == n,
            Err(e) => resolve_prefix(pixels@, n as nat, palette_view(palette), transparent) == Err::<Seq<[u8; 4]>, AsepriteError>(e),
        },
{
    let mut flat: Vec<[u8; 4]> = Vec::new();
    let mut i: usize = 0;
    while i < n
        invariant
            i <= n <= pixels@.len(),
            flat@.len() == i,
            resolve_prefix(pixels@, i as nat, palette_view(palette), transparent) == Ok::<Seq<[u8; 4]>, AsepriteError>(flat@),
        decreases n - i,
    {
        match pixels[i].get_rgba(palette, transparent) {
            Ok(p) => flat.push(p),
            Err(e) => {
                proof {
                    lemma_resolve_error_sticks(pixels@, (i + 1) as nat, n as nat, palette_view(palette), transparent);
                }
                return Err(e);
            },
        }
        i += 1;
    }
    Ok(flat)
}

/// The spec view of an optional palette table.
pub open spec fn palette_view(palette: Option<&Vec<AsepriteColor>>) -> Option<Seq<AsepriteColor>> {
    match palette {
        Some(p) => Some(p@),
        None => None,
    }
}

/// Cuts the first `w * h` pixels of `flat` into `h` rows of `w`.
fn to_rows(flat: &Vec<[u8; 4]>, w: u16, h: u16) -> (r: Vec<Vec<[u8; 4]>>)
    requires
        (w as nat) * (h as nat) <= flat@.len(),
    ensures
        rows_view(r@) == rows_of(flat@, w as nat, h as nat),
        r@.len() == h,
        forall|y: int| 0 <= y < r@.len() ==> #[trigger] r@[y]@.len() == w,
{
    let mut rows: Vec<Vec<[u8; 4]>> = Vec::new();
    let mut start: usize = 0;
    assert(flat@.len() == flat.len());
    let mut y: u16 = 0;
    while y < h
        invariant
            y <= h,
            flat@.len() <= usize::MAX,
            (w as nat) * (h as nat) <= flat@.len(),
            start == (y as nat) * (w as nat),
            rows_view(rows@) =~= rows_of(flat@, w as nat, y as nat),
            rows@.len() == y,
            forall|i: int| 0 <= i < rows@.len() ==> #[trigger] rows@[i]@.len() == w,
        decreases h - y,
    {
        assert((y as nat) * (w as nat) + (w as nat) <= (w as nat) * (h as nat)) by (nonlinear_arith)
            requires
                y < h,
        ;
        let mut row: Vec<[u8; 4]> = Vec::new();
        let mut x: u16 = 0;
        while x < w
            invariant
                x <= w,
                flat@.len() <= usize::MAX,
                start + w <= flat@.len(),
                row@ =~= flat@.subrange(start as int, start + x),
            decreases w - x,
        {
            row.push(flat[start + x as usize]);
            x += 1;
        }
        let ghost prev = rows@;
        assert(rows_view(prev) == rows_of(flat@, w as nat, y as nat));
        rows.push(row);
        assert(rows_view(rows@) =~= rows_of(flat@, w as nat, (y + 1) as nat)) by {
            assert forall|i: int| 0 <= i < rows@.len() implies #[trigger] rows_view(rows@)[i] == rows_of(flat@, w as nat, (y + 1) as nat)[i] by {
                if i < prev.len() {
                    assert(rows_view(prev)[i] == prev[i]@);
                }
            }
        }
        assert(((y + 1) as nat) * (w as nat) == (y as nat) * (w as nat) + (w as nat)) by (nonlinear_arith);
        start = start + w as usize;
        y += 1;
    }
    rows
}

impl Aseprite {
    /// The RGBA rows of a `width` by `height` pixel block in this document's colors.
    pub fn block_rgba(&self, width: u16, height: u16, pixels: &Vec<AsepritePixel>) -> (r: AseResult<Vec<Vec<[u8; 4]>>>)
        ensures
            match r {
                Ok(rows) => block_rgba(self@, width, height, pixels@) == Ok::<Rows, AsepriteError>(rows_view(rows@))
                    && rows@.len() == height
                    && forall|y: int| 0 <= y < rows@.len() ==> #[trigger] rows@[y]@.len() == width,
                Err(e) => block_rgba(self@, width, height, pixels@) == Err::<Rows, AsepriteError>(e),
            },
    {
        assert((width as nat) * (height as nat) <= 65535 * 65535) by (nonlinear_arith)
            requires
                width <= 65535,
                height <= 65535,
        ;
        let n = width as usize * height as usize;
        if pixels.len() < n {
            return Err(AsepriteError::InvalidConfiguration(AsepriteInvalidError::InvalidPixelData(pixels.len())));
        }
        let palette = match self.palette() {
            Some(p) => Some(&p.entries),
            None => None,
        };
        let flat = resolve_pixels(pixels, n, palette, self.transparent_palette())?;
        Ok(to_rows(&flat, width, height))
    }

    /// The image of a `width` by `height` pixel block: the pixels painted over a transparent
    /// canvas of that size, shifted by the cel's position where a cel is given.
    fn write_image(&self, cel: Option<&AsepriteCel>, width: u16, height: u16, pixels: &Vec<AsepritePixel>) -> (r: AseResult<Canvas>)
        ensures
            match r {
                Ok(c) => block_rgba(self@, width, height, pixels@) matches Ok(rows) && c@ == paint(
                    blank(width as nat, height as nat),
                    rows,
                    match cel { Some(c) => c.x as int, None => 0 },
                    match cel { Some(c) => c.y as int, None => 0 },
                ) && c.wf() && c.width == width && c.height == height,
                Err(e) => block_rgba(self@, width, height, pixels@) == Err::<Rows, AsepriteError>(e),
            },
    {
        let rows = self.block_rgba(width, height, pixels)?;
        let (ox, oy) = match cel {
            Some(c) => (c.x as i32, c.y as i32),
            None => (0, 0),
        };
        let mut image = Canvas::new(width as u32, height as u32);
        image.paint(&rows, ox, oy);
        Ok(image)
    }

    /// The image of a layer at a frame: the cel's pixels on a canvas of the cel's own size,
    /// with no offset; `None` where the layer has no content at that frame: no cel, or a link
    /// to a frame where it has no cel. A link to another linked cel is an error.
    pub fn get_image_by_layer_frame(&self, layer_index: &usize, frame_index: &usize) -> (r: AseResult<Option<Canvas>>)
        ensures
            match r {
                Ok(Some(c)) => layer_image(self@, *layer_index as int, *frame_index as int) == Ok::<Option<Rows>, AsepriteError>(Some(c@)) && c.wf(),
                Ok(None) => layer_image(self@, *layer_index as int, *frame_index as int) == Ok::<Option<Rows>, AsepriteError>(None),
                Err(e) => layer_image(self@, *layer_index as int, *frame_index as int) == Err::<Option<Rows>, AsepriteError>(e),
            },
    {
        match self.resolve_cel(*layer_index, *frame_index)? {
            None => Ok(None),
            Some((width, height, pixels)) => Ok(Some(self.write_image(None, width, height, pixels)?)),
        }
    }

    /// The image of a layer as compositing a frame sees it; see [`frame_layer_image`].
    fn frame_layer_image(&self, layer_index: &usize, frame_index: &usize) -> (r: AseResult<Option<Canvas>>)
        ensures
            match r {
                Ok(Some(c)) => frame_layer_image(self@, *layer_index as int, *frame_index as int) == Ok::<Option<Rows>, AsepriteError>(Some(c@))
                    && c.wf() && c.width == source_size(frame_source(self@, *layer_index as int, *frame_index as int)).0
                    && c.height == source_size(frame_source(self@, *layer_index as int, *frame_index as int)).1,
                Ok(None) => frame_layer_image(self@, *layer_index as int, *frame_index as int) == Ok::<Option<Rows>, AsepriteError>(None),
                Err(e) => frame_layer_image(self@, *layer_index as int, *frame_index as int) == Err::<Option<Rows>, AsepriteError>(e),
            },
    {
        match self.resolve_frame_cel(*layer_index, *frame_index)? {
            None => Ok(None),
            Some((width, height, pixels)) => Ok(Some(self.write_image(None, width, height, pixels)?)),
        }
    }
}

/// The merged image of a frame: every visible layer's cel painted in index order, at the
/// cel's position, over a transparent canvas of the document's size. Blend modes and
/// opacities are not applied.
pub fn image_for_frame(aseprite: &Aseprite, frame_index: u16) -> (r: AseResult<Canvas>)
    ensures
        canvas_result(r) == merged_frame(aseprite@, frame_index as int),
        r matches Ok(c) ==> c.wf() && c.width == aseprite@.width && c.height == aseprite@.height,
{
    let (w, h) = aseprite.dimensions();
    let mut image = Canvas::new(w as u32, h as u32);
    let layers = aseprite.layer_list();
    let f = frame_index as usize;
    let ghost d = aseprite@;
    let ghost stack = frame_stack(d, f as int);
    let ghost base = blank(w as nat, h as nat);
    let mut i: usize = 0;
    while i < layers.len()
        invariant
            d == aseprite@,
            stack == frame_stack(d, f as int),
            base == blank(d.width as nat, d.height as nat),
            f == frame_index,
            layers_view(layers@) == d.layers,
            i <= layers@.len(),
            image.wf(),
            image.width == d.width,
            image.height == d.height,
            composite(base, stack.take(i as int)) == Ok::<Rows, AsepriteError>(image@),
        decreases layers@.len() - i,
    {
        let ghost prefix = stack.take(i as int);
        let ghost next = stack.take(i as int + 1);
        assert(next.drop_last() =~= prefix);
        assert(next.last() == stack[i as int]);
        assert(layers@[i as int]@ == d.layers[i as int]);
        if !layers[i].is_visible() {
            i += 1;
            continue;
        }
        match aseprite.resolve_frame_cel(i, f) {
            Err(e) => {
                proof {
                    lemma_composite_error_sticks(base, stack, i as int + 1);
                }
                return Err(e);
            },
            Ok(None) => {},
            Ok(Some((cw, ch, pixels))) => {
                match aseprite.block_rgba(cw, ch, pixels) {
                    Err(e) => {
                        proof {
                            lemma_composite_error_sticks(base, stack, i as int + 1);
                        }
                        return Err(e);
                    },
                    Ok(rows) => {
                        let cel = aseprite.get_cel(&i, &f).unwrap();
                        image.paint(&rows, cel.x as i32, cel.y as i32);
                    },
                }
            },
        }
        i += 1;
    }
    assert(stack.take(layers@.len() as int) =~= stack);
    Ok(image)
}

/// The images of the normal layers of frame `f` among the first `n` layers, by layer
/// index; layers without a cel at the frame are left out.
pub open spec fn frame_layer_images(d: AsepriteView, f: int, n: nat) -> Result<Map<usize, Rows>, AsepriteError>
    decreases n,
{
    if n == 0 {
        Ok(Map::empty())
    } else {
        match frame_layer_images(d, f, (n - 1) as nat) {
            Err(e) => Err(e),
            Ok(m) => if d.layers[n - 1].is_group {
                Ok(m)
            } else {
                match frame_layer_image(d, n - 1, f) {
                    Err(e) => Err(e),
                    Ok(None) => Ok(m),
                    Ok(Some(img)) => Ok(m.insert((n - 1) as usize, img)),
                }
            },
        }
    }
}

proof fn lemma_frame_images_error_sticks(d: AsepriteView, f: int, k: nat, n: nat)
    requires
        k <= n,
        frame_layer_images(d, f, k) is Err,
    ensures
        frame_layer_images(d, f, n) == frame_layer_images(d, f, k),
    decreases n - k,
{
    if k < n {
        lemma_frame_images_error_sticks(d, f, k, (n - 1) as nat);
    }
}

/// The images of a map from layer index to canvas.
pub open spec fn images_view(m: Map<usize, Canvas>) -> Map<usize, Rows> {
    m.map_values(|c: Canvas| c@)
}

/// Whether `c` is well formed and has the size of the pixels behind layer `l` at frame `f`.
pub open spec fn frame_image_sized(d: AsepriteView, l: int, f: int, c: Canvas) -> bool {
    &&& c.wf()
    &&& c.width == source_size(frame_source(d, l, f)).0
    &&& c.height == source_size(frame_source(d, l, f)).1
}

/// The frames of a document.
#[derive(Debug)]
pub struct AsepriteFrames<'a> {
    aseprite: &'a Aseprite,
}

/// One frame of a document.
#[derive(Debug)]
pub struct AsepriteFrame<'a> {
    aseprite: &'a Aseprite,
    frame_index: usize,
}

/// A range of frames of a document.
#[derive(Debug)]
pub struct AsepriteFrameRange<'a> {
    aseprite: &'a Aseprite,
    range: std::ops::Range<u16>,
}

impl Aseprite {
    /// The frames of the document.
    pub fn frames(&self) -> (r: AsepriteFrames)
        ensures
            r.document() == self@,
    {
        AsepriteFrames { aseprite: self }
    }

    /// The frame with the given index, if the document has it.
    pub fn get_frame(&self, frame_index: usize) -> (r: Option<AsepriteFrame>)
        ensures
            r is Some <==> frame_index < self@.frame_count,
            r matches Some(fr) ==> fr.document() == self@ && fr.index() == frame_index && fr.document().wf(),
    {
        if frame_index >= self.frame_count() {
            return None;
        }
        Some(AsepriteFrame { aseprite: self, frame_index })
    }
}

impl<'a> AsepriteFrames<'a> {
    /// The document the frames belong to.
    pub closed spec fn document(&self) -> AsepriteView {
        self.aseprite@
    }

    /// The frames of a range.
    pub fn get_for(&self, range: &std::ops::Range<u16>) -> (r: AsepriteFrameRange<'a>)
        ensures
            r.document() == self.document(),
            r.start() == range.start,
            r.end() == range.end,
    {
        AsepriteFrameRange { aseprite: self.aseprite, range: std::ops::Range { start: range.start, end: range.end } }
    }

    /// A single frame.
    pub fn get(&self, frame_index: u16) -> (r: AsepriteFrame<'a>)
        ensures
            r.document() == self.document(),
            r.index() == frame_index,
    {
        AsepriteFrame { aseprite: self.aseprite, frame_index: frame_index as usize }
    }

    /// The number of frames.
    pub fn count(&self) -> (r: usize)
        ensures
            r == self.document().frame_count,
    {
        self.aseprite.frame_count()
    }
}

impl<'a> AsepriteFrame<'a> {
    /// The document the frame belongs to.
    pub closed spec fn document(&self) -> AsepriteView {
        self.aseprite@
    }

    /// The index of the frame.
    pub closed spec fn index(&self) -> usize {
        self.frame_index
    }

    /// The timing of the frame; an error if the document has no frame with this index.
    pub fn get_infos(&self) -> (r: AseResult<&'a AsepriteFrameInfo>)
        ensures
            self.index() < self.document().frame_infos.len() ==> (r matches Ok(i) && *i == self.document().frame_infos[self.index() as int]),
            self.index() >= self.document().frame_infos.len() ==> r == Err::<&AsepriteFrameInfo, AsepriteError>(
                invalid(AsepriteInvalidError::InvalidFrame(self.index())),
            ),
    {
        let infos = self.aseprite.frame_infos();
        if self.frame_index < infos.len() {
            Ok(&infos[self.frame_index])
        } else {
            Err(AsepriteError::InvalidConfiguration(AsepriteInvalidError::InvalidFrame(self.frame_index)))
        }
    }

    /// The image of a layer at this frame; see [`Aseprite::get_image_by_layer_frame`].
    pub fn get_image_by_layer(&self, layer_index: &usize) -> (r: AseResult<Option<Canvas>>)
        ensures
            match r {
                Ok(Some(c)) => layer_image(self.document(), *layer_index as int, self.index() as int) == Ok::<Option<Rows>, AsepriteError>(Some(c@)),
                Ok(None) => layer_image(self.document(), *layer_index as int, self.index() as int) == Ok::<Option<Rows>, AsepriteError>(None),
                Err(e) => layer_image(self.document(), *layer_index as int, self.index() as int) == Err::<Option<Rows>, AsepriteError>(e),
            },
    {
        self.aseprite.get_image_by_layer_frame(layer_index, &self.frame_index)
    }

    /// The images of the normal layers at this frame, by layer index; a layer without a
    /// cel at this frame has none.
    pub fn get_images(&self) -> (r: AseResult<HashMap<usize, Canvas>>)
        ensures
            match r {
                Ok(m) => frame_layer_images(self.document(), self.index() as int, self.document().layers.len())
                    == Ok::<Map<usize, Rows>, AsepriteError>(images_view(m@))
                    && forall|k: usize| #[trigger] m@.contains_key(k) ==> frame_image_sized(self.document(), k as int, self.index() as int, m@[k]),
                Err(e) => frame_layer_images(self.document(), self.index() as int, self.document().layers.len())
                    == Err::<Map<usize, Rows>, AsepriteError>(e),
            },
    {
        broadcast use vstd::std_specs::hash::group_hash_axioms;
        let ghost d = self.aseprite@;
        let f = self.frame_index;
        let layers = self.aseprite.layer_list();
        let mut result: HashMap<usize, Canvas> = HashMap::new();
        let mut i: usize = 0;
        assert(images_view(result@) =~= Map::empty());
        while i < layers.len()
            invariant
                d == self.aseprite@,
                f == self.frame_index,
                layers_view(layers@) == d.layers,
                i <= layers@.len(),
                frame_layer_images(d, f as int, i as nat) == Ok::<Map<usize, Rows>, AsepriteError>(images_view(result@)),
                forall|k: usize| #[trigger] result@.contains_key(k) ==> frame_image_sized(d, k as int, f as int, result@[k]),
            decreases layers@.len() - i,
        {
            assert(layers@[i as int]@ == d.layers[i as int]);
            if !layers[i].is_group() {
                match self.aseprite.frame_layer_image(&i, &f) {
                    Err(e) => {
                        proof {
                            lemma_frame_images_error_sticks(d, f as int, (i + 1) as nat, d.layers.len());
                        }
                        return Err(e);
                    },
                    Ok(None) => {},
                    Ok(Some(image)) => {
                        let ghost before = result@;
                        let ghost img = image@;
                        result.insert(i, image);
                        assert(images_view(result@) =~= images_view(before).insert(i, img));
                    },
                }
            }
            i += 1;
        }
        Ok(result)
    }
}

impl<'a> AsepriteFrameRange<'a> {
    /// The document the frames belong to.
    pub closed spec fn document(&self) -> AsepriteView {
        self.aseprite@
    }

    /// The first frame of the range.
    pub closed spec fn start(&self) -> u16 {
        self.range.start
    }

    /// The end of the range, itself excluded.
    pub closed spec fn end(&self) -> u16 {
        self.range.end
    }

    /// The timings of the frames of the range; an error if the range is not within the document.
    pub fn get_infos(&self) -> (r: AseResult<&'a [AsepriteFrameInfo]>)
        ensures
            self.start() <= self.end() <= self.document().frame_infos.len() ==> (r matches Ok(s)
                && s@ == self.document().frame_infos.subrange(self.start() as int, self.end() as int)),
            !(self.start() <= self.end() <= self.document().frame_infos.len()) ==> r == Err::<&[AsepriteFrameInfo], AsepriteError>(
                invalid(AsepriteInvalidError::InvalidFrame(self.end() as usize)),
            ),
    {
        let infos = self.aseprite.frame_infos();
        let start = self.range.start as usize;
        let end = self.range.end as usize;
        if start <= end && end <= infos.len() {
            Ok(&infos[start..end])
        } else {
            Err(AsepriteError::InvalidConfiguration(AsepriteInvalidError::InvalidFrame(end)))
        }
    }

    /// The merged images of the frames of the range, in order; the first error met, if any.
    pub fn get_images(&self) -> (r: AseResult<Vec<Canvas>>)
        ensures
            match r {
                Ok(v) => v@.len() == if self.start() <= self.end() { self.end() - self.start() } else { 0 }
                    && forall|i: int| 0 <= i < v@.len() ==> merged_frame(self.document(), self.start() + i) == Ok::<Rows, AsepriteError>(#[trigger] v@[i]@)
                        && v@[i].wf() && v@[i].width == self.document().width && v@[i].height == self.document().height,
                Err(e) => exists|i: int| self.start() <= i < self.end()
                    && merged_frame(self.document(), i) == Err::<Rows, AsepriteError>(e)
                    && forall|j: int| self.start() <= j < i ==> #[trigger] merged_frame(self.document(), j) is Ok,
            },
    {
        let mut frames: Vec<Canvas> = Vec::new();
        let mut frame = self.range.start;
        if self.range.start >= self.range.end {
            return Ok(frames);
        }
        while frame < self.range.end
            invariant
                self.range.start <= frame <= self.range.end,
                frames@.len() == frame - self.range.start,
                forall|i: int| 0 <= i < frames@.len() ==> merged_frame(self.document(), self.start() + i) == Ok::<Rows, AsepriteError>(#[trigger] frames@[i]@)
                    && frames@[i].wf() && frames@[i].width == self.document().width && frames@[i].height == self.document().height,
            decreases self.range.end - frame,
        {
            match image_for_frame(self.aseprite, frame) {
                Ok(image) => frames.push(image),
                Err(e) => {
                    assert forall|j: int| self.start() <= j < frame implies #[trigger] merged_frame(self.document(), j) is Ok by {
                        assert(merged_frame(self.document(), self.start() + (j - self.start())) == Ok::<Rows, AsepriteError>(frames@[j - self.start()]@));
                    }
                    return Err(e);
                },
            }
            frame += 1;
        }
        Ok(frames)
    }
}

} // verus!
