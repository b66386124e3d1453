use vstd::prelude::*;

use crate::cel::{AsepriteCel, CelView};
use crate::error::{AseResult, AsepriteError, AsepriteInvalidError, invalid};
use crate::layer::{
    AsepriteLayer, AsepriteLayers, LayerView, belong_groups, first_named, groups_containing, layer_named, layers_view,
};
use crate::palette::{AsepritePalette, palette_table};
use crate::raw::{
    AsepriteColor, AsepriteColorDepth, AsepriteLayerType, AsepritePixel, RawAseprite, RawAsepriteCel,
    RawAsepriteChunk, RawAsepriteFrame, RawAsepritePaletteEntry, RawAsepriteSlice, RawAsepriteTag,
    RawAsepriteUserData,
};
use crate::slice::{AsepriteSlice, SliceView};
use crate::tag::{AsepriteTag, AsepriteTags, TagView};

verus! {

/// Timing of one frame.
#[derive(Debug, Clone, Copy, PartialEq, Eq, Structural)]
pub struct AsepriteFrameInfo {
    /// How long the frame is shown, in milliseconds.
    pub delay_ms: usize,
}

/// A chunk that the document does not support, with the index of the frame that held it.
/// Assembly goes on past such a chunk and records it.
#[derive(Debug, Clone, Copy, PartialEq, Eq, Structural)]
pub enum AsepriteWarning {
    UnsupportedCelExtra(usize),
    UnsupportedColorProfile(usize),
}

/// The entity that a following user data chunk belongs to.
#[derive(Debug, Clone, Copy, PartialEq, Eq, Structural)]
pub enum UserDataTarget {
    /// No entity yet, or one that takes no user data.
    Nothing,
    /// The last layer.
    Layer,
    /// The cel of the given layer and frame.
    Cel(usize, usize),
    /// The tag with the given index: the next one of the last tags chunk still waiting for its data.
    Tags(usize),
    Palette,
    Slice,
}

/// What assembly has built after a prefix of the chunk stream.
pub struct AssemblyState {
    pub layers: Seq<LayerView>,
    /// Cels by layer index, then by frame index.
    pub cels: Seq<Seq<CelView>>,
    pub tags: Seq<TagView>,
    pub slices: Seq<SliceView>,
    pub palette: Option<Seq<AsepriteColor>>,
    pub frame_infos: Seq<AsepriteFrameInfo>,
    pub warnings: Seq<AsepriteWarning>,
    pub target: UserDataTarget,
}

/// Whether no two slices share a name.
pub open spec fn slice_names_unique(slices: Seq<SliceView>) -> bool {
    forall|i: int, j: int|
        0 <= i < slices.len() && 0 <= j < slices.len() && i != j ==> slices[i].name != slices[j].name
}

impl AssemblyState {
    /// The state before the first chunk.
    pub open spec fn initial() -> AssemblyState {
        AssemblyState {
            layers: Seq::empty(),
            cels: Seq::empty(),
            tags: Seq::empty(),
            slices: Seq::empty(),
            palette: None,
            frame_infos: Seq::empty(),
            warnings: Seq::empty(),
            target: UserDataTarget::Nothing,
        }
    }

    /// What holds of every state that assembly reaches.
    pub open spec fn inv(self) -> bool {
        &&& slice_names_unique(self.slices)
        &&& forall|i: int| 0 <= i < self.layers.len() ==> #[trigger] self.layers[i].index == i
        &&& forall|i: int| 0 <= i < self.tags.len() ==> #[trigger] self.tags[i].index == i
        &&& match self.target {
            UserDataTarget::Layer => self.layers.len() > 0,
            UserDataTarget::Cel(l, f) => l < self.cels.len() && f < self.cels[l as int].len(),
            UserDataTarget::Tags(i) => i <= self.tags.len(),
            _ => true,
        }
    }
}

/// `cels` with empty cel lists appended so that layer `l` has one.
pub open spec fn with_cels_for(cels: Seq<Seq<CelView>>, l: int) -> Seq<Seq<CelView>> {
    if l < cels.len() {
        cels
    } else {
        cels + Seq::new((l + 1 - cels.len()) as nat, |i: int| Seq::<CelView>::empty())
    }
}

/// `slices` where the slice named like `s` is replaced by `s`, or `s` appended if none is.
pub open spec fn upsert_slice(slices: Seq<SliceView>, s: SliceView) -> Seq<SliceView> {
    if exists|i: int| 0 <= i < slices.len() && slices[i].name == s.name {
        let i = choose|i: int| 0 <= i < slices.len() && slices[i].name == s.name;
        slices.update(i, s)
    } else {
        slices.push(s)
    }
}

/// `slices` after the first `n` keys of a slice chunk named `name`.
pub open spec fn upsert_keys(slices: Seq<SliceView>, name: Seq<char>, keys: Seq<RawAsepriteSlice>, n: nat) -> Seq<SliceView>
    decreases n,
{
    if n == 0 || n > keys.len() {
        slices
    } else {
        upsert_slice(upsert_keys(slices, name, keys, (n - 1) as nat), SliceView::from_key(name, keys[n - 1]))
    }
}

/// The state after a user data chunk: its color and text go to the current target.
pub open spec fn user_data_step(s: AssemblyState, data: RawAsepriteUserData) -> AssemblyState {
    match s.target {
        UserDataTarget::Layer => if s.layers.len() > 0 {
            let last = s.layers.len() - 1;
            AssemblyState { layers: s.layers.update(last, s.layers[last].with_user_data(data)), ..s }
        } else {
            s
        },
        UserDataTarget::Tags(i) => if i < s.tags.len() {
            AssemblyState {
                tags: s.tags.update(i as int, s.tags[i as int].with_user_data(data)),
                target: UserDataTarget::Tags((i + 1) as usize),
                ..s
            }
        } else {
            s
        },
        UserDataTarget::Cel(l, f) => if l < s.cels.len() && f < s.cels[l as int].len() {
            AssemblyState {
                cels: s.cels.update(
                    l as int,
                    s.cels[l as int].update(f as int, s.cels[l as int][f as int].with_user_data(data)),
                ),
                ..s
            }
        } else {
            s
        },
        _ => s,
    }
}

/// The state after one chunk of frame `frame`; `opacity_enabled` says whether layer
/// opacity is valid in the document.
pub open spec fn chunk_step(s: AssemblyState, c: RawAsepriteChunk, opacity_enabled: bool, frame: usize) -> AssemblyState {
    match c {
        RawAsepriteChunk::Layer { flags, layer_type, layer_child, blend_mode, opacity, name, .. } => AssemblyState {
            layers: s.layers.push(
                LayerView::fresh(
                    s.layers.len() as usize,
                    name@,
                    layer_type,
                    flags & 1u16 != 0,
                    blend_mode,
                    if opacity_enabled { Some(opacity) } else { None },
                    layer_child,
                ),
            ),
            target: UserDataTarget::Layer,
            ..s
        },
        RawAsepriteChunk::Cel { layer_index, x, y, opacity, z_index, cel } => {
            let l = layer_index as int;
            let cels = with_cels_for(s.cels, l);
            AssemblyState {
                cels: cels.update(l, cels[l].push(CelView::fresh(x, y, opacity, z_index, cel))),
                target: UserDataTarget::Cel(layer_index as usize, cels[l].len() as usize),
                ..s
            }
        },
        RawAsepriteChunk::Tags { tags } => AssemblyState {
            tags: s.tags + Seq::new(tags@.len(), |j: int| TagView::fresh((s.tags.len() + j) as usize, tags@[j])),
            target: UserDataTarget::Tags(s.tags.len() as usize),
            ..s
        },
        RawAsepriteChunk::Palette { palette_size, from_color, entries, .. } => AssemblyState {
            palette: Some(palette_table(palette_size as nat, from_color as nat, entries@)),
            target: UserDataTarget::Palette,
            ..s
        },
        RawAsepriteChunk::UserData { data } => user_data_step(s, data),
        RawAsepriteChunk::Slice { name, slices } => AssemblyState {
            slices: upsert_keys(s.slices, name@, slices@, slices@.len()),
            target: UserDataTarget::Slice,
            ..s
        },
        RawAsepriteChunk::CelExtra => AssemblyState {
            warnings: s.warnings.push(AsepriteWarning::UnsupportedCelExtra(frame)),
            ..s
        },
        RawAsepriteChunk::ColorProfile => AssemblyState {
            warnings: s.warnings.push(AsepriteWarning::UnsupportedColorProfile(frame)),
            ..s
        },
    }
}

/// The state after the first `n` chunks of frame `frame`.
pub open spec fn chunks_fold(s: AssemblyState, chunks: Seq<RawAsepriteChunk>, n: nat, opacity_enabled: bool, frame: usize) -> AssemblyState
    decreases n,
{
    if n == 0 || n > chunks.len() {
        s
    } else {
        chunk_step(chunks_fold(s, chunks, (n - 1) as nat, opacity_enabled, frame), chunks[n - 1], opacity_enabled, frame)
    }
}

/// The state after frame `frame`: its timing, then its chunks.
pub open spec fn frame_step(s: AssemblyState, fr: RawAsepriteFrame, opacity_enabled: bool, frame: usize) -> AssemblyState {
    let s1 = AssemblyState {
        frame_infos: s.frame_infos.push(AsepriteFrameInfo { delay_ms: fr.duration_ms as usize }),
        ..s
    };
    chunks_fold(s1, fr.chunks@, fr.chunks@.len(), opacity_enabled, frame)
}

/// The state after the first `n` frames.
pub open spec fn frames_fold(frames: Seq<RawAsepriteFrame>, n: nat, opacity_enabled: bool) -> AssemblyState
    decreases n,
{
    if n == 0 || n > frames.len() {
        AssemblyState::initial()
    } else {
        frame_step(frames_fold(frames, (n - 1) as nat, opacity_enabled), frames[n - 1], opacity_enabled, (n - 1) as usize)
    }
}

/// Whether the header says that layer opacity is valid.
pub open spec fn opacity_enabled(raw: RawAseprite) -> bool {
    raw.header.flags & 1u32 != 0
}

/// The state after the whole chunk stream of `raw`.
pub open spec fn assembled(raw: RawAseprite) -> AssemblyState {
    frames_fold(raw.frames@, raw.frames@.len(), opacity_enabled(raw))
}

/// A document: the read-only result of assembling a decoded file.
#[derive(Debug)]
pub struct Aseprite {
    dimensions: (u16, u16),
    tags: Vec<AsepriteTag>,
    slices: Vec<AsepriteSlice>,
    layers: Vec<AsepriteLayer>,
    cels: Vec<Vec<AsepriteCel>>,
    frame_count: usize,
    palette: Option<AsepritePalette>,
    transparent_palette: Option<u8>,
    frame_infos: Vec<AsepriteFrameInfo>,
    warnings: Vec<AsepriteWarning>,
}

/// The mathematical value of a document.
pub struct AsepriteView {
    pub width: u16,
    pub height: u16,
    /// Layers by index, from the bottom of the stack to the top.
    pub layers: Seq<LayerView>,
    /// Cels by layer index, then by frame index within the layer.
    pub cels: Seq<Seq<CelView>>,
    /// Tags by index.
    pub tags: Seq<TagView>,
    /// Slices, one per name.
    pub slices: Seq<SliceView>,
    /// The palette's color table, if the document has a palette.
    pub palette: Option<Seq<AsepriteColor>>,
    /// The transparent palette index; only indexed documents have one.
    pub transparent_palette: Option<u8>,
    pub frame_count: nat,
    /// Timing by frame index.
    pub frame_infos: Seq<AsepriteFrameInfo>,
    /// The unsupported chunks that assembly went past.
    pub warnings: Seq<AsepriteWarning>,
}

impl AsepriteView {
    /// What holds of every document.
    pub open spec fn wf(self) -> bool {
        &&& self.frame_infos.len() == self.frame_count
        &&& forall|i: int| 0 <= i < self.layers.len() ==> #[trigger] self.layers[i].index == i
        &&& forall|i: int| 0 <= i < self.tags.len() ==> #[trigger] self.tags[i].index == i
        &&& slice_names_unique(self.slices)
    }

    /// The cel of layer `l` at frame `f`, if there is one.
    pub open spec fn cel(self, l: int, f: int) -> Option<CelView> {
        if 0 <= l < self.cels.len() && 0 <= f < self.cels[l].len() {
            Some(self.cels[l][f])
        } else {
            None
        }
    }
}

/// The document that the decoded file `raw` assembles into.
pub open spec fn assemble(raw: RawAseprite) -> AsepriteView {
    let s = assembled(raw);
    AsepriteView {
        width: raw.header.width,
        height: raw.header.height,
        layers: s.layers,
        cels: s.cels,
        tags: s.tags,
        slices: s.slices,
        palette: s.palette,
        transparent_palette: if raw.header.color_depth == AsepriteColorDepth::Indexed {
            Some(raw.header.transparent_palette)
        } else {
            None
        },
        frame_count: raw.frames@.len(),
        frame_infos: s.frame_infos,
        warnings: s.warnings,
    }
}

impl View for Aseprite {
    type V = AsepriteView;

    closed spec fn view(&self) -> AsepriteView {
        AsepriteView {
            width: self.dimensions.0,
            height: self.dimensions.1,
            layers: layers_view(self.layers@),
            cels: cels_view(self.cels@),
            tags: self.tags@.map_values(|t: AsepriteTag| t@),
            slices: self.slices@.map_values(|s: AsepriteSlice| s@),
            palette: match self.palette {
                Some(p) => Some(p.entries@),
                None => None,
            },
            transparent_palette: self.transparent_palette,
            frame_count: self.frame_count as nat,
            frame_infos: self.frame_infos@,
            warnings: self.warnings@,
        }
    }
}

impl Aseprite {
    /// Every document is well formed; see [`AsepriteView::wf`].
    #[verifier::type_invariant]
    spec fn inv(&self) -> bool {
        self@.wf()
    }

    /// Assembles a decoded file into a document, folding its chunks in order.
    pub fn from_raw(raw: RawAseprite) -> (r: AseResult<Self>)
        ensures
            r matches Ok(d) && d@ == assemble(raw) && d@.wf(),
    {
        let ghost raw0 = raw;
        let RawAseprite { header, frames } = raw;
        let with_opacity = header.flags & 1 != 0;
        let frame_count = frames.len();
        let mut builder = Assembler::new();
        let mut frame_index: usize = 0;
        for frame in it: frames.into_iter()
            invariant
                it.seq() == raw0.frames@,
                with_opacity == opacity_enabled(raw0),
                frame_index == it.index(),
                frame_count == raw0.frames@.len(),
                builder@ == frames_fold(raw0.frames@, it.index() as nat, with_opacity),
                builder@.inv(),
                builder@.frame_infos.len() == it.index(),
        {
            let ghost fr = frame;
            assert(frame_index < frame_count);
            let RawAsepriteFrame { duration_ms, chunks } = frame;
            builder.frame_infos.push(AsepriteFrameInfo { delay_ms: duration_ms as usize });
            let ghost s1 = builder@;
            assert(s1 == (AssemblyState {
                frame_infos: frames_fold(raw0.frames@, it.index() as nat, with_opacity).frame_infos.push(
                    AsepriteFrameInfo { delay_ms: duration_ms as usize },
                ),
                ..frames_fold(raw0.frames@, it.index() as nat, with_opacity)
            }));
            for chunk in it2: chunks.into_iter()
                invariant
                    it2.seq() == fr.chunks@,
                    builder@ == chunks_fold(s1, fr.chunks@, it2.index() as nat, with_opacity, frame_index),
                    builder@.inv(),
                    builder@.frame_infos == s1.frame_infos,
            {
                builder.apply_chunk(chunk, with_opacity, frame_index)?;
            }
            frame_index += 1;
        }
        let Assembler { layers, cels, tags, slices, palette, frame_infos, warnings, .. } = builder;
        let r = Aseprite {
            dimensions: (header.width, header.height),
            transparent_palette: if header.color_depth == AsepriteColorDepth::Indexed {
                Some(header.transparent_palette)
            } else {
                None
            },
            tags,
            slices,
            layers,
            cels,
            frame_count,
            palette,
            frame_infos,
            warnings,
        };
        Ok(r)
    }
}


/// The pixels that back a cel: width, height and the pixel block, row by row.
pub type PixelSource<'a> = (u16, u16, &'a Vec<AsepritePixel>);

/// What cel resolution gives: the pixels that back the cel of layer `l` at frame `f`,
/// `None` where the layer has no content at that frame. A linked cel is followed once, to
/// the same layer's cel at frame `frame_position - 1`; where the layer has no cel there,
/// the result is `None` too. A link to another linked cel is an integrity error.
pub open spec fn resolve_spec(d: AsepriteView, l: int, f: int) -> Result<Option<(u16, u16, Seq<AsepritePixel>)>, AsepriteError> {
    match d.cel(l, f) {
        None => Ok(None),
        Some(c) => match c.raw_cel {
            RawAsepriteCel::Raw { width, height, pixels } => Ok(Some((width, height, pixels@))),
            RawAsepriteCel::Compressed { width, height, pixels } => Ok(Some((width, height, pixels@))),
            RawAsepriteCel::Linked { frame_position } => match d.cel(l, frame_position - 1) {
                None => Ok(None),
                Some(t) => match t.raw_cel {
                    RawAsepriteCel::Raw { width, height, pixels } => Ok(Some((width, height, pixels@))),
                    RawAsepriteCel::Compressed { width, height, pixels } => Ok(Some((width, height, pixels@))),
                    RawAsepriteCel::Linked { frame_position: p } => Err(
                        invalid(AsepriteInvalidError::InvalidFrame(p as usize)),
                    ),
                },
            },
        },
    }
}


/// The pixels of a cel that holds its own: width, height and pixel block; none for a link.
pub open spec fn own_pixels(c: RawAsepriteCel) -> Option<(u16, u16, Seq<AsepritePixel>)> {
    match c {
        RawAsepriteCel::Raw { width, height, pixels } => Some((width, height, pixels@)),
        RawAsepriteCel::Compressed { width, height, pixels } => Some((width, height, pixels@)),
        RawAsepriteCel::Linked { .. } => None,
    }
}

/// Where the cel of layer `l` at frame `f` links to a cel that is itself linked, the
/// frame position of that second link.
pub open spec fn double_link(d: AsepriteView, l: int, f: int) -> Option<u16> {
    match d.cel(l, f) {
        Some(c) => match c.raw_cel {
            RawAsepriteCel::Linked { frame_position: p } => match d.cel(l, p - 1) {
                Some(t) => match t.raw_cel {
                    RawAsepriteCel::Linked { frame_position: q } => Some(q),
                    _ => None,
                },
                None => None,
            },
            _ => None,
        },
        None => None,
    }
}

/// Cel resolution follows at most one link. A cel linked to a cel that is itself linked
/// gives the integrity error, and a resolved source is always the own pixels of the cel
/// or of the cel that it links to.
pub proof fn lemma_single_link_hop(d: AsepriteView, l: int, f: int)
    ensures
        double_link(d, l, f) matches Some(q) ==> resolve_spec(d, l, f) == Err::<Option<(u16, u16, Seq<AsepritePixel>)>, AsepriteError>(
            invalid(AsepriteInvalidError::InvalidFrame(q as usize)),
        ),
        resolve_spec(d, l, f) matches Ok(Some(src)) ==> d.cel(l, f) is Some && (own_pixels(d.cel(l, f)->0.raw_cel) == Some(src)
            || (d.cel(l, f)->0.raw_cel matches RawAsepriteCel::Linked { frame_position: p } && d.cel(l, p - 1) is Some
            && own_pixels(d.cel(l, p - 1)->0.raw_cel) == Some(src))),
{
}

/// Where the cel of layer `l` at frame `f` links to a frame at which the layer has no cel,
/// the frame position of that link.
pub open spec fn dangling_link(d: AsepriteView, l: int, f: int) -> Option<u16> {
    match d.cel(l, f) {
        Some(c) => match c.raw_cel {
            RawAsepriteCel::Linked { frame_position: p } => if d.cel(l, p - 1) is None {
                Some(p)
            } else {
                None
            },
            _ => None,
        },
        None => None,
    }
}

/// Cel resolution as compositing a whole frame needs it: as [`resolve_spec`], except that
/// a link to a frame where the layer has no cel is an error.
pub open spec fn frame_source(d: AsepriteView, l: int, f: int) -> Result<Option<(u16, u16, Seq<AsepritePixel>)>, AsepriteError> {
    match dangling_link(d, l, f) {
        Some(p) => Err(invalid(AsepriteInvalidError::InvalidFrame(p as usize))),
        None => resolve_spec(d, l, f),
    }
}

/// The spec view of a resolved pixel source.
pub open spec fn source_view(r: AseResult<Option<PixelSource>>) -> Result<Option<(u16, u16, Seq<AsepritePixel>)>, AsepriteError> {
    match r {
        Ok(Some((w, h, p))) => Ok(Some((w, h, p@))),
        Ok(None) => Ok(None),
        Err(e) => Err(e),
    }
}

impl Aseprite {
    /// Width and height of the canvas.
    pub fn dimensions(&self) -> (r: (u16, u16))
        ensures
            r == (self@.width, self@.height),
            self@.wf(),
    {
        proof {
            use_type_invariant(self);
        }
        self.dimensions
    }

    /// The number of frames.
    pub fn frame_count(&self) -> (r: usize)
        ensures
            r == self@.frame_count,
            self@.wf(),
    {
        proof {
            use_type_invariant(self);
        }
        self.frame_count
    }

    /// Timing of each frame, by frame index.
    pub fn frame_infos(&self) -> (r: &[AsepriteFrameInfo])
        ensures
            r@ == self@.frame_infos,
            self@.wf(),
    {
        proof {
            use_type_invariant(self);
        }
        self.frame_infos.as_slice()
    }

    /// The unsupported chunks that assembly went past.
    pub fn warnings(&self) -> (r: &[AsepriteWarning])
        ensures
            r@ == self@.warnings,
            self@.wf(),
    {
        proof {
            use_type_invariant(self);
        }
        self.warnings.as_slice()
    }

    /// The palette, if the document has one.
    pub fn palette(&self) -> (r: Option<&AsepritePalette>)
        ensures
            r is Some <==> self@.palette is Some,
            r is Some ==> r->0.entries@ == self@.palette->0,
            self@.wf(),
    {
        proof {
            use_type_invariant(self);
        }
        self.palette.as_ref()
    }

    /// The transparent palette index of an indexed document.
    pub fn transparent_palette(&self) -> (r: Option<u8>)
        ensures
            r == self@.transparent_palette,
            self@.wf(),
    {
        proof {
            use_type_invariant(self);
        }
        self.transparent_palette
    }

    /// The tags of the document.
    pub fn tags(&self) -> (r: AsepriteTags)
        ensures
            r.spec_tags().map_values(|t: AsepriteTag| t@) == self@.tags,
            self@.wf(),
    {
        proof {
            use_type_invariant(self);
        }
        AsepriteTags::new(&self.tags)
    }

    /// The layers of the document.
    pub fn layers(&self) -> (r: AsepriteLayers)
        ensures
            r.spec_layers() == self@.layers,
            self@.wf(),
    {
        proof {
            use_type_invariant(self);
        }
        AsepriteLayers::new(&self.layers)
    }

    /// The first layer with the given name, if there is one.
    pub fn get_layer_by_name(&self, name: &str) -> (r: Option<&AsepriteLayer>)
        ensures
            r is None <==> forall|i: int| 0 <= i < self@.layers.len() ==> #[trigger] self@.layers[i].name != name@,
            r matches Some(l) ==> exists|i: int| first_named(self@.layers, name@, i) && l@ == self@.layers[i],
            self@.wf(),
    {
        proof {
            use_type_invariant(self);
        }
        layer_named(&self.layers, name)
    }

    /// The layer with the given index, if there is one.
    pub fn get_layer_by_index(&self, index: &usize) -> (r: Option<&AsepriteLayer>)
        ensures
            r is Some <==> *index < self@.layers.len(),
            r matches Some(l) ==> l@ == self@.layers[*index as int],
            self@.wf(),
    {
        proof {
            use_type_invariant(self);
        }
        if *index < self.layers.len() {
            Some(&self.layers[*index])
        } else {
            None
        }
    }

    /// The groups that enclose the layer with the given index, innermost first.
    pub fn find_layer_belong_groups(&self, index: usize) -> (r: Vec<usize>)
        ensures
            r@ == belong_groups(self@.layers, index as int),
    {
        groups_containing(&self.layers, index)
    }

    /// The layers, by index.
    pub fn layer_list(&self) -> (r: &Vec<AsepriteLayer>)
        ensures
            layers_view(r@) == self@.layers,
            self@.wf(),
    {
        proof {
            use_type_invariant(self);
        }
        &self.layers
    }

    /// The tags, by index.
    pub fn tag_list(&self) -> (r: &Vec<AsepriteTag>)
        ensures
            r@.map_values(|t: AsepriteTag| t@) == self@.tags,
            self@.wf(),
    {
        proof {
            use_type_invariant(self);
        }
        &self.tags
    }

    /// The slices.
    pub fn slice_list(&self) -> (r: &Vec<AsepriteSlice>)
        ensures
            r@.map_values(|s: AsepriteSlice| s@) == self@.slices,
            self@.wf(),
    {
        proof {
            use_type_invariant(self);
        }
        &self.slices
    }

    /// The cel of a layer at a frame, if there is one.
    pub fn get_cel(&self, layer_index: &usize, frame_index: &usize) -> (r: Option<&AsepriteCel>)
        ensures
            r is Some <==> self@.cel(*layer_index as int, *frame_index as int) is Some,
            r is Some ==> r->0@ == self@.cel(*layer_index as int, *frame_index as int)->0,
    {
        if *layer_index >= self.cels.len() {
            return None;
        }
        let layer_cels = &self.cels[*layer_index];
        if *frame_index >= layer_cels.len() {
            return None;
        }
        let r = &layer_cels[*frame_index];
        assert(cels_view(self.cels@)[*layer_index as int] == self.cels@[*layer_index as int]@.map_values(|c: AsepriteCel| c@));
        Some(r)
    }

    /// The pixels that back the cel of a layer at a frame when the whole frame is
    /// composited: as [`Aseprite::resolve_cel`], except that a link to a frame where the
    /// layer has no cel is an error.
    pub fn resolve_frame_cel(&self, layer_index: usize, frame_index: usize) -> (r: AseResult<Option<PixelSource>>)
        ensures
            source_view(r) == frame_source(self@, layer_index as int, frame_index as int),
    {
        if let Some(cel) = self.get_cel(&layer_index, &frame_index) {
            if let RawAsepriteCel::Linked { frame_position } = &cel.raw_cel {
                let missing = *frame_position == 0 || self.get_cel(&layer_index, &((*frame_position - 1) as usize)).is_none();
                if missing {
                    return Err(
                        AsepriteError::InvalidConfiguration(AsepriteInvalidError::InvalidFrame(*frame_position as usize)),
                    );
                }
            }
        }
        self.resolve_cel(layer_index, frame_index)
    }

    /// The pixels that back the cel of a layer at a frame, following a linked cel once.
    pub fn resolve_cel(&self, layer_index: usize, frame_index: usize) -> (r: AseResult<Option<PixelSource>>)
        ensures
            source_view(r) == resolve_spec(self@, layer_index as int, frame_index as int),
    {
        let cel = match self.get_cel(&layer_index, &frame_index) {
            None => return Ok(None),
            Some(c) => c,
        };
        match &cel.raw_cel {
            RawAsepriteCel::Raw { width, height, pixels } => Ok(Some((*width, *height, pixels))),
            RawAsepriteCel::Compressed { width, height, pixels } => Ok(Some((*width, *height, pixels))),
            RawAsepriteCel::Linked { frame_position } => {
                if *frame_position == 0 {
                    return Ok(None);
                }
                let target_frame = (*frame_position - 1) as usize;
                let target = match self.get_cel(&layer_index, &target_frame) {
                    None => return Ok(None),
                    Some(t) => t,
                };
                match &target.raw_cel {
                    RawAsepriteCel::Raw { width, height, pixels } => Ok(Some((*width, *height, pixels))),
                    RawAsepriteCel::Compressed { width, height, pixels } => Ok(Some((*width, *height, pixels))),
                    RawAsepriteCel::Linked { frame_position: p } => Err(
                        AsepriteError::InvalidConfiguration(AsepriteInvalidError::InvalidFrame(*p as usize)),
                    ),
                }
            },
        }
    }
}


/// A tags chunk followed by one user data chunk for each element of `data`.
pub open spec fn tags_then_user_data(tags: Vec<RawAsepriteTag>, data: Seq<RawAsepriteUserData>) -> Seq<RawAsepriteChunk> {
    seq![RawAsepriteChunk::Tags { tags }] + data.map_values(|u: RawAsepriteUserData| RawAsepriteChunk::UserData { data: u })
}

/// The state after a tags chunk and `k` user data chunks: the first `k` new tags (at most
/// all of them) carry the data in order, and the cursor stands on the next one.
pub open spec fn tags_after(s: AssemblyState, tags: Vec<RawAsepriteTag>, data: Seq<RawAsepriteUserData>, k: int) -> AssemblyState {
    let start = s.tags.len();
    let n = tags@.len();
    AssemblyState {
        tags: s.tags + Seq::new(
            n,
            |j: int|
                if j < k {
                    TagView::fresh((start + j) as usize, tags@[j]).with_user_data(data[j])
                } else {
                    TagView::fresh((start + j) as usize, tags@[j])
                },
        ),
        target: UserDataTarget::Tags((start + if k < n { k } else { n as int }) as usize),
        ..s
    }
}

proof fn lemma_tags_after(
    s: AssemblyState,
    tags: Vec<RawAsepriteTag>,
    data: Seq<RawAsepriteUserData>,
    k: int,
    opacity_enabled: bool,
    frame: usize,
)
    requires
        0 <= k <= data.len(),
        s.tags.len() + tags@.len() <= usize::MAX,
    ensures
        chunks_fold(s, tags_then_user_data(tags, data), (k + 1) as nat, opacity_enabled, frame) == tags_after(s, tags, data, k),
    decreases k,
{
    let cs = tags_then_user_data(tags, data);
    if k == 0 {
        assert(chunks_fold(s, cs, 0, opacity_enabled, frame) == s);
        assert(cs[0] == RawAsepriteChunk::Tags { tags });
        assert(chunk_step(s, cs[0], opacity_enabled, frame).tags =~= tags_after(s, tags, data, 0).tags);
    } else {
        lemma_tags_after(s, tags, data, k - 1, opacity_enabled, frame);
        assert(cs[k] == RawAsepriteChunk::UserData { data: data[k - 1] });
        let prev = tags_after(s, tags, data, k - 1);
        let next = chunk_step(prev, cs[k], opacity_enabled, frame);
        assert(next.tags =~= tags_after(s, tags, data, k).tags);
    }
}

/// After a tags chunk of `n` tags, the user data chunks that follow attach to those tags one
/// each, in the order in which the tags were declared; once all `n` carry data, further user
/// data chunks are left out. Tags from earlier chunks are not touched.
pub proof fn lemma_tag_user_data_in_order(
    s: AssemblyState,
    tags: Vec<RawAsepriteTag>,
    data: Seq<RawAsepriteUserData>,
    opacity_enabled: bool,
    frame: usize,
)
    requires
        s.tags.len() + tags@.len() <= usize::MAX,
    ensures
        ({
            let cs = tags_then_user_data(tags, data);
            let t = chunks_fold(s, cs, cs.len(), opacity_enabled, frame);
            &&& t.tags.len() == s.tags.len() + tags@.len()
            &&& forall|i: int| 0 <= i < s.tags.len() ==> #[trigger] t.tags[i] == s.tags[i]
            &&& forall|j: int|
                0 <= j < tags@.len() ==> #[trigger] t.tags[s.tags.len() + j] == if j < data.len() {
                    TagView::fresh((s.tags.len() + j) as usize, tags@[j]).with_user_data(data[j])
                } else {
                    TagView::fresh((s.tags.len() + j) as usize, tags@[j])
                }
            &&& t.layers == s.layers
            &&& t.cels == s.cels
        }),
{
    let cs = tags_then_user_data(tags, data);
    lemma_tags_after(s, tags, data, data.len() as int, opacity_enabled, frame);
    assert(cs.len() == data.len() + 1);
}


/// The layer chunks among the first `n` chunks of `cs`, in order.
pub open spec fn layer_chunks_in(cs: Seq<RawAsepriteChunk>, n: nat) -> Seq<RawAsepriteChunk>
    decreases n,
{
    if n == 0 || n > cs.len() {
        Seq::empty()
    } else if cs[n - 1] is Layer {
        layer_chunks_in(cs, (n - 1) as nat).push(cs[n - 1])
    } else {
        layer_chunks_in(cs, (n - 1) as nat)
    }
}

/// The layer chunks of the first `n` frames, in stream order.
pub open spec fn layer_chunks(frames: Seq<RawAsepriteFrame>, n: nat) -> Seq<RawAsepriteChunk>
    decreases n,
{
    if n == 0 || n > frames.len() {
        Seq::empty()
    } else {
        layer_chunks(frames, (n - 1) as nat) + layer_chunks_in(frames[n - 1].chunks@, frames[n - 1].chunks@.len())
    }
}

/// Whether layer `l` carries what layer chunk `c` declares.
pub open spec fn layer_from_chunk(l: LayerView, c: RawAsepriteChunk) -> bool {
    match c {
        RawAsepriteChunk::Layer { flags, layer_type, layer_child, name, .. } => {
            &&& l.name == name@
            &&& l.is_group == (layer_type == AsepriteLayerType::Group)
            &&& l.visible == (flags & 1u16 != 0)
            &&& l.child_level == layer_child
        },
        _ => false,
    }
}

/// Whether the layers `ls` are the layers that the chunks `cs` declare, one for one, with
/// each layer's index its position.
pub open spec fn layers_match(ls: Seq<LayerView>, cs: Seq<RawAsepriteChunk>) -> bool {
    &&& ls.len() == cs.len()
    &&& forall|i: int| 0 <= i < ls.len() ==> (#[trigger] ls[i]).index == i && layer_from_chunk(ls[i], cs[i])
}

proof fn lemma_frames_fold_layers(frames: Seq<RawAsepriteFrame>, n: nat, opacity_enabled: bool)
    requires
        n <= frames.len(),
        layer_chunks(frames, n).len() <= usize::MAX,
    ensures
        layers_match(frames_fold(frames, n, opacity_enabled).layers, layer_chunks(frames, n)),
    decreases n,
{
    if n == 0 {
    } else {
        let k = (n - 1) as nat;
        assert(layer_chunks(frames, k).len() <= layer_chunks(frames, n).len());
        lemma_frames_fold_layers(frames, k, opacity_enabled);
        let prev = frames_fold(frames, k, opacity_enabled);
        let fr = frames[n - 1];
        let s1 = AssemblyState {
            frame_infos: prev.frame_infos.push(AsepriteFrameInfo { delay_ms: fr.duration_ms as usize }),
            ..prev
        };
        lemma_chunks_fold_layers_bounded(s1, fr.chunks@, fr.chunks@.len(), layer_chunks(frames, k), opacity_enabled, (n - 1) as usize);
    }
}

/// The layers after a frame's chunks, where the number of layers never reaches `usize::MAX`.
proof fn lemma_chunks_fold_layers_bounded(
    s: AssemblyState,
    chunks: Seq<RawAsepriteChunk>,
    n: nat,
    cs: Seq<RawAsepriteChunk>,
    opacity_enabled: bool,
    frame: usize,
)
    requires
        n <= chunks.len(),
        layers_match(s.layers, cs),
        cs.len() + layer_chunks_in(chunks, n).len() <= usize::MAX,
    ensures
        layers_match(chunks_fold(s, chunks, n, opacity_enabled, frame).layers, cs + layer_chunks_in(chunks, n)),
    decreases n,
{
    if n == 0 {
        assert(cs + layer_chunks_in(chunks, 0) =~= cs);
    } else {
        let k = (n - 1) as nat;
        assert(layer_chunks_in(chunks, k).len() <= layer_chunks_in(chunks, n).len());
        lemma_chunks_fold_layers_bounded(s, chunks, k, cs, opacity_enabled, frame);
        let prev = chunks_fold(s, chunks, k, opacity_enabled, frame);
        let before = cs + layer_chunks_in(chunks, k);
        if chunks[n - 1] is Layer {
            assert(layer_chunks_in(chunks, n).len() == layer_chunks_in(chunks, k).len() + 1);
        }
        lemma_chunk_step_layers_any(prev, chunks[n - 1], before, opacity_enabled, frame);
        if chunks[n - 1] is Layer {
            assert(before.push(chunks[n - 1]) =~= cs + layer_chunks_in(chunks, n));
        }
    }
}

proof fn lemma_chunk_step_layers_any(s: AssemblyState, c: RawAsepriteChunk, cs: Seq<RawAsepriteChunk>, opacity_enabled: bool, frame: usize)
    requires
        layers_match(s.layers, cs),
        c is Layer ==> s.layers.len() < usize::MAX,
    ensures
        layers_match(chunk_step(s, c, opacity_enabled, frame).layers, if c is Layer { cs.push(c) } else { cs }),
{
    let t = chunk_step(s, c, opacity_enabled, frame);
    if c is Layer {
        assert forall|i: int| 0 <= i < t.layers.len() implies (#[trigger] t.layers[i]).index == i && layer_from_chunk(
            t.layers[i],
            cs.push(c)[i],
        ) by {
            if i < s.layers.len() {
                assert(t.layers[i] == s.layers[i]);
                assert(cs.push(c)[i] == cs[i]);
            }
        }
    } else if c is UserData {
        let data = c->data;
        if s.target is Layer && s.layers.len() > 0 {
            let last = s.layers.len() - 1;
            assert(t.layers == s.layers.update(last, s.layers[last].with_user_data(data)));
        } else {
            assert(t.layers == s.layers);
        }
        assert forall|i: int| 0 <= i < t.layers.len() implies (#[trigger] t.layers[i]).index == i && layer_from_chunk(
            t.layers[i],
            cs[i],
        ) by {
            assert(s.layers[i].index == i && layer_from_chunk(s.layers[i], cs[i]));
        }
    }
}

/// The layers of a document are the layer chunks of the stream, one for one and in stream
/// order (the bottom-to-top stacking order): layer `i` has index `i`, so the indices are
/// exactly `0..` the number of layers.
pub proof fn lemma_layers_in_stacking_order(raw: RawAseprite)
    requires
        layer_chunks(raw.frames@, raw.frames@.len()).len() <= usize::MAX,
    ensures
        layers_match(assemble(raw).layers, layer_chunks(raw.frames@, raw.frames@.len())),
{
    lemma_frames_fold_layers(raw.frames@, raw.frames@.len(), opacity_enabled(raw));
}

/// The builder that folds the chunk stream.
struct Assembler {
    layers: Vec<AsepriteLayer>,
    cels: Vec<Vec<AsepriteCel>>,
    tags: Vec<AsepriteTag>,
    slices: Vec<AsepriteSlice>,
    palette: Option<AsepritePalette>,
    frame_infos: Vec<AsepriteFrameInfo>,
    warnings: Vec<AsepriteWarning>,
    target: UserDataTarget,
}

pub open spec fn cels_view(cels: Seq<Vec<AsepriteCel>>) -> Seq<Seq<CelView>> {
    cels.map_values(|v: Vec<AsepriteCel>| v@.map_values(|c: AsepriteCel| c@))
}

impl View for Assembler {
    type V = AssemblyState;

    closed spec fn view(&self) -> AssemblyState {
        AssemblyState {
            layers: layers_view(self.layers@),
            cels: cels_view(self.cels@),
            tags: self.tags@.map_values(|t: AsepriteTag| t@),
            slices: self.slices@.map_values(|s: AsepriteSlice| s@),
            palette: match self.palette {
                Some(p) => Some(p.entries@),
                None => None,
            },
            frame_infos: self.frame_infos@,
            warnings: self.warnings@,
            target: self.target,
        }
    }
}

impl Assembler {
    fn new() -> (r: Self)
        ensures
            r@ == AssemblyState::initial(),
    {
        let r = Assembler {
            layers: Vec::new(),
            cels: Vec::new(),
            tags: Vec::new(),
            slices: Vec::new(),
            palette: None,
            frame_infos: Vec::new(),
            warnings: Vec::new(),
            target: UserDataTarget::Nothing,
        };
        assert(r@.layers =~= Seq::empty());
        assert(r@.cels =~= Seq::empty());
        assert(r@.tags =~= Seq::empty());
        assert(r@.slices =~= Seq::empty());
        r
    }


    fn add_layer(&mut self, chunk: RawAsepriteChunk, opacity_enabled: bool)
        requires
            old(self)@.inv(),
            chunk is Layer,
        ensures
            final(self)@ == chunk_step(old(self)@, chunk, opacity_enabled, 0),
            final(self)@.inv(),
    {
        let ghost c0 = chunk;
        match chunk {
            RawAsepriteChunk::Layer { flags, layer_type, layer_child, blend_mode, opacity, name, .. } => {
                let index = self.layers.len();
                let layer = AsepriteLayer::new(
                    index,
                    name,
                    layer_type,
                    flags & 1 != 0,
                    blend_mode,
                    if opacity_enabled {
                        Some(opacity)
                    } else {
                        None
                    },
                    layer_child,
                );
                self.layers.push(layer);
                self.target = UserDataTarget::Layer;
                assert(self@.layers =~= old(self)@.layers.push(layer@));
            },
            _ => {},
        }
    }

    fn add_tags(&mut self, tags: Vec<RawAsepriteTag>)
        requires
            old(self)@.inv(),
        ensures
            final(self)@ == chunk_step(old(self)@, RawAsepriteChunk::Tags { tags }, false, 0),
            final(self)@.inv(),
    {
        let ghost s0 = self@;
        let start = self.tags.len();
        let ghost added = Seq::new(tags@.len(), |j: int| TagView::fresh((s0.tags.len() + j) as usize, tags@[j]));
        for raw_tag in it: tags.into_iter()
            invariant
                s0 == old(self)@,
                start == s0.tags.len(),
                added == Seq::new(it.seq().len(), |j: int| TagView::fresh((s0.tags.len() + j) as usize, it.seq()[j])),
                it.index() <= added.len(),
                self.tags@.len() == s0.tags.len() + it.index(),
                self.tags@.map_values(|t: AsepriteTag| t@) =~= s0.tags + added.take(it.index() as int),
                self.layers == old(self).layers,
                self.cels == old(self).cels,
                self.slices == old(self).slices,
                self.palette == old(self).palette,
                self.frame_infos == old(self).frame_infos,
                self.warnings == old(self).warnings,
                self.target == old(self).target,
        {
            let index = self.tags.len();
            assert(raw_tag == it.seq()[it.index() as int]);
            assert(index == s0.tags.len() + it.index());
            let t = AsepriteTag::from_raw_tag(index, raw_tag);
            assert(it.index() < added.len());
            assert(added[it.index() as int] == t@);
            let ghost prev = self.tags@;
            self.tags.push(t);
            assert(self.tags@.map_values(|t: AsepriteTag| t@) =~= s0.tags + added.take(it.index() as int + 1)) by {
                let k = it.index() as int;
                assert forall|i: int| 0 <= i < prev.len() implies #[trigger] self.tags@[i]@ == (s0.tags + added.take(k))[i] by {
                    assert(prev.map_values(|t: AsepriteTag| t@)[i] == prev[i]@);
                }
            }
        }
        self.target = UserDataTarget::Tags(start);
        assert(self@.tags =~= s0.tags + added);
        assert forall|i: int| 0 <= i < self@.tags.len() implies #[trigger] self@.tags[i].index == i by {
            if i >= s0.tags.len() {
                assert(self@.tags[i] == added[i - s0.tags.len()]);
                assert(self.tags@.len() == self.tags.len());
            }
        }
    }

    fn set_palette(&mut self, palette_size: u32, from_color: u32, entries: Vec<RawAsepritePaletteEntry>)
        requires
            old(self)@.inv(),
        ensures
            final(self)@ == (AssemblyState {
                palette: Some(palette_table(palette_size as nat, from_color as nat, entries@)),
                target: UserDataTarget::Palette,
                ..old(self)@
            }),
            final(self)@.inv(),
    {
        self.palette = Some(AsepritePalette::from_raw(palette_size, from_color, entries));
        self.target = UserDataTarget::Palette;
    }

    fn attach_user_data(&mut self, data: RawAsepriteUserData) -> (r: AseResult<()>)
        requires
            old(self)@.inv(),
        ensures
            r is Ok,
            final(self)@ == user_data_step(old(self)@, data),
            final(self)@.inv(),
    {
        let ghost d = data;
        match self.target {
            UserDataTarget::Layer => {
                let n = self.layers.len();
                if n > 0 {
                    self.layers[n - 1].apply_raw_user_data(data);
                    assert(self@.layers =~= old(self)@.layers.update(n - 1, old(self)@.layers[n - 1].with_user_data(d)));
                }
                Ok(())
            },
            UserDataTarget::Tags(i) => {
                if i < self.tags.len() {
                    self.tags[i].apply_raw_user_data(data);
                    self.target = UserDataTarget::Tags(i + 1);
                    assert(self@.tags =~= old(self)@.tags.update(i as int, old(self)@.tags[i as int].with_user_data(d)));
                }
                Ok(())
            },
            UserDataTarget::Cel(l, f) => {
                if l >= self.cels.len() {
                    return Err(AsepriteError::InvalidConfiguration(AsepriteInvalidError::InvalidLayer(l)));
                }
                if f >= self.cels[l].len() {
                    return Err(AsepriteError::InvalidConfiguration(AsepriteInvalidError::InvalidFrame(f)));
                }
                let ghost before = self.cels@;
                self.cels[l][f].apply_raw_user_data(data);
                assert(cels_view(self.cels@) =~~= old(self)@.cels.update(
                    l as int,
                    old(self)@.cels[l as int].update(f as int, old(self)@.cels[l as int][f as int].with_user_data(d)),
                )) by {
                    assert(self.cels@[l as int]@.map_values(|c: AsepriteCel| c@) =~= old(self)@.cels[l as int].update(
                        f as int,
                        old(self)@.cels[l as int][f as int].with_user_data(d),
                    ));
                }
                Ok(())
            },
            _ => Ok(()),
        }
    }


    fn upsert_slice(&mut self, slice: AsepriteSlice)
        requires
            slice_names_unique(old(self)@.slices),
        ensures
            final(self)@ == (AssemblyState { slices: upsert_slice(old(self)@.slices, slice@), ..old(self)@ }),
            slice_names_unique(final(self)@.slices),
    {
        let ghost old_slices = self@.slices;
        let mut j: usize = 0;
        while j < self.slices.len()
            invariant
                j <= self.slices.len(),
                *self == *old(self),
                old_slices == old(self)@.slices,
                slice_names_unique(old_slices),
                self.slices@.map_values(|s: AsepriteSlice| s@) == old_slices,
                forall|i: int| 0 <= i < j ==> #[trigger] old_slices[i].name != slice@.name,
            decreases self.slices.len() - j,
        {
            if self.slices[j].name == slice.name {
                let ghost sv = slice@;
                assert(old_slices[j as int].name == sv.name);
                assert(old_slices[j as int] == self.slices@[j as int]@);
                let ghost i = choose|i: int| 0 <= i < old_slices.len() && old_slices[i].name == sv.name;
                assert(i == j);
                assert(upsert_slice(old_slices, sv) == old_slices.update(j as int, sv));
                self.slices[j] = slice;
                assert(self@.slices =~= old_slices.update(j as int, sv));
                return;
            }
            j += 1;
        }
        let ghost sv = slice@;
        self.slices.push(slice);
        assert(self@.slices =~= old_slices.push(sv));
    }

    fn add_slices(&mut self, name: String, keys: Vec<RawAsepriteSlice>)
        requires
            old(self)@.inv(),
        ensures
            final(self)@ == chunk_step(old(self)@, RawAsepriteChunk::Slice { name, slices: keys }, false, 0),
            final(self)@.inv(),
    {
        let mut k: usize = 0;
        while k < keys.len()
            invariant
                k <= keys.len(),
                self@ == (AssemblyState { slices: upsert_keys(old(self)@.slices, name@, keys@, k as nat), ..old(self)@ }),
                slice_names_unique(self@.slices),
            decreases keys.len() - k,
        {
            let slice = AsepriteSlice::from_key(name.clone(), &keys[k]);
            self.upsert_slice(slice);
            k += 1;
        }
        self.target = UserDataTarget::Slice;
    }

    fn apply_chunk(&mut self, chunk: RawAsepriteChunk, opacity_enabled: bool, frame: usize) -> (r: AseResult<()>)
        requires
            old(self)@.inv(),
        ensures
            r is Ok,
            final(self)@ == chunk_step(old(self)@, chunk, opacity_enabled, frame),
            final(self)@.inv(),
    {
        let ghost c = chunk;
        match chunk {
            RawAsepriteChunk::Layer { .. } => {
                self.add_layer(chunk, opacity_enabled);
                Ok(())
            },
            RawAsepriteChunk::Cel { layer_index, x, y, opacity, z_index, cel } => {
                self.add_cel(layer_index, x, y, opacity, z_index, cel);
                Ok(())
            },
            RawAsepriteChunk::Tags { tags } => {
                self.add_tags(tags);
                Ok(())
            },
            RawAsepriteChunk::Palette { palette_size, from_color, entries, .. } => {
                self.set_palette(palette_size, from_color, entries);
                Ok(())
            },
            RawAsepriteChunk::UserData { data } => self.attach_user_data(data),
            RawAsepriteChunk::Slice { name, slices } => {
                self.add_slices(name, slices);
                Ok(())
            },
            RawAsepriteChunk::CelExtra => {
                self.warnings.push(AsepriteWarning::UnsupportedCelExtra(frame));
                Ok(())
            },
            RawAsepriteChunk::ColorProfile => {
                self.warnings.push(AsepriteWarning::UnsupportedColorProfile(frame));
                Ok(())
            },
        }
    }

    fn add_cel(&mut self, layer_index: u16, x: i16, y: i16, opacity: u8, z_index: i16, cel: RawAsepriteCel)
        requires
            old(self)@.inv(),
        ensures
            final(self)@ == chunk_step(
                old(self)@,
                RawAsepriteChunk::Cel { layer_index, x, y, opacity, z_index, cel },
                false,
                0,
            ),
            final(self)@.inv(),
    {
        let ghost s0 = self@;
        let l = layer_index as usize;
        let ghost grown = with_cels_for(s0.cels, l as int);
        while self.cels.len() <= l
            invariant
                s0 == old(self)@,
                grown == with_cels_for(s0.cels, l as int),
                cels_view(self.cels@) =~= grown.take(self.cels@.len() as int),
                s0.cels.len() <= self.cels@.len() <= grown.len(),
                self.layers == old(self).layers,
                self.tags == old(self).tags,
                self.slices == old(self).slices,
                self.palette == old(self).palette,
                self.frame_infos == old(self).frame_infos,
                self.warnings == old(self).warnings,
                self.target == old(self).target,
            decreases l + 1 - self.cels.len(),
        {
            let ghost k = self.cels@.len();
            assert(grown.len() == l + 1);
            assert(grown[k as int] =~= Seq::<CelView>::empty());
            self.cels.push(Vec::new());
            assert(cels_view(self.cels@) =~= grown.take(self.cels@.len() as int)) by {
                assert(self.cels@.last()@.map_values(|c: AsepriteCel| c@) =~= Seq::<CelView>::empty());
            }
        }
        assert(cels_view(self.cels@) =~= grown);
        let f = self.cels[l].len();
        let ghost before = self.cels@;
        let c = AsepriteCel::new(x, y, opacity, z_index, cel);
        self.cels[l].push(c);
        assert(cels_view(self.cels@) =~~= grown.update(l as int, grown[l as int].push(c@))) by {
            assert(self.cels@[l as int]@ == before[l as int]@.push(c));
            assert(self.cels@[l as int]@.map_values(|c: AsepriteCel| c@) =~= grown[l as int].push(c@));
        }
        self.target = UserDataTarget::Cel(l, f);
    }
}

} // verus!
