//! The records that a decoder of the file format hands to this library.
use vstd::prelude::*;

use crate::error::{AseResult, AsepriteError, AsepriteInvalidError, invalid};

verus! {

/// An RGBA color with 8 bits per channel.
#[derive(Debug, Clone, Copy, PartialEq, Eq, Structural)]
pub struct AsepriteColor {
    pub red: u8,
    pub green: u8,
    pub blue: u8,
    pub alpha: u8,
}

impl AsepriteColor {
    /// The four channels in RGBA order.
    pub open spec fn spec_rgba(self) -> [u8; 4] {
        [self.red, self.green, self.blue, self.alpha]
    }

    /// Fully transparent black.
    pub open spec fn spec_transparent() -> AsepriteColor {
        AsepriteColor { red: 0, green: 0, blue: 0, alpha: 0 }
    }

    /// The four channels in RGBA order.
    pub fn rgba(&self) -> (r: [u8; 4])
        ensures
            r == self.spec_rgba(),
    {
        [self.red, self.green, self.blue, self.alpha]
    }
}

impl Default for AsepriteColor {
    fn default() -> (r: AsepriteColor)
        ensures
            r == AsepriteColor::spec_transparent(),
    {
        AsepriteColor { red: 0, green: 0, blue: 0, alpha: 0 }
    }
}

/// How the pixels of the document are stored.
#[derive(Debug, Clone, Copy, PartialEq, Eq, Structural)]
pub enum AsepriteColorDepth {
    RGBA,
    Grayscale,
    Indexed,
}

/// Whether a layer holds pixels or groups other layers.
#[derive(Debug, Clone, Copy, PartialEq, Eq, Structural)]
pub enum AsepriteLayerType {
    Normal,
    Group,
}

/// The blend mode recorded on a layer. The compositor of this library does not apply it.
#[derive(Debug, Clone, Copy, PartialEq, Eq, Structural)]
pub enum AsepriteBlendMode {
    Normal,
    Multiply,
    Screen,
    Overlay,
    Darken,
    Lighten,
    ColorDodge,
    ColorBurn,
    HardLight,
    SoftLight,
    Difference,
    Exclusion,
    Hue,
    Saturation,
    Color,
    Luminosity,
    Addition,
    Subtract,
    Divide,
}

/// The direction in which a tag's frames are played.
#[derive(Debug, Clone, Copy, PartialEq, Eq, Structural)]
pub enum AsepriteAnimationDirection {
    Forward,
    Reverse,
    PingPong,
    PingPongReverse,
}

/// The center patch of a nine-patch slice, relative to the slice's own origin.
#[derive(Debug, Clone, Copy, PartialEq, Eq, Structural)]
pub struct AsepriteNinePatchInfo {
    pub x_center: i32,
    pub y_center: i32,
    pub width: u32,
    pub height: u32,
}

/// One pixel of a cel, in the document's color mode.
#[derive(Debug, Clone, Copy, PartialEq, Eq, Structural)]
pub enum AsepritePixel {
    RGBA(AsepriteColor),
    Grayscale { intensity: u8, alpha: u8 },
    Indexed(u8),
}

/// The RGBA value of a pixel, or the error that resolving it meets.
/// `palette` is the palette's color table, if the document has one; `transparent` is the
/// transparent index, which only indexed documents have.
pub open spec fn pixel_rgba(
    p: AsepritePixel,
    palette: Option<Seq<AsepriteColor>>,
    transparent: Option<u8>,
) -> Result<[u8; 4], AsepriteError> {
    match p {
        AsepritePixel::RGBA(c) => Ok(c.spec_rgba()),
        AsepritePixel::Grayscale { intensity, alpha } => Ok([intensity, intensity, intensity, alpha]),
        AsepritePixel::Indexed(i) => {
            if transparent == Some(i) {
                Ok([0u8, 0u8, 0u8, 0u8])
            } else if palette is Some && (i as int) < palette->0.len() {
                Ok(palette->0[i as int].spec_rgba())
            } else {
                Err(invalid(AsepriteInvalidError::InvalidPaletteIndex(i as usize)))
            }
        },
    }
}

impl AsepritePixel {
    /// Resolves the pixel to RGBA: direct colors as they are, grayscale as equal
    /// channels, and an index through the palette, the transparent index giving
    /// fully transparent black.
    pub fn get_rgba(&self, palette: Option<&Vec<AsepriteColor>>, transparent: Option<u8>) -> (r:
        AseResult<[u8; 4]>)
        ensures
            r == pixel_rgba(
                *self,
                match palette {
                    Some(p) => Some(p@),
                    None => None,
                },
                transparent,
            ),
    {
        match self {
            AsepritePixel::RGBA(c) => Ok(c.rgba()),
            AsepritePixel::Grayscale { intensity, alpha } => Ok([*intensity, *intensity, *intensity, *alpha]),
            AsepritePixel::Indexed(i) => {
                if transparent == Some(*i) {
                    return Ok([0u8, 0u8, 0u8, 0u8]);
                }
                match palette {
                    Some(p) => {
                        if (*i as usize) < p.len() {
                            Ok(p[*i as usize].rgba())
                        } else {
                            Err(AsepriteError::InvalidConfiguration(AsepriteInvalidError::InvalidPaletteIndex(*i as usize)))
                        }
                    },
                    None => Err(AsepriteError::InvalidConfiguration(AsepriteInvalidError::InvalidPaletteIndex(*i as usize))),
                }
            },
        }
    }
}

/// The pixel content of a cel chunk.
#[derive(Debug, Clone)]
pub enum RawAsepriteCel {
    /// Uncompressed pixels, row by row.
    Raw { width: u16, height: u16, pixels: Vec<AsepritePixel> },
    /// The cel reuses the content of the same layer's cel at frame `frame_position - 1`.
    Linked { frame_position: u16 },
    /// Pixels that were compressed in the file, already inflated, row by row.
    Compressed { width: u16, height: u16, pixels: Vec<AsepritePixel> },
}

/// One explicit entry of a palette chunk.
#[derive(Debug, Clone)]
pub struct RawAsepritePaletteEntry {
    pub color: AsepriteColor,
    pub name: Option<String>,
}

/// The color and text of a user data chunk.
#[derive(Debug, Clone)]
pub struct RawAsepriteUserData {
    pub text: String,
    pub color: AsepriteColor,
}

/// One tag of a tags chunk; `from` and `to` are frame indices.
#[derive(Debug, Clone)]
pub struct RawAsepriteTag {
    pub from: u16,
    pub to: u16,
    pub anim_direction: AsepriteAnimationDirection,
    pub name: String,
}

/// One key of a slice chunk.
#[derive(Debug, Clone)]
pub struct RawAsepriteSlice {
    pub frame: u32,
    pub x_origin: i32,
    pub y_origin: i32,
    pub width: u32,
    pub height: u32,
    pub nine_patch_info: Option<AsepriteNinePatchInfo>,
}

/// A chunk record of a frame.
#[derive(Debug, Clone)]
pub enum RawAsepriteChunk {
    Layer {
        flags: u16,
        layer_type: AsepriteLayerType,
        layer_child: u16,
        width: u16,
        height: u16,
        blend_mode: AsepriteBlendMode,
        opacity: u8,
        name: String,
    },
    Cel { layer_index: u16, x: i16, y: i16, opacity: u8, z_index: i16, cel: RawAsepriteCel },
    CelExtra,
    ColorProfile,
    Tags { tags: Vec<RawAsepriteTag> },
    Palette {
        palette_size: u32,
        from_color: u32,
        to_color: u32,
        entries: Vec<RawAsepritePaletteEntry>,
    },
    UserData { data: RawAsepriteUserData },
    Slice { name: String, slices: Vec<RawAsepriteSlice> },
}

/// A frame record: its duration and its chunks in file order.
#[derive(Debug, Clone)]
pub struct RawAsepriteFrame {
    pub duration_ms: u16,
    pub chunks: Vec<RawAsepriteChunk>,
}

/// The header record of a file. Bit 0 of `flags` says that layer opacity is valid.
#[derive(Debug, Clone)]
pub struct RawAsepriteHeader {
    pub width: u16,
    pub height: u16,
    pub color_depth: AsepriteColorDepth,
    pub flags: u32,
    pub transparent_palette: u8,
}

/// A decoded file: the header and the frames in file order.
#[derive(Debug, Clone)]
pub struct RawAseprite {
    pub header: RawAsepriteHeader,
    pub frames: Vec<RawAsepriteFrame>,
}

} // verus!
