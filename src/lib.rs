//! A document model for layered pixel-art animation files: assembly of decoded chunk
//! records into a document, the layer tree, cel resolution, compositing and slices.
use vstd::prelude::*;

pub mod canvas;
pub mod cel;
pub mod document;
pub mod error;
pub mod layer;
pub mod palette;
pub mod raw;
pub mod render;
pub mod slice;
pub mod tag;
pub mod tree;

pub use canvas::Canvas;
pub use cel::AsepriteCel;
pub use document::{Aseprite, AsepriteFrameInfo, AsepriteWarning};
pub use error::{AseResult, AsepriteError, AsepriteInvalidError};
pub use layer::{AsepriteLayer, AsepriteLayers, GroupLayer, NormalLayer};
pub use palette::AsepritePalette;
pub use render::{AsepriteFrame, AsepriteFrameRange, AsepriteFrames, image_for_frame};
pub use slice::{AsepriteSlice, AsepriteSliceImage, AsepriteSlices, NineSlice};
pub use tag::{AsepriteTag, AsepriteTags};
pub use tree::{LayerTreeNode, build_layer_tree};

verus! {

} // verus!
