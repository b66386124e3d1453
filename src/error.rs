use vstd::prelude::*;

verus! {

/// What was wrong with the data that a query or the assembly met.
#[derive(Debug, Clone, Copy, PartialEq, Eq, Structural)]
pub enum AsepriteInvalidError {
    /// A layer index that names no layer (or no cels of a layer).
    InvalidLayer(usize),
    /// A frame index that names no frame, or a linked cel that cannot be followed.
    InvalidFrame(usize),
    /// An indexed pixel whose index lies outside the palette.
    InvalidPaletteIndex(usize),
    /// A cel whose pixel block holds fewer pixels than its width times its height;
    /// the value is the number of pixels that it holds.
    InvalidPixelData(usize),
}

/// The error of every fallible operation of this library.
#[derive(Debug, Clone, Copy, PartialEq, Eq, Structural)]
pub enum AsepriteError {
    /// The document's data is inconsistent with the request.
    InvalidConfiguration(AsepriteInvalidError),
}

/// The result of every fallible operation of this library.
pub type AseResult<T> = Result<T, AsepriteError>;

/// The error for a structural problem described by `e`.
pub open spec fn invalid(e: AsepriteInvalidError) -> AsepriteError {
    AsepriteError::InvalidConfiguration(e)
}

} // verus!
