use vstd::prelude::*;

use crate::raw::{AsepriteColor, RawAsepriteCel, RawAsepriteUserData};

verus! {

/// The content that one layer contributes to one frame.
#[derive(Debug, Clone)]
pub struct AsepriteCel {
    /// Position of the cel's left edge on the canvas.
    pub x: i16,
    /// Position of the cel's top edge on the canvas.
    pub y: i16,
    pub opacity: u8,
    /// Tie-break among cels of one frame when the stacking order is decided.
    pub z_index: i16,
    pub raw_cel: RawAsepriteCel,
    pub color: AsepriteColor,
    pub user_data: String,
}

/// The mathematical value of a cel.
pub struct CelView {
    pub x: i16,
    pub y: i16,
    pub opacity: u8,
    pub z_index: i16,
    pub raw_cel: RawAsepriteCel,
    pub color: AsepriteColor,
    pub user_data: Seq<char>,
}

impl View for AsepriteCel {
    type V = CelView;

    open spec fn view(&self) -> CelView {
        CelView {
            x: self.x,
            y: self.y,
            opacity: self.opacity,
            z_index: self.z_index,
            raw_cel: self.raw_cel,
            color: self.color,
            user_data: self.user_data@,
        }
    }
}

impl CelView {
    /// The cel that a cel chunk creates: no color, no text.
    pub open spec fn fresh(x: i16, y: i16, opacity: u8, z_index: i16, raw_cel: RawAsepriteCel) -> CelView {
        CelView {
            x,
            y,
            opacity,
            z_index,
            raw_cel,
            color: AsepriteColor::spec_transparent(),
            user_data: Seq::empty(),
        }
    }

    /// The cel with the color and text of a user data chunk attached.
    pub open spec fn with_user_data(self, data: RawAsepriteUserData) -> CelView {
        CelView { color: data.color, user_data: data.text@, ..self }
    }
}

impl AsepriteCel {
    pub fn new(x: i16, y: i16, opacity: u8, z_index: i16, raw_cel: RawAsepriteCel) -> (r: Self)
        ensures
            r@ == CelView::fresh(x, y, opacity, z_index, raw_cel),
    {
        AsepriteCel {
            x,
            y,
            opacity,
            z_index,
            raw_cel,
            color: AsepriteColor::default(),
            user_data: String::new(),
        }
    }


    /// Attaches the color and text of a user data chunk.
    pub fn apply_raw_user_data(&mut self, value: RawAsepriteUserData)
        ensures
            final(self)@ == old(self)@.with_user_data(value),
    {
        self.color = value.color;
        self.user_data = value.text;
    }

    /// Width and height of the cel's own pixels; a linked cel has none.
    pub fn get_size(&self) -> (r: Option<[u16; 2]>)
        ensures
            r == match self.raw_cel {
                RawAsepriteCel::Raw { width, height, .. } => Some([width, height]),
                RawAsepriteCel::Compressed { width, height, .. } => Some([width, height]),
                RawAsepriteCel::Linked { .. } => None::<[u16; 2]>,
            },
    {
        match &self.raw_cel {
            RawAsepriteCel::Raw { width, height, .. } => Some([*width, *height]),
            RawAsepriteCel::Linked { .. } => None,
            RawAsepriteCel::Compressed { width, height, .. } => Some([*width, *height]),
        }
    }
}

} // verus!
