use vstd::prelude::*;

use crate::raw::{AsepriteColor, RawAsepritePaletteEntry};

verus! {

/// The palette of an indexed document.
#[derive(Debug, Clone)]
pub struct AsepritePalette {
    pub entries: Vec<AsepriteColor>,
}

/// The color table that a palette chunk describes: `size` entries, where the entry at
/// `i` is the explicit entry `i - from` when there is one, and transparent black otherwise.
pub open spec fn palette_table(size: nat, from: nat, explicit: Seq<RawAsepritePaletteEntry>) -> Seq<AsepriteColor> {
    Seq::new(
        size,
        |i: int|
            if from <= i < from + explicit.len() {
                explicit[i - from].color
            } else {
                AsepriteColor::spec_transparent()
            },
    )
}

impl AsepritePalette {
    /// Builds the color table of a palette chunk.
    pub fn from_raw(palette_size: u32, from_color: u32, raw_entries: Vec<RawAsepritePaletteEntry>) -> (r: Self)
        ensures
            r.entries@ == palette_table(palette_size as nat, from_color as nat, raw_entries@),
    {
        let mut entries: Vec<AsepriteColor> = Vec::new();
        let size = palette_size as usize;
        let from = from_color as usize;
        let mut i: usize = 0;
        while i < size
            invariant
                size == palette_size as nat,
                from == from_color as nat,
                i <= size,
                entries@ =~= palette_table(i as nat, from as nat, raw_entries@),
            decreases size - i,
        {
            let color = if from <= i && i - from < raw_entries.len() {
                raw_entries[i - from].color
            } else {
                AsepriteColor::default()
            };
            entries.push(color);
            i += 1;
        }
        AsepritePalette { entries }
    }
}

} // verus!
