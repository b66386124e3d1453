use vstd::prelude::*;

use std::ops::Range;

use crate::raw::{AsepriteAnimationDirection, AsepriteColor, RawAsepriteTag, RawAsepriteUserData};

verus! {

/// A named range of frames.
#[derive(Debug)]
pub struct AsepriteTag {
    /// Position of the tag among all tags of the document, in arrival order.
    pub index: usize,
    /// The frames of the tag, as a half-open range.
    pub frames: Range<u16>,
    pub animation_direction: AsepriteAnimationDirection,
    pub name: String,
    pub color: AsepriteColor,
    pub user_data: String,
}

/// The mathematical value of a tag; its frames are `from..to`.
pub struct TagView {
    pub index: usize,
    pub from: u16,
    pub to: u16,
    pub animation_direction: AsepriteAnimationDirection,
    pub name: Seq<char>,
    pub color: AsepriteColor,
    pub user_data: Seq<char>,
}

impl View for AsepriteTag {
    type V = TagView;

    open spec fn view(&self) -> TagView {
        TagView {
            index: self.index,
            from: self.frames.start,
            to: self.frames.end,
            animation_direction: self.animation_direction,
            name: self.name@,
            color: self.color,
            user_data: self.user_data@,
        }
    }
}

impl TagView {
    /// The tag that entry `t` of a tags chunk creates at position `index`: no color, no text.
    pub open spec fn fresh(index: usize, t: RawAsepriteTag) -> TagView {
        TagView {
            index,
            from: t.from,
            to: t.to,
            animation_direction: t.anim_direction,
            name: t.name@,
            color: AsepriteColor::spec_transparent(),
            user_data: Seq::empty(),
        }
    }

    /// The tag with the color and text of a user data chunk attached.
    pub open spec fn with_user_data(self, data: RawAsepriteUserData) -> TagView {
        TagView { color: data.color, user_data: data.text@, ..self }
    }
}

impl AsepriteTag {
    /// Creates the tag that entry `t` of a tags chunk describes, at position `index`.
    pub fn from_raw_tag(index: usize, t: RawAsepriteTag) -> (r: Self)
        ensures
            r@ == TagView::fresh(index, t),
    {
        AsepriteTag {
            index,
            frames: Range { start: t.from, end: t.to },
            animation_direction: t.anim_direction,
            name: t.name,
            color: AsepriteColor::default(),
            user_data: String::new(),
        }
    }

    /// Attaches the color and text of a user data chunk.
    pub fn apply_raw_user_data(&mut self, value: RawAsepriteUserData)
        ensures
            final(self)@ == old(self)@.with_user_data(value),
    {
        self.color = value.color;
        self.user_data = value.text;
    }
}

/// Read access to the tags of a document.
#[derive(Debug)]
pub struct AsepriteTags<'a> {
    pub(crate) tags: &'a Vec<AsepriteTag>,
}

impl<'a> AsepriteTags<'a> {
    /// The tags, by index.
    pub closed spec fn spec_tags(&self) -> Seq<AsepriteTag> {
        self.tags@
    }

    pub(crate) fn new(tags: &'a Vec<AsepriteTag>) -> (r: Self)
        ensures
            r.spec_tags() == tags@,
    {
        AsepriteTags { tags }
    }

    /// The tag with index `id`, if there is one.
    pub fn get(&self, id: &usize) -> (r: Option<&'a AsepriteTag>)
        ensures
            r == (if (*id as int) < self.spec_tags().len() {
                Some(&self.spec_tags()[*id as int])
            } else {
                None
            }),
    {
        if *id < self.tags.len() {
            Some(&self.tags[*id])
        } else {
            None
        }
    }

    /// All tags, in index order.
    pub fn all(&self) -> (r: &'a [AsepriteTag])
        ensures
            r@ == self.spec_tags(),
    {
        self.tags.as_slice()
    }
}

} // verus!
