//! The pictures of the sprite sheet, and which place on the sheet each one
//! has.

use vstd::prelude::*;

verus! {

/// One picture of the sprite sheet.
#[derive(Clone, Copy, PartialEq, Eq, Structural, Debug)]
pub enum AtlasSprite {
    /// The head, first frame.
    Head1,
    /// The head, second frame.
    Head2,
    /// The head with its mouth open, shown after the first frame.
    Head3,
    /// The head with its mouth open, shown after the second frame.
    Head4,
    /// The head after it has run into the body.
    Head5,
    /// A body segment that goes straight on.
    Body1,
    /// A body segment in a corner.
    Body2,
    /// The tail, first frame.
    Tail1,
    /// The tail, second frame.
    Tail2,
    /// The food.
    Fish,
}

impl AtlasSprite {
    /// The place of the picture on the sheet, counted row by row.
    pub open spec fn index(self) -> usize {
        match self {
            AtlasSprite::Head1 => 0,
            AtlasSprite::Head2 => 1,
            AtlasSprite::Head3 => 2,
            AtlasSprite::Head4 => 3,
            AtlasSprite::Head5 => 4,
            AtlasSprite::Body1 => 6,
            AtlasSprite::Body2 => 8,
            AtlasSprite::Tail1 => 10,
            AtlasSprite::Tail2 => 11,
            AtlasSprite::Fish => 12,
        }
    }
}

impl From<AtlasSprite> for usize {
    fn from(val: AtlasSprite) -> (r: usize) {
        match val {
            AtlasSprite::Head1 => 0,
            AtlasSprite::Head2 => 1,
            AtlasSprite::Head3 => 2,
            AtlasSprite::Head4 => 3,
            AtlasSprite::Head5 => 4,
            AtlasSprite::Body1 => 6,
            AtlasSprite::Body2 => 8,
            AtlasSprite::Tail1 => 10,
            AtlasSprite::Tail2 => 11,
            AtlasSprite::Fish => 12,
        }
    }
}

impl vstd::std_specs::convert::FromSpecImpl<AtlasSprite> for usize {
    open spec fn obeys_from_spec() -> bool {
        true
    }

    open spec fn from_spec(v: AtlasSprite) -> usize {
        v.index()
    }
}

} // verus!
