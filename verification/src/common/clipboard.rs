use crate::texel_types::{Sprite, SpriteData, TexelV1};
use vstd::prelude::*;

verus! {

/// Clipboard operation
#[derive(Debug, Clone, Copy, PartialEq, Eq, Structural)]
pub enum ClipboardOp {
    Copy,
    Cut,
    Paste,
}

/// Clipboard contents: whole sprites (object mode) or texels (edit mode)
pub enum Clipboard {
    Empty,
    Sprites(Vec<Sprite>),
    Texels(Vec<TexelV1>),
}

/// Abstract clipboard contents
pub enum ClipboardView {
    Empty,
    Sprites(Seq<SpriteData>),
    Texels(Seq<TexelV1>),
}

impl View for Clipboard {
    type V = ClipboardView;

    open spec fn view(&self) -> ClipboardView {
        match self {
            Clipboard::Empty => ClipboardView::Empty,
            Clipboard::Sprites(v) => ClipboardView::Sprites(Seq::new(v@.len(), |i: int| v@[i]@)),
            Clipboard::Texels(v) => ClipboardView::Texels(v@),
        }
    }
}

impl Clipboard {
    pub fn is_empty(&self) -> (r: bool)
        ensures
            r == (self@ is Empty),
    {
        match self {
            Clipboard::Empty => true,
            _ => false,
        }
    }
}

} // verus!
