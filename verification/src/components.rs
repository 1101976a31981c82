//! Scene entities: placed sprites with their selection state, bookmarks and the region
//! being selected.

mod world;

pub use world::{
    bookmark_at, deselected, lemma_count_step, first_selected_from, lemma_first_selected_found, labels_with, selected_count, translated_selected, without_selected, Object,
    ObjectView, World, WorldView,
};

use crate::texel_types::Position2D;
use vstd::prelude::*;

verus! {

/// Marks a selected object
#[derive(Debug, Clone, Copy, PartialEq, Eq, Structural)]
pub struct Selection;

/// Region being selected: whether it is still being sized, and the corner it started at
#[derive(Debug, Clone, Copy, PartialEq, Eq, Structural)]
pub struct Subselection {
    pub active: bool,
    pub initial_pos: Position2D,
}

impl Subselection {
    /// Region selection starting at `initial_pos`, being sized
    pub fn at(initial_pos: Position2D) -> (r: Self)
        ensures
            r == (Subselection { active: true, initial_pos }),
    {
        Subselection { active: true, initial_pos }
    }
}

/// Marks an object that can be selected
#[derive(Debug, Clone, Copy, PartialEq, Eq, Structural)]
pub struct Selectable;

/// Bookmarked viewport offset, by index
#[derive(Debug, Clone, Copy, PartialEq, Eq, Structural)]
pub struct Bookmark(pub usize);

} // verus!
