//! Loading sprites and scenes: which files can be loaded, and sprites from their text.
//! Reading the files is done by the program around the library.

use crate::common::fio::{extension_of, file_kind, sprite_from_text, spec_file_kind, FileKind};
use crate::common::text::ends_with;
use crate::common::{Error, ErrorView};
use crate::texel_types::{text_texels, Sprite, SPRITE_MAX_BYTES};
use vstd::prelude::*;

verus! {

/// Loads sprites and scenes
pub struct Loader;

impl Loader {
    /// The kind of the file at `path`: `rgz` a scene, `txt` a sprite, others unknown
    pub fn from_file(path: &str) -> (r: Result<FileKind, Error>)
        ensures
            match r {
                Ok(k) => spec_file_kind(extension_of(path@)) == Ok::<FileKind, ErrorView>(k),
                Err(e) => spec_file_kind(extension_of(path@)) == Err::<FileKind, ErrorView>(e@),
            },
    {
        file_kind(path)
    }

    /// The sprite drawn by `text`, read from the file at `path`, which must end in `txt`
    pub fn from_txt_file(path: &str, text: &str) -> (r: Result<Sprite, Error>)
        ensures
            !"txt"@.is_suffix_of(path@) ==> (r matches Err(e) && e@ == ErrorView::ExecutionError(
                "Unknown file type"@,
            )),
            "txt"@.is_suffix_of(path@) ==> {
                &&& (text.len() > SPRITE_MAX_BYTES || text@.len() > SPRITE_MAX_BYTES) <==> r is Err
                &&& r matches Ok(s) ==> (s.body.wf() && s@.body.frames == seq![text_texels(text@).0]
                    && s@.body.index == 0 && s@.id is None && s@.labels.len() == 0)
            },
    {
        proof {
            reveal_strlit("txt");
        }
        if ends_with(path, "txt") {
            assert("txt"@.is_suffix_of(path@));
            sprite_from_text(text)
        } else {
            Err(Error::execution("Unknown file type"))
        }
    }
}

} // verus!
