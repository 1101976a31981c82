use crate::common::{Error, ErrorView};
use crate::texel_types::{text_texels, Scene, Sprite, SpriteV1, TexelV1, SPRITE_MAX_BYTES};
use vstd::prelude::*;

verus! {

/// Export file format
#[derive(Debug, Clone, Copy, PartialEq, Eq, Structural)]
pub enum ExportFormat {
    Txt,
}

impl ExportFormat {
    pub fn default_format() -> (r: Self)
        ensures
            r == ExportFormat::Txt,
    {
        ExportFormat::Txt
    }
}

/// A loaded file: a whole scene, or a single sprite to add to the scene
pub enum Loaded {
    Scene(Scene),
    Sprite(Sprite),
}

/// Abstract optional text
pub open spec fn opt_chars(o: Option<String>) -> Option<Seq<char>> {
    match o {
        Some(s) => Some(s@),
        None => None,
    }
}

/// What `std::path::Path::parent` gives for a path, as text
pub uninterp spec fn parent_of(path: Seq<char>) -> Option<Seq<char>>;

/// What `std::path::Path::file_name` gives for a path, as text
pub uninterp spec fn file_name_of(path: Seq<char>) -> Option<Seq<char>>;

/// What `std::path::Path::join` gives for a base path and a name, as text
pub uninterp spec fn joined(base: Seq<char>, name: Seq<char>) -> Seq<char>;

/// `std::path::Path::parent`, written as text: the path without its last component,
/// `None` for a root or an empty path.
#[verifier::external_body]
fn std_path_parent(path: &str) -> (r: Option<String>)
    ensures
        opt_chars(r) == parent_of(path@),
{
    match std::path::Path::new(path).parent() {
        Some(p) => Some(String::from(p.to_str().unwrap_or(""))),
        None => None,
    }
}

/// `std::path::Path::file_name`, written as text: the last component, `None` when the
/// path ends in `..` or has no component.
#[verifier::external_body]
fn std_path_file_name(path: &str) -> (r: Option<String>)
    ensures
        opt_chars(r) == file_name_of(path@),
{
    match std::path::Path::new(path).file_name() {
        Some(n) => Some(String::from(n.to_str().unwrap_or(""))),
        None => None,
    }
}

/// `std::path::Path::join`, written as text.
#[verifier::external_body]
fn std_path_join(base: &str, name: &str) -> (r: String)
    ensures
        r@ == joined(base@, name@),
{
    String::from(std::path::Path::new(base).join(name).to_str().unwrap_or("???"))
}

/// Directory part of a path: its parent, or nothing
pub fn path_base(path: &str) -> (r: String)
    ensures
        r@ == match parent_of(path@) {
            Some(p) => p,
            None => Seq::<char>::empty(),
        },
{
    match std_path_parent(path) {
        Some(p) => p,
        None => String::new(),
    }
}

/// Parent of a path, if it has one
pub fn path_parent(path: &str) -> (r: Option<String>)
    ensures
        opt_chars(r) == parent_of(path@),
{
    std_path_parent(path)
}

/// Last component of a path, if it has one
pub fn path_file_name(path: &str) -> (r: Option<String>)
    ensures
        opt_chars(r) == file_name_of(path@),
{
    std_path_file_name(path)
}

/// `name` joined onto `base`
pub fn path_join(base: &str, name: &str) -> (r: String)
    ensures
        r@ == joined(base@, name@),
{
    std_path_join(base, name)
}

/// What `std::path::Path::extension` gives for a path, as text
pub uninterp spec fn extension_of(path: Seq<char>) -> Option<Seq<char>>;

/// `std::path::Path::extension`, written as text: the part of the file name after its last
/// dot, `None` when there is none (or the name only starts with a dot); named
/// `extension_of`.
#[verifier::external_body]
fn std_path_extension(path: &str) -> (r: Option<String>)
    ensures
        opt_chars(r) == extension_of(path@),
{
    match std::path::Path::new(path).extension() {
        Some(ext) => Some(ext.to_string_lossy().into_owned()),
        None => None,
    }
}

/// The extension of a path
pub fn path_extension(path: &str) -> (r: Option<String>)
    ensures
        opt_chars(r) == extension_of(path@),
{
    std_path_extension(path)
}

/// What `std::path::Path::with_extension` gives for a path and an extension, as text
pub uninterp spec fn with_extension_of(path: Seq<char>, ext: Seq<char>) -> Seq<char>;

/// Whether `ext` holds no path separator (`/`, nor `\\`, which separates paths on Windows)
pub open spec fn no_separator(ext: Seq<char>) -> bool {
    forall|i: int| 0 <= i < ext.len() ==> ext[i] != '/' && ext[i] != '\\'
}

/// `std::path::Path::with_extension`, written as text: the path with the extension of its
/// file name replaced by `ext`, or `ext` added; named `with_extension_of`. It panics on an
/// extension holding a path separator, which `requires` leaves out.
#[verifier::external_body]
fn std_path_with_extension(path: &str, ext: &str) -> (r: String)
    requires
        no_separator(ext@),
    ensures
        r@ == with_extension_of(path@, ext@),
{
    std::path::Path::new(path).with_extension(ext).to_string_lossy().into_owned()
}

/// The path a file of extension `ext` is written to: `path` itself when it has that
/// extension already, else `path` with its extension replaced by (or added as) `ext`
pub fn path_with_ext(path: &str, ext: &str) -> (r: String)
    requires
        no_separator(ext@),
    ensures
        r@ == if extension_of(path@) == Some(ext@) {
            path@
        } else {
            with_extension_of(path@, ext@)
        },
{
    let current = path_extension(path);
    let same = match &current {
        Some(e) => crate::common::str_equal(e.as_str(), ext),
        None => false,
    };
    if same {
        String::from_str(path)
    } else {
        std_path_with_extension(path, ext)
    }
}

/// What libflate's gzip decoder gives for `data`: the decoded bytes, or the text of its
/// error
pub uninterp spec fn gunzipped(data: Seq<u8>) -> Result<Seq<u8>, Seq<char>>;

/// `libflate::gzip::Decoder` read to the end: the bytes decoded from the gzip `data`, or
/// the text of the decoder's error; named `gunzipped`.
#[verifier::external_body]
fn gunzip(data: &[u8]) -> (r: Result<Vec<u8>, String>)
    ensures
        match r {
            Ok(v) => gunzipped(data@) == Ok::<Seq<u8>, Seq<char>>(v@),
            Err(e) => gunzipped(data@) == Err::<Seq<u8>, Seq<char>>(e@),
        },
{
    let mut decoder = match libflate::gzip::Decoder::new(data) {
        Ok(d) => d,
        Err(e) => return Err(e.to_string()),
    };
    let mut out = Vec::new();
    match std::io::Read::read_to_end(&mut decoder, &mut out) {
        Ok(_) => Ok(out),
        Err(e) => Err(e.to_string()),
    }
}

/// `libflate::gzip::Encoder` fed `data` and finished: `data` gzip encoded, or the text of the
/// encoder's error. The header it writes holds the current time, so the bytes get no name;
/// what is claimed is that the decoder gives `data` back from them.
#[verifier::external_body]
fn gzip(data: &[u8]) -> (r: Result<Vec<u8>, String>)
    ensures
        match r {
            Ok(v) => gunzipped(v@) == Ok::<Seq<u8>, Seq<char>>(data@),
            Err(_) => true,
        },
{
    let mut encoder = match libflate::gzip::Encoder::new(Vec::new()) {
        Ok(e) => e,
        Err(e) => return Err(e.to_string()),
    };
    if let Err(e) = std::io::Write::write_all(&mut encoder, data) {
        return Err(e.to_string());
    }
    match encoder.finish().into_result() {
        Ok(v) => Ok(v),
        Err(e) => Err(e.to_string()),
    }
}

/// The contents of a scene file (`rgz`, gzipped RON): the decoded bytes, or the decoder's
/// error as an execution error
pub open spec fn rgz_decoded(data: Seq<u8>) -> Result<Seq<u8>, ErrorView> {
    match gunzipped(data) {
        Ok(b) => Ok(b),
        Err(m) => Err(ErrorView::ExecutionError(m)),
    }
}

/// The RON text of a scene file (`rgz`) as bytes: the file's bytes gzip-decoded
pub fn scene_bytes_from_rgz(data: &[u8]) -> (r: Result<Vec<u8>, Error>)
    ensures
        match r {
            Ok(v) => rgz_decoded(data@) == Ok::<Seq<u8>, ErrorView>(v@),
            Err(e) => rgz_decoded(data@) == Err::<Seq<u8>, ErrorView>(e@),
        },
{
    match gunzip(data) {
        Ok(v) => Ok(v),
        Err(m) => Err(Error::ExecutionError(m)),
    }
}

/// The bytes of a scene file (`rgz`) holding the RON text `data`: `data` gzip-encoded; the
/// encoder's error as an execution error
pub fn rgz_from_scene_bytes(data: &[u8]) -> (r: Result<Vec<u8>, Error>)
    ensures
        r matches Ok(v) ==> rgz_decoded(v@) == Ok::<Seq<u8>, ErrorView>(data@),
        r matches Err(e) ==> e@ is ExecutionError,
{
    match gzip(data) {
        Ok(v) => Ok(v),
        Err(m) => Err(Error::ExecutionError(m)),
    }
}

/// A scene file written from RON text reads back as that text
pub proof fn rgz_read_gives_back_write(text: Seq<u8>, file: Seq<u8>)
    requires
        gunzipped(file) == Ok::<Seq<u8>, Seq<char>>(text),
    ensures
        rgz_decoded(file) == Ok::<Seq<u8>, ErrorView>(text),
{
}

/// What a file holds, by its extension
#[derive(Debug, Clone, Copy, PartialEq, Eq, Structural)]
pub enum FileKind {
    /// A compressed scene (`rgz`)
    Scene,
    /// A sprite drawn as text (`txt`)
    Sprite,
}

/// The kind of a file by its extension: `rgz` a scene, `txt` a sprite, anything else is an
/// unknown file type
pub open spec fn spec_file_kind(ext: Option<Seq<char>>) -> Result<FileKind, ErrorView> {
    match ext {
        Some(e) => if e == "rgz"@ {
            Ok(FileKind::Scene)
        } else if e == "txt"@ {
            Ok(FileKind::Sprite)
        } else {
            Err(ErrorView::ExecutionError("Unknown file type"@))
        },
        None => Err(ErrorView::ExecutionError("Unknown file type"@)),
    }
}

/// The kind of the file at `path`, by its extension
pub fn file_kind(path: &str) -> (r: Result<FileKind, Error>)
    ensures
        match r {
            Ok(k) => spec_file_kind(extension_of(path@)) == Ok::<FileKind, ErrorView>(k),
            Err(e) => spec_file_kind(extension_of(path@)) == Err::<FileKind, ErrorView>(e@),
        },
{
    proof {
        reveal_strlit("rgz");
        reveal_strlit("txt");
        reveal_strlit("Unknown file type");
    }
    match path_extension(path) {
        Some(ext) => {
            if crate::common::str_equal(ext.as_str(), "rgz") {
                Ok(FileKind::Scene)
            } else if crate::common::str_equal(ext.as_str(), "txt") {
                Ok(FileKind::Sprite)
            } else {
                Err(Error::execution("Unknown file type"))
            }
        },
        None => Err(Error::execution("Unknown file type")),
    }
}

/// A sprite without metadata drawn from text: spaces advance, new lines start the next
/// row, other characters become texels; a text longer than `SPRITE_MAX_BYTES` is refused
pub fn sprite_from_text(text: &str) -> (r: Result<Sprite, Error>)
    ensures
        (text.len() > SPRITE_MAX_BYTES || text@.len() > SPRITE_MAX_BYTES) <==> r is Err,
        r matches Ok(s) ==> (s.body.wf() && s@.body.frames == seq![text_texels(text@).0] && s@.body.index == 0
            && s@.id is None && s@.labels.len() == 0),
        r matches Err(e) ==> (e@ == ErrorView::ExecutionError("Sprite text too large"@)),
{
    match SpriteV1::from_txt(text) {
        Some(body) => Ok(Sprite { body, id: None, labels: Vec::new() }),
        None => Err(Error::execution("Sprite text too large")),
    }
}

} // verus!
