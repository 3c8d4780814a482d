//! The read path: from a requested path to the reply.
//!
//! A request names a stored file by its path below the media root. Leading
//! slashes are dropped, so that the path is always taken relative to the
//! root, and a path with a `..` segment is refused, so that it cannot leave
//! the root. The content type is guessed from the extension alone; the file
//! itself is never inspected. Reading the file is the caller's part: it
//! hands back the bytes, or `None` if the file could not be read.

use vstd::prelude::*;
use crate::naming::{
    extension, extension_of, is_storage_name, lemma_extension, lemma_stored_extension, BASE_LENGTH,
};
use crate::response::Status;
use crate::text::{chars_of, is_lower_alphanumeric, lower};

verus! {

/// The directory below which every upload is stored and every request is
/// resolved. It is fixed, and has to exist before the service starts.
pub const DEFAULT_MEDIA_DIRECTORY: &'static str = "www/media";

/// What `mime_guess` answers for an extension: the first media type that
/// its table lists for it, compared without regard to case, or `text/plain`
/// where the table has no entry.
pub uninterp spec fn guessed_content_type(ext: Seq<char>) -> Seq<char>;

/// Calls `mime_guess::from_ext(ext).first_or_text_plain()` and returns the
/// media type as text. The answer depends on `ext` alone. For the empty
/// extension the crate looks nothing up and answers `text/plain`.
#[verifier::external_body]
fn guess_content_type(ext: &str) -> (r: String)
    ensures
        r@ == guessed_content_type(ext@),
        ext@.len() == 0 ==> r@ == "text/plain"@,
{
    mime_guess::from_ext(ext).first_or_text_plain().as_ref().to_owned()
}

/// `path` without its leading slashes.
pub open spec fn trim_separators(path: Seq<char>) -> Seq<char>
    decreases path.len(),
{
    if path.len() > 0 && path[0] == '/' {
        trim_separators(path.drop_first())
    } else {
        path
    }
}

/// The characters that end a path segment on some platform.
pub open spec fn is_separator(c: char) -> bool {
    c == '/' || c == '\\'
}

/// `path[i..i + 2]` is a whole segment and reads `..`.
pub open spec fn is_parent_segment(path: Seq<char>, i: int) -> bool {
    &&& 0 <= i
    &&& i + 2 <= path.len()
    &&& path[i] == '.'
    &&& path[i + 1] == '.'
    &&& (i == 0 || is_separator(path[i - 1]))
    &&& (i + 2 == path.len() || is_separator(path[i + 2]))
}

/// Whether a relative path has a `..` segment, and so may lead out of the
/// directory it is resolved in.
pub open spec fn climbs(path: Seq<char>) -> bool {
    exists|i: int| is_parent_segment(path, i)
}

/// The location of the file that a relative path names below the media
/// root.
pub open spec fn media_path(relative: Seq<char>) -> Seq<char> {
    DEFAULT_MEDIA_DIRECTORY@ + seq!['/'] + relative
}

/// The location below the media root of the file that `relative` names.
pub fn media_file(relative: &str) -> (r: String)
    ensures
        r@ == media_path(relative@),
{
    let mut location = String::from_str(DEFAULT_MEDIA_DIRECTORY);
    location.append("/");
    location.append(relative);
    proof {
        reveal_strlit("/");
    }
    location
}

/// Drops the leading slashes of a requested path.
pub fn trim_leading_separators(path: &str) -> (r: &str)
    ensures
        r@ == trim_separators(path@),
{
    let chars = chars_of(path);
    let mut i: usize = 0;
    assert(path@.skip(0) =~= path@);
    while i < chars.len() && chars[i] == '/'
        invariant
            i <= chars.len(),
            chars@ == path@,
            trim_separators(path@) == trim_separators(path@.skip(i as int)),
        decreases chars.len() - i,
    {
        assert(path@.skip(i as int).drop_first() =~= path@.skip(i + 1));
        i += 1;
    }
    path.substring_char(i, chars.len())
}

/// Whether a relative path has a `..` segment.
pub fn has_parent_segment(path: &str) -> (r: bool)
    ensures
        r == climbs(path@),
{
    let chars = chars_of(path);
    let n = chars.len();
    let mut i: usize = 0;
    while i < n
        invariant
            i <= n,
            n == chars.len(),
            chars@ == path@,
            forall|k: int| 0 <= k < i ==> !is_parent_segment(path@, k),
        decreases n - i,
    {
        if n - i >= 2 && chars[i] == '.' && chars[i + 1] == '.' {
            let opens = i == 0 || chars[i - 1] == '/' || chars[i - 1] == '\\';
            let closes = n - i == 2 || chars[i + 2] == '/' || chars[i + 2] == '\\';
            if opens && closes {
                assert(is_parent_segment(path@, i as int));
                return true;
            }
        }
        i += 1;
    }
    false
}

/// Where a request is to be read from, and how its reply is to be typed.
#[derive(Debug)]
pub struct MediaTarget {
    /// The file to read, below the media root.
    pub file_path: String,
    /// The guessed media type of the file.
    pub content_type: String,
}

/// The reply to a request for a stored file.
#[derive(Debug)]
pub struct MediaResponse {
    /// `200` with the file, `404` without.
    pub status: Status,
    /// The media type of the body; absent from a `404`.
    pub content_type: Option<String>,
    /// The bytes of the file; empty in a `404`.
    pub body: Vec<u8>,
}

/// Resolves a requested path. Returns `None` for a path that would leave
/// the media root; otherwise the file below the root that the path names,
/// and the content type guessed from the path's extension.
pub fn locate_media(path: &str) -> (r: Option<MediaTarget>)
    ensures
        r is None <==> climbs(trim_separators(path@)),
        r matches Some(target) ==> {
            &&& target.file_path@ == media_path(trim_separators(path@))
            &&& target.content_type@ == guessed_content_type(extension(trim_separators(path@)))
        },
{
    let relative = trim_leading_separators(path);
    if has_parent_segment(relative) {
        return None;
    }
    let content_type = guess_content_type(extension_of(relative));
    Some(MediaTarget { file_path: media_file(relative), content_type })
}

/// Builds the reply from what was found. `target` is the resolved request,
/// `contents` the bytes read from its file, `None` if there is no such file
/// or it cannot be read. A file that was found is returned whole with its
/// content type; everything else is a `404` with an empty body.
pub fn serve_media(target: Option<MediaTarget>, contents: Option<Vec<u8>>) -> (r: MediaResponse)
    ensures
        match (target, contents) {
            (Some(found), Some(bytes)) => {
                &&& r.status == Status::Success
                &&& r.content_type matches Some(content_type)
                &&& content_type@ == found.content_type@
                &&& r.body@ == bytes@
            },
            _ => {
                &&& r.status == Status::NotFound
                &&& r.content_type is None
                &&& r.body@.len() == 0
            },
        },
{
    match (target, contents) {
        (Some(found), Some(bytes)) => MediaResponse {
            status: Status::Success,
            content_type: Some(found.content_type),
            body: bytes,
        },
        _ => MediaResponse { status: Status::NotFound, content_type: None, body: Vec::new() },
    }
}

/// What a request for `path` reads from a storage that holds `files`, a map
/// from locations to contents: nothing for a path that leaves the root or
/// names no stored file, else the contents at the resolved location.
pub open spec fn fetch(files: Map<Seq<char>, Seq<u8>>, path: Seq<char>) -> Option<Seq<u8>> {
    let relative = trim_separators(path);
    if climbs(relative) {
        None
    } else {
        files.get(media_path(relative))
    }
}

/// A stored name is its own relative path: it has no leading slash to drop
/// and no `..` segment, so a request for it is never refused and resolves to
/// the location the upload was written to.
pub proof fn lemma_stored_name_resolves(name: Seq<char>, original: Seq<char>)
    requires
        is_storage_name(name, original),
    ensures
        trim_separators(name) == name,
        !climbs(name),
{
    let ext = lower(extension(original));
    lemma_extension(original);
    // The name starts with a letter or digit, not with a slash.
    assert(is_lower_alphanumeric(name[0]));
    assert forall|i: int| !is_parent_segment(name, i) by {
        // A `..` needs two dots side by side. The base holds no dot, and the
        // dot after it is followed by the extension, which holds none.
        if is_parent_segment(name, i) {
            if i < BASE_LENGTH {
                assert(is_lower_alphanumeric(name[i]));
            } else {
                assert(ext[i - BASE_LENGTH] == name[i + 1]);
            }
        }
    }
}

/// Store, then fetch: once the bytes of an upload are stored at the
/// location of its stored name, a request for that name reads exactly those
/// bytes, whatever else the storage holds, and the extension that its
/// content type is guessed from is the one of the client's file name in
/// lower case.
pub proof fn lemma_fetch_after_store(
    files: Map<Seq<char>, Seq<u8>>,
    name: Seq<char>,
    original: Seq<char>,
    bytes: Seq<u8>,
)
    requires
        is_storage_name(name, original),
    ensures
        fetch(files.insert(media_path(name), bytes), name) == Some(bytes),
        extension(trim_separators(name)) == lower(extension(original)),
{
    lemma_stored_name_resolves(name, original);
    lemma_stored_extension(name, original);
}

/// A request for a path that names no stored file reads nothing, and is
/// answered with `404`.
pub proof fn lemma_fetch_missing(files: Map<Seq<char>, Seq<u8>>, path: Seq<char>)
    requires
        !files.contains_key(media_path(trim_separators(path))),
    ensures
        fetch(files, path) is None,
{
}

} // verus!
