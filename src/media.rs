//! Which file names denote a supported image or video.
use vstd::prelude::*;
use vstd::string::*;
use crate::text::{lower_of, lowercase, same_text};

verus! {

/// The extension that `std::path::Path::extension` finds in a file name.
pub uninterp spec fn extension_of(name: Seq<char>) -> Option<Seq<char>>;

/// An extension, already in lower case, of a supported media type.
pub open spec fn is_media_ext(ext: Seq<char>) -> bool {
    ||| ext == "png"@
    ||| ext == "jpg"@
    ||| ext == "jpeg"@
    ||| ext == "gif"@
    ||| ext == "bmp"@
    ||| ext == "webp"@
    ||| ext == "mov"@
    ||| ext == "mp4"@
}

/// What `is_media_file` decides for a name whose extension is `ext`.
pub open spec fn media_name(ext: Option<Seq<char>>) -> bool {
    match ext {
        Some(e) => is_media_ext(lower_of(e)),
        None => false,
    }
}

/// Relies on `std::path::Path::extension`: the part of the last path
/// component after its final dot, if any.
#[verifier::external_body]
fn path_extension(name: &str) -> (r: Option<String>)
    ensures
        match r {
            Some(e) => extension_of(name@) == Some(e@),
            None => extension_of(name@) is None,
        },
{
    std::path::Path::new(name).extension().and_then(|e| e.to_str()).map(|e| e.to_string())
}

/// Whether a lower-case extension belongs to the supported media types.
pub fn is_media_extension(ext: &str) -> (r: bool)
    ensures
        r == is_media_ext(ext@),
{
    same_text(ext, "png") || same_text(ext, "jpg") || same_text(ext, "jpeg")
        || same_text(ext, "gif") || same_text(ext, "bmp") || same_text(ext, "webp")
        || same_text(ext, "mov") || same_text(ext, "mp4")
}

/// Whether a file name has a supported media extension, in any letter case.
pub fn is_media_file(file_name: &str) -> (r: bool)
    ensures
        r == media_name(extension_of(file_name@)),
{
    let ext = match path_extension(file_name) {
        Some(e) => e,
        None => String::new(),
    };
    let folded = lowercase(ext.as_str());
    proof {
        reveal_strlit("png");
        reveal_strlit("jpg");
        reveal_strlit("jpeg");
        reveal_strlit("gif");
        reveal_strlit("bmp");
        reveal_strlit("webp");
        reveal_strlit("mov");
        reveal_strlit("mp4");
        if folded@.len() == 0 {
            assert(!is_media_ext(folded@));
        }
    }
    is_media_extension(folded.as_str())
}

} // verus!
