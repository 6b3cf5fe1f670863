//! Trusted window on the outside crates the logic computes with: fresh
//! UUIDs, the MD5 digest, MIME guessing, and relative-path computation.
//! Each item states only what the called crate's source shows.
use vstd::prelude::*;

verus! {

/// A fresh random UUID, rendered in the hyphenated form.
///
/// Relies on `uuid::Uuid::new_v4` and its `Display` impl: the hyphenated
/// form is 36 characters. The value is random; nothing else is claimed.
#[verifier::external_body]
pub(crate) fn uuid_v4() -> (r: String)
    ensures
        r@.len() == 36,
{
    uuid::Uuid::new_v4().to_string()
}

/// The lowercase hexadecimal MD5 digest of a byte string: a pure function
/// of the bytes alone.
pub uninterp spec fn md5_hex_of(bytes: Seq<u8>) -> Seq<char>;

/// Relies on `md5::compute` and the `LowerHex` impl of its digest: 16
/// digest bytes, printed as 32 lowercase hexadecimal characters, depending
/// on the input bytes alone.
#[verifier::external_body]
pub(crate) fn md5_hex(bytes: &[u8]) -> (r: String)
    ensures
        r@ == md5_hex_of(bytes@),
        r@.len() == 32,
{
    format!("{:x}", md5::compute(bytes))
}

/// The MIME essence guessed from a file name's extension, with
/// `application/octet-stream` when nothing matches: a pure function of the
/// name alone.
pub uninterp spec fn mime_of(file_name: Seq<char>) -> Seq<char>;

/// Relies on `mime_guess::from_path` and `Mime::essence_str`: the guess is
/// a static lookup by the name's extension.
#[verifier::external_body]
pub(crate) fn guess_mime(file_name: &str) -> (r: String)
    ensures
        r@ == mime_of(file_name@),
{
    mime_guess::from_path(file_name).first_or_octet_stream().essence_str().to_string()
}

/// The relative path from `base` to `path`, when one exists: a pure
/// function of the two path strings.
pub uninterp spec fn diff_path_of(path: Seq<char>, base: Seq<char>) -> Option<Seq<char>>;

/// Relies on `pathdiff::diff_paths`: computes the relative path from
/// `base` to `path` without touching the file system. `None` is also
/// returned when the computed path is not valid UTF-8.
#[verifier::external_body]
pub(crate) fn diff_path(path: &str, base: &str) -> (r: Option<String>)
    ensures
        r.deep_view() == diff_path_of(path@, base@),
{
    match pathdiff::diff_paths(path, base) {
        Some(p) => match p.to_str() {
            Some(s) => Some(s.to_string()),
            None => None,
        },
        None => None,
    }
}

/// The parent of a path string, when it has one: a pure function of the
/// path string.
pub uninterp spec fn parent_path_of(path: Seq<char>) -> Option<Seq<char>>;

/// Relies on `std::path::Path::parent`: drops the last component of the
/// path without touching the file system. `None` is also returned when the
/// parent is not valid UTF-8.
#[verifier::external_body]
pub(crate) fn parent_path(path: &str) -> (r: Option<String>)
    ensures
        r.deep_view() == parent_path_of(path@),
    {
    match std::path::Path::new(path).parent() {
        Some(p) => match p.to_str() {
            Some(s) => Some(s.to_string()),
            None => None,
        },
        None => None,
    }
}

} // verus!
