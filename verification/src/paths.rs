use vstd::prelude::*;

verus! {

/// The directory that holds `path`, as `std::path::Path::parent` reads the
/// path: `None` for a root or an empty path.
pub uninterp spec fn parent_path(path: Seq<char>) -> Option<Seq<char>>;

/// The extension of the last component of `path`, as
/// `std::path::Path::extension` reads it: what follows the last dot of the
/// file name, `None` where the name has no dot or starts with its only dot.
pub uninterp spec fn path_extension(path: Seq<char>) -> Option<Seq<char>>;

/// `s` in lowercase, by the Unicode rules of `str::to_lowercase`.
pub uninterp spec fn lowercase(s: Seq<char>) -> Seq<char>;

/// The view of an optional string.
pub open spec fn opt_view(s: Option<String>) -> Option<Seq<char>> {
    match s {
        Some(t) => Some(t@),
        None => None,
    }
}

/// Calls `std::path::Path::parent` on `path`; the contract claims that the
/// result is `parent_path` of the path. The parent of a path that is valid
/// UTF-8 is a prefix of it, so turning it back into a string loses nothing.
#[verifier::external_body]
pub(crate) fn parent_of(path: &str) -> (r: Option<String>)
    ensures
        opt_view(r) == parent_path(path@),
{
    std::path::Path::new(path).parent().map(|p| p.to_string_lossy().into_owned())
}

/// Calls `std::path::Path::extension` on `path` and reads the extension as a
/// string; the contract claims that the result is `path_extension` of the
/// path.
#[verifier::external_body]
pub(crate) fn extension_of(path: &str) -> (r: Option<String>)
    ensures
        opt_view(r) == path_extension(path@),
{
    std::path::Path::new(path).extension().and_then(|e| e.to_str()).map(|e| e.to_string())
}

/// Calls `str::to_lowercase`; the contract claims that the result is
/// `lowercase` of the argument.
#[verifier::external_body]
pub(crate) fn to_lowercase(s: &str) -> (r: String)
    ensures
        r@ == lowercase(s@),
{
    s.to_lowercase()
}

/// The lowercase extension of a path, as the views compare it with the file
/// types they know.
pub open spec fn lowercase_extension(path: Seq<char>) -> Option<Seq<char>> {
    match path_extension(path) {
        Some(e) => Some(lowercase(e)),
        None => None,
    }
}

/// The lowercase extension of `path`.
pub fn lowercase_extension_of(path: &str) -> (r: Option<String>)
    ensures
        opt_view(r) == lowercase_extension(path@),
{
    match extension_of(path) {
        Some(e) => Some(to_lowercase(e.as_str())),
        None => None,
    }
}

} // verus!
