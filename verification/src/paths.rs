//! File-system paths, handled as text.

use vstd::prelude::*;

verus! {

/// Whether `std::path::Path::is_absolute` holds of the path written `p`, on
/// the platform the library is built for.
pub uninterp spec fn path_absolute(p: Seq<char>) -> bool;

/// The text of `std::path::Path::new(base).join(p)`, on the platform the
/// library is built for.
pub uninterp spec fn path_joined(base: Seq<char>, p: Seq<char>) -> Seq<char>;

/// `std::path::Path::is_absolute`.  An empty path is never absolute.
#[verifier::external_body]
pub(crate) fn path_is_absolute(p: &str) -> (res: bool)
    ensures
        res == path_absolute(p@),
        res ==> p@.len() > 0,
{
    std::path::Path::new(p).is_absolute()
}

/// `std::path::Path::join`, rendered back to text (a path built from text is
/// valid Unicode, so the rendering loses nothing).
#[verifier::external_body]
pub(crate) fn path_join(base: &str, p: &str) -> (res: String)
    ensures
        res@ == path_joined(base@, p@),
{
    std::path::Path::new(base).join(p).to_string_lossy().into_owned()
}

} // verus!
