//! Paths on the computer, through `std::path` of the platform the library
//! is built for.

use vstd::prelude::*;

verus! {

/// What `Path::join` gives for `base` joined with `child` on the target
/// platform, as text.
pub uninterp spec fn joined_path(base: Seq<char>, child: Seq<char>) -> Seq<char>;

/// What `Path::parent` gives for `path` on the target platform, as text.
pub uninterp spec fn parent_path(path: Seq<char>) -> Option<Seq<char>>;

/// std `Path::join`, read back as text. The contract only names the result:
/// the separator and the handling of absolute and prefixed paths belong to
/// the platform's path rules and are not restated here.
#[verifier::external_body]
pub(crate) fn path_join(base: &str, child: &str) -> (r: String)
    ensures
        r@ == joined_path(base@, child@),
{
    std::path::Path::new(base).join(child).to_string_lossy().into_owned()
}

/// std `Path::parent`, read back as text. The contract only names the
/// result, `None` for a root, a prefix or the empty path.
#[verifier::external_body]
pub(crate) fn path_parent(path: &str) -> (r: Option<String>)
    ensures
        match r {
            Some(p) => parent_path(path@) == Some(p@),
            None => parent_path(path@) is None,
        },
{
    std::path::Path::new(path).parent().map(|p| p.to_string_lossy().into_owned())
}

} // verus!
