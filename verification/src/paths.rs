//! Path manipulation through `std::path`, on paths held as strings.
//!
//! What `std::path` computes for a path depends on the path's text alone, so
//! each operation's result is given a name here and the rest of the library
//! states its contracts over these names.
use vstd::prelude::*;

verus! {

/// What `Path::with_extension` returns for `path` and `ext`.
pub uninterp spec fn path_with_extension(path: Seq<char>, ext: Seq<char>) -> Seq<char>;

/// What `Path::file_name` returns for `path`.
pub uninterp spec fn path_file_name(path: Seq<char>) -> Option<Seq<char>>;

/// What `Path::join` returns for `base` and `name`.
pub uninterp spec fn path_join(base: Seq<char>, name: Seq<char>) -> Seq<char>;

/// Whether `Path`'s equality holds between `a` and `b` (component-wise).
pub uninterp spec fn path_equal(a: Seq<char>, b: Seq<char>) -> bool;

/// What `Path::parent` returns for `path`.
pub uninterp spec fn path_parent(path: Seq<char>) -> Option<Seq<char>>;

/// What `Path::extension` returns for `path`.
pub uninterp spec fn path_extension(path: Seq<char>) -> Option<Seq<char>>;

/// What `Path::with_file_name` returns for `path` and `name`.
pub uninterp spec fn path_with_file_name(path: Seq<char>, name: Seq<char>) -> Seq<char>;

/// `path` with its extension replaced by `ext` (`std::path::Path::with_extension`;
/// the result is a function of the two texts alone).  std panics on an
/// extension holding a path separator, so none is allowed here.
#[verifier::external_body]
pub(crate) fn with_extension(path: &str, ext: &str) -> (r: String)
    requires
        !ext@.contains('/'),
    ensures
        r@ == path_with_extension(path@, ext@),
{
    std::path::Path::new(path).with_extension(ext).to_string_lossy().into_owned()
}

/// The last component of `path`, if it has one (`std::path::Path::file_name`).
#[verifier::external_body]
pub(crate) fn file_name(path: &str) -> (r: Option<String>)
    ensures
        match r {
            Some(s) => path_file_name(path@) == Some(s@),
            None => path_file_name(path@) is None,
        },
{
    std::path::Path::new(path).file_name().map(|s| s.to_string_lossy().into_owned())
}

/// `base` with `name` appended as a further component (`std::path::Path::join`).
#[verifier::external_body]
pub(crate) fn join(base: &str, name: &str) -> (r: String)
    ensures
        r@ == path_join(base@, name@),
{
    std::path::Path::new(base).join(name).to_string_lossy().into_owned()
}

/// The extension of `path`, if it has one (`std::path::Path::extension`).
/// It is the part of the path's last component after its final dot, so it
/// holds neither a separator nor a dot.
#[verifier::external_body]
pub(crate) fn extension(path: &str) -> (r: Option<String>)
    ensures
        match r {
            Some(s) => path_extension(path@) == Some(s@) && !s@.contains('/') && !s@.contains('.'),
            None => path_extension(path@) is None,
        },
{
    std::path::Path::new(path).extension().map(|s| s.to_string_lossy().into_owned())
}

/// `path` without its last component, if it has a parent
/// (`std::path::Path::parent`).
#[verifier::external_body]
pub(crate) fn parent(path: &str) -> (r: Option<String>)
    ensures
        match r {
            Some(s) => path_parent(path@) == Some(s@),
            None => path_parent(path@) is None,
        },
{
    std::path::Path::new(path).parent().map(|p| p.to_string_lossy().into_owned())
}

/// `path` with its last component replaced by `name`
/// (`std::path::Path::with_file_name`).
#[verifier::external_body]
pub(crate) fn with_file_name(path: &str, name: &str) -> (r: String)
    ensures
        r@ == path_with_file_name(path@, name@),
{
    std::path::Path::new(path).with_file_name(name).to_string_lossy().into_owned()
}

/// Whether two paths are equal component by component (`Path`'s `==`).
#[verifier::external_body]
pub(crate) fn paths_equal(a: &str, b: &str) -> (r: bool)
    ensures
        r == path_equal(a@, b@),
{
    std::path::Path::new(a) == std::path::Path::new(b)
}

} // verus!
