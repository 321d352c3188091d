//! The few std calls on paths and encodings that the library's logic makes.
use vstd::prelude::*;
use vstd::utf8::*;

verus! {

/// What `Path::join` gives for a base path and a child, as text. The path rules of the
/// target the program is built for (separator, prefixes, an absolute child replacing the
/// base) fix it from the two texts.
pub uninterp spec fn path_joined(base: Seq<char>, child: Seq<char>) -> Seq<char>;

/// Whether `Path`'s `==` holds between two paths, which compares them component by component.
pub uninterp spec fn same_path(a: Seq<char>, b: Seq<char>) -> bool;

/// What `Path::file_name` gives for a path, as text: its last component, if that is a
/// normal one. The target's path rules fix it from the text.
pub uninterp spec fn path_file_name(path: Seq<char>) -> Option<Seq<char>>;

/// `Path::new(base).join(child)`, as text.
/// The result is named by `path_joined`; nothing more of it is stated.
#[verifier::external_body]
pub(crate) fn join_path(base: &str, child: &str) -> (res: String)
    ensures
        res@ == path_joined(base@, child@),
{
    std::path::Path::new(base).join(child).to_string_lossy().into_owned()
}

/// `Path::new(a) == Path::new(b)`. Its result is named by `same_path`; beyond that it is
/// stated only that a path equals itself, which `Path`'s `Eq` promises.
#[verifier::external_body]
pub(crate) fn paths_equal(a: &str, b: &str) -> (res: bool)
    ensures
        res == same_path(a@, b@),
        a@ == b@ ==> res,
{
    std::path::Path::new(a) == std::path::Path::new(b)
}

/// `Path::new(path).file_name()`, as text. Its result is named by `path_file_name`.
#[verifier::external_body]
pub(crate) fn file_name(path: &str) -> (res: Option<String>)
    ensures
        res is Some <==> path_file_name(path@) is Some,
        res matches Some(n) ==> path_file_name(path@) == Some(n@),
{
    match std::path::Path::new(path).file_name() {
        Some(n) => Some(n.to_string_lossy().into_owned()),
        None => None,
    }
}

/// `std::str::from_utf8`: the bytes read as UTF-8 text, if they are valid UTF-8.
#[verifier::external_body]
pub(crate) fn utf8_text(bytes: &[u8]) -> (res: Option<&str>)
    ensures
        res is Some <==> valid_utf8(bytes@),
        res matches Some(s) ==> s@ == decode_utf8(bytes@),
{
    std::str::from_utf8(bytes).ok()
}

} // verus!
