//! File system paths held as text.

use vstd::prelude::*;

verus! {

/// `child` appended to `base` as `Path::join` does on Unix: an absolute `child` replaces
/// `base`, and a separator is put between them unless `base` is empty or already ends in one.
pub open spec fn path_join(base: Seq<char>, child: Seq<char>) -> Seq<char> {
    if child.len() > 0 && child[0] == '/' {
        child
    } else if base.len() == 0 || base.last() == '/' {
        base + child
    } else {
        base + seq!['/'] + child
    }
}

/// The path `child` joined onto `base`.
pub fn join_path(base: &str, child: &str) -> (r: String)
    ensures
        r@ == path_join(base@, child@),
{
    let b = crate::text::chars_of(base);
    let c = crate::text::chars_of(child);
    if c.len() > 0 && c[0] == '/' {
        return crate::text::owned(child);
    }
    let mut r = crate::text::owned(base);
    if b.len() > 0 && b[b.len() - 1] != '/' {
        crate::text::push_char(&mut r, '/');
    }
    crate::text::push_str(&mut r, child);
    r
}

/// The index of the last `.` in a file name.
pub open spec fn last_dot(name: Seq<char>) -> Option<int>
    decreases name.len(),
{
    if name.len() == 0 {
        None
    } else if name.last() == '.' {
        Some(name.len() - 1)
    } else {
        last_dot(name.drop_last())
    }
}

/// The stem of a file name: the part before the final `.`, or the whole name when it has no
/// `.` other than a leading one.
pub open spec fn stem_of_name(name: Seq<char>) -> Seq<char> {
    match last_dot(name) {
        Some(i) => if i > 0 { name.take(i) } else { name },
        None => name,
    }
}

/// The extension of a file name: the part after the final `.`, and none when the name has
/// no `.` other than a leading one.
pub open spec fn extension_of_name(name: Seq<char>) -> Option<Seq<char>> {
    match last_dot(name) {
        Some(i) => if i > 0 { Some(name.skip(i + 1)) } else { None },
        None => None,
    }
}

/// What `Path::file_stem` gives for the path `p`: the stem of its file name.
pub open spec fn path_file_stem(p: Seq<char>) -> Option<Seq<char>> {
    match path_file_name(p) {
        Some(name) => Some(stem_of_name(name)),
        None => None,
    }
}

/// What `Path::extension` gives for the path `p`: the extension of its file name.
pub open spec fn path_extension(p: Seq<char>) -> Option<Seq<char>> {
    match path_file_name(p) {
        Some(name) => extension_of_name(name),
        None => None,
    }
}

/// The stem of the path's file name (`std::path::Path::file_stem`): the part of the file name
/// before its final `.`, or the whole file name when it has no `.` but a leading one. The
/// file name itself is named, as for [`file_name`].
#[verifier::external_body]
pub(crate) fn file_stem(p: &str) -> (r: Option<String>)
    ensures
        crate::text::opt_view(r) == path_file_stem(p@),
{
    std::path::Path::new(p).file_stem().map(|s| s.to_string_lossy().into_owned())
}

/// The extension of the path's file name (`std::path::Path::extension`): the part after its
/// final `.`, and none when it has no `.` but a leading one. The file name itself is named,
/// as for [`file_name`].
#[verifier::external_body]
pub(crate) fn extension(p: &str) -> (r: Option<String>)
    ensures
        crate::text::opt_view(r) == path_extension(p@),
{
    std::path::Path::new(p).extension().map(|s| s.to_string_lossy().into_owned())
}

/// What `Path::file_name` gives for the path `p`.
pub uninterp spec fn path_file_name(p: Seq<char>) -> Option<Seq<char>>;

/// The final component of the path (`std::path::Path::file_name`), unless it is `..`.
/// The contract names the result and states no more of it.
#[verifier::external_body]
pub(crate) fn file_name(p: &str) -> (r: Option<String>)
    ensures
        crate::text::opt_view(r) == path_file_name(p@),
{
    std::path::Path::new(p).file_name().map(|s| s.to_string_lossy().into_owned())
}

} // verus!
