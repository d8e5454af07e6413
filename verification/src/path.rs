//! UTF-8 paths, read by the rules of the platform the crate is built for.

use cargo_metadata::camino::Utf8Path;
use vstd::prelude::*;

verus! {

/// The path that `Utf8Path::join` makes of `base` and `path`.
pub uninterp spec fn joined_path(base: Seq<char>, path: Seq<char>) -> Seq<char>;

/// What `Utf8Path::parent` returns.
pub uninterp spec fn parent_path(path: Seq<char>) -> Option<Seq<char>>;

/// What `Utf8Path::strip_prefix` leaves of `path`; nothing where `prefix` is not a prefix of it.
pub uninterp spec fn path_below(path: Seq<char>, prefix: Seq<char>) -> Option<Seq<char>>;

/// The items of `Utf8Path::components`, as texts: the drive and the root where it has them, then
/// the names.
pub uninterp spec fn path_components(path: Seq<char>) -> Seq<Seq<char>>;

/// Whether two `Utf8Path`s are equal, component by component.
pub uninterp spec fn same_path(a: Seq<char>, b: Seq<char>) -> bool;

/// What `Utf8Path::is_relative` returns.
pub uninterp spec fn is_relative_path(path: Seq<char>) -> bool;

/// A single name, without a separator or a drive.
pub open spec fn is_file_name(path: Seq<char>) -> bool {
    path.len() > 0 && !path.contains('/') && !path.contains('\\') && !path.contains(':')
}

/// `result` is `base` and `name` with one separator between them, unless `base` is empty or
/// ends in `/`.
pub open spec fn is_entry_of(base: Seq<char>, name: Seq<char>, result: Seq<char>) -> bool {
    if base.len() == 0 || base.last() == '/' {
        result == base + name
    } else {
        result == base.push('/') + name || result == base.push('\\') + name
    }
}

/// The last component of a path.
pub open spec fn last_component(path: Seq<char>) -> Option<Seq<char>> {
    if path_components(path).len() == 0 {
        None
    } else {
        Some(path_components(path).last())
    }
}

/// A component that is a name on every platform, also where it stands first: not a root, a drive,
/// `.` or `..`.
pub open spec fn is_plain(name: Seq<char>) -> bool {
    &&& name.len() > 0
    &&& !name.contains('/')
    &&& name[0] != '\\'
    &&& !(name.len() > 1 && name[1] == ':')
    &&& name != "."@
    &&& name != ".."@
}

/// Each component is a name.
pub open spec fn are_plain(names: Seq<Seq<char>>) -> bool {
    forall|i: int| 0 <= i < names.len() ==> is_plain(#[trigger] names[i])
}

/// The text begins with two separators, as a Windows share does.
pub open spec fn begins_like_share(text: Seq<char>) -> bool {
    &&& text.len() > 1
    &&& text[0] == '/' || text[0] == '\\'
    &&& text[1] == '/' || text[1] == '\\'
}

/// What is joined onto the path adds to its components. This leaves out a text that begins like a
/// Windows share and is none, because a name could complete it, a share without a root, and a
/// single backslash, behind which a separator would look like the beginning of a share.
pub open spec fn takes_names(path: Seq<char>) -> bool {
    let components = path_components(path);
    &&& path != "\\"@
    &&& begins_like_share(path) ==> components.len() > 0 && begins_like_share(components[0])
    &&& components.len() > 0 ==> !begins_like_share(components.last())
}

/// `Utf8Path::join`. A path that is absolute replaces the base. A single name is put behind
/// the base, after a separator; this is stated for a base without backslashes that does not
/// end in a drive's colon. A path of names adds its components to those of the base, and more
/// names can be joined onto the result.
#[verifier::external_body]
pub(crate) fn join(base: &str, path: &str) -> (r: String)
    ensures
        r@ == joined_path(base@, path@),
        !is_relative_path(path@) ==> r@ == path@,
        is_file_name(path@) && !base@.contains('\\') && !(base@.len() > 0 && base@.last() == ':')
            ==> is_entry_of(base@, path@, r@),
        takes_names(base@) && are_plain(path_components(path@)) ==> path_components(r@)
            == path_components(base@) + path_components(path@),
        takes_names(base@) && are_plain(path_components(path@)) && path_components(path@).len() > 0
            ==> takes_names(r@),
{
    Utf8Path::new(base).join(path).into_string()
}

/// `Utf8Path::parent`: the path without its last component, where it has one. A path that ends in
/// a name has one.
#[verifier::external_body]
pub(crate) fn parent(path: &str) -> (r: Option<String>)
    ensures
        crate::text::optional_text(r) == parent_path(path@),
        r matches Some(parent) ==> path_components(path@).len() > 0 && path_components(parent@)
            == path_components(path@).drop_last(),
        path_components(path@).len() > 0 && is_plain(path_components(path@).last()) ==> r is Some,
{
    Utf8Path::new(path).parent().map(|parent| parent.to_string())
}

/// `Utf8Path::strip_prefix`: a path that, joined onto `prefix`, yields `path`. There is one where
/// the components of `path` begin with those of `prefix`; it has the other components, where these
/// are names.
#[verifier::external_body]
pub(crate) fn strip_prefix(path: &str, prefix: &str) -> (r: Option<String>)
    ensures
        crate::text::optional_text(r) == path_below(path@, prefix@),
        r matches Some(rest) ==> same_path(joined_path(prefix@, rest@), path@),
        path_components(prefix@).is_prefix_of(path_components(path@)) ==> r is Some,
        r matches Some(rest) ==> (path_components(prefix@).is_prefix_of(path_components(path@))
            && are_plain(path_components(path@).skip(path_components(prefix@).len() as int))
            ==> path_components(rest@) == path_components(path@).skip(
            path_components(prefix@).len() as int,
        )),
{
    Utf8Path::new(path).strip_prefix(prefix).ok().map(|rest| rest.to_string())
}

/// The last item of `Utf8Path::components`, as text. A name is a path of one component.
#[verifier::external_body]
pub(crate) fn final_component(path: &str) -> (r: Option<String>)
    ensures
        crate::text::optional_text(r) == last_component(path@),
        r matches Some(name) ==> (is_plain(name@) ==> path_components(name@) == seq![name@]),
{
    Utf8Path::new(path).components().next_back().map(|component| component.to_string())
}

/// `Utf8Path::ancestors`: the path, its parent, the parent of that, and so on, up to a path
/// that has no parent.
#[verifier::external_body]
pub(crate) fn ancestors(path: &str) -> (r: Vec<String>)
    ensures
        r@.len() > 0,
        r@[0]@ == path@,
        forall|i: int| #![trigger r@[i]]
            0 <= i < r@.len() - 1 ==> parent_path(r@[i]@) == Some(r@[i + 1]@),
        parent_path(r@.last()@) is None,
{
    Utf8Path::new(path).ancestors().map(|ancestor| ancestor.to_string()).collect()
}

/// `==` on `Utf8Path`s: whether they have the same components.
#[verifier::external_body]
pub(crate) fn paths_equal(a: &str, b: &str) -> (r: bool)
    ensures
        r == same_path(a@, b@),
        a@ == b@ ==> r,
{
    Utf8Path::new(a) == Utf8Path::new(b)
}

/// `Utf8Path::is_relative`.
#[verifier::external_body]
pub(crate) fn is_relative(path: &str) -> (r: bool)
    ensures
        r == is_relative_path(path@),
{
    Utf8Path::new(path).is_relative()
}

}
