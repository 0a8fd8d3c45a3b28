//! Paths as texts, taken apart and put together by `camino` as the platform has
//! it. What is said of the results holds on every platform.

use vstd::prelude::*;
use vstd::string::*;

use crate::text;
use crate::text::chars;

verus! {

pub open spec fn is_separator(c: char) -> bool {
    c == '/' || c == '\\'
}

/// The current directory, or the one above.
pub open spec fn is_detour(name: Seq<char>) -> bool {
    (name.len() == 1 && name[0] == '.') || (name.len() == 2 && name[0] == '.' && name[1] == '.')
}

/// A path that begins as one on a drive does.
pub open spec fn has_drive(path: Seq<char>) -> bool {
    path.len() > 1 && path[1] == ':'
}

/// The name of one file: neither empty nor a detour, without separator and drive.
pub open spec fn plain_name(name: Seq<char>) -> bool {
    &&& name.len() > 0
    &&& !is_detour(name)
    &&& !has_drive(name)
    &&& forall|i: int| 0 <= i < name.len() ==> !is_separator(#[trigger] name[i])
}

/// Names with one separator between each two of them.
pub open spec fn parted(
    path: Seq<char>,
    separator: char,
    is_name: spec_fn(Seq<char>) -> bool,
) -> bool
    decreases path.len(),
{
    let at = text::last_where(path, path.len() as int, text::is_char(separator));
    &&& is_name(path.skip(at + 1))
    &&& at < 0 || (at < path.len() && parted(path.take(at), separator, is_name))
}

/// Plain names with slashes between them.
pub open spec fn plain_names(path: Seq<char>) -> bool {
    parted(path, '/', |name: Seq<char>| plain_name(name))
}

/// Plain names from the root on.
pub open spec fn slashed(path: Seq<char>) -> bool {
    path.len() > 0 && path[0] == '/' && plain_names(path.skip(1))
}

/// A path that falls into the same names on every platform.
pub open spec fn plain_path(path: Seq<char>) -> bool {
    plain_names(path) || slashed(path)
}

/// The path is the directory, or goes on from it.
pub open spec fn within(path: Seq<char>, dir: Seq<char>) -> bool {
    path == dir || text::has_prefix(path, dir + seq!['/'])
}

/// A path that begins as that of a network share does.
pub open spec fn is_network(path: Seq<char>) -> bool {
    path.len() > 1 && is_separator(path[0]) && is_separator(path[1])
}

/// A drive, and nothing on it.
pub open spec fn is_bare_drive(path: Seq<char>) -> bool {
    path.len() == 2 && has_drive(path)
}

/// A path that has neither drive nor share.
pub open spec fn unprefixed(path: Seq<char>) -> bool {
    !is_network(path) && !has_drive(path)
}

/// A path that starts at the root of the current drive on every platform.
pub open spec fn rooted(path: Seq<char>) -> bool {
    path.len() > 0 && path[0] == '/' && !is_network(path)
}

/// A path that starts at no root and at no drive on any platform.
pub open spec fn relative(path: Seq<char>) -> bool {
    path.len() > 0 && !is_separator(path[0]) && !has_drive(path)
}

/// A path that ends in a name on every platform.
pub open spec fn ends_in_name(path: Seq<char>) -> bool {
    &&& path.len() > 0
    &&& !is_separator(path.last())
    &&& path.last() != '.'
    &&& !is_bare_drive(path)
    &&& !is_network(path)
}

/// A Windows path that is taken as it is written.
pub open spec fn verbatim(path: Seq<char>) -> bool {
    text::has_prefix(path, seq!['\\', '\\', '?', '\\'])
}

/// A name in a verbatim path.
pub open spec fn verbatim_name(name: Seq<char>) -> bool {
    &&& name.len() > 0
    &&& !is_detour(name)
    &&& forall|i: int| 0 <= i < name.len() ==> !is_separator(#[trigger] name[i])
}

/// A verbatim path as canonicalizing gives it: names with backslashes between them.
pub open spec fn verbatim_dir(path: Seq<char>) -> bool {
    verbatim(path) && parted(path.skip(4), '\\', |name: Seq<char>| verbatim_name(name))
}

/// A verbatim path that names no network share.
pub open spec fn verbatim_local(path: Seq<char>) -> bool {
    verbatim_dir(path) && !text::has_prefix(text::lowered(path.skip(4)), seq!['u', 'n', 'c'])
}

/// The path of the file `name` in the verbatim directory `dir`.
pub open spec fn verbatim_file_in(dir: Seq<char>, name: Seq<char>, path: Seq<char>) -> bool {
    verbatim_local(dir) && plain_name(name) && path == dir + seq!['\\'] + name
}

/// A path without the slash that it ends in.
pub open spec fn unslashed(path: Seq<char>) -> Seq<char> {
    if path.len() > 0 && path.last() == '/' {
        path.drop_last()
    } else {
        path
    }
}

/// A path without the backslash that it ends in.
pub open spec fn bare(path: Seq<char>) -> Seq<char> {
    if path.len() > 0 && path.last() == '\\' {
        path.drop_last()
    } else {
        path
    }
}

/// The directory and what lies below it, with one separator between them.
pub open spec fn beside(dir: Seq<char>, name: Seq<char>, path: Seq<char>) -> bool {
    path == dir + seq!['/'] + name || path == dir + seq!['\\'] + name
}

/// The path of the file `name` in the directory `dir`: the two with a separator
/// between them, or none where the directory ends in one or needs none.
pub open spec fn child_of(dir: Seq<char>, name: Seq<char>, path: Seq<char>) -> bool {
    path == dir + name || beside(dir, name, path)
}

/// A directory that takes a separator behind it.
pub open spec fn takes_separator(dir: Seq<char>) -> bool {
    &&& dir.len() > 0
    &&& !is_separator(dir.last())
    &&& !is_bare_drive(dir)
    &&& !is_network(dir)
}

/// What is known of a path below a directory.
pub open spec fn joins(dir: Seq<char>, name: Seq<char>, path: Seq<char>) -> bool {
    &&& plain_name(name) && !verbatim(dir) ==> child_of(dir, name, path)
    &&& plain_name(name) && verbatim_dir(dir) ==> beside(dir, name, path)
    &&& relative(name) && takes_separator(dir) ==> beside(dir, name, path)
    &&& relative(name) && dir.len() > 0 && dir.last() == '/' && !is_network(dir) ==> path == dir
        + name
    &&& relative(name) && dir.len() == 0 ==> path == name
    &&& rooted(name) && unprefixed(dir) ==> path == name
}

/// The path of the file `name` in the directory `dir`, written with the separator
/// that every platform has. The directory may be the root or the current one.
pub open spec fn file_in(dir: Seq<char>, name: Seq<char>, path: Seq<char>) -> bool {
    &&& plain_name(name)
    &&& if dir.len() == 0 || dir == seq!['/'] {
        path == dir + name
    } else {
        (ends_in_name(dir) || plain_path(dir)) && path == dir + seq!['/'] + name
    }
}

pub open spec fn part(s: Option<String>) -> Option<Seq<char>> {
    match s {
        Some(s) => Some(s@),
        None => None,
    }
}

/// What is known of the directory of a path.
pub open spec fn directory_of(path: Seq<char>, dir: Option<Seq<char>>) -> bool {
    &&& dir matches Some(d) ==> text::has_prefix(path, d) && d.len() < path.len()
    &&& path.len() == 0 ==> dir is None
    &&& ends_in_name(path) ==> dir is Some
    &&& forall|d: Seq<char>, name: Seq<char>| #[trigger]
        file_in(d, name, path) ==> dir == Some(d)
    &&& forall|d: Seq<char>, name: Seq<char>| #[trigger]
        verbatim_file_in(d, name, path) ==> dir == Some(d) || dir == Some(d + seq!['\\']) || dir
            == Some(Seq::<char>::empty())
}

/// What is known of the last name of a path.
pub open spec fn name_of(path: Seq<char>, name: Option<Seq<char>>) -> bool {
    &&& name matches Some(n) ==> n.len() > 0 && text::contains_sub(path, n) && (!verbatim(path)
        ==> !n.contains('/'))
    &&& ends_in_name(path) ==> name is Some
    &&& forall|d: Seq<char>, n: Seq<char>| #[trigger] file_in(d, n, path) ==> name == Some(n)
    &&& forall|d: Seq<char>, n: Seq<char>| #[trigger]
        verbatim_file_in(d, n, path) ==> name == Some(n) || name == Some(path)
}

/// What is known of whether two paths are the same.
pub open spec fn sameness(a: Seq<char>, b: Seq<char>, same: bool) -> bool {
    &&& a == b ==> same
    &&& plain_path(a) && plain_path(b) ==> same == (a == b)
    &&& plain_path(unslashed(a)) && plain_path(unslashed(b)) ==> same == (unslashed(a) == unslashed(
        b,
    ))
    &&& verbatim_dir(bare(a)) && verbatim_dir(bare(b)) && text::lowered(bare(a)) != text::lowered(
        bare(b),
    ) ==> !same
    &&& a.len() == 0 && verbatim(b) ==> !same
    &&& forall|dir: Seq<char>, name: Seq<char>, other_dir: Seq<char>, other: Seq<char>|
        #[trigger] file_in(dir, name, a) && #[trigger] file_in(other_dir, other, b) && name
            != other ==> !same
}

/// What is known of whether a path lies in a directory.
pub open spec fn lying(path: Seq<char>, dir: Seq<char>, inside: bool) -> bool {
    &&& path == dir ==> inside
    &&& plain_path(path) && plain_path(dir) ==> inside == within(path, dir)
    &&& forall|name: Seq<char>| #[trigger] file_in(dir, name, path) ==> inside
}

/// `camino::Utf8Path::join`. A relative path is put behind the directory, with the
/// separator of the platform between them where it takes one; a path from the root
/// on takes the place of a directory without drive and share. Nothing is said of
/// second parts with a drive or a share, nor of verbatim directories that are not
/// canonical.
#[verifier::external_body]
pub(crate) fn join(dir: &str, name: &str) -> (r: String)
    ensures
        joins(dir@, name@, r@),
{
    camino::Utf8Path::new(dir).join(name).into_string()
}

/// `camino::Utf8Path::parent`: the path without its last component. It is a
/// beginning of the path and shorter. An empty path has none, one that ends in a
/// name has one, and a file in a directory has that directory. A file in a verbatim
/// directory has that directory where backslashes separate, and the empty one where
/// they do not. How other paths fall into components is left to the platform.
#[verifier::external_body]
pub(crate) fn parent(path: &str) -> (r: Option<String>)
    ensures
        directory_of(path@, part(r)),
{
    camino::Utf8Path::new(path).parent().map(|dir| dir.to_string())
}

/// `camino::Utf8Path::file_name`: the last component, unless it is a detour or a
/// root. It stands in the path, is not empty and has no slash in it, unless the path
/// is verbatim. A path that ends in a name has one, and a file in a directory has its
/// name. A file in a verbatim directory has its name where backslashes separate, and
/// is one name where they do not. How other paths fall into components is left to the
/// platform.
#[verifier::external_body]
pub(crate) fn file_name(path: &str) -> (r: Option<String>)
    ensures
        name_of(path@, part(r)),
{
    camino::Utf8Path::new(path).file_name().map(|name| name.to_owned())
}

/// `camino::Utf8Path::is_absolute`: whether the path starts at a root. Then it
/// holds a separator. A path that begins neither with a separator nor with a drive
/// starts at none. What else a root is, is left to the platform.
#[verifier::external_body]
pub(crate) fn is_absolute(path: &str) -> (r: bool)
    ensures
        r ==> path@.contains('/') || path@.contains('\\'),
        r ==> path@.len() > 0 && (is_separator(path@[0]) || has_drive(path@)),
{
    camino::Utf8Path::new(path).is_absolute()
}

/// Equality of `camino::Utf8Path`: whether two paths have the same components. A
/// path is equal to itself, plain paths are equal where their texts are but for a slash
/// at the end, files of different names are at different paths, and so are verbatim directories whose
/// texts differ in more than case. The empty path is no verbatim one. How other paths
/// fall into components is left to the platform.
#[verifier::external_body]
pub(crate) fn same_path(a: &str, b: &str) -> (r: bool)
    ensures
        sameness(a@, b@, r),
{
    camino::Utf8Path::new(a) == camino::Utf8Path::new(b)
}

/// `camino::Utf8Path::starts_with`: whether the components of `dir` are the first
/// ones of the path. A path starts with itself, a plain path with those plain ones
/// that it goes on from, and a file in a directory with that directory. How other
/// paths fall into components is left to the platform.
#[verifier::external_body]
pub(crate) fn lies_in(path: &str, dir: &str) -> (r: bool)
    ensures
        lying(path@, dir@, r),
{
    camino::Utf8Path::new(path).starts_with(dir)
}

pub fn is_plain_name(name: &str) -> (r: bool)
    ensures
        r == plain_name(name@),
{
    let cs = chars(name);
    let n: usize = cs.len();
    if n == 0 || (n == 1 && cs[0] == '.') || (n == 2 && cs[0] == '.' && cs[1] == '.') {
        return false;
    }
    if n > 1 && cs[1] == ':' {
        return false;
    }
    let mut i: usize = 0;
    while i < n
        invariant
            n == cs@.len(),
            cs@ == name@,
            i <= n,
            forall|j: int| 0 <= j < i ==> !is_separator(#[trigger] name@[j]),
        decreases n - i,
    {
        let c = cs[i];
        if c == '/' || c == '\\' {
            assert(is_separator(name@[i as int]));
            return false;
        }
        i += 1;
    }
    true
}

/// A verbatim directory does not end in a backslash.
pub proof fn lemma_verbatim_is_bare(path: Seq<char>)
    requires
        verbatim_dir(path),
    ensures
        bare(path) == path,
        bare(path.push('\\')) == path,
{
    let body = path.skip(4);
    let at = text::last_where(body, body.len() as int, text::is_char('\\'));
    text::lemma_last_where_bounds(body, body.len() as int, text::is_char('\\'));
    let name = body.skip(at + 1);
    assert(verbatim_name(name));
    assert(name[name.len() - 1] == path.last());
    assert(path.push('\\').drop_last() =~= path);
}

proof fn lemma_last_separator(s: Seq<char>, end: int, at: int)
    requires
        0 <= at < end <= s.len(),
        s[at] == '/',
        forall|i: int| at < i < end ==> s[i] != '/',
    ensures
        text::last_where(s, end, text::is_char('/')) == at,
    decreases end - at,
{
    if at < end - 1 {
        assert(s[end - 1] != '/');
        lemma_last_separator(s, end - 1, at);
    }
}

proof fn lemma_no_separator(s: Seq<char>, end: int)
    requires
        0 <= end <= s.len(),
        forall|i: int| 0 <= i < end ==> s[i] != '/',
    ensures
        text::last_where(s, end, text::is_char('/')) == -1,
    decreases end,
{
    if end > 0 {
        lemma_no_separator(s, end - 1);
    }
}

/// A plain name is a plain path, alone and below the root.
pub proof fn law_names_are_plain_paths(name: Seq<char>)
    requires
        plain_name(name),
    ensures
        plain_names(name),
        slashed(seq!['/'] + name),
{
    assert forall|i: int| 0 <= i < name.len() implies name[i] != '/' by {
        assert(!is_separator(name[i]));
    }
    lemma_no_separator(name, name.len() as int);
    assert(name.skip(0) =~= name);
    assert((seq!['/'] + name).skip(1) =~= name);
}

/// The files of a plain directory are at plain paths, which lie within it.
pub proof fn law_files_of_plain_directories(dir: Seq<char>, name: Seq<char>)
    requires
        plain_path(dir),
        plain_name(name),
    ensures
        plain_names(dir) ==> plain_names(dir + seq!['/'] + name),
        slashed(dir) ==> slashed(dir + seq!['/'] + name),
        within(dir + seq!['/'] + name, dir),
{
    let path = dir + seq!['/'] + name;
    let base = dir + seq!['/'];
    assert(path.subrange(0, base.len() as int) =~= base);
    if plain_names(dir) {
        lemma_names_go_on(dir, name);
    }
    if slashed(dir) {
        lemma_names_go_on(dir.skip(1), name);
        assert(path.skip(1) =~= dir.skip(1) + seq!['/'] + name);
    }
}

proof fn lemma_names_go_on(names: Seq<char>, name: Seq<char>)
    requires
        plain_names(names),
        plain_name(name),
    ensures
        plain_names(names + seq!['/'] + name),
{
    let path = names + seq!['/'] + name;
    let at = names.len() as int;
    assert(path[at] == '/');
    assert forall|i: int| at < i < path.len() implies path[i] != '/' by {
        assert(path[i] == name[i - at - 1]);
    }
    lemma_last_separator(path, path.len() as int, at);
    assert(path.skip(at + 1) =~= name);
    assert(path.take(at) =~= names);
}

} // verus!
