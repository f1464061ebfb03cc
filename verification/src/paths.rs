//! Paths as text: joining names to them, and keeping Windows paths in a form that git accepts.

use crate::text::{chars, cut_prefix, has_prefix, starts_with};
use vstd::prelude::*;

verus! {

/// Whose rules a path follows.
#[derive(Clone, Copy, Debug, PartialEq, Eq, Structural)]
pub enum PathStyle {
    Unix,
    Windows,
}

/// The prefix of a Windows path that is taken verbatim, in which only `\` separates names.
pub const VERBATIM: &'static str = "\\\\?\\";

/// A slash of either kind.
pub open spec fn is_slash(c: char) -> bool {
    c == '/' || c == '\\'
}

/// A name that can be joined to a path: not empty, and without slashes or colons.
pub open spec fn is_plain_name(name: Seq<char>) -> bool {
    name.len() > 0 && forall|i: int| 0 <= i < name.len() ==> !is_slash(#[trigger] name[i]) && name[i] != ':'
}

/// A Windows drive without a directory, such as `C:`.
pub open spec fn is_bare_drive(path: Seq<char>) -> bool {
    path.len() == 2 && path[1] == ':' && ('a' <= path[0] <= 'z' || 'A' <= path[0] <= 'Z')
}

/// Whether a name joined to `path` needs a separator before it.
pub open spec fn needs_separator(style: PathStyle, path: Seq<char>) -> bool {
    &&& path.len() > 0
    &&& match style {
        PathStyle::Unix => path.last() != '/',
        PathStyle::Windows => {
            &&& path.last() != '\\'
            &&& path.last() != '/' || starts_with(path, VERBATIM@)
            &&& !is_bare_drive(path)
        },
    }
}

/// The separator of a style.
pub open spec fn separator(style: PathStyle) -> Seq<char> {
    match style {
        PathStyle::Unix => "/"@,
        PathStyle::Windows => "\\"@,
    }
}

/// `path` with a plain name joined to it.
pub open spec fn joined(style: PathStyle, path: Seq<char>, name: Seq<char>) -> Seq<char> {
    if needs_separator(style, path) {
        path + separator(style) + name
    } else {
        path + name
    }
}

/// Join a plain name to a path.
pub fn join(style: PathStyle, path: &str, name: &str) -> (r: String)
    requires
        is_plain_name(name@),
    ensures
        r@ == joined(style, path@, name@),
{
    let v = chars(path);
    let n = v.len();
    if n == 0 {
        return path.to_owned().concat(name);
    }
    let last: char = v[n - 1];
    match style {
        PathStyle::Unix => {
            if last != '/' {
                return path.to_owned().concat("/").concat(name);
            }
        },
        PathStyle::Windows => {
            let bare_drive = n == 2 && v[1] == ':' && (('a' <= v[0] && v[0] <= 'z') || ('A' <= v[0] && v[0]
                <= 'Z'));
            if last != '\\' && (last != '/' || has_prefix(path, VERBATIM)) && !bare_drive {
                return path.to_owned().concat("\\").concat(name);
            }
        },
    }
    path.to_owned().concat(name)
}

/// What is left of a path after its verbatim prefix is taken off. UNC paths keep it, and paths
/// without it are left as they are.
pub open spec fn stripped(path: Seq<char>) -> Seq<char> {
    if starts_with(path, VERBATIM@) && !starts_with(path.skip(VERBATIM@.len() as int), "UNC\\"@) {
        path.skip(VERBATIM@.len() as int)
    } else {
        path
    }
}

/// Strip the Windows `\\?\` verbatim prefix from a path. Leaves UNC (`\\?\UNC\…`) and other paths
/// untouched.
pub fn strip_verbatim(path: String) -> (r: String)
    ensures
        r@ == stripped(path@),
{
    match cut_prefix(path.as_str(), VERBATIM) {
        Some(rest) => {
            if !has_prefix(rest, "UNC\\") {
                return rest.to_owned();
            }
        },
        None => {},
    }
    path
}

/// `path` without the slashes at its end.
pub open spec fn without_end_slashes(path: Seq<char>) -> Seq<char>
    decreases path.len(),
{
    if path.len() > 0 && is_slash(path.last()) {
        without_end_slashes(path.drop_last())
    } else {
        path
    }
}

/// What follows the last slash of `path`: all of it where there is none.
pub open spec fn last_segment(path: Seq<char>) -> Seq<char>
    decreases path.len(),
{
    if path.len() == 0 || is_slash(path.last()) {
        Seq::empty()
    } else {
        last_segment(path.drop_last()).push(path.last())
    }
}

proof fn lemma_without_end_slashes(path: Seq<char>, k: int)
    requires
        0 <= k <= path.len(),
        forall|i: int| k <= i < path.len() ==> is_slash(#[trigger] path[i]),
        k > 0 ==> !is_slash(path[k - 1]),
    ensures
        without_end_slashes(path) == path.take(k),
    decreases path.len(),
{
    if k < path.len() {
        lemma_without_end_slashes(path.drop_last(), k);
        assert(path.drop_last().take(k) =~= path.take(k));
    } else {
        assert(path.take(k) =~= path);
    }
}

/// `last_segment` is the end of `path` from the first offset beyond which there is no slash.
pub proof fn lemma_last_segment(path: Seq<char>, k: int)
    requires
        0 <= k <= path.len(),
        forall|i: int| k <= i < path.len() ==> !is_slash(#[trigger] path[i]),
        k > 0 ==> is_slash(path[k - 1]),
    ensures
        last_segment(path) == path.skip(k),
    decreases path.len(),
{
    if k < path.len() {
        lemma_last_segment(path.drop_last(), k);
        assert(path.drop_last().skip(k).push(path.last()) =~= path.skip(k));
    } else {
        assert(path.skip(k) =~= Seq::<char>::empty());
    }
}

fn is_slash_char(c: char) -> (r: bool)
    ensures
        r == is_slash(c),
{
    c == '/' || c == '\\'
}

/// The last name of a path, once the slashes at its end are taken off.
pub(crate) fn base_name<'a>(path: &'a str) -> (r: &'a str)
    ensures
        r@ == last_segment(without_end_slashes(path@)),
{
    let v = chars(path);
    let mut end: usize = v.len();
    while end > 0 && is_slash_char(v[end - 1])
        invariant
            end <= v.len(),
            v@ == path@,
            forall|i: int| end <= i < v.len() ==> is_slash(#[trigger] path@[i]),
        decreases end,
    {
        end = end - 1;
    }
    proof {
        lemma_without_end_slashes(path@, end as int);
    }
    let ghost trimmed = path@.take(end as int);
    let mut k: usize = end;
    while k > 0 && !is_slash_char(v[k - 1])
        invariant
            k <= end <= v.len(),
            v@ == path@,
            trimmed == path@.take(end as int),
            forall|i: int| k <= i < end ==> !is_slash(#[trigger] trimmed[i]),
        decreases k,
    {
        k = k - 1;
    }
    proof {
        lemma_last_segment(trimmed, k as int);
    }
    assert(path@.subrange(k as int, end as int) =~= trimmed.skip(k as int));
    path.substring_char(k, end)
}

/// A joined path is the path, at most one separator, and the name. On Unix the separator is a `/`, and
/// is left out only where there is no path before it or the path ends in one.
pub proof fn names_are_joined_by_one_separator(path: Seq<char>, name: Seq<char>)
    ensures
        joined(PathStyle::Unix, Seq::empty(), name) == name,
        joined(PathStyle::Unix, path.push('/'), name) == path.push('/') + name,
        path.len() > 0 && path.last() != '/' ==> joined(PathStyle::Unix, path, name) == path.push('/') + name,
        joined(PathStyle::Windows, Seq::empty(), name) == name,
        joined(PathStyle::Windows, path.push('\\'), name) == path.push('\\') + name,
        path.len() > 0 && !is_slash(path.last()) && path.last() != ':' ==> joined(PathStyle::Windows, path, name)
            == path.push('\\') + name,
{
    reveal_strlit("/");
    reveal_strlit("\\");
    let empty = Seq::<char>::empty();
    assert(empty + name =~= name);
    if path.len() > 0 {
        assert(path + "/"@ + name =~= path.push('/') + name);
        assert(path + "\\"@ + name =~= path.push('\\') + name);
    }
}

/// What is left of a path that begins with the verbatim prefix is the path behind it, but for a share
/// on the network; a path without the prefix is left as it is.
pub proof fn the_verbatim_prefix_is_taken_off(path: Seq<char>)
    ensures
        !starts_with(path, "UNC\\"@) ==> stripped("\\\\?\\"@ + path) == path,
        starts_with(path, "UNC\\"@) ==> stripped("\\\\?\\"@ + path) == "\\\\?\\"@ + path,
        !starts_with(path, "\\\\?\\"@) ==> stripped(path) == path,
{
    let v = "\\\\?\\"@;
    assert((v + path).take(v.len() as int) =~= v);
    assert((v + path).skip(v.len() as int) =~= path);
}

/// The last name of a path is the plain name that was written there, whichever slashes stand before it
/// and however many follow.
pub proof fn the_last_name_is_what_was_written(dir: Seq<char>, slash: char, name: Seq<char>, slashes: Seq<char>)
    requires
        is_slash(slash),
        name.len() > 0,
        forall|i: int| 0 <= i < name.len() ==> !is_slash(#[trigger] name[i]),
        forall|i: int| 0 <= i < slashes.len() ==> is_slash(#[trigger] slashes[i]),
    ensures
        last_segment(without_end_slashes(dir + seq![slash] + name + slashes)) == name,
        last_segment(without_end_slashes(name + slashes)) == name,
{
    let path = dir + seq![slash] + name + slashes;
    let k = dir.len() as int + 1;
    let n = name.len() as int;
    assert forall|i: int| k + n <= i < path.len() implies is_slash(#[trigger] path[i]) by {
        assert(path[i] == slashes[i - k - n]);
    }
    assert(path[k + n - 1] == name[n - 1]);
    lemma_without_end_slashes(path, k + n);
    let bare = path.take(k + n);
    assert forall|i: int| k <= i < bare.len() implies !is_slash(#[trigger] bare[i]) by {
        assert(bare[i] == name[i - k]);
    }
    assert(bare[k - 1] == slash);
    lemma_last_segment(bare, k);
    assert(bare.skip(k) =~= name);
    let short = name + slashes;
    assert forall|i: int| n <= i < short.len() implies is_slash(#[trigger] short[i]) by {
        assert(short[i] == slashes[i - n]);
    }
    assert(short[n - 1] == name[n - 1]);
    lemma_without_end_slashes(short, n);
    assert(short.take(n) =~= name);
    lemma_last_segment(name, 0);
    assert(name.skip(0) =~= name);
}

/// On Windows a `/` at the end of a path separates too, but for a verbatim path; and a drive takes a name
/// without a separator.
pub proof fn windows_paths_are_joined_by_their_own_rules(path: Seq<char>, drive: char, name: Seq<char>)
    requires
        'a' <= drive <= 'z' || 'A' <= drive <= 'Z',
    ensures
        joined(PathStyle::Windows, seq![drive, ':'], name) == seq![drive, ':'] + name,
        !starts_with(path.push('/'), VERBATIM@) ==> joined(PathStyle::Windows, path.push('/'), name) == path.push('/')
            + name,
        starts_with(path.push('/'), VERBATIM@) ==> joined(PathStyle::Windows, path.push('/'), name) == path.push(
            '/',
        ).push('\\') + name,
        VERBATIM@ == "\\\\?\\"@,
{
    reveal_strlit("\\");
    let p = path.push('/');
    assert(p + "\\"@ + name =~= p.push('\\') + name);
    if starts_with(p, VERBATIM@) {
        reveal_strlit("\\\\?\\");
        assert(VERBATIM@.len() == 4);
    }
}

/// A path of nothing but slashes has no last name.
pub proof fn only_slashes_have_no_name(slashes: Seq<char>)
    requires
        forall|i: int| 0 <= i < slashes.len() ==> is_slash(#[trigger] slashes[i]),
    ensures
        last_segment(without_end_slashes(slashes)) == Seq::<char>::empty(),
{
    lemma_without_end_slashes(slashes, 0);
    assert(slashes.take(0).len() == 0);
}

} // verus!
