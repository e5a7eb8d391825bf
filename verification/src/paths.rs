//! Paths that every platform takes apart in the same way.

use crate::composer;
use crate::scan;
use crate::text;
use vstd::prelude::*;

verus! {

/// A text that every platform reads as the same path: only slashes separate, and it begins
/// with no prefix.
pub open spec fn plain(path: Seq<char>) -> bool {
    &&& !path.contains('\\')
    &&& !path.contains(':')
    &&& !(path.len() > 1 && path[0] == '/' && path[1] == '/')
}

/// Whether a path begins at the root.
pub open spec fn rooted(path: Seq<char>) -> bool {
    path.len() > 0 && path[0] == '/'
}

/// The parts among the first `n` pieces between slashes: empty pieces are none, and a dot is
/// one only where the path begins with it.
pub open spec fn parts_in(pieces: Seq<Seq<char>>, n: int) -> Seq<Seq<char>>
    decreases n,
{
    if n <= 0 {
        Seq::empty()
    } else if pieces[n - 1].len() == 0 || (n > 1 && pieces[n - 1] == "."@) {
        parts_in(pieces, n - 1)
    } else {
        parts_in(pieces, n - 1).push(pieces[n - 1])
    }
}

/// The parts of a plain path.
pub open spec fn parts(path: Seq<char>) -> Seq<Seq<char>> {
    parts_in(scan::split(path, '/'), scan::split(path, '/').len() as int)
}

/// Whether two plain texts name the same path: both begin at the root or none does, and
/// their parts are the same.
pub open spec fn same(left: Seq<char>, right: Seq<char>) -> bool {
    rooted(left) == rooted(right) && parts(left) == parts(right)
}

/// The name that a plain path ends in, if it ends in one.
pub open spec fn last_part(path: Seq<char>) -> Option<Seq<char>> {
    let all = parts(path);
    if all.len() > 0 && all.last() != "."@ && all.last() != ".."@ {
        Some(all.last())
    } else {
        None
    }
}

/// `Path` equality of `std::path`: whether two texts name the same path, part by part.
/// Repeated slashes, a slash at the end, and dots behind the beginning do not count. How a text
/// that is not plain is taken apart depends on the platform, and is not said here.
#[verifier::external_body]
pub(crate) fn same_path(left: &str, right: &str) -> (r: bool)
    ensures
        left@ == right@ ==> r,
        plain(left@) && plain(right@) ==> r == same(left@, right@),
{
    std::path::Path::new(left) == std::path::Path::new(right)
}

/// `std::path::Path::strip_prefix`: what is left of a path behind another one that it begins
/// with, part by part; `None` where it does not begin with it. Nothing is said of texts that
/// are not plain, nor of a beginning at the root or without parts.
#[verifier::external_body]
fn strip_prefix(path: &str, start: &str) -> (r: Option<String>)
    ensures
        plain(path@) && plain(start@) && !rooted(start@) && parts(start@).len() > 0 ==> match r {
            Some(rest) => begins(path@, start@) && plain(rest@) && !rooted(rest@) && parts(rest@)
                == parts(path@).skip(parts(start@).len() as int),
            None => !begins(path@, start@),
        },
{
    let rest = std::path::Path::new(path).strip_prefix(start).ok()?;
    Some(rest.to_string_lossy().to_string())
}

/// `std::path::Path::join`: a path with the parts of another one behind its own. The separator
/// between them is that of the platform. Nothing is said of texts that are not plain, nor of a
/// second path that begins at the root or with a dot.
#[verifier::external_body]
fn join(path: &str, rest: &str) -> (r: String)
    ensures
        plain(path@) && plain(rest@) && !rooted(rest@) && !(parts(rest@).len() > 0 && parts(rest@)[0]
            == "."@) ==> leads(path@, parts(rest@), r@),
{
    std::path::Path::new(path).join(rest).to_string_lossy().to_string()
}

/// Whether a plain path begins with the parts of another one that does not begin at the root.
pub open spec fn begins(path: Seq<char>, start: Seq<char>) -> bool {
    !rooted(path) && parts(start).is_prefix_of(parts(path))
}

/// A text with each backslash read as a slash.
pub open spec fn slashed(path: Seq<char>) -> Seq<char> {
    path.map_values(
        |c: char|
            if c == '\\' {
                '/'
            } else {
                c
            },
    )
}

/// Whether a path leads from another one on by the given parts, whichever separator stands
/// before them.
pub open spec fn leads(from: Seq<char>, by: Seq<Seq<char>>, path: Seq<char>) -> bool {
    rooted(slashed(path)) == rooted(from) && parts(slashed(path)) == parts(from) + by
}

/// What a path stands for where `~` is the home directory.
pub open spec fn expanded(path: Seq<char>, home: Option<Seq<char>>, r: Seq<char>) -> bool {
    match home {
        None => r == path,
        Some(home) => plain(path) ==> if same(path, "~"@) {
            r == home
        } else if begins(path, "~"@) {
            plain(home) ==> leads(home, parts(path).skip(1), r)
        } else {
            r == path
        },
    }
}

proof fn dots_come_first(pieces: Seq<Seq<char>>, n: int)
    requires
        n <= pieces.len(),
    ensures
        forall|i: int| 1 <= i < parts_in(pieces, n).len() ==> parts_in(pieces, n)[i] != "."@,
        n <= 1 ==> parts_in(pieces, n).len() <= 1,
    decreases n,
{
    if n > 0 {
        dots_come_first(pieces, n - 1);
        let before = parts_in(pieces, n - 1);
        let all = parts_in(pieces, n);
        assert(n == 1 ==> before.len() == 0);
        assert forall|i: int| 1 <= i < all.len() implies all[i] != "."@ by {
            if i < before.len() {
                assert(all[i] == before[i]);
            }
        }
    }
}

/// What a path stands for: `~` at its beginning is the home directory, where that is known.
pub fn expanduser(path: &str, home: &Option<String>) -> (r: String)
    ensures
        expanded(path@, composer::opt_text(*home), r@),
{
    proof {
        reveal_strlit("~");
        assert("~"@ =~= seq!['~']);
        names_are_single_parts("~"@);
        dots_come_first(scan::split(path@, '/'), scan::split(path@, '/').len() as int);
    }
    match home {
        None => text::copy_text(path),
        Some(home) => {
            if same_path(path, "~") {
                return text::copy_text(home.as_str());
            }
            match strip_prefix(path, "~") {
                Some(rest) => join(home.as_str(), rest.as_str()),
                None => text::copy_text(path),
            }
        },
    }
}

proof fn no_slash(s: Seq<char>, i: int)
    requires
        !s.contains('/'),
        0 <= i <= s.len(),
    ensures
        scan::seek(s, '/', i) == s.len(),
    decreases s.len() - i,
{
    if i < s.len() {
        assert(s.contains(s[i]));
        no_slash(s, i + 1);
    }
}

/// A name without slashes is its own only part.
pub proof fn names_are_single_parts(name: Seq<char>)
    requires
        name.len() > 0,
        !name.contains('/'),
    ensures
        parts(name) == seq![name],
        !rooted(name),
{
    no_slash(name, 0);
    assert(name.contains(name[0]));
    assert(scan::split_from(name, '/', (name.len() + 1) as int) =~= Seq::empty());
    assert(name.subrange(0, name.len() as int) =~= name);
    assert(scan::split(name, '/') =~= seq![name]);
    reveal_with_fuel(parts_in, 2);
    assert(parts(name) =~= seq![name]);
}

proof fn seek_before_end(s: Seq<char>, c: char, i: int)
    requires
        0 <= i <= s.len(),
    ensures
        scan::seek(s.push(c), c, i) == scan::seek(s, c, i),
    decreases s.len() - i,
{
    if i < s.len() {
        seek_before_end(s, c, i + 1);
    } else {
        assert(s.push(c)[i] == c);
    }
}

proof fn split_before_end(s: Seq<char>, c: char, i: int)
    requires
        0 <= i <= s.len(),
    ensures
        scan::split_from(s.push(c), c, i) == scan::split_from(s, c, i).push(Seq::empty()),
    decreases s.len() - i,
{
    let t = s.push(c);
    let n = scan::seek(s, c, i);
    scan::seek_spec(s, c, i);
    seek_before_end(s, c, i);
    assert(t.subrange(i, n) =~= s.subrange(i, n));
    if n < s.len() {
        split_before_end(s, c, n + 1);
        assert(scan::split_from(t, c, i) =~= scan::split_from(s, c, i).push(Seq::empty()));
    } else {
        assert(scan::seek(t, c, t.len() as int) == t.len());
        assert(t.subrange(t.len() as int, t.len() as int) =~= Seq::<char>::empty());
        assert(scan::split_from(t, c, (t.len() + 1) as int) =~= Seq::empty());
        assert(scan::split_from(t, c, n + 1) =~= seq![Seq::<char>::empty()]);
        assert(scan::split_from(s, c, n + 1) =~= Seq::empty());
        assert(scan::split_from(t, c, i) =~= scan::split_from(s, c, i).push(Seq::empty()));
    }
}

proof fn parts_of_prefix(a: Seq<Seq<char>>, b: Seq<Seq<char>>, n: int)
    requires
        n <= a.len(),
        n <= b.len(),
        forall|i: int| 0 <= i < n ==> a[i] == b[i],
    ensures
        parts_in(a, n) == parts_in(b, n),
    decreases n,
{
    if n > 0 {
        parts_of_prefix(a, b, n - 1);
    }
}

/// A slash at its end changes nothing of what a path names, nor of the name that it ends in.
pub proof fn slashes_at_the_end_do_not_count(path: Seq<char>)
    requires
        path.len() > 0,
    ensures
        same(path, path.push('/')),
        last_part(path) == last_part(path.push('/')),
{
    let pieces = scan::split(path, '/');
    let more = scan::split(path.push('/'), '/');
    split_before_end(path, '/', 0);
    parts_of_prefix(pieces, more, pieces.len() as int);
    assert(more[pieces.len() as int].len() == 0);
    assert(path.push('/')[0] == path[0]);
}

} // verus!
