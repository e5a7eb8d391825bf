//! File references in prompts, and the ranking of files for completion.

use crate::caret;
use crate::paint;
use crate::replies;
use crate::scan;
use crate::text;
use vstd::prelude::*;
use vstd::string::*;

verus! {

/// Characters of a path in a prompt.
pub open spec fn path_char(c: char) -> bool {
    text::ascii_alnum(c) || c == '_' || c == '/' || c == '.' || c == '-' || c == '~' || c == '\\' || c
        == '+'
}

/// Whether a character can be part of a path in a prompt.
pub fn is_path_char(value: char) -> (r: bool)
    ensures
        r == path_char(value),
{
    text::is_ascii_alnum(value) || value == '_' || value == '/' || value == '.' || value == '-' || value
        == '~' || value == '\\' || value == '+'
}

/// ASCII white space.
pub open spec fn ascii_space(c: char) -> bool {
    c == ' ' || c == '\t' || c == '\n' || c == '\u{c}' || c == '\r'
}

/// The first position at or after `i` that holds no path character, or the length.
pub open spec fn path_end(s: Seq<char>, i: int) -> int
    decreases s.len() - i,
{
    if 0 <= i < s.len() && path_char(s[i]) {
        path_end(s, i + 1)
    } else {
        i
    }
}

pub proof fn path_end_bounds(s: Seq<char>, i: int)
    requires
        0 <= i <= s.len(),
    ensures
        i <= path_end(s, i) <= s.len(),
        forall|j: int| i <= j < path_end(s, i) ==> path_char(s[j]),
        path_end(s, i) < s.len() ==> !path_char(s[path_end(s, i)]),
    decreases s.len() - i,
{
    if i < s.len() && path_char(s[i]) {
        path_end_bounds(s, i + 1);
    }
}

/// Whether a reference may open at `i`: an `@` at the start or after white space.
pub open spec fn opens_ref(s: Seq<char>, i: int) -> bool {
    0 <= i < s.len() && s[i] == '@' && (i == 0 || ascii_space(s[i - 1]))
}

/// The references from `i` on, added to those found before. None is listed twice.
pub open spec fn refs_from(s: Seq<char>, i: int, found: Seq<Seq<char>>) -> Seq<Seq<char>>
    decreases s.len() - i,
{
    if i < 0 || i >= s.len() {
        found
    } else if opens_ref(s, i) {
        let end = path_end(s, i + 1);
        let token = s.subrange(i + 1, end);
        proof {
            path_end_bounds(s, i + 1);
        }
        refs_from(
            s,
            end,
            if end > i + 1 && !found.contains(token) {
                found.push(token)
            } else {
                found
            },
        )
    } else {
        refs_from(s, i + 1, found)
    }
}

/// The `@path` references of a prompt, in order and each once.
pub open spec fn refs_of(s: Seq<char>) -> Seq<Seq<char>> {
    refs_from(s, 0, Seq::empty())
}

/// The `@path` references of a prompt, in order and each once. The `@` has to open the
/// prompt or follow white space.
pub fn extract_file_refs(input: &str) -> (r: Vec<String>)
    ensures
        text::texts(r@) == refs_of(input@),
{
    let s = text::to_chars(input);
    let mut refs: Vec<String> = Vec::new();
    let mut i: usize = 0;
    assert(text::texts(refs@) =~= Seq::<Seq<char>>::empty());
    while i < s.len()
        invariant
            s@ == input@,
            i <= s@.len(),
            refs_from(input@, 0, Seq::empty()) == refs_from(input@, i as int, text::texts(refs@)),
        decreases s.len() - i,
    {
        let after_space = i == 0 || s[i - 1] == ' ' || s[i - 1] == '\t' || s[i - 1] == '\n' || s[i
            - 1] == '\u{c}' || s[i - 1] == '\r';
        if s[i] == '@' && after_space {
            let mut end: usize = i + 1;
            proof {
                path_end_bounds(s@, i + 1);
            }
            while end < s.len() && is_path_char(s[end])
                invariant
                    i + 1 <= end <= s@.len(),
                    path_end(s@, i + 1) == path_end(s@, end as int),
                decreases s.len() - end,
            {
                end = end + 1;
            }
            if end > i + 1 {
                let token = text::slice_text(&s, i + 1, end);
                if !text::has_text(&refs, token.as_str()) {
                    proof {
                        text::texts_push(refs@, token);
                    }
                    refs.push(token);
                }
            }
            i = end;
        } else {
            i = i + 1;
        }
    }
    refs
}

proof fn refs_distinct_from(s: Seq<char>, i: int, found: Seq<Seq<char>>)
    requires
        0 <= i,
        found.no_duplicates(),
        forall|k: int|
            0 <= k < found.len() ==> (#[trigger] found[k]).len() > 0 && forall|j: int|
                0 <= j < found[k].len() ==> path_char(#[trigger] found[k][j]),
    ensures
        refs_from(s, i, found).no_duplicates(),
        forall|k: int|
            0 <= k < refs_from(s, i, found).len() ==> (#[trigger] refs_from(s, i, found)[k]).len()
                > 0 && forall|j: int|
                0 <= j < refs_from(s, i, found)[k].len() ==> path_char(
                    #[trigger] refs_from(s, i, found)[k][j],
                ),
    decreases s.len() - i,
{
    if i < s.len() {
        if opens_ref(s, i) {
            path_end_bounds(s, i + 1);
            let end = path_end(s, i + 1);
            let token = s.subrange(i + 1, end);
            let next = if end > i + 1 && !found.contains(token) {
                found.push(token)
            } else {
                found
            };
            assert forall|k: int| 0 <= k < next.len() implies (#[trigger] next[k]).len() > 0
                && forall|j: int| 0 <= j < next[k].len() ==> path_char(#[trigger] next[k][j]) by {
                if k < found.len() {
                    assert(next[k] == found[k]);
                }
            }
            refs_distinct_from(s, end, next);
        } else {
            refs_distinct_from(s, i + 1, found);
        }
    }
}

/// A prompt's references are distinct, none is empty, and each is made of path
/// characters only.
pub proof fn refs_are_distinct_paths(s: Seq<char>)
    ensures
        refs_from(s, 0, Seq::empty()).no_duplicates(),
        forall|k: int|
            0 <= k < refs_from(s, 0, Seq::empty()).len() ==> (#[trigger] refs_from(
                s,
                0,
                Seq::empty(),
            )[k]).len() > 0 && forall|j: int|
                0 <= j < refs_from(s, 0, Seq::empty())[k].len() ==> path_char(
                    #[trigger] refs_from(s, 0, Seq::empty())[k][j],
                ),
{
    refs_distinct_from(s, 0, Seq::empty());
}

// ---------------------------------------------------------------------------
// Ranking
// ---------------------------------------------------------------------------

/// Whether the characters of `q` from `j` on occur in `s` from `i` on, in order.
pub open spec fn scattered(s: Seq<char>, i: int, q: Seq<char>, j: int) -> bool
    decreases q.len() - j,
{
    if j < 0 || j >= q.len() {
        true
    } else {
        let k = scan::seek(s, q[j], i);
        k < s.len() && scattered(s, k + 1, q, j + 1)
    }
}

/// What follows the last slash.
pub open spec fn file_part(s: Seq<char>) -> Seq<char> {
    match replies::rfind(s, seq!['/']) {
        Some(k) => s.skip(k + 1),
        None => s,
    }
}

/// How well a path fits a query, whatever the case: the same, a path or a file name
/// that begins with it, a path that holds it, or one that holds its characters in
/// order. Shorter paths fit better.
pub open spec fn fit_score(path: Seq<char>, query: Seq<char>) -> Option<int> {
    let p = text::lower(path);
    let q = text::lower(query);
    let len = caret::byte_len(path) as int;
    if query.len() == 0 {
        Some(0)
    } else if p == q {
        Some(1000)
    } else if scan::begins(p, q) {
        Some(800 - paint::least(len, 700))
    } else if scan::begins(file_part(p), q) {
        Some(700 - paint::least(len, 600))
    } else if scan::contains_text(p, q) {
        Some(500 - paint::least(len, 400))
    } else if scattered(p, 0, q, 0) {
        Some(100)
    } else {
        None
    }
}

/// How well a path fits a query.
pub fn score_file_candidate(relative: &str, query: &str) -> (r: Option<i32>)
    ensures
        match r {
            Some(n) => fit_score(relative@, query@) == Some(n as int),
            None => fit_score(relative@, query@) == None::<int>,
        },
{
    if query.is_empty() {
        return Some(0);
    }
    let candidate = text::lower_text(relative);
    let wanted = text::lower_text(query);
    let len: usize = caret::text_len(relative);
    if text::same_text(candidate.as_str(), wanted.as_str()) {
        return Some(1000);
    }
    if scan::text_begins(candidate.as_str(), wanted.as_str()) {
        let cut: usize = if len <= 700 {
            len
        } else {
            700
        };
        return Some(800 - cut as i32);
    }
    let p = text::to_chars(candidate.as_str());
    let q = text::to_chars(wanted.as_str());
    let mut slash: Vec<char> = Vec::new();
    slash.push('/');
    assert(slash@ =~= seq!['/']);
    let file = match replies::rfind_chars(&p, &slash) {
        Some(k) => {
            assert(k + 1 <= p.len());
            let rest = text::slice_text(&p, k + 1, p.len());
            assert(rest@ =~= p@.skip(k + 1));
            rest
        },
        None => text::copy_text(candidate.as_str()),
    };
    if scan::text_begins(file.as_str(), wanted.as_str()) {
        let cut: usize = if len <= 600 {
            len
        } else {
            600
        };
        return Some(700 - cut as i32);
    }
    if scan::text_contains(candidate.as_str(), wanted.as_str()) {
        let cut: usize = if len <= 400 {
            len
        } else {
            400
        };
        return Some(500 - cut as i32);
    }
    let mut i: usize = 0;
    let mut j: usize = 0;
    while j < q.len()
        invariant
            i <= p@.len(),
            j <= q@.len(),
            scattered(p@, 0, q@, 0) == scattered(p@, i as int, q@, j as int),
            p@ == text::lower(relative@),
            q@ == text::lower(query@),
            fit_score(relative@, query@) == (if scattered(p@, 0, q@, 0) {
                Some(100int)
            } else {
                None
            }),
        decreases q.len() - j,
    {
        let k: usize = scan::seek_char(&p, q[j], i);
        if k >= p.len() {
            return None;
        }
        i = k + 1;
        j = j + 1;
    }
    Some(100)
}

/// A better kind of fit always scores higher than a worse one: the same text over a
/// path that begins with the query, over characters in order.
pub proof fn better_fits_score_higher(a: Seq<char>, b: Seq<char>, query: Seq<char>)
    requires
        query.len() > 0,
        text::lower(a) == text::lower(query),
        text::lower(b) != text::lower(query),
        fit_score(b, query) is Some,
    ensures
        fit_score(a, query) == Some(1000int),
        fit_score(b, query)->0 < 1000,
        fit_score(b, query)->0 >= 100,
{
}

/// Text order: by the first character that differs, and a text before its extensions.
pub open spec fn text_before(a: Seq<char>, b: Seq<char>, i: int) -> bool
    decreases a.len() - i,
{
    if i < 0 || i >= b.len() {
        false
    } else if i >= a.len() {
        true
    } else if a[i] == b[i] {
        text_before(a, b, i + 1)
    } else {
        a[i] < b[i]
    }
}

proof fn before_is_one_way(a: Seq<char>, b: Seq<char>, i: int)
    ensures
        text_before(a, b, i) ==> !text_before(b, a, i),
    decreases a.len() - i,
{
    if 0 <= i < a.len() && i < b.len() && a[i] == b[i] {
        before_is_one_way(a, b, i + 1);
    }
}

proof fn before_carries_over(a: Seq<char>, b: Seq<char>, c: Seq<char>, i: int)
    requires
        text_before(a, b, i),
        !text_before(c, b, i),
    ensures
        text_before(a, c, i),
    decreases a.len() - i,
{
    if i < a.len() && a[i] == b[i] && c[i] == b[i] {
        before_carries_over(a, b, c, i + 1);
    }
}

/// Text order orders texts.
pub proof fn texts_are_ordered(a: Seq<char>, b: Seq<char>, c: Seq<char>)
    ensures
        text_before(a, b, 0) ==> !text_before(b, a, 0),
        text_before(a, b, 0) && !text_before(c, b, 0) ==> text_before(a, c, 0),
{
    before_is_one_way(a, b, 0);
    if text_before(a, b, 0) && !text_before(c, b, 0) {
        before_carries_over(a, b, c, 0);
    }
}

proof fn before_is_total(a: Seq<char>, b: Seq<char>, i: int)
    requires
        0 <= i <= a.len(),
        i <= b.len(),
        forall|j: int| 0 <= j < i ==> a[j] == b[j],
        !text_before(a, b, i),
        !text_before(b, a, i),
    ensures
        a == b,
    decreases a.len() - i,
{
    if i < a.len() && i < b.len() {
        before_is_total(a, b, i + 1);
    } else {
        assert(a =~= b);
    }
}

/// Whether a text comes before another. The order of the characters is that of their
/// UTF-8 forms.
pub fn comes_before(a: &str, b: &str) -> (r: bool)
    ensures
        r == text_before(a@, b@, 0),
{
    let x = text::to_chars(a);
    let y = text::to_chars(b);
    let mut i: usize = 0;
    while i < y.len() && i < x.len() && x[i] == y[i]
        invariant
            x@ == a@,
            y@ == b@,
            i <= x@.len(),
            i <= y@.len(),
            text_before(a@, b@, 0) == text_before(a@, b@, i as int),
        decreases y.len() - i,
    {
        i = i + 1;
    }
    if i >= y.len() {
        false
    } else if i >= x.len() {
        true
    } else {
        x[i] < y[i]
    }
}

/// Where `x` goes in a list ordered by `before`: before the first entry that it comes
/// before.
pub open spec fn slot<T>(list: Seq<T>, x: T, before: spec_fn(T, T) -> bool, i: int) -> int
    decreases list.len() - i,
{
    if i < 0 || i >= list.len() {
        list.len() as int
    } else if before(x, list[i]) {
        i
    } else {
        slot(list, x, before, i + 1)
    }
}

/// The first `n` entries of a list in the order of `before`; entries that are equal in
/// it stay as they were.
pub open spec fn ordered<T>(list: Seq<T>, before: spec_fn(T, T) -> bool, n: int) -> Seq<T>
    decreases n,
{
    if n <= 0 {
        Seq::empty()
    } else {
        let rest = ordered(list, before, n - 1);
        rest.insert(slot(rest, list[n - 1], before, 0), list[n - 1])
    }
}

/// Whether nothing in a list comes before what stands in front of it.
pub open spec fn in_order<T>(list: Seq<T>, before: spec_fn(T, T) -> bool) -> bool {
    forall|i: int, j: int| 0 <= i < j < list.len() ==> !before(#[trigger] list[j], #[trigger] list[i])
}

/// A relation that orders: nothing comes before itself, and what comes before
/// something comes before or after everything else that it is compared with.
pub open spec fn orders<T>(before: spec_fn(T, T) -> bool) -> bool {
    &&& forall|a: T, b: T| #[trigger] before(a, b) ==> !before(b, a)
    &&& forall|a: T, b: T, c: T| #[trigger] before(a, b) && !before(c, b) ==> #[trigger] before(a, c)
}

/// Everything in front of a slot stays in front of what goes there.
pub proof fn slot_bounds<T>(list: Seq<T>, x: T, before: spec_fn(T, T) -> bool, i: int)
    requires
        0 <= i <= list.len(),
    ensures
        i <= slot(list, x, before, i) <= list.len(),
        slot(list, x, before, i) < list.len() ==> before(x, list[slot(list, x, before, i)]),
        forall|j: int| i <= j < slot(list, x, before, i) ==> !before(x, #[trigger] list[j]),
    decreases list.len() - i,
{
    if i < list.len() && !before(x, list[i]) {
        slot_bounds(list, x, before, i + 1);
    }
}

/// Ordering keeps every entry, and puts nothing behind what it comes before.
pub proof fn ordered_is_sorted<T>(list: Seq<T>, before: spec_fn(T, T) -> bool, n: int)
    requires
        0 <= n <= list.len(),
        orders(before),
    ensures
        ordered(list, before, n).len() == n,
        in_order(ordered(list, before, n), before),
        ordered(list, before, n).to_multiset() == list.take(n).to_multiset(),
    decreases n,
{
    broadcast use vstd::seq_lib::group_to_multiset_ensures;

    if n > 0 {
        ordered_is_sorted(list, before, n - 1);
        let rest = ordered(list, before, n - 1);
        let x = list[n - 1];
        let k = slot(rest, x, before, 0);
        slot_bounds(rest, x, before, 0);
        let all = rest.insert(k, x);
        assert forall|i: int, j: int| 0 <= i < j < all.len() implies !before(
            #[trigger] all[j],
            #[trigger] all[i],
        ) by {
            let ri = if i < k {
                i
            } else {
                i - 1
            };
            let rj = if j < k {
                j
            } else {
                j - 1
            };
            if i == k {
                assert(all[j] == rest[rj]);
                if before(all[j], x) {
                    assert(before(x, rest[k]));
                    if rj > k {
                        assert(!before(rest[rj], rest[k]));
                        assert(before(x, rest[rj]));
                    }
                }
            } else if j == k {
                assert(all[i] == rest[ri]);
                assert(!before(x, rest[i]));
            } else {
                assert(all[i] == rest[ri]);
                assert(all[j] == rest[rj]);
                assert(!before(rest[rj], rest[ri]));
            }
        }
        vstd::seq_lib::to_multiset_insert(rest, k, x);
        assert(list.take(n) =~= list.take(n - 1).push(x));
        vstd::seq_lib::to_multiset_build(list.take(n - 1), x);
    } else {
        assert(list.take(0) =~= Seq::empty());
    }
}

/// A path and how well it fits.
pub open spec fn ranks_before(a: (int, Seq<char>), b: (int, Seq<char>)) -> bool {
    a.0 > b.0 || (a.0 == b.0 && text_before(a.1, b.1, 0))
}

/// Whether completion passes over a path: it is that of the workspace itself, or a part of
/// it is hidden or holds what was built.
pub open spec fn passed_over(path: Seq<char>) -> bool {
    path.len() == 0 || exists|i: int|
        0 <= i < scan::split(path, '/').len() && skipped_part(#[trigger] scan::split(path, '/')[i])
}

/// Parts of a path that completion passes over.
pub open spec fn skipped_part(part: Seq<char>) -> bool {
    (part.len() > 0 && part[0] == '.') || part == "target"@ || part == "node_modules"@
}

/// The paths among the first `n` that fit a query, with how well they do.
pub open spec fn scored(paths: Seq<Seq<char>>, query: Seq<char>, n: int) -> Seq<(int, Seq<char>)>
    decreases n,
{
    if n <= 0 {
        Seq::empty()
    } else {
        let rest = scored(paths, query, n - 1);
        match fit_score(paths[n - 1], query) {
            Some(score) if !passed_over(paths[n - 1]) => rest.push((score, paths[n - 1])),
            _ => rest,
        }
    }
}

/// The paths that completion offers for a query: the eight that fit best.
pub open spec fn best_paths(paths: Seq<Seq<char>>, query: Seq<char>) -> Seq<Seq<char>> {
    let list = scored(paths, query, paths.len() as int);
    let all = ordered(
        list,
        |a: (int, Seq<char>), b: (int, Seq<char>)| ranks_before(a, b),
        list.len() as int,
    );
    (if all.len() <= 8 {
        all
    } else {
        all.take(8)
    }).map_values(|e: (int, Seq<char>)| e.1)
}

fn is_passed_over(path: &str) -> (r: bool)
    ensures
        r == passed_over(path@),
{
    if path.is_empty() {
        return true;
    }
    let parts = scan::split_text(path, '/');
    let ghost all = scan::split(path@, '/');
    let mut i: usize = 0;
    while i < parts.len()
        invariant
            path@.len() > 0,
            all == text::texts(parts@),
            all == scan::split(path@, '/'),
            i <= parts@.len(),
            forall|j: int| 0 <= j < i ==> !skipped_part(#[trigger] all[j]),
        decreases parts.len() - i,
    {
        let part = parts[i].as_str();
        assert(all[i as int] == part@);
        let c = text::to_chars(part);
        if (c.len() > 0 && c[0] == '.') || text::same_text(part, "target") || text::same_text(
            part,
            "node_modules",
        ) {
            assert(skipped_part(all[i as int]));
            return true;
        }
        i = i + 1;
    }
    false
}

/// What scored paths hold.
pub open spec fn scored_view(list: Seq<(i32, String)>) -> Seq<(int, Seq<char>)> {
    list.map_values(|e: (i32, String)| (e.0 as int, e.1@))
}

fn insert_ranked(list: &mut Vec<(i32, String)>, score: i32, path: String)
    ensures
        scored_view(final(list)@) == scored_view(old(list)@).insert(
            slot(
                scored_view(old(list)@),
                (score as int, path@),
                |a: (int, Seq<char>), b: (int, Seq<char>)| ranks_before(a, b),
                0,
            ),
            (score as int, path@),
        ),
{
    let ghost before = |a: (int, Seq<char>), b: (int, Seq<char>)| ranks_before(a, b);
    let ghost all = scored_view(list@);
    let ghost x = (score as int, path@);
    let mut i: usize = 0;
    while i < list.len() && !(score > list[i].0 || (score == list[i].0 && comes_before(
        path.as_str(),
        list[i].1.as_str(),
    )))
        invariant
            i <= list@.len(),
            all == scored_view(list@),
            x == (score as int, path@),
            before == (|a: (int, Seq<char>), b: (int, Seq<char>)| ranks_before(a, b)),
            slot(all, x, before, 0) == slot(all, x, before, i as int),
        decreases list.len() - i,
    {
        assert(all[i as int] == (list@[i as int].0 as int, list@[i as int].1@));
        assert(!before(x, all[i as int]));
        i = i + 1;
    }
    proof {
        if i < list@.len() {
            assert(all[i as int] == (list@[i as int].0 as int, list@[i as int].1@));
            assert(before(x, all[i as int]));
        }
    }
    list.insert(i, (score, path));
    assert(scored_view(list@) =~= all.insert(i as int, x));
}

/// The eight paths that fit a query best, the best first; paths that fit equally well
/// are in text order.
pub fn complete_files(paths: &Vec<String>, query: &str) -> (r: Vec<String>)
    ensures
        text::texts(r@) == best_paths(text::texts(paths@), query@),
{
    let ghost all = text::texts(paths@);
    let ghost before = |a: (int, Seq<char>), b: (int, Seq<char>)| ranks_before(a, b);
    let mut list: Vec<(i32, String)> = Vec::new();
    let ghost mut done = scored(all, query@, 0);
    assert(scored_view(list@) =~= ordered(done, before, 0));
    for i in 0..paths.len()
        invariant
            all == text::texts(paths@),
            before == (|a: (int, Seq<char>), b: (int, Seq<char>)| ranks_before(a, b)),
            done == scored(all, query@, i as int),
            scored_view(list@) == ordered(done, before, done.len() as int),
    {
        assert(all[i as int] == paths@[i as int]@);
        let path = paths[i].as_str();
        if !is_passed_over(path) {
            if let Some(score) = score_file_candidate(path, query) {
                let ghost prev = done;
                insert_ranked(&mut list, score, text::copy_text(path));
                proof {
                    done = prev.push((score as int, path@));
                    ordered_prefix(prev, done, before, prev.len() as int);
                }
            }
        }
    }
    proof {
        assert(done == scored(all, query@, all.len() as int));
    }
    list.truncate(8);
    let mut out: Vec<String> = Vec::new();
    for i in 0..list.len()
        invariant
            out@.len() == i,
            forall|j: int| 0 <= j < i ==> (#[trigger] out@[j])@ == list@[j].1@,
    {
        out.push(text::copy_text(list[i].1.as_str()));
    }
    assert(text::texts(out@) =~= best_paths(all, query@));
    out
}

/// Ordering the first entries does not look at the later ones.
pub proof fn ordered_prefix<T>(a: Seq<T>, b: Seq<T>, before: spec_fn(T, T) -> bool, n: int)
    requires
        0 <= n <= a.len(),
        n <= b.len(),
        forall|i: int| 0 <= i < n ==> a[i] == b[i],
    ensures
        ordered(a, before, n) == ordered(b, before, n),
    decreases n,
{
    if n > 0 {
        ordered_prefix(a, b, before, n - 1);
    }
}

/// At most eight paths are offered.
pub proof fn at_most_eight_paths(paths: Seq<Seq<char>>, query: Seq<char>)
    ensures
        best_paths(paths, query).len() <= 8,
{
}

/// Texts in text order.
pub open spec fn sorted_texts(list: Seq<Seq<char>>) -> Seq<Seq<char>> {
    ordered(list, |a: Seq<char>, b: Seq<char>| text_before(a, b, 0), list.len() as int)
}

fn insert_text_in_order(list: &mut Vec<String>, one: String)
    ensures
        text::texts(final(list)@) == text::texts(old(list)@).insert(
            slot(
                text::texts(old(list)@),
                one@,
                |a: Seq<char>, b: Seq<char>| text_before(a, b, 0),
                0,
            ),
            one@,
        ),
{
    let ghost all = text::texts(list@);
    let ghost before = |a: Seq<char>, b: Seq<char>| text_before(a, b, 0);
    let mut i: usize = 0;
    while i < list.len() && !comes_before(one.as_str(), list[i].as_str())
        invariant
            all == text::texts(list@),
            before == (|a: Seq<char>, b: Seq<char>| text_before(a, b, 0)),
            i <= list@.len(),
            slot(all, one@, before, 0) == slot(all, one@, before, i as int),
        decreases list.len() - i,
    {
        assert(all[i as int] == list@[i as int]@);
        i = i + 1;
    }
    assert(i < list@.len() ==> all[i as int] == list@[i as int]@);
    list.insert(i, one);
    assert(text::texts(list@) =~= all.insert(i as int, one@));
}

/// Puts texts in text order.
pub fn sort_texts(list: &Vec<String>) -> (r: Vec<String>)
    ensures
        text::texts(r@) == sorted_texts(text::texts(list@)),
{
    let ghost all = text::texts(list@);
    let ghost before = |a: Seq<char>, b: Seq<char>| text_before(a, b, 0);
    let mut r: Vec<String> = Vec::new();
    assert(text::texts(r@) =~= ordered(all, before, 0));
    for i in 0..list.len()
        invariant
            all == text::texts(list@),
            before == (|a: Seq<char>, b: Seq<char>| text_before(a, b, 0)),
            text::texts(r@) == ordered(all, before, i as int),
    {
        assert(all[i as int] == list@[i as int]@);
        insert_text_in_order(&mut r, text::copy_text(list[i].as_str()));
    }
    r
}

/// Whether texts stand in text order, each once.
pub open spec fn rises(list: Seq<Seq<char>>) -> bool {
    forall|i: int, j: int|
        0 <= i < j < list.len() ==> text_before(#[trigger] list[i], #[trigger] list[j], 0)
}

/// Puts a text at its place among texts in text order, unless it is there.
pub fn insert_once(list: &mut Vec<String>, one: &str)
    requires
        rises(text::texts(old(list)@)),
    ensures
        rises(text::texts(final(list)@)),
        forall|t: Seq<char>| #[trigger]
            text::texts(final(list)@).contains(t) == (t == one@ || text::texts(old(list)@).contains(t)),
{
    let ghost all = text::texts(list@);
    let mut i: usize = 0;
    while i < list.len() && comes_before(list[i].as_str(), one)
        invariant
            all == text::texts(list@),
            list@ == old(list)@,
            i <= list@.len(),
            forall|j: int| 0 <= j < i ==> text_before(#[trigger] all[j], one@, 0),
        decreases list.len() - i,
    {
        assert(all[i as int] == list@[i as int]@);
        i = i + 1;
    }
    if i < list.len() {
        assert(all[i as int] == list@[i as int]@);
        if text::same_text(list[i].as_str(), one) {
            assert(all.contains(one@));
            return;
        }
        proof {
            if !text_before(one@, all[i as int], 0) {
                before_is_total(all[i as int], one@, 0);
            }
        }
    }
    list.insert(i, text::copy_text(one));
    proof {
        let next = text::texts(list@);
        assert(next =~= all.insert(i as int, one@));
        assert forall|j: int| i <= j < all.len() implies text_before(one@, #[trigger] all[j], 0) by {
            texts_are_ordered(all[i as int], all[j], all[j]);
            texts_are_ordered(one@, all[i as int], all[j]);
        }
        assert forall|a: int, b: int| 0 <= a < b < next.len() implies text_before(
            #[trigger] next[a],
            #[trigger] next[b],
            0,
        ) by {
            let x = if a < i {
                a
            } else {
                a - 1
            };
            let y = if b < i {
                b
            } else {
                b - 1
            };
            if a != i && b != i {
                assert(next[a] == all[x] && next[b] == all[y]);
            } else if a == i {
                assert(next[b] == all[y]);
            } else {
                assert(next[a] == all[x]);
            }
        }
        assert forall|t: Seq<char>| #[trigger] next.contains(t) == (t == one@ || all.contains(t)) by {
            assert(next[i as int] == one@);
            if all.contains(t) {
                let k = all.index_of(t);
                assert(all[k] == t);
                assert(next[if k < i {
                    k
                } else {
                    k + 1
                }] == t);
            }
            if next.contains(t) && t != one@ {
                let k = next.index_of(t);
                assert(next[k] == t);
                assert(all[if k < i {
                    k
                } else {
                    k - 1
                }] == t);
            }
        }
    }
}

/// The first texts of a list hold what those before the last of them hold, and that one.
pub proof fn one_more_holds(list: Seq<Seq<char>>, i: int)
    requires
        0 <= i < list.len(),
    ensures
        forall|t: Seq<char>| #[trigger]
            list.take(i + 1).contains(t) == (t == list[i] || list.take(i).contains(t)),
{
    let more = list.take(i + 1);
    let less = list.take(i);
    assert forall|t: Seq<char>| #[trigger] more.contains(t) == (t == list[i] || less.contains(t)) by {
        assert(more[i] == list[i]);
        if less.contains(t) {
            let k = less.index_of(t);
            assert(less[k] == t);
            assert(more[k] == t);
        }
        if more.contains(t) && t != list[i] {
            let k = more.index_of(t);
            assert(more[k] == t);
            assert(less[k] == t);
        }
    }
}

} // verus!
