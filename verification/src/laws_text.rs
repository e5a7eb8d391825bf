//! What holds of texts taken apart and put together.

use crate::scan;
use crate::text;
use vstd::prelude::*;

verus! {

/// Lines one after another, each with a line feed behind it.
pub open spec fn run_on(list: Seq<Seq<char>>) -> Seq<char> {
    list.map_values(|line: Seq<char>| line.push('\n')).flatten()
}

/// Nothing run on is nothing.
pub proof fn run_on_nothing()
    ensures
        run_on(Seq::empty()) == Seq::<char>::empty(),
{
    let none = Seq::<Seq<char>>::empty().map_values(|line: Seq<char>| line.push('\n'));
    assert(none.len() == 0);
    assert(none.flatten() =~= Seq::<char>::empty());
}

/// A line before others runs on before them.
pub proof fn run_on_first(line: Seq<char>, rest: Seq<Seq<char>>)
    ensures
        run_on(seq![line] + rest) == line.push('\n') + run_on(rest),
{
    let all = (seq![line] + rest).map_values(|l: Seq<char>| l.push('\n'));
    assert(all.first() =~= line.push('\n'));
    assert(all.drop_first() =~= rest.map_values(|l: Seq<char>| l.push('\n')));
}

proof fn lines_run_on_from(s: Seq<char>, i: int)
    requires
        0 <= i <= s.len(),
        !s.contains('\r'),
    ensures
        run_on(scan::lines_from(s, i)) == s.skip(i) + if i < s.len() && s.last() != '\n' {
            seq!['\n']
        } else {
            Seq::empty()
        },
        forall|k: int|
            0 <= k < scan::lines_from(s, i).len() ==> !(#[trigger] scan::lines_from(s, i)[k]).contains('\n'),
    decreases s.len() - i,
{
    if i >= s.len() {
        run_on_nothing();
        assert(s.skip(i) =~= Seq::empty());
        assert(scan::lines_from(s, i) =~= Seq::empty());
    } else {
        let n = scan::seek(s, '\n', i);
        scan::seek_spec(s, '\n', i);
        let line = scan::line_at(s, i, n);
        if n > i {
            assert(s.contains(s[n - 1]));
        }
        assert(line =~= s.subrange(i, n));
        let rest = scan::lines_from(s, n + 1);
        assert(scan::lines_from(s, i) == seq![line] + rest);
        run_on_first(line, rest);
        assert(!line.contains('\n')) by {
            if line.contains('\n') {
                let j = choose|j: int| 0 <= j < line.len() && line[j] == '\n';
                assert(s[i + j] == '\n');
            }
        }
        if n < s.len() {
            lines_run_on_from(s, n + 1);
            assert(s.subrange(i, n).push('\n') + s.skip(n + 1) =~= s.skip(i));
            if n + 1 == s.len() {
                assert(s.last() == '\n');
                assert(run_on(rest) =~= Seq::empty());
            }
            assert(run_on(scan::lines_from(s, i)) =~= s.skip(i) + if s.last() != '\n' {
                seq!['\n']
            } else {
                Seq::empty()
            });
        } else {
            assert(rest =~= Seq::empty());
            run_on_nothing();
            assert(s.last() != '\n') by {
                assert(s[s.len() - 1] != '\n');
            }
            assert(run_on(scan::lines_from(s, i)) =~= s.skip(i) + seq!['\n']);
        }
        assert forall|k: int| 0 <= k < scan::lines_from(s, i).len() implies !(#[trigger] scan::lines_from(
            s,
            i,
        )[k]).contains('\n') by {
            if k > 0 {
                assert(scan::lines_from(s, i)[k] == rest[k - 1]);
            }
        }
    }
}

/// The lines of a text run on give the text back, with a line feed at its end, and no line
/// holds one.
pub proof fn lines_give_the_text_back(s: Seq<char>)
    requires
        !s.contains('\r'),
    ensures
        run_on(scan::lines(s)) == if s.len() > 0 && s.last() != '\n' {
            s.push('\n')
        } else {
            s
        },
        forall|k: int| 0 <= k < scan::lines(s).len() ==> !(#[trigger] scan::lines(s)[k]).contains('\n'),
{
    lines_run_on_from(s, 0);
    assert(s.skip(0) =~= s);
    assert(run_on(scan::lines(s)) =~= if s.len() > 0 && s.last() != '\n' {
        s.push('\n')
    } else {
        s
    });
}

proof fn lines_move_along(s: Seq<char>, off: int, i: int)
    requires
        0 <= off <= s.len(),
        0 <= i <= s.len() - off,
        off == 0 || s[off - 1] == '\n',
    ensures
        scan::lines_from(s, off + i) == scan::lines_from(s.skip(off), i),
    decreases s.len() - off - i,
{
    let t = s.skip(off);
    if i < t.len() {
        seek_moves_along(s, off, i);
        scan::seek_spec(t, '\n', i);
        let n = scan::seek(t, '\n', i);
        assert(scan::line_at(s, off + i, off + n) =~= scan::line_at(t, i, n)) by {
            if i < n {
                assert(s[off + n - 1] == t[n - 1]);
            }
        }
        if n < t.len() {
            lines_move_along(s, off, n + 1);
        } else {
            assert(scan::lines_from(s, off + n + 1) =~= Seq::empty());
            assert(scan::lines_from(t, n + 1) =~= Seq::empty());
        }
    } else {
        assert(scan::lines_from(s, off + i) =~= Seq::empty());
        assert(scan::lines_from(t, i) =~= Seq::empty());
    }
}

proof fn seek_moves_along(s: Seq<char>, off: int, i: int)
    requires
        0 <= off <= s.len(),
        0 <= i <= s.len() - off,
    ensures
        scan::seek(s, '\n', off + i) == off + scan::seek(s.skip(off), '\n', i),
    decreases s.len() - off - i,
{
    if i < s.len() - off && s[off + i] != '\n' {
        assert(s.skip(off)[i] == s[off + i]);
        seek_moves_along(s, off, i + 1);
    }
}

/// A line feed ends a line, with or without a carriage return before it, and the lines behind
/// it are those of the rest.
pub proof fn line_feeds_end_lines(a: Seq<char>, b: Seq<char>)
    requires
        !a.contains('\n'),
        !a.contains('\r'),
    ensures
        scan::lines(a + seq!['\n'] + b) == seq![a] + scan::lines(b),
        scan::lines(a + seq!['\r', '\n'] + b) == seq![a] + scan::lines(b),
{
    let s = a + seq!['\n'] + b;
    assert forall|i: int| 0 <= i < a.len() implies s[i] != '\n' by {
        assert(a.contains(a[i]));
    }
    first_feed(s, a.len() as int);
    assert(scan::line_at(s, 0, a.len() as int) =~= a) by {
        if a.len() > 0 {
            assert(s[a.len() - 1] == a[a.len() - 1]);
            assert(a.contains(a[a.len() - 1]));
        }
    }
    lines_move_along(s, a.len() as int + 1, 0);
    assert(s.skip(a.len() as int + 1) =~= b);
    let t = a + seq!['\r', '\n'] + b;
    assert forall|i: int| 0 <= i < a.len() + 1 implies t[i] != '\n' by {
        if i < a.len() {
            assert(a.contains(a[i]));
        }
    }
    first_feed(t, a.len() as int + 1);
    assert(t[a.len() as int] == '\r');
    assert(scan::line_at(t, 0, a.len() as int + 1) =~= a);
    lines_move_along(t, a.len() as int + 2, 0);
    assert(t.skip(a.len() as int + 2) =~= b);
}

proof fn first_feed(s: Seq<char>, n: int)
    requires
        0 <= n < s.len(),
        s[n] == '\n',
        forall|i: int| 0 <= i < n ==> s[i] != '\n',
    ensures
        scan::seek(s, '\n', 0) == n,
{
    scan::seek_spec(s, '\n', 0);
    let k = scan::seek(s, '\n', 0);
    if k < n {
        assert(s[k] == '\n');
    }
}

/// Where part `i` of joined parts begins.
pub open spec fn part_start(parts: Seq<Seq<char>>, sep: Seq<char>, i: int) -> int
    decreases i,
{
    if i <= 0 {
        0
    } else {
        part_start(parts, sep, i - 1) + parts[i - 1].len() + sep.len()
    }
}

proof fn starts_of_prefix(a: Seq<Seq<char>>, b: Seq<Seq<char>>, sep: Seq<char>, i: int)
    requires
        i <= a.len(),
        i <= b.len(),
        forall|k: int| 0 <= k < i ==> a[k] == b[k],
    ensures
        part_start(a, sep, i) == part_start(b, sep, i),
        0 <= part_start(a, sep, i),
    decreases i,
{
    if i > 0 {
        starts_of_prefix(a, b, sep, i - 1);
    }
}

proof fn join_reaches(parts: Seq<Seq<char>>, sep: Seq<char>)
    requires
        parts.len() > 0,
    ensures
        scan::join(parts, sep).len() == part_start(parts, sep, parts.len() - 1) + parts.last().len(),
    decreases parts.len(),
{
    if parts.len() > 1 {
        let less = parts.drop_last();
        join_reaches(less, sep);
        starts_of_prefix(parts, less, sep, parts.len() - 2);
    }
}

/// Joined parts stand one after another: each where the parts before it and the separators
/// behind them end.
pub proof fn joined_parts_stand_in_order(parts: Seq<Seq<char>>, sep: Seq<char>, i: int)
    requires
        0 <= i < parts.len(),
    ensures
        0 <= part_start(parts, sep, i) <= scan::join(parts, sep).len() - parts[i].len(),
        scan::join(parts, sep).subrange(
            part_start(parts, sep, i),
            part_start(parts, sep, i) + parts[i].len(),
        ) == parts[i],
    decreases parts.len(),
{
    let all = scan::join(parts, sep);
    starts_of_prefix(parts, parts, sep, i);
    if parts.len() == 1 {
        assert(all.subrange(0, parts[0].len() as int) =~= parts[0]);
    } else {
        let less = parts.drop_last();
        let head = scan::join(less, sep);
        join_reaches(parts, sep);
        join_reaches(less, sep);
        let p = part_start(parts, sep, i);
        if i < parts.len() - 1 {
            joined_parts_stand_in_order(less, sep, i);
            starts_of_prefix(parts, less, sep, i);
            assert(less[i] == parts[i]);
            assert(all.subrange(p, p + parts[i].len()) =~= head.subrange(p, p + parts[i].len()));
        } else {
            assert(p == head.len() + sep.len()) by {
                starts_of_prefix(parts, less, sep, i - 1);
                assert(less.last() == parts[i - 1]);
            }
            assert(all.subrange(p, p + parts[i].len()) =~= parts.last());
        }
    }
}

/// Between each two joined parts stands the separator, and nothing stands behind the last.
pub proof fn separators_stand_between(parts: Seq<Seq<char>>, sep: Seq<char>, i: int)
    requires
        0 < i < parts.len(),
    ensures
        part_start(parts, sep, i) == part_start(parts, sep, i - 1) + parts[i - 1].len() + sep.len(),
        scan::join(parts, sep).subrange(
            part_start(parts, sep, i) - sep.len(),
            part_start(parts, sep, i),
        ) == sep,
        scan::join(parts, sep).len() == part_start(parts, sep, parts.len() - 1) + parts.last().len(),
    decreases parts.len(),
{
    let all = scan::join(parts, sep);
    let less = parts.drop_last();
    let head = scan::join(less, sep);
    let p = part_start(parts, sep, i);
    join_reaches(parts, sep);
    join_reaches(less, sep);
    if i < parts.len() - 1 {
        separators_stand_between(less, sep, i);
        joined_parts_stand_in_order(less, sep, i);
        joined_parts_stand_in_order(less, sep, i - 1);
        starts_of_prefix(parts, less, sep, i);
        starts_of_prefix(parts, less, sep, i - 1);
        assert(all.subrange(p - sep.len(), p) =~= head.subrange(p - sep.len(), p));
    } else {
        assert(p == head.len() + sep.len()) by {
            starts_of_prefix(parts, less, sep, i - 1);
            assert(less.last() == parts[i - 1]);
        }
        assert(all.subrange(p - sep.len(), p) =~= sep);
    }
}

proof fn split_joins_from(s: Seq<char>, c: char, i: int)
    requires
        0 <= i <= s.len(),
    ensures
        scan::split_from(s, c, i).map_values(|p: Seq<char>| p.push(c)).flatten() == s.skip(i).push(c),
        forall|k: int|
            0 <= k < scan::split_from(s, c, i).len() ==> !(#[trigger] scan::split_from(s, c, i)[k]).contains(
                c,
            ),
    decreases s.len() - i,
{
    let n = scan::seek(s, c, i);
    scan::seek_spec(s, c, i);
    let one = s.subrange(i, n);
    let rest = scan::split_from(s, c, n + 1);
    let all = scan::split_from(s, c, i);
    let f = |p: Seq<char>| p.push(c);
    assert(all == seq![one] + rest);
    assert(all.map_values(f).first() =~= one.push(c));
    assert(all.map_values(f).drop_first() =~= rest.map_values(f));
    assert(!one.contains(c)) by {
        if one.contains(c) {
            let j = choose|j: int| 0 <= j < one.len() && one[j] == c;
            assert(s[i + j] == c);
        }
    }
    if n < s.len() {
        split_joins_from(s, c, n + 1);
        assert(one.push(c) + s.skip(n + 1).push(c) =~= s.skip(i).push(c));
    } else {
        assert(rest =~= Seq::empty());
        assert(rest.map_values(f).flatten() =~= Seq::empty());
        assert(one.push(c) + Seq::<char>::empty() =~= s.skip(i).push(c));
    }
    assert forall|k: int| 0 <= k < all.len() implies !(#[trigger] all[k]).contains(c) by {
        if k > 0 {
            assert(all[k] == rest[k - 1]);
        }
    }
}

/// The parts of a text between a character, each with that character behind it, give the
/// text back, and no part holds the character.
pub proof fn split_parts_give_the_text_back(s: Seq<char>, c: char)
    ensures
        scan::split(s, c).map_values(|p: Seq<char>| p.push(c)).flatten() == s.push(c),
        forall|k: int| 0 <= k < scan::split(s, c).len() ==> !(#[trigger] scan::split(s, c)[k]).contains(c),
{
    split_joins_from(s, c, 0);
    assert(s.skip(0) =~= s);
}

/// Trimming takes white space off both ends of a text and nothing else.
pub proof fn trimming_takes_white_space_off(s: Seq<char>)
    ensures
        ({
            let t = scan::trim(s);
            &&& t.len() > 0 ==> !text::white(t[0]) && !text::white(t.last())
            &&& exists|lo: int, hi: int|
                0 <= lo <= hi <= s.len() && t == #[trigger] s.subrange(lo, hi) && (forall|i: int|
                    0 <= i < lo || hi <= i < s.len() ==> text::white(#[trigger] s[i]))
        }),
{
    let lo = scan::skip_white(s, 0);
    scan::skip_white_bounds(s, 0);
    let hi = scan::back_white(s, lo, s.len() as int);
    scan::back_white_bounds(s, lo, s.len() as int);
    assert(scan::trim(s) == s.subrange(lo, hi));
}

} // verus!
