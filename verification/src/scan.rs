//! Searching, trimming and splitting text, and decimal numbers.

use crate::text;
use vstd::prelude::*;
use vstd::string::*;

verus! {

// ---------------------------------------------------------------------------
// Searching
// ---------------------------------------------------------------------------

/// The first position at or after `i` that holds `c`; the length if there is none.
pub open spec fn seek(s: Seq<char>, c: char, i: int) -> int
    decreases s.len() - i,
{
    if i < 0 || i >= s.len() {
        s.len() as int
    } else if s[i] == c {
        i
    } else {
        seek(s, c, i + 1)
    }
}

/// Where `seek` ends: at the first `c`, with none before it.
pub proof fn seek_spec(s: Seq<char>, c: char, i: int)
    requires
        0 <= i <= s.len(),
    ensures
        i <= seek(s, c, i) <= s.len(),
        seek(s, c, i) < s.len() ==> s[seek(s, c, i)] == c,
        forall|j: int| i <= j < seek(s, c, i) ==> s[j] != c,
    decreases s.len() - i,
{
    if i < s.len() && s[i] != c {
        seek_spec(s, c, i + 1);
    }
}

/// The first position at or after `from` that holds `c`, or the length.
pub fn seek_char(s: &Vec<char>, c: char, from: usize) -> (r: usize)
    requires
        from <= s@.len(),
    ensures
        r == seek(s@, c, from as int),
        from <= r <= s@.len(),
{
    let mut i: usize = from;
    while i < s.len() && s[i] != c
        invariant
            from <= i <= s@.len(),
            seek(s@, c, from as int) == seek(s@, c, i as int),
        decreases s.len() - i,
    {
        i = i + 1;
    }
    i
}

/// Whether `p` stands in `s` at position `i`.
pub open spec fn occurs_at(s: Seq<char>, p: Seq<char>, i: int) -> bool {
    0 <= i && i + p.len() <= s.len() && s.subrange(i, i + p.len()) == p
}

/// Whether `s` begins with `p`.
pub open spec fn begins(s: Seq<char>, p: Seq<char>) -> bool {
    occurs_at(s, p, 0)
}

/// Whether `s` ends with `p`.
pub open spec fn ends(s: Seq<char>, p: Seq<char>) -> bool {
    occurs_at(s, p, s.len() - p.len())
}

/// The first position at or after `i` where `p` stands in `s`.
pub open spec fn find_from(s: Seq<char>, p: Seq<char>, i: int) -> Option<int>
    decreases s.len() + 1 - i,
{
    if i < 0 || i > s.len() {
        None
    } else if occurs_at(s, p, i) {
        Some(i)
    } else {
        find_from(s, p, i + 1)
    }
}

/// Whether `p` stands anywhere in `s`.
pub open spec fn contains_text(s: Seq<char>, p: Seq<char>) -> bool {
    exists|i: int| #[trigger] occurs_at(s, p, i)
}

/// `find_from` finds the first occurrence, and finds one if there is one.
pub proof fn find_from_spec(s: Seq<char>, p: Seq<char>, i: int)
    requires
        0 <= i <= s.len() + 1,
    ensures
        find_from(s, p, i) matches Some(k) ==> i <= k <= s.len() && occurs_at(s, p, k),
        forall|j: int| #[trigger]
            occurs_at(s, p, j) && j >= i ==> (find_from(s, p, i) matches Some(k) && k <= j),
    decreases s.len() + 1 - i,
{
    if i <= s.len() && !occurs_at(s, p, i) {
        find_from_spec(s, p, i + 1);
    }
}

/// Whether `p` stands in `s` at `i`.
pub fn stands_at(s: &Vec<char>, p: &Vec<char>, i: usize) -> (r: bool)
    requires
        i <= s@.len(),
    ensures
        r == occurs_at(s@, p@, i as int),
{
    if s.len() - i < p.len() {
        return false;
    }
    let mut j: usize = 0;
    while j < p.len()
        invariant
            i + p@.len() <= s.len(),
            j <= p@.len(),
            forall|k: int| 0 <= k < j ==> s@[i + k] == p@[k],
        decreases p.len() - j,
    {
        if s[i + j] != p[j] {
            assert(s@.subrange(i as int, i + p@.len())[j as int] != p@[j as int]);
            return false;
        }
        j = j + 1;
    }
    assert(s@.subrange(i as int, i + p@.len()) =~= p@);
    true
}

/// The first position of `p` in `s`.
pub fn find_chars(s: &Vec<char>, p: &Vec<char>) -> (r: Option<usize>)
    ensures
        match r {
            Some(k) => find_from(s@, p@, 0) == Some(k as int) && k + p@.len() <= s@.len(),
            None => find_from(s@, p@, 0) == None::<int>,
        },
{
    let mut i: usize = 0;
    while i < s.len()
        invariant
            i <= s@.len(),
            find_from(s@, p@, 0) == find_from(s@, p@, i as int),
        decreases s.len() - i,
    {
        if stands_at(s, p, i) {
            return Some(i);
        }
        i = i + 1;
    }
    if stands_at(s, p, i) {
        Some(i)
    } else {
        assert(find_from(s@, p@, s@.len() as int + 1) == None::<int>);
        None
    }
}

/// Whether `p` stands anywhere in `s`.
pub fn text_contains(s: &str, p: &str) -> (r: bool)
    ensures
        r == contains_text(s@, p@),
{
    let sc = text::to_chars(s);
    let pc = text::to_chars(p);
    proof {
        find_from_spec(s@, p@, 0);
    }
    match find_chars(&sc, &pc) {
        Some(k) => {
            assert(occurs_at(s@, p@, k as int));
            true
        },
        None => false,
    }
}

/// Whether `s` begins with `p`.
pub fn text_begins(s: &str, p: &str) -> (r: bool)
    ensures
        r == begins(s@, p@),
{
    let sc = text::to_chars(s);
    let pc = text::to_chars(p);
    stands_at(&sc, &pc, 0)
}

/// What follows `p` where `s` begins with it.
pub fn strip_prefix(s: &str, p: &str) -> (r: Option<String>)
    ensures
        match r {
            Some(rest) => begins(s@, p@) && rest@ == s@.skip(p@.len() as int),
            None => !begins(s@, p@),
        },
{
    let sc = text::to_chars(s);
    let pc = text::to_chars(p);
    if stands_at(&sc, &pc, 0) {
        let rest = text::slice_text(&sc, pc.len(), sc.len());
        assert(rest@ =~= s@.skip(p@.len() as int));
        Some(rest)
    } else {
        None
    }
}

/// What precedes `p` where `s` ends with it.
pub fn strip_suffix(s: &str, p: &str) -> (r: Option<String>)
    ensures
        match r {
            Some(rest) => ends(s@, p@) && rest@ == s@.take(s@.len() - p@.len()),
            None => !ends(s@, p@),
        },
{
    let sc = text::to_chars(s);
    let pc = text::to_chars(p);
    if pc.len() <= sc.len() {
        let at: usize = sc.len() - pc.len();
        if stands_at(&sc, &pc, at) {
            let rest = text::slice_text(&sc, 0, at);
            assert(rest@ =~= s@.take(s@.len() - p@.len()));
            return Some(rest);
        }
    }
    None
}

// ---------------------------------------------------------------------------
// Trimming
// ---------------------------------------------------------------------------

/// The first position at or after `i` that holds no white space, or the length.
pub open spec fn skip_white(s: Seq<char>, i: int) -> int
    decreases s.len() - i,
{
    if i < 0 || i >= s.len() {
        s.len() as int
    } else if text::white(s[i]) {
        skip_white(s, i + 1)
    } else {
        i
    }
}

/// The first position at or after `i` that holds white space, or the length.
pub open spec fn skip_word(s: Seq<char>, i: int) -> int
    decreases s.len() - i,
{
    if i < 0 || i >= s.len() {
        s.len() as int
    } else if text::white(s[i]) {
        i
    } else {
        skip_word(s, i + 1)
    }
}

/// The end of what is left of `s[lo..hi]` without trailing white space.
pub open spec fn back_white(s: Seq<char>, lo: int, hi: int) -> int
    decreases hi - lo,
{
    if hi <= lo || hi > s.len() {
        hi
    } else if text::white(s[hi - 1]) {
        back_white(s, lo, hi - 1)
    } else {
        hi
    }
}

pub proof fn skip_white_bounds(s: Seq<char>, i: int)
    requires
        0 <= i <= s.len(),
    ensures
        i <= skip_white(s, i) <= s.len(),
        forall|j: int| i <= j < skip_white(s, i) ==> text::white(s[j]),
        skip_white(s, i) < s.len() ==> !text::white(s[skip_white(s, i)]),
    decreases s.len() - i,
{
    if i < s.len() && text::white(s[i]) {
        skip_white_bounds(s, i + 1);
    }
}

pub proof fn skip_word_bounds(s: Seq<char>, i: int)
    requires
        0 <= i <= s.len(),
    ensures
        i <= skip_word(s, i) <= s.len(),
        forall|j: int| i <= j < skip_word(s, i) ==> !text::white(s[j]),
        skip_word(s, i) < s.len() ==> text::white(s[skip_word(s, i)]),
    decreases s.len() - i,
{
    if i < s.len() && !text::white(s[i]) {
        skip_word_bounds(s, i + 1);
    }
}

pub proof fn back_white_bounds(s: Seq<char>, lo: int, hi: int)
    requires
        0 <= lo <= hi <= s.len(),
    ensures
        lo <= back_white(s, lo, hi) <= hi,
        forall|j: int| back_white(s, lo, hi) <= j < hi ==> text::white(s[j]),
        back_white(s, lo, hi) > lo ==> !text::white(s[back_white(s, lo, hi) - 1]),
    decreases hi - lo,
{
    if lo < hi && text::white(s[hi - 1]) {
        back_white_bounds(s, lo, hi - 1);
    }
}

/// A text without the white space at its end.
pub open spec fn trim_end(s: Seq<char>) -> Seq<char> {
    s.take(back_white(s, 0, s.len() as int))
}

/// A text without the white space at its start.
pub open spec fn trim_start(s: Seq<char>) -> Seq<char> {
    s.skip(skip_white(s, 0))
}

/// A text without the white space at either end.
pub open spec fn trim(s: Seq<char>) -> Seq<char> {
    let lo = skip_white(s, 0);
    s.subrange(lo, back_white(s, lo, s.len() as int))
}

/// First position at or after `from` without white space.
pub fn after_white(s: &Vec<char>, from: usize) -> (r: usize)
    requires
        from <= s@.len(),
    ensures
        r == skip_white(s@, from as int),
        from <= r <= s@.len(),
{
    let mut i: usize = from;
    while i < s.len() && text::is_white(s[i])
        invariant
            from <= i <= s@.len(),
            skip_white(s@, from as int) == skip_white(s@, i as int),
        decreases s.len() - i,
    {
        i = i + 1;
    }
    i
}

/// First position at or after `from` with white space.
pub fn after_word(s: &Vec<char>, from: usize) -> (r: usize)
    requires
        from <= s@.len(),
    ensures
        r == skip_word(s@, from as int),
        from <= r <= s@.len(),
{
    let mut i: usize = from;
    while i < s.len() && !text::is_white(s[i])
        invariant
            from <= i <= s@.len(),
            skip_word(s@, from as int) == skip_word(s@, i as int),
        decreases s.len() - i,
    {
        i = i + 1;
    }
    i
}

/// End of `s[lo..hi]` without trailing white space.
pub fn before_white(s: &Vec<char>, lo: usize, hi: usize) -> (r: usize)
    requires
        lo <= hi <= s@.len(),
    ensures
        r == back_white(s@, lo as int, hi as int),
        lo <= r <= hi,
{
    let mut i: usize = hi;
    while i > lo && text::is_white(s[i - 1])
        invariant
            lo <= i <= hi <= s@.len(),
            back_white(s@, lo as int, hi as int) == back_white(s@, lo as int, i as int),
        decreases i,
    {
        i = i - 1;
    }
    i
}

/// The text without white space at either end.
pub fn trim_text(s: &str) -> (r: String)
    ensures
        r@ == trim(s@),
{
    let c = text::to_chars(s);
    let lo: usize = after_white(&c, 0);
    let hi: usize = before_white(&c, lo, c.len());
    text::slice_text(&c, lo, hi)
}

/// The text without white space at its end.
pub fn trim_end_text(s: &str) -> (r: String)
    ensures
        r@ == trim_end(s@),
{
    let c = text::to_chars(s);
    let hi: usize = before_white(&c, 0, c.len());
    let r = text::slice_text(&c, 0, hi);
    assert(r@ =~= trim_end(s@));
    r
}

/// The text without white space at its start.
pub fn trim_start_text(s: &str) -> (r: String)
    ensures
        r@ == trim_start(s@),
{
    let c = text::to_chars(s);
    let lo: usize = after_white(&c, 0);
    let r = text::slice_text(&c, lo, c.len());
    assert(r@ =~= trim_start(s@));
    r
}

/// Whether a text holds nothing but white space.
pub open spec fn blank(s: Seq<char>) -> bool {
    trim(s).len() == 0
}

/// Whether a text holds nothing but white space.
pub fn is_blank(s: &str) -> (r: bool)
    ensures
        r == blank(s@),
{
    let c = text::to_chars(s);
    let lo: usize = after_white(&c, 0);
    let hi: usize = before_white(&c, lo, c.len());
    lo == hi
}

/// A text is blank exactly when each of its characters is white space.
pub proof fn blank_means_all_white(s: Seq<char>)
    ensures
        blank(s) <==> (forall|i: int| 0 <= i < s.len() ==> text::white(#[trigger] s[i])),
{
    skip_white_bounds(s, 0);
    let lo = skip_white(s, 0);
    back_white_bounds(s, lo, s.len() as int);
    if blank(s) {
        if lo < s.len() {
            let hi = back_white(s, lo, s.len() as int);
            assert(hi == lo);
            assert(text::white(s[lo]));
        }
    } else if forall|i: int| 0 <= i < s.len() ==> text::white(#[trigger] s[i]) {
        if lo < s.len() {
            assert(text::white(s[lo]));
        }
    }
}

// ---------------------------------------------------------------------------
// Splitting and joining
// ---------------------------------------------------------------------------

/// One line of `s`: the characters `a..b`, where `b` is the position of the line
/// feed that ends it or the length of `s`. The carriage return of a `\r\n` ending
/// is not part of the line.
pub open spec fn line_at(s: Seq<char>, a: int, b: int) -> Seq<char> {
    if b < s.len() && a < b && s[b - 1] == '\r' {
        s.subrange(a, b - 1)
    } else {
        s.subrange(a, b)
    }
}

/// The lines of `s` from position `i` on. A line feed at the very end starts no
/// further line.
pub open spec fn lines_from(s: Seq<char>, i: int) -> Seq<Seq<char>>
    decreases s.len() + 1 - i,
{
    if i < 0 || i >= s.len() {
        Seq::empty()
    } else {
        let n = seek(s, '\n', i);
        proof {
            seek_spec(s, '\n', i);
        }
        seq![line_at(s, i, n)] + lines_from(s, n + 1)
    }
}

/// The lines of a text.
pub open spec fn lines(s: Seq<char>) -> Seq<Seq<char>> {
    lines_from(s, 0)
}

/// The lines of a text.
pub fn text_lines(s: &str) -> (r: Vec<String>)
    ensures
        text::texts(r@) == lines(s@),
{
    let c = text::to_chars(s);
    let mut r: Vec<String> = Vec::new();
    let mut i: usize = 0;
    assert(text::texts(r@) + lines_from(s@, 0) =~= lines(s@));
    while i < c.len()
        invariant
            c@ == s@,
            i <= c@.len(),
            text::texts(r@) + lines_from(s@, i as int) == lines(s@),
        decreases c.len() - i,
    {
        let n: usize = seek_char(&c, '\n', i);
        let mut end: usize = n;
        if n < c.len() && i < n && c[n - 1] == '\r' {
            end = n - 1;
        }
        let line = text::slice_text(&c, i, end);
        let ghost before = r@;
        r.push(line);
        proof {
            text::texts_push(before, line);
            assert(text::texts(r@) + lines_from(s@, n + 1) =~= text::texts(before) + lines_from(s@, i as int));
        }
        if n < c.len() {
            i = n + 1;
        } else {
            i = n;
            assert(lines_from(s@, n + 1) =~= lines_from(s@, n as int));
        }
    }
    assert(text::texts(r@) =~= lines(s@));
    r
}

/// The runs of characters without white space from position `i` on.
pub open spec fn words_from(s: Seq<char>, i: int) -> Seq<Seq<char>>
    decreases s.len() - i,
{
    let a = skip_white(s, i);
    if i < 0 || i >= s.len() || a >= s.len() {
        Seq::empty()
    } else {
        let b = skip_word(s, a);
        proof {
            skip_white_bounds(s, i);
            skip_word_bounds(s, a);
        }
        if b > i {
            seq![s.subrange(a, b)] + words_from(s, b)
        } else {
            Seq::empty()
        }
    }
}

/// The words of a text: its maximal runs of characters without white space.
pub open spec fn words(s: Seq<char>) -> Seq<Seq<char>> {
    words_from(s, 0)
}

/// The words of a text.
pub fn text_words(s: &str) -> (r: Vec<String>)
    ensures
        text::texts(r@) == words(s@),
{
    let c = text::to_chars(s);
    let mut r: Vec<String> = Vec::new();
    let mut i: usize = 0;
    assert(text::texts(r@) + words_from(s@, 0) =~= words(s@));
    while i < c.len()
        invariant
            c@ == s@,
            i <= c@.len(),
            text::texts(r@) + words_from(s@, i as int) == words(s@),
        decreases c.len() - i,
    {
        let a: usize = after_white(&c, i);
        if a >= c.len() {
            assert(text::texts(r@) =~= words(s@));
            return r;
        }
        let b: usize = after_word(&c, a);
        proof {
            skip_white_bounds(s@, i as int);
            skip_word_bounds(s@, a as int);
        }
        let word = text::slice_text(&c, a, b);
        let ghost before = r@;
        r.push(word);
        proof {
            text::texts_push(before, word);
            assert(text::texts(r@) + words_from(s@, b as int) =~= text::texts(before) + words_from(
                s@,
                i as int,
            ));
        }
        i = b;
    }
    assert(text::texts(r@) =~= words(s@));
    r
}

/// The parts of `s` between the characters `c`, from position `i` on.
pub open spec fn split_from(s: Seq<char>, c: char, i: int) -> Seq<Seq<char>>
    decreases s.len() + 1 - i,
{
    if i < 0 || i > s.len() {
        Seq::empty()
    } else {
        let n = seek(s, c, i);
        proof {
            seek_spec(s, c, i);
        }
        seq![s.subrange(i, n)] + split_from(s, c, n + 1)
    }
}

/// The parts of a text between the occurrences of a character, with the empty ones.
pub open spec fn split(s: Seq<char>, c: char) -> Seq<Seq<char>> {
    split_from(s, c, 0)
}

/// The parts of a text between the occurrences of a character.
pub fn split_text(s: &str, c: char) -> (r: Vec<String>)
    ensures
        text::texts(r@) == split(s@, c),
        r@.len() >= 1,
{
    let chars = text::to_chars(s);
    let mut r: Vec<String> = Vec::new();
    let mut i: usize = 0;
    let mut more = true;
    assert(text::texts(r@) + split_from(s@, c, 0) =~= split(s@, c));
    while more
        invariant
            chars@ == s@,
            i <= s@.len(),
            more ==> text::texts(r@) + split_from(s@, c, i as int) == split(s@, c),
            !more ==> text::texts(r@) == split(s@, c) && r@.len() >= 1,
        decreases (if more { 1 + s@.len() - i } else { 0 }),
    {
        let n: usize = seek_char(&chars, c, i);
        let part = text::slice_text(&chars, i, n);
        let ghost before = r@;
        r.push(part);
        proof {
            text::texts_push(before, part);
            assert(text::texts(r@) + split_from(s@, c, n + 1) =~= text::texts(before) + split_from(
                s@,
                c,
                i as int,
            ));
        }
        if n < chars.len() {
            i = n + 1;
        } else {
            assert(split_from(s@, c, n + 1) =~= Seq::empty());
            assert(text::texts(r@) =~= split(s@, c));
            more = false;
        }
    }
    r
}

/// The parts with `sep` between each two.
pub open spec fn join(parts: Seq<Seq<char>>, sep: Seq<char>) -> Seq<char>
    decreases parts.len(),
{
    if parts.len() == 0 {
        Seq::empty()
    } else if parts.len() == 1 {
        parts[0]
    } else {
        join(parts.drop_last(), sep) + sep + parts.last()
    }
}

/// The parts with `sep` between each two.
pub fn join_texts(parts: &Vec<String>, sep: &str) -> (r: String)
    ensures
        r@ == join(text::texts(parts@), sep@),
{
    let mut r = String::new();
    for i in 0..parts.len()
        invariant
            r@ == join(text::texts(parts@).take(i as int), sep@),
    {
        if i > 0 {
            r.append(sep);
        }
        let ghost before = r@;
        r.append(parts[i].as_str());
        proof {
            let t = text::texts(parts@).take(i + 1);
            assert(t.drop_last() =~= text::texts(parts@).take(i as int));
            assert(t.last() == parts@[i as int]@);
            if i == 0 {
                assert(r@ =~= t[0]);
            }
        }
    }
    assert(text::texts(parts@).take(parts@.len() as int) =~= text::texts(parts@));
    r
}

// ---------------------------------------------------------------------------
// Decimal numbers
// ---------------------------------------------------------------------------

/// The character of a decimal digit.
pub open spec fn digit_char(d: nat) -> char {
    if d == 0 {
        '0'
    } else if d == 1 {
        '1'
    } else if d == 2 {
        '2'
    } else if d == 3 {
        '3'
    } else if d == 4 {
        '4'
    } else if d == 5 {
        '5'
    } else if d == 6 {
        '6'
    } else if d == 7 {
        '7'
    } else if d == 8 {
        '8'
    } else {
        '9'
    }
}

/// A number in decimal, without leading zeros.
pub open spec fn decimal(n: nat) -> Seq<char>
    decreases n,
{
    if n < 10 {
        seq![digit_char(n)]
    } else {
        decimal(n / 10).push(digit_char(n % 10))
    }
}

fn digit(d: u64) -> (c: char)
    requires
        d < 10,
    ensures
        c == digit_char(d as nat),
{
    if d == 0 {
        '0'
    } else if d == 1 {
        '1'
    } else if d == 2 {
        '2'
    } else if d == 3 {
        '3'
    } else if d == 4 {
        '4'
    } else if d == 5 {
        '5'
    } else if d == 6 {
        '6'
    } else if d == 7 {
        '7'
    } else if d == 8 {
        '8'
    } else {
        '9'
    }
}

/// A number in decimal.
pub fn decimal_text(n: u64) -> (s: String)
    ensures
        s@ == decimal(n as nat),
    decreases n,
{
    if n < 10 {
        let mut s = String::new();
        s.push(digit(n));
        assert(s@ =~= decimal(n as nat));
        s
    } else {
        let mut s = decimal_text(n / 10);
        s.push(digit(n % 10));
        s
    }
}

/// Whether a character is a decimal digit.
pub open spec fn is_digit(c: char) -> bool {
    '0' <= c <= '9'
}

/// The number that digits stand for.
pub open spec fn digits_value(s: Seq<char>) -> nat
    decreases s.len(),
{
    if s.len() == 0 {
        0
    } else {
        digits_value(s.drop_last()) * 10 + ((s.last() as u32) - 48) as nat
    }
}

/// Whether a text is one or more decimal digits.
pub open spec fn all_digits(s: Seq<char>) -> bool {
    s.len() > 0 && forall|i: int| 0 <= i < s.len() ==> is_digit(#[trigger] s[i])
}

/// The digits of a number as it is read: after a leading plus sign, if there is one.
pub open spec fn unsigned(s: Seq<char>) -> Seq<char> {
    if s.len() > 0 && s[0] == '+' {
        s.skip(1)
    } else {
        s
    }
}

/// The number that a text stands for: an optional plus sign and decimal digits
/// whose value is at most `max`.
pub open spec fn parse_up_to(s: Seq<char>, max: nat) -> Option<nat> {
    let t = unsigned(s);
    if all_digits(t) && digits_value(t) <= max {
        Some(digits_value(t))
    } else {
        None
    }
}

proof fn digits_value_grows(s: Seq<char>, k: int)
    requires
        0 <= k <= s.len(),
        forall|i: int| 0 <= i < s.len() ==> is_digit(#[trigger] s[i]),
    ensures
        digits_value(s.take(k)) <= digits_value(s),
    decreases s.len(),
{
    if k < s.len() {
        assert(s.drop_last().take(k) =~= s.take(k));
        digits_value_grows(s.drop_last(), k);
        let d = ((s.last() as u32) - 48) as nat;
        assert(digits_value(s) == digits_value(s.drop_last()) * 10 + d);
    } else {
        assert(s.take(k) =~= s);
    }
}

/// The number that a text stands for, if it is one and at most `max`.
pub fn parse_number(s: &str, max: u64) -> (r: Option<u64>)
    ensures
        match r {
            Some(n) => parse_up_to(s@, max as nat) == Some(n as nat),
            None => parse_up_to(s@, max as nat) == None::<nat>,
        },
{
    let c = text::to_chars(s);
    let mut from: usize = 0;
    if c.len() > 0 && c[0] == '+' {
        from = 1;
    }
    let ghost t = unsigned(s@);
    assert(t =~= c@.skip(from as int));
    if from == c.len() {
        return None;
    }
    let mut n: u64 = 0;
    let mut i: usize = from;
    assert(t.take(0) =~= Seq::empty());
    while i < c.len()
        invariant
            c@ == s@,
            from <= i <= c@.len(),
            t == unsigned(s@),
            t == c@.skip(from as int),
            n == digits_value(t.take(i - from)),
            n <= max,
            forall|j: int| 0 <= j < i - from ==> is_digit(#[trigger] t[j]),
        decreases c.len() - i,
    {
        let ch = c[i];
        assert(t[i - from] == ch);
        if !('0' <= ch && ch <= '9') {
            return None;
        }
        let d: u64 = (ch as u32 - 48) as u64;
        proof {
            let w = t.take(i - from + 1);
            assert(w.drop_last() =~= t.take(i - from));
            assert(w.last() == ch);
            if all_digits(t) {
                digits_value_grows(t, i - from + 1);
            }
        }
        if n > (max - 0) / 10 {
            proof {
                assert(n as int >= max as int / 10 + 1);
                assert(n * 10 > max);
            }
            return None;
        }
        assert(n * 10 <= max);
        if max - n * 10 < d {
            return None;
        }
        n = n * 10 + d;
        i = i + 1;
    }
    assert(t.take(t.len() as int) =~= t);
    Some(n)
}

// ---------------------------------------------------------------------------
// Cutting and padding
// ---------------------------------------------------------------------------

/// The first `n` characters, or all of a shorter text.
pub open spec fn first_chars(s: Seq<char>, n: int) -> Seq<char> {
    if s.len() <= n {
        s
    } else {
        s.take(n)
    }
}

/// The first `n` characters, or all of a shorter text.
pub fn take_chars(s: &str, n: usize) -> (r: String)
    ensures
        r@ == first_chars(s@, n as int),
{
    let c = text::to_chars(s);
    if c.len() <= n {
        text::copy_text(s)
    } else {
        let r = text::slice_text(&c, 0, n);
        assert(r@ =~= s@.take(n as int));
        r
    }
}

/// The number of characters of a text.
pub fn count_chars(s: &str) -> (r: usize)
    ensures
        r == s@.len(),
{
    let c = text::to_chars(s);
    c.len()
}

/// A character `n` times.
pub open spec fn repeat_char(c: char, n: int) -> Seq<char> {
    Seq::new(
        (if n >= 0 {
            n
        } else {
            0
        }) as nat,
        |i: int| c,
    )
}

/// A character `n` times.
pub fn repeat_text(c: char, n: usize) -> (r: String)
    ensures
        r@ == repeat_char(c, n as int),
{
    let mut r = String::new();
    for i in 0..n
        invariant
            r@ == repeat_char(c, i as int),
    {
        r.push(c);
        assert(r@ =~= repeat_char(c, i + 1));
    }
    r
}

/// A text with blanks after it up to `n` characters.
pub open spec fn pad_right(s: Seq<char>, n: int) -> Seq<char> {
    s + repeat_char(' ', n - s.len())
}

/// A text with blanks before it up to `n` characters.
pub open spec fn pad_left(s: Seq<char>, n: int) -> Seq<char> {
    repeat_char(' ', n - s.len()) + s
}

/// A text with blanks after it up to `n` characters.
pub fn pad_right_text(s: &str, n: usize) -> (r: String)
    ensures
        r@ == pad_right(s@, n as int),
{
    let len: usize = count_chars(s);
    let blanks = repeat_text(
        ' ',
        if len < n {
            n - len
        } else {
            0
        },
    );
    assert(blanks@ =~= repeat_char(' ', n - s@.len()));
    text::cat2(s, blanks.as_str())
}

/// A text with blanks before it up to `n` characters.
pub fn pad_left_text(s: &str, n: usize) -> (r: String)
    ensures
        r@ == pad_left(s@, n as int),
{
    let len: usize = count_chars(s);
    let blanks = repeat_text(
        ' ',
        if len < n {
            n - len
        } else {
            0
        },
    );
    assert(blanks@ =~= repeat_char(' ', n - s@.len()));
    text::cat2(blanks.as_str(), s)
}

/// The first line of a text; nothing where it has none.
pub open spec fn first_line(s: Seq<char>) -> Seq<char> {
    if lines(s).len() > 0 {
        lines(s)[0]
    } else {
        Seq::empty()
    }
}

/// The first line of a text; nothing where it has none.
pub fn first_line_text(s: &str) -> (r: String)
    ensures
        r@ == first_line(s@),
{
    let list = text_lines(s);
    if list.len() > 0 {
        assert(text::texts(list@)[0] == list@[0]@);
        text::copy_text(list[0].as_str())
    } else {
        assert(lines(s@).len() == 0);
        String::new()
    }
}

} // verus!
