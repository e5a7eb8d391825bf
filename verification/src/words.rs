//! Moving by characters and by words.

use crate::caret;
use crate::text;
use vstd::prelude::*;

verus! {

/// Letters, digits and the underscore make words.
pub open spec fn word_char(c: char) -> bool {
    text::alnum(c) || c == '_'
}

/// Whether a character belongs to a word.
pub fn is_word_char(value: char) -> (r: bool)
    ensures
        r == word_char(value),
{
    text::is_alnum(value) || value == '_'
}

/// Back from `k` over characters that are (`in_word`) or are not part of a word.
pub open spec fn back_over(s: Seq<char>, k: int, in_word: bool) -> int
    decreases k,
{
    if 0 < k <= s.len() && word_char(s[k - 1]) == in_word {
        back_over(s, k - 1, in_word)
    } else {
        k
    }
}

/// Forward from `k` over characters that are (`in_word`) or are not part of a word.
pub open spec fn on_over(s: Seq<char>, k: int, in_word: bool) -> int
    decreases s.len() - k,
{
    if 0 <= k < s.len() && word_char(s[k]) == in_word {
        on_over(s, k + 1, in_word)
    } else {
        k
    }
}

/// The start of the word before `k`: back over what is no word, then over a word.
pub open spec fn word_start(s: Seq<char>, k: int) -> int {
    back_over(s, back_over(s, k, false), true)
}

/// The end of the word after `k`: on over what is no word, then over a word.
pub open spec fn word_end(s: Seq<char>, k: int) -> int {
    on_over(s, on_over(s, k, false), true)
}

pub proof fn back_over_bounds(s: Seq<char>, k: int, in_word: bool)
    requires
        0 <= k <= s.len(),
    ensures
        0 <= back_over(s, k, in_word) <= k,
        forall|j: int| back_over(s, k, in_word) <= j < k ==> word_char(s[j]) == in_word,
        back_over(s, k, in_word) > 0 ==> word_char(s[back_over(s, k, in_word) - 1]) != in_word,
    decreases k,
{
    if 0 < k && word_char(s[k - 1]) == in_word {
        back_over_bounds(s, k - 1, in_word);
    }
}

pub proof fn on_over_bounds(s: Seq<char>, k: int, in_word: bool)
    requires
        0 <= k <= s.len(),
    ensures
        k <= on_over(s, k, in_word) <= s.len(),
        forall|j: int| k <= j < on_over(s, k, in_word) ==> word_char(s[j]) == in_word,
        on_over(s, k, in_word) < s.len() ==> word_char(s[on_over(s, k, in_word)]) != in_word,
    decreases s.len() - k,
{
    if k < s.len() && word_char(s[k]) == in_word {
        on_over_bounds(s, k + 1, in_word);
    }
}

/// The start of the word before character `k`.
pub fn find_word_start(s: &Vec<char>, k: usize) -> (r: usize)
    requires
        k <= s@.len(),
    ensures
        r == word_start(s@, k as int),
        r <= k,
{
    let mut i: usize = k;
    while i > 0 && !is_word_char(s[i - 1])
        invariant
            i <= k <= s@.len(),
            back_over(s@, k as int, false) == back_over(s@, i as int, false),
        decreases i,
    {
        i = i - 1;
    }
    let mid: usize = i;
    while i > 0 && is_word_char(s[i - 1])
        invariant
            i <= mid <= k <= s@.len(),
            back_over(s@, mid as int, true) == back_over(s@, i as int, true),
        decreases i,
    {
        i = i - 1;
    }
    i
}

/// The end of the word after character `k`.
pub fn find_word_end(s: &Vec<char>, k: usize) -> (r: usize)
    requires
        k <= s@.len(),
    ensures
        r == word_end(s@, k as int),
        k <= r <= s@.len(),
{
    let mut i: usize = k;
    while i < s.len() && !is_word_char(s[i])
        invariant
            k <= i <= s@.len(),
            on_over(s@, k as int, false) == on_over(s@, i as int, false),
        decreases s.len() - i,
    {
        i = i + 1;
    }
    let mid: usize = i;
    while i < s.len() && is_word_char(s[i])
        invariant
            k <= mid <= i <= s@.len(),
            on_over(s@, mid as int, true) == on_over(s@, i as int, true),
        decreases s.len() - i,
    {
        i = i + 1;
    }
    i
}

/// The character index that a byte offset clamped to the text stands at.
pub open spec fn clamped_index(s: Seq<char>, cursor: int) -> int {
    if cursor >= caret::byte_len(s) {
        s.len() as int
    } else {
        caret::index_at(s, cursor)
    }
}

fn index_of(input: &str, cursor: usize) -> (r: (Vec<char>, usize))
    requires
        cursor >= caret::byte_len(input@) || caret::boundary(input@, cursor as int),
    ensures
        r.0@ == input@,
        r.1 == clamped_index(input@, cursor as int),
        r.1 <= input@.len(),
        caret::byte_len(input@) <= usize::MAX,
{
    let chars = text::to_chars(input);
    let len: usize = caret::text_len(input);
    if cursor >= len {
        let n: usize = chars.len();
        (chars, n)
    } else {
        match caret::char_index(&chars, cursor) {
            Some(k) => (chars, k),
            None => {
                assert(false);
                (chars, 0)
            },
        }
    }
}

/// The boundary before `cursor`: one character back, or the start of the text.
pub fn previous_boundary(input: &str, cursor: usize) -> (r: usize)
    requires
        caret::boundary(input@, cursor as int),
    ensures
        r == caret::offset(input@, if caret::index_at(input@, cursor as int) > 0 {
            caret::index_at(input@, cursor as int) - 1
        } else {
            0
        }),
{
    let chars = text::to_chars(input);
    let len: usize = caret::text_len(input);
    match caret::char_index(&chars, cursor) {
        Some(k) => {
            if k > 0 {
                caret::byte_offset(&chars, k - 1)
            } else {
                0
            }
        },
        None => 0,
    }
}

/// The boundary after `cursor`: one character on, or `cursor` at the end of the text.
pub fn next_boundary(input: &str, cursor: usize) -> (r: usize)
    requires
        caret::boundary(input@, cursor as int),
    ensures
        r == caret::offset(input@, if caret::index_at(input@, cursor as int) < input@.len() {
            caret::index_at(input@, cursor as int) + 1
        } else {
            input@.len() as int
        }),
{
    let chars = text::to_chars(input);
    let len: usize = caret::text_len(input);
    match caret::char_index(&chars, cursor) {
        Some(k) => {
            if k < chars.len() {
                caret::byte_offset(&chars, k + 1)
            } else {
                cursor
            }
        },
        None => 0,
    }
}

/// The start of the word before `cursor`; an offset past the end counts as the end.
pub fn prev_word_boundary(input: &str, cursor: usize) -> (r: usize)
    requires
        cursor >= caret::byte_len(input@) || caret::boundary(input@, cursor as int),
    ensures
        r == caret::offset(input@, word_start(input@, clamped_index(input@, cursor as int))),
{
    let (chars, k) = index_of(input, cursor);
    let i: usize = find_word_start(&chars, k);
    caret::byte_offset(&chars, i)
}

/// The end of the word after `cursor`; an offset past the end counts as the end.
pub fn next_word_boundary(input: &str, cursor: usize) -> (r: usize)
    requires
        cursor >= caret::byte_len(input@) || caret::boundary(input@, cursor as int),
    ensures
        r == caret::offset(input@, word_end(input@, clamped_index(input@, cursor as int))),
{
    let (chars, k) = index_of(input, cursor);
    let i: usize = find_word_end(&chars, k);
    caret::byte_offset(&chars, i)
}

/// How many lines a page key scrolls in a transcript of the given height.
pub open spec fn page_lines(height: u16) -> int {
    if height >= 5 {
        height - 2
    } else {
        3
    }
}

/// How many lines a page key scrolls in a transcript of the given height.
pub fn page_step(height: u16) -> (r: usize)
    ensures
        r == page_lines(height),
{
    if height >= 5 {
        height as usize - 2
    } else {
        3
    }
}

} // verus!
