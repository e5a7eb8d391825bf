//! Positions in text. A cursor is a byte offset into the UTF-8 form of a text and
//! always stands between two characters.

use vstd::prelude::*;
use vstd::string::*;
use vstd::utf8::*;

verus! {

/// How many bytes the UTF-8 form of a character takes.
pub open spec fn width(c: char) -> nat {
    let n = c as u32;
    if n < 0x80 {
        1
    } else if n < 0x800 {
        2
    } else if n < 0x10000 {
        3
    } else {
        4
    }
}

/// The byte offset of the `k`-th character.
pub open spec fn offset(s: Seq<char>, k: int) -> nat
    decreases k,
{
    if k <= 0 {
        0
    } else {
        offset(s, k - 1) + width(s[k - 1])
    }
}

/// The number of bytes of a text.
pub open spec fn byte_len(s: Seq<char>) -> nat {
    offset(s, s.len() as int)
}

/// Whether the byte offset `b` stands before the `k`-th character of `s`, or at its
/// end where `k` is the length.
pub open spec fn is_at(s: Seq<char>, b: int, k: int) -> bool {
    0 <= k <= s.len() && offset(s, k) == b
}

/// Whether a byte offset stands between two characters of `s`, or at an end.
pub open spec fn boundary(s: Seq<char>, b: int) -> bool {
    exists|k: int| is_at(s, b, k)
}

/// Which character the byte offset `b` stands before.
pub open spec fn index_at(s: Seq<char>, b: int) -> int {
    choose|k: int| is_at(s, b, k)
}

/// Offsets grow with every character.
pub proof fn offset_grows(s: Seq<char>, i: int, j: int)
    requires
        0 <= i <= j,
    ensures
        offset(s, i) + (j - i) <= offset(s, j),
        offset(s, j) <= offset(s, i) + 4 * (j - i),
    decreases j,
{
    if i < j {
        offset_grows(s, i, j - 1);
    }
}

/// A boundary stands before one character only.
pub proof fn index_unique(s: Seq<char>, k: int)
    requires
        0 <= k <= s.len(),
    ensures
        boundary(s, offset(s, k) as int),
        index_at(s, offset(s, k) as int) == k,
{
    let b = offset(s, k) as int;
    assert(is_at(s, b, k));
    let i = index_at(s, b);
    assert(is_at(s, b, i));
    if i < k {
        offset_grows(s, i, k);
    } else {
        offset_grows(s, k, i);
    }
}

/// The offset depends on the characters before it only.
pub proof fn offset_prefix(a: Seq<char>, b: Seq<char>, k: int)
    requires
        forall|i: int| 0 <= i < k ==> a[i] == b[i],
    ensures
        offset(a, k) == offset(b, k),
    decreases k,
{
    if k > 0 {
        offset_prefix(a, b, k - 1);
    }
}

/// Offsets into the second of two texts that stand one after the other.
pub proof fn offset_concat(a: Seq<char>, b: Seq<char>, j: int)
    requires
        0 <= j <= b.len(),
    ensures
        offset(a + b, a.len() + j) == byte_len(a) + offset(b, j),
    decreases j,
{
    if j == 0 {
        offset_prefix(a + b, a, a.len() as int);
    } else {
        offset_concat(a, b, j - 1);
    }
}

/// The offset of the `k`-th character is the length of the text before it.
pub proof fn offset_is_prefix_len(s: Seq<char>, k: int)
    requires
        0 <= k <= s.len(),
    ensures
        offset(s, k) == byte_len(s.take(k)),
{
    offset_prefix(s, s.take(k), k);
}

proof fn encoded_width(c: char)
    ensures
        encode_scalar(c as u32).len() == width(c),
{
}

/// `byte_len` is the length of the UTF-8 encoding.
pub proof fn byte_len_is_utf8_len(s: Seq<char>)
    ensures
        byte_len(s) == encode_utf8(s).len(),
    decreases s.len(),
{
    if s.len() > 0 {
        let head = seq![s[0]];
        let tail = s.drop_first();
        assert(head + tail =~= s);
        offset_concat(head, tail, tail.len() as int);
        assert(offset(head, 0) == 0);
        assert(byte_len(head) == width(s[0]));
        byte_len_is_utf8_len(tail);
        encoded_width(s[0]);
    }
}

/// The number of bytes of a text.
pub fn text_len(s: &str) -> (r: usize)
    ensures
        r == byte_len(s@),
{
    proof {
        byte_len_is_utf8_len(s@);
    }
    s.as_bytes().len()
}

/// How many bytes the UTF-8 form of a character takes.
pub fn char_len(c: char) -> (r: usize)
    ensures
        r == width(c),
{
    let n: u32 = c as u32;
    if n < 0x80 {
        1
    } else if n < 0x800 {
        2
    } else if n < 0x10000 {
        3
    } else {
        4
    }
}

/// Which character a byte offset stands before, if it is a boundary.
pub fn char_index(s: &Vec<char>, b: usize) -> (r: Option<usize>)
    ensures
        match r {
            Some(k) => is_at(s@, b as int, k as int) && k == index_at(s@, b as int),
            None => !boundary(s@, b as int),
        },
{
    let mut at: usize = 0;
    let mut k: usize = 0;
    while at < b && k < s.len()
        invariant
            k <= s@.len(),
            at == offset(s@, k as int),
            at <= b,
        decreases s.len() - k,
    {
        let w: usize = char_len(s[k]);
        if b - at < w {
            proof {
                assert forall|j: int| !is_at(s@, b as int, j) by {
                    if 0 <= j <= s@.len() {
                        if j <= k {
                            offset_grows(s@, j, k as int);
                        } else {
                            offset_grows(s@, k + 1, j);
                            assert(offset(s@, k + 1) == at + w);
                        }
                    }
                }
            }
            return None;
        }
        at = at + w;
        k = k + 1;
    }
    if at == b {
        proof {
            index_unique(s@, k as int);
        }
        Some(k)
    } else {
        proof {
            assert forall|j: int| !is_at(s@, b as int, j) by {
                if 0 <= j <= s@.len() {
                    offset_grows(s@, j, s@.len() as int);
                }
            }
        }
        None
    }
}

/// The byte offset of the `k`-th character.
pub fn byte_offset(s: &Vec<char>, k: usize) -> (r: usize)
    requires
        k <= s@.len(),
        byte_len(s@) <= usize::MAX,
    ensures
        r == offset(s@, k as int),
{
    let mut at: usize = 0;
    for i in 0..k
        invariant
            k <= s@.len(),
            byte_len(s@) <= usize::MAX,
            at == offset(s@, i as int),
    {
        proof {
            offset_grows(s@, i + 1, s@.len() as int);
        }
        at = at + char_len(s[i]);
    }
    at
}

} // verus!
