//! Shell-aware colours in the composer, and the cell of its cursor.

use crate::paint::{Color, Span, SpanView, Style};
use crate::paint;
use crate::scan;
use crate::text;
use vstd::prelude::*;

verus! {

/// What a part of a shell line is.
#[derive(Debug, Clone, Copy, PartialEq, Eq, Structural)]
pub enum ShellPiece {
    Plain,
    Command,
    Flag,
    Str,
    Op,
}

/// How each part of a shell line is drawn.
pub open spec fn style_of(piece: ShellPiece) -> Style {
    match piece {
        ShellPiece::Plain => paint::plain(),
        ShellPiece::Command => paint::colored(Color::Cyan),
        ShellPiece::Flag => paint::colored(Color::Yellow),
        ShellPiece::Str => paint::colored(Color::Green),
        ShellPiece::Op => paint::colored(Color::Magenta),
    }
}

/// How each part of a shell line is drawn.
pub fn piece_style(piece: ShellPiece) -> (r: Style)
    ensures
        r == style_of(piece),
{
    match piece {
        ShellPiece::Plain => Style::raw(),
        ShellPiece::Command => Style::of(Color::Cyan),
        ShellPiece::Flag => Style::of(Color::Yellow),
        ShellPiece::Str => Style::of(Color::Green),
        ShellPiece::Op => Style::of(Color::Magenta),
    }
}

/// The characters `start..end` of a line and what they are.
#[derive(Debug, Clone, Copy, PartialEq, Eq, Structural)]
pub struct Piece {
    pub start: usize,
    pub end: usize,
    pub kind: ShellPiece,
}

/// Words that run the command after them.
pub open spec fn is_wrapper(word: Seq<char>) -> bool {
    ||| word == "sudo"@
    ||| word == "doas"@
    ||| word == "env"@
    ||| word == "nice"@
    ||| word == "time"@
    ||| word == "nohup"@
}

fn is_wrapper_word(word: &Vec<char>) -> (r: bool)
    ensures
        r == is_wrapper(word@),
{
    let w = text::from_chars(word);
    text::same_text(w.as_str(), "sudo") || text::same_text(w.as_str(), "doas") || text::same_text(w.as_str(), "env")
        || text::same_text(w.as_str(), "nice") || text::same_text(w.as_str(), "time") || text::same_text(
        w.as_str(),
        "nohup",
    )
}

/// Operators: pipes, separators and redirects.
pub open spec fn is_op(c: char) -> bool {
    c == '|' || c == '&' || c == ';' || c == '>' || c == '<'
}

/// Where the reading of a shell line stands: the part that is open and where it
/// began, whether a word is open, whether a command is due, and the last word.
pub struct Reading {
    pub start: int,
    pub kind: ShellPiece,
    pub in_word: bool,
    pub due: bool,
    pub word: Seq<char>,
}

/// The part that ends at `end`, unless it is empty.
pub open spec fn closed_piece(r: Reading, end: int) -> Seq<Piece> {
    if end > r.start {
        seq![Piece { start: r.start as usize, end: end as usize, kind: r.kind }]
    } else {
        Seq::empty()
    }
}

/// The position after a quoted string that opens at `i`.
pub open spec fn after_quote(s: Seq<char>, i: int) -> int {
    let close = scan::seek(s, s[i], i + 1);
    if close < s.len() {
        close + 1
    } else {
        s.len() as int
    }
}

/// The parts of a line from `i` on. A quoted string is one part up to its closing
/// quote; an operator may be doubled; the first word, and the first after a pipe, a
/// separator or a wrapper, is a command; a word that begins with a dash is a flag. What
/// follows a redirect is no command.
pub open spec fn pieces_from(s: Seq<char>, i: int, r: Reading) -> Seq<Piece>
    decreases s.len() - i,
{
    if i < 0 || i >= s.len() {
        closed_piece(r, s.len() as int)
    } else if s[i] == '\'' || s[i] == '"' {
        proof {
            scan::seek_spec(s, s[i], i + 1);
        }
        closed_piece(r, i) + pieces_from(
            s,
            after_quote(s, i),
            Reading {
                start: i,
                kind: ShellPiece::Str,
                in_word: true,
                due: false,
                word: Seq::empty(),
            },
        )
    } else if is_op(s[i]) {
        closed_piece(r, i) + pieces_from(
            s,
            if i + 1 < s.len() && s[i + 1] == s[i] {
                i + 2
            } else {
                i + 1
            },
            Reading {
                start: i,
                kind: ShellPiece::Op,
                in_word: false,
                due: s[i] == '|' || s[i] == '&' || s[i] == ';',
                word: Seq::empty(),
            },
        )
    } else if text::white(s[i]) {
        closed_piece(r, i) + pieces_from(
            s,
            i + 1,
            Reading { start: i, kind: ShellPiece::Plain, in_word: false, ..r },
        )
    } else if !r.in_word {
        let wrapped = is_wrapper(r.word);
        closed_piece(r, i) + pieces_from(
            s,
            i + 1,
            Reading {
                start: i,
                kind: if r.due || wrapped {
                    ShellPiece::Command
                } else if s[i] == '-' {
                    ShellPiece::Flag
                } else {
                    ShellPiece::Plain
                },
                in_word: true,
                due: false,
                word: seq![s[i]],
            },
        )
    } else {
        pieces_from(s, i + 1, Reading { word: r.word.push(s[i]), ..r })
    }
}

/// The state at the start of a line.
pub open spec fn at_start() -> Reading {
    Reading {
        start: 0,
        kind: ShellPiece::Plain,
        in_word: false,
        due: true,
        word: Seq::empty(),
    }
}

/// The parts of a shell line.
pub open spec fn pieces_of(s: Seq<char>) -> Seq<Piece> {
    pieces_from(s, 0, at_start())
}

fn flush(pieces: &mut Vec<Piece>, start: usize, end: usize, kind: ShellPiece)
    ensures
        final(pieces)@ == old(pieces)@ + (if end > start {
            seq![Piece { start: start, end: end, kind: kind }]
        } else {
            Seq::empty()
        }),
{
    if end > start {
        pieces.push(Piece { start, end, kind });
    }
    assert(pieces@ =~= old(pieces)@ + (if end > start {
        seq![Piece { start: start, end: end, kind: kind }]
    } else {
        Seq::empty()
    }));
}

/// Classifies the parts of a shell line.
pub fn shell_pieces(s: &Vec<char>) -> (r: Vec<Piece>)
    ensures
        r@ == pieces_of(s@),
{
    let mut pieces: Vec<Piece> = Vec::new();
    let mut start: usize = 0;
    let mut kind = ShellPiece::Plain;
    let mut in_word = false;
    let mut due = true;
    let mut word: Vec<char> = Vec::new();
    let mut i: usize = 0;
    assert(word@ =~= Seq::<char>::empty());
    assert(pieces@ + pieces_of(s@) =~= pieces_of(s@));
    while i < s.len()
        invariant
            start <= i <= s@.len(),
            pieces@ + pieces_from(
                s@,
                i as int,
                Reading { start: start as int, kind: kind, in_word: in_word, due: due, word: word@ },
            ) == pieces_of(s@),
        decreases s.len() - i,
    {
        let c = s[i];
        let ghost before = pieces@;
        let ghost was = Reading {
            start: start as int,
            kind: kind,
            in_word: in_word,
            due: due,
            word: word@,
        };
        let mut next: usize = i + 1;
        if c == '\'' || c == '"' {
            flush(&mut pieces, start, i, kind);
            start = i;
            kind = ShellPiece::Str;
            let close: usize = scan::seek_char(s, c, i + 1);
            next = if close < s.len() {
                close + 1
            } else {
                s.len()
            };
            in_word = true;
            due = false;
            word = Vec::new();
            assert(word@ =~= Seq::<char>::empty());
        } else if c == '|' || c == '&' || c == ';' || c == '>' || c == '<' {
            flush(&mut pieces, start, i, kind);
            start = i;
            kind = ShellPiece::Op;
            if i + 1 < s.len() && s[i + 1] == c {
                next = i + 2;
            }
            in_word = false;
            due = c == '|' || c == '&' || c == ';';
            word = Vec::new();
            assert(word@ =~= Seq::<char>::empty());
        } else if text::is_white(c) {
            flush(&mut pieces, start, i, kind);
            start = i;
            kind = ShellPiece::Plain;
            in_word = false;
        } else {
            if !in_word {
                flush(&mut pieces, start, i, kind);
                start = i;
                let wrapper = is_wrapper_word(&word);
                if due || wrapper {
                    kind = ShellPiece::Command;
                    due = false;
                } else if c == '-' {
                    kind = ShellPiece::Flag;
                } else {
                    kind = ShellPiece::Plain;
                }
                in_word = true;
                word = Vec::new();
            }
            word.push(c);
            assert(!was.in_word ==> word@ =~= seq![c]);
        }
        proof {
            let now = Reading {
                start: start as int,
                kind: kind,
                in_word: in_word,
                due: due,
                word: word@,
            };
            assert(pieces@ + pieces_from(s@, next as int, now) =~= before + pieces_from(
                s@,
                i as int,
                was,
            ));
        }
        i = next;
    }
    flush(&mut pieces, start, s.len(), kind);
    pieces
}

/// Whether pieces cover `from..to` without gap or overlap, none of them empty.
pub open spec fn tile(list: Seq<Piece>, from: int, to: int) -> bool
    decreases list.len(),
{
    if list.len() == 0 {
        from == to
    } else {
        list[0].start == from && list[0].end > from && tile(list.drop_first(), list[0].end as int, to)
    }
}

proof fn pieces_tile(s: Seq<char>, i: int, r: Reading)
    requires
        0 <= r.start <= i <= s.len() <= usize::MAX,
    ensures
        tile(pieces_from(s, i, r), r.start, s.len() as int),
    decreases s.len() - i,
{
    reveal_with_fuel(tile, 2);
    let all = pieces_from(s, i, r);
    if i >= s.len() {
        if s.len() > r.start {
            assert(all.drop_first() =~= Seq::empty());
        }
    } else if s[i] == '\'' || s[i] == '"' {
        scan::seek_spec(s, s[i], i + 1);
        pieces_tile(
            s,
            after_quote(s, i),
            Reading {
                start: i,
                kind: ShellPiece::Str,
                in_word: true,
                due: false,
                word: Seq::empty(),
            },
        );
        front_tile(s, i, r, all);
    } else if is_op(s[i]) {
        let next = if i + 1 < s.len() && s[i + 1] == s[i] {
            i + 2
        } else {
            i + 1
        };
        pieces_tile(
            s,
            next,
            Reading {
                start: i,
                kind: ShellPiece::Op,
                in_word: false,
                due: s[i] == '|' || s[i] == '&' || s[i] == ';',
                word: Seq::empty(),
            },
        );
        front_tile(s, i, r, all);
    } else if text::white(s[i]) {
        pieces_tile(
            s,
            i + 1,
            Reading { start: i, kind: ShellPiece::Plain, in_word: false, ..r },
        );
        front_tile(s, i, r, all);
    } else if !r.in_word {
        let wrapped = is_wrapper(r.word);
        pieces_tile(
            s,
            i + 1,
            Reading {
                start: i,
                kind: if r.due || wrapped {
                    ShellPiece::Command
                } else if s[i] == '-' {
                    ShellPiece::Flag
                } else {
                    ShellPiece::Plain
                },
                in_word: true,
                due: false,
                word: seq![s[i]],
            },
        );
        front_tile(s, i, r, all);
    } else {
        pieces_tile(s, i + 1, Reading { word: r.word.push(s[i]), ..r });
    }
}

proof fn front_tile(s: Seq<char>, i: int, r: Reading, all: Seq<Piece>)
    requires
        0 <= r.start <= i <= s.len() <= usize::MAX,
        exists|rest: Seq<Piece>|
            all == closed_piece(r, i) + rest && #[trigger] tile(rest, i, s.len() as int),
    ensures
        tile(all, r.start, s.len() as int),
{
    let rest = choose|rest: Seq<Piece>|
        all == closed_piece(r, i) + rest && #[trigger] tile(rest, i, s.len() as int);
    if i > r.start {
        assert(all.drop_first() =~= rest);
    } else {
        assert(all =~= rest);
    }
}

/// The parts of a shell line cover it from end to end: colouring changes no text.
pub proof fn pieces_cover_line(s: Seq<char>)
    requires
        s.len() <= usize::MAX,
    ensures
        tile(pieces_of(s), 0, s.len() as int),
{
    pieces_tile(s, 0, at_start());
}

/// The spans of one part of a line. Where the cursor stands in it, the character
/// under the cursor is a span of its own, reversed.
pub open spec fn piece_spans(s: Seq<char>, p: Piece, at: int) -> Seq<SpanView> {
    let style = style_of(p.kind);
    if p.start <= at < p.end {
        (if p.start < at {
            seq![SpanView { text: s.subrange(p.start as int, at), style: style }]
        } else {
            Seq::empty()
        }) + seq![SpanView { text: seq![s[at]], style: Style { reversed: true, ..style } }] + (
        if at + 1 < p.end {
            seq![SpanView { text: s.subrange(at + 1, p.end as int), style: style }]
        } else {
            Seq::empty()
        })
    } else if p.start < p.end {
        seq![SpanView { text: s.subrange(p.start as int, p.end as int), style: style }]
    } else {
        Seq::empty()
    }
}

/// The spans of a list of parts.
pub open spec fn all_piece_spans(s: Seq<char>, list: Seq<Piece>, at: int) -> Seq<SpanView>
    decreases list.len(),
{
    if list.len() == 0 {
        Seq::empty()
    } else {
        piece_spans(s, list[0], at) + all_piece_spans(s, list.drop_first(), at)
    }
}

/// The parts in which a draft is coloured: as a shell line, or as plain text.
pub open spec fn draft_pieces(s: Seq<char>, highlight: bool) -> Seq<Piece> {
    if highlight {
        pieces_of(s)
    } else {
        seq![Piece { start: 0, end: s.len() as usize, kind: ShellPiece::Plain }]
    }
}

/// The cell of a cursor past the end.
pub open spec fn end_cell() -> SpanView {
    SpanView { text: " "@, style: Style { reversed: true, ..paint::plain() } }
}

/// The spans of a draft with its cursor before character `at`: a reversed cell on
/// that character, or after the end.
pub open spec fn draft_spans(s: Seq<char>, at: int, highlight: bool) -> Seq<SpanView> {
    let list = draft_pieces(s, highlight);
    let body = all_piece_spans(s, list, at);
    if at < s.len() {
        body
    } else {
        body.push(end_cell())
    }
}

fn push_span(out: &mut Vec<Span>, text: String, style: Style)
    ensures
        paint::spans(final(out)@) == paint::spans(old(out)@).push(SpanView { text: text@, style: style }),
{
    out.push(Span { text, style });
    assert(paint::spans(out@) =~= paint::spans(old(out)@).push(SpanView { text: text@, style: style }));
}

/// Appends the spans of one part.
pub fn push_piece(out: &mut Vec<Span>, s: &Vec<char>, p: Piece, at: usize)
    requires
        p.start <= p.end <= s@.len(),
    ensures
        paint::spans(final(out)@) == paint::spans(old(out)@) + piece_spans(s@, p, at as int),
{
    let style = piece_style(p.kind);
    if p.start <= at && at < p.end {
        if p.start < at {
            push_span(out, text::slice_text(s, p.start, at), style);
        }
        let cell = text::slice_text(s, at, at + 1);
        assert(cell@ =~= seq![s@[at as int]]);
        push_span(
            out,
            cell,
            Style { fg: style.fg, bg: style.bg, bold: style.bold, reversed: true },
        );
        if at + 1 < p.end {
            push_span(out, text::slice_text(s, at + 1, p.end), style);
        }
    } else if p.start < p.end {
        push_span(out, text::slice_text(s, p.start, p.end), style);
    }
    assert(paint::spans(out@) =~= paint::spans(old(out)@) + piece_spans(s@, p, at as int));
}

proof fn tile_bounds(list: Seq<Piece>, from: int, to: int, i: int)
    requires
        tile(list, from, to),
        0 <= i < list.len(),
        0 <= from,
    ensures
        from <= list[i].start < list[i].end <= to,
    decreases list.len(),
{
    tile_order(list.drop_first(), list[0].end as int, to);
    if i > 0 {
        tile_bounds(list.drop_first(), list[0].end as int, to, i - 1);
    }
}

proof fn tile_order(list: Seq<Piece>, from: int, to: int)
    requires
        tile(list, from, to),
    ensures
        from <= to,
    decreases list.len(),
{
    if list.len() > 0 {
        tile_order(list.drop_first(), list[0].end as int, to);
    }
}

/// The spans of a draft with its cursor before character `at`.
pub fn composer_spans(s: &Vec<char>, at: usize, highlight: bool) -> (r: Vec<Span>)
    ensures
        paint::spans(r@) == draft_spans(s@, at as int, highlight),
{
    let list: Vec<Piece> = if highlight {
        shell_pieces(s)
    } else {
        let mut one: Vec<Piece> = Vec::new();
        one.push(Piece { start: 0, end: s.len(), kind: ShellPiece::Plain });
        one
    };
    assert(list@ =~= draft_pieces(s@, highlight));
    let mut out: Vec<Span> = Vec::new();
    let ghost body = all_piece_spans(s@, list@, at as int);
    assert(list@.skip(0) =~= list@);
    assert(paint::spans(out@) + all_piece_spans(s@, list@.skip(0), at as int) =~= body);
    assert(s@.len() == s.len());
    proof {
        pieces_cover_line(s@);
    }
    for i in 0..list.len()
        invariant
            list@ == draft_pieces(s@, highlight),
            highlight ==> tile(list@, 0, s@.len() as int),
            s@.len() <= usize::MAX,
            body == all_piece_spans(s@, list@, at as int),
            paint::spans(out@) + all_piece_spans(s@, list@.skip(i as int), at as int) == body,
    {
        proof {
            if highlight {
                tile_bounds(list@, 0, s@.len() as int, i as int);
            }
        }
        let ghost before = paint::spans(out@);
        push_piece(&mut out, s, list[i], at);
        proof {
            let rest = list@.skip(i as int);
            assert(rest.drop_first() =~= list@.skip(i + 1));
            assert(paint::spans(out@) + all_piece_spans(s@, list@.skip(i + 1), at as int) =~= before
                + all_piece_spans(s@, rest, at as int));
        }
    }
    assert(list@.skip(list@.len() as int) =~= Seq::empty());
    assert(paint::spans(out@) =~= body);
    if at >= s.len() {
        push_span(
            &mut out,
            text::copy_text(" "),
            Style { fg: None, bg: None, bold: false, reversed: true },
        );
    }
    out
}

proof fn span_text_add(a: Seq<SpanView>, b: Seq<SpanView>)
    ensures
        paint::span_text(a + b) == paint::span_text(a) + paint::span_text(b),
    decreases b.len(),
{
    if b.len() == 0 {
        assert(a + b =~= a);
        assert(paint::span_text(a) + paint::span_text(b) =~= paint::span_text(a));
    } else {
        span_text_add(a, b.drop_last());
        assert((a + b).drop_last() =~= a + b.drop_last());
        assert(paint::span_text(a + b) =~= paint::span_text(a) + paint::span_text(b));
    }
}

proof fn one_span_text(s: SpanView)
    ensures
        paint::span_text(seq![s]) == s.text,
{
    assert(seq![s].drop_last() =~= Seq::<SpanView>::empty());
    assert(paint::span_text(Seq::<SpanView>::empty()) == Seq::<char>::empty());
    assert(paint::span_text(seq![s]) =~= s.text);
}

proof fn piece_text(s: Seq<char>, p: Piece, at: int)
    requires
        p.start <= p.end <= s.len(),
    ensures
        paint::span_text(piece_spans(s, p, at)) == s.subrange(p.start as int, p.end as int),
{
    let style = style_of(p.kind);
    let want = s.subrange(p.start as int, p.end as int);
    if p.start <= at < p.end {
        let a = if p.start < at {
            seq![SpanView { text: s.subrange(p.start as int, at), style: style }]
        } else {
            Seq::empty()
        };
        let b = seq![SpanView { text: seq![s[at]], style: Style { reversed: true, ..style } }];
        let c = if at + 1 < p.end {
            seq![SpanView { text: s.subrange(at + 1, p.end as int), style: style }]
        } else {
            Seq::empty()
        };
        span_text_add(a + b, c);
        span_text_add(a, b);
        one_span_text(SpanView { text: s.subrange(p.start as int, at), style: style });
        one_span_text(b[0]);
        one_span_text(SpanView { text: s.subrange(at + 1, p.end as int), style: style });
        assert(paint::span_text(piece_spans(s, p, at)) =~= want);
    } else if p.start < p.end {
        one_span_text(SpanView { text: want, style: style });
    } else {
        assert(want =~= Seq::empty());
    }
}

proof fn pieces_text(s: Seq<char>, list: Seq<Piece>, at: int, from: int)
    requires
        0 <= from,
        tile(list, from, s.len() as int),
    ensures
        paint::span_text(all_piece_spans(s, list, at)) == s.skip(from),
    decreases list.len(),
{
    tile_order(list, from, s.len() as int);
    if list.len() > 0 {
        let p = list[0];
        tile_bounds(list, from, s.len() as int, 0);
        pieces_text(s, list.drop_first(), at, p.end as int);
        piece_text(s, p, at);
        span_text_add(piece_spans(s, p, at), all_piece_spans(s, list.drop_first(), at));
        assert(s.subrange(from, p.end as int) + s.skip(p.end as int) =~= s.skip(from));
    } else {
        assert(s.skip(from) =~= Seq::empty());
    }
}

/// The spans of a draft say exactly what the draft says, with one blank cell after it
/// where the cursor is at the end.
pub proof fn draft_spans_reproduce_text(s: Seq<char>, at: int, highlight: bool)
    requires
        s.len() <= usize::MAX,
        0 <= at,
    ensures
        paint::span_text(draft_spans(s, at, highlight)) == if at < s.len() {
            s
        } else {
            s + " "@
        },
{
    let list = draft_pieces(s, highlight);
    let body = all_piece_spans(s, list, at);
    if highlight {
        pieces_cover_line(s);
        pieces_text(s, list, at, 0);
    } else {
        let p = list[0];
        assert(list.drop_first() =~= Seq::empty());
        assert(all_piece_spans(s, list.drop_first(), at) =~= Seq::empty());
        assert(body =~= piece_spans(s, p, at));
        piece_text(s, p, at);
        assert(s.subrange(0, s.len() as int) =~= s);
    }
    assert(s.skip(0) =~= s);
    assert(paint::span_text(body) == s);
    if at >= s.len() {
        paint::span_text_push(body, end_cell());
    }
}

} // verus!
