//! The composer: the draft being typed, its cursor, the walk through earlier
//! prompts, and the ghost text offered after the draft.

use crate::caret;
use crate::text;
use crate::words;
use vstd::prelude::*;

verus! {

/// The text of an optional string.
pub open spec fn opt_text(o: Option<String>) -> Option<Seq<char>> {
    match o {
        Some(s) => Some(s@),
        None => None,
    }
}

/// Copies an optional string.
pub fn copy_opt(o: &Option<String>) -> (r: Option<String>)
    ensures
        opt_text(r) == opt_text(*o),
{
    match o {
        Some(s) => Some(text::copy_text(s.as_str())),
        None => None,
    }
}

/// `s` with the characters `from..to` replaced.
pub open spec fn splice(s: Seq<char>, from: int, to: int, with: Seq<char>) -> Seq<char> {
    s.take(from) + with + s.skip(to)
}

/// `s` with the characters `from..to` replaced.
pub fn splice_chars(s: &Vec<char>, from: usize, to: usize, with: &Vec<char>) -> (r: Vec<char>)
    requires
        from <= to <= s@.len(),
    ensures
        r@ == splice(s@, from as int, to as int, with@),
        from + with@.len() <= r.len(),
{
    let mut r: Vec<char> = Vec::new();
    for i in 0..from
        invariant
            from <= s@.len(),
            r@ == s@.take(i as int),
    {
        r.push(s[i]);
    }
    for i in 0..with.len()
        invariant
            from <= s@.len(),
            r@ == s@.take(from as int) + with@.take(i as int),
    {
        r.push(with[i]);
    }
    assert(with@.take(with@.len() as int) =~= with@);
    let mut i: usize = to;
    while i < s.len()
        invariant
            from <= to <= i <= s@.len(),
            r@ == s@.take(from as int) + with@ + s@.subrange(to as int, i as int),
        decreases s.len() - i,
    {
        r.push(s[i]);
        i = i + 1;
    }
    assert(r@ =~= splice(s@, from as int, to as int, with@));
    assert(r.len() == r@.len());
    r
}

/// The draft and what belongs to it. `cursor` is a byte offset into `input`;
/// `hist_depth` counts how far back a walk through earlier prompts has gone, and
/// `draft_stash` keeps the draft that the walk replaced.
pub struct Composer {
    pub input: String,
    pub cursor: usize,
    pub hist_depth: Option<usize>,
    pub draft_stash: String,
    pub ghost_text: Option<String>,
    pub ghost_seen_input: String,
    pub ghost_dismissed: Option<String>,
    pub ghost_changed_at: u64,
    pub ai_ghost_pending: Option<String>,
    pub ai_ghost_seq: u64,
}

/// What a composer holds: its cursor counts characters, not bytes.
#[verifier::ext_equal]
pub struct ComposerView {
    pub text: Seq<char>,
    pub at: int,
    pub walk: Option<int>,
    pub stash: Seq<char>,
    pub offer: Option<Seq<char>>,
    pub seen: Seq<char>,
    pub dismissed: Option<Seq<char>>,
    pub changed_at: int,
    pub pending: Option<Seq<char>>,
    pub seq: int,
}

impl View for Composer {
    type V = ComposerView;

    open spec fn view(&self) -> ComposerView {
        ComposerView {
            text: self.input@,
            at: caret::index_at(self.input@, self.cursor as int),
            walk: match self.hist_depth {
                Some(d) => Some(d as int),
                None => None,
            },
            stash: self.draft_stash@,
            offer: opt_text(self.ghost_text),
            seen: self.ghost_seen_input@,
            dismissed: opt_text(self.ghost_dismissed),
            changed_at: self.ghost_changed_at as int,
            pending: opt_text(self.ai_ghost_pending),
            seq: self.ai_ghost_seq as int,
        }
    }
}

/// Closing brackets and both quotes: typing one before itself steps over it.
pub open spec fn closes(c: char) -> bool {
    c == ')' || c == ']' || c == '}' || c == '"' || c == '\''
}

/// The bracket that an opening bracket is paired with.
pub open spec fn closer_of(c: char) -> Option<char> {
    if c == '(' {
        Some(')')
    } else if c == '[' {
        Some(']')
    } else if c == '{' {
        Some('}')
    } else {
        None
    }
}

impl ComposerView {
    /// The cursor stands within the text.
    pub open spec fn valid(self) -> bool {
        0 <= self.at <= self.text.len()
    }

    /// The draft replaced as a whole, with the cursor at its end.
    pub open spec fn with_text(self, text: Seq<char>) -> ComposerView {
        ComposerView { text: text, at: text.len() as int, ..self }
    }

    /// The cursor moved to another character.
    pub open spec fn moved(self, at: int) -> ComposerView {
        ComposerView { at: at, ..self }
    }

    /// The cursor one character to the left.
    pub open spec fn stepped_left(self) -> ComposerView {
        self.moved(if self.at > 0 {
            self.at - 1
        } else {
            0
        })
    }

    /// The cursor one character to the right.
    pub open spec fn stepped_right(self) -> ComposerView {
        self.moved(if self.at < self.text.len() {
            self.at + 1
        } else {
            self.at
        })
    }

    /// The walk through earlier prompts ended: what it shows becomes the draft, or
    /// the draft that it replaced comes back.
    pub open spec fn walk_ended(self, adopt: bool) -> ComposerView {
        if self.walk is None {
            self
        } else if adopt {
            ComposerView { walk: None, stash: Seq::empty(), ..self }
        } else {
            ComposerView { walk: None, stash: Seq::empty(), ..self.with_text(self.stash) }
        }
    }

    /// Text put in at the cursor, which then stands after it.
    pub open spec fn inserted(self, t: Seq<char>) -> ComposerView {
        let v = self.walk_ended(true);
        ComposerView {
            text: splice(v.text, v.at, v.at, t),
            at: v.at + t.len(),
            ..v
        }
    }

    /// The characters `from..to` taken out, with the cursor where they were.
    pub open spec fn cut(self, from: int, to: int) -> ComposerView {
        let v = self.walk_ended(true);
        ComposerView { text: splice(v.text, from, to, Seq::empty()), at: from, ..v }
    }

    pub open spec fn backspaced(self) -> ComposerView {
        if self.at == 0 {
            self
        } else {
            self.cut(self.at - 1, self.at)
        }
    }

    pub open spec fn deleted(self) -> ComposerView {
        if self.at >= self.text.len() {
            self
        } else {
            self.cut(self.at, self.at + 1)
        }
    }

    pub open spec fn word_deleted(self) -> ComposerView {
        if self.at == 0 {
            self
        } else {
            self.cut(words::word_start(self.text, self.at), self.at)
        }
    }

    pub open spec fn start_deleted(self) -> ComposerView {
        if self.at == 0 {
            self
        } else {
            self.cut(0, self.at)
        }
    }

    pub open spec fn end_deleted(self) -> ComposerView {
        if self.at >= self.text.len() {
            self
        } else {
            self.cut(self.at, self.text.len() as int)
        }
    }

    /// Whether a pair may open here: at the end of the text, before white space, and
    /// before a closing bracket, or a quote where `quotes` allows it.
    pub open spec fn room_for_pair(self, quotes: bool) -> bool {
        ||| self.at == self.text.len()
        ||| text::white(self.text[self.at])
        ||| self.text[self.at] == ')' || self.text[self.at] == ']' || self.text[self.at] == '}'
        ||| quotes && (self.text[self.at] == '"' || self.text[self.at] == '\'')
    }

    /// A pair of characters put in, with the cursor between them.
    pub open spec fn paired(self, open: char, close: char) -> ComposerView {
        let v = self.inserted(seq![open, close]);
        ComposerView { at: v.at - 1, ..v }
    }

    /// What typing a character does: an opening bracket brings its closing one, a
    /// closing character steps over itself, a quote pairs up, and anything else is
    /// put in as it is.
    pub open spec fn typed(self, c: char) -> ComposerView {
        if closer_of(c) is Some && self.room_for_pair(true) {
            self.paired(c, closer_of(c)->0)
        } else if closes(c) && self.at < self.text.len() && self.text[self.at] == c {
            let v = self.walk_ended(true);
            ComposerView { at: v.at + 1, ..v }
        } else if (c == '"' || c == '\'') && self.room_for_pair(false) {
            self.paired(c, c)
        } else {
            self.inserted(seq![c])
        }
    }

    /// One step back through earlier prompts. The first step stashes the draft.
    pub open spec fn walked_back(self, history: Seq<Seq<char>>) -> ComposerView {
        if history.len() == 0 {
            self
        } else {
            let depth = match self.walk {
                None => 1,
                Some(d) => if d + 1 <= history.len() {
                    d + 1
                } else {
                    history.len() as int
                },
            };
            let shown = self.with_text(history[history.len() - depth]);
            ComposerView {
                walk: Some(depth),
                stash: if self.walk is None {
                    self.text
                } else {
                    self.stash
                },
                offer: None,
                ..shown
            }
        }
    }

    /// One step forward through earlier prompts. Past the newest one the stashed
    /// draft comes back.
    pub open spec fn walked_on(self, history: Seq<Seq<char>>) -> ComposerView {
        match self.walk {
            None => self,
            Some(depth) => {
                let next = if depth - 1 <= history.len() {
                    depth - 1
                } else {
                    history.len() as int
                };
                if next > 0 {
                    let shown = self.with_text(history[history.len() - next]);
                    ComposerView { walk: Some(next), offer: None, ..shown }
                } else {
                    let shown = self.with_text(self.stash);
                    ComposerView { walk: None, stash: Seq::empty(), offer: None, ..shown }
                }
            },
        }
    }
}

/// A composer without a draft.
pub open spec fn empty_composer() -> ComposerView {
    ComposerView {
        text: Seq::empty(),
        at: 0,
        walk: None,
        stash: Seq::empty(),
        offer: None,
        seen: Seq::empty(),
        dismissed: None,
        changed_at: 0,
        pending: None,
        seq: 0,
    }
}

impl Composer {
    /// The cursor stands between two characters of the draft.
    pub open spec fn wf(self) -> bool {
        caret::boundary(self.input@, self.cursor as int)
    }

    /// A well-formed composer's cursor is within its text.
    pub proof fn wf_valid(self)
        requires
            self.wf(),
        ensures
            self@.valid(),
            caret::is_at(self.input@, self.cursor as int, self@.at),
    {
        let k = choose|k: int| caret::is_at(self.input@, self.cursor as int, k);
        caret::index_unique(self.input@, k);
    }

    /// An empty composer.
    pub fn new() -> (r: Composer)
        ensures
            r.wf(),
            r@ == empty_composer(),
    {
        proof {
            caret::index_unique(Seq::empty(), 0);
        }
        Composer {
            input: String::new(),
            cursor: 0,
            hist_depth: None,
            draft_stash: String::new(),
            ghost_text: None,
            ghost_seen_input: String::new(),
            ghost_dismissed: None,
            ghost_changed_at: 0,
            ai_ghost_pending: None,
            ai_ghost_seq: 0,
        }
    }

    /// The draft as characters, and the character that the cursor stands before.
    pub fn chars_at(&self) -> (r: (Vec<char>, usize))
        requires
            self.wf(),
        ensures
            r.0@ == self@.text,
            r.1 == self@.at,
            r.1 <= r.0@.len(),
    {
        let chars = text::to_chars(self.input.as_str());
        match caret::char_index(&chars, self.cursor) {
            Some(k) => (chars, k),
            None => {
                assert(false);
                (chars, 0)
            },
        }
    }

    pub(crate) fn put(&mut self, chars: &Vec<char>, at: usize)
        requires
            at <= chars@.len(),
        ensures
            final(self).wf(),
            final(self)@ == (ComposerView { text: chars@, at: at as int, ..old(self)@ }),
    {
        let text = text::from_chars(chars);
        let len: usize = caret::text_len(text.as_str());
        let cursor: usize = caret::byte_offset(chars, at);
        self.input = text;
        self.cursor = cursor;
        proof {
            caret::index_unique(chars@, at as int);
        }
    }

    /// Replaces the draft; the cursor goes to its end.
    pub fn set_input(&mut self, text: String)
        ensures
            final(self).wf(),
            final(self)@ == old(self)@.with_text(text@),
    {
        let len: usize = caret::text_len(text.as_str());
        proof {
            caret::index_unique(text@, text@.len() as int);
        }
        self.input = text;
        self.cursor = len;
    }

    /// Empties the draft.
    pub fn clear(&mut self)
        ensures
            final(self).wf(),
            final(self)@ == old(self)@.with_text(Seq::empty()),
    {
        self.set_input(String::new());
    }

    /// Moves the cursor to character `at`.
    pub fn move_to(&mut self, at: usize)
        requires
            old(self).wf(),
            at <= old(self)@.text.len(),
        ensures
            final(self).wf(),
            final(self)@ == old(self)@.moved(at as int),
    {
        let chars = text::to_chars(self.input.as_str());
        let len: usize = caret::text_len(self.input.as_str());
        self.cursor = caret::byte_offset(&chars, at);
        proof {
            caret::index_unique(chars@, at as int);
        }
    }

    /// Ends the walk through earlier prompts. `adopt` keeps what it shows as the new
    /// draft; otherwise the stashed draft comes back.
    pub fn end_history_walk(&mut self, adopt: bool)
        requires
            old(self).wf(),
        ensures
            final(self).wf(),
            final(self)@ == old(self)@.walk_ended(adopt),
    {
        if self.hist_depth.is_none() {
            return;
        }
        self.hist_depth = None;
        if adopt {
            self.draft_stash = String::new();
        } else {
            let stash = text::copy_text(self.draft_stash.as_str());
            self.draft_stash = String::new();
            self.set_input(stash);
        }
    }

    /// Puts text in at the cursor.
    pub fn insert_text(&mut self, value: &str)
        requires
            old(self).wf(),
        ensures
            final(self).wf(),
            final(self)@ == old(self)@.inserted(value@),
    {
        self.end_history_walk(true);
        let (chars, k) = self.chars_at();
        let with = text::to_chars(value);
        let out = splice_chars(&chars, k, k, &with);
        self.put(&out, k + with.len());
    }

    fn insert_chars(&mut self, with: &Vec<char>, back: usize)
        requires
            old(self).wf(),
            back <= with@.len(),
        ensures
            final(self).wf(),
            final(self)@ == (ComposerView {
                at: old(self)@.inserted(with@).at - back,
                ..old(self)@.inserted(with@)
            }),
    {
        self.end_history_walk(true);
        let (chars, k) = self.chars_at();
        let out = splice_chars(&chars, k, k, with);
        self.put(&out, k + (with.len() - back));
    }

    fn cut_range(&mut self, from: usize, to: usize)
        requires
            old(self).wf(),
            from <= to <= old(self)@.text.len(),
        ensures
            final(self).wf(),
            final(self)@ == old(self)@.cut(from as int, to as int),
    {
        self.end_history_walk(true);
        let (chars, k) = self.chars_at();
        let none: Vec<char> = Vec::new();
        let out = splice_chars(&chars, from, to, &none);
        self.put(&out, from);
    }

    /// Types a character, with paired brackets and quotes.
    pub fn insert_paired(&mut self, character: char)
        requires
            old(self).wf(),
        ensures
            final(self).wf(),
            final(self)@ == old(self)@.typed(character),
    {
        let (chars, k) = self.chars_at();
        let at_end = k == chars.len();
        let closer: Option<char> = if character == '(' {
            Some(')')
        } else if character == '[' {
            Some(']')
        } else if character == '{' {
            Some('}')
        } else {
            None
        };
        let before_close = !at_end && (text::is_white(chars[k]) || chars[k] == ')' || chars[k] == ']'
            || chars[k] == '}');
        let before_quote = !at_end && (chars[k] == '"' || chars[k] == '\'');
        if let Some(close) = closer {
            if at_end || before_close || before_quote {
                let mut pair: Vec<char> = Vec::new();
                pair.push(character);
                pair.push(close);
                assert(pair@ =~= seq![character, close]);
                self.insert_chars(&pair, 1);
                return;
            }
        }
        let quote = character == '"' || character == '\'';
        let closing = quote || character == ')' || character == ']' || character == '}';
        if closing && !at_end && chars[k] == character {
            self.end_history_walk(true);
            self.move_to(k + 1);
            return;
        }
        let mut one: Vec<char> = Vec::new();
        one.push(character);
        if quote && (at_end || before_close) {
            one.push(character);
            assert(one@ =~= seq![character, character]);
            self.insert_chars(&one, 1);
            return;
        }
        assert(one@ =~= seq![character]);
        self.insert_chars(&one, 0);
    }

    /// Takes out the character before the cursor.
    pub fn backspace(&mut self)
        requires
            old(self).wf(),
        ensures
            final(self).wf(),
            final(self)@ == old(self)@.backspaced(),
    {
        let (chars, k) = self.chars_at();
        if k > 0 {
            self.cut_range(k - 1, k);
        }
    }

    /// Takes out the character after the cursor.
    pub fn delete(&mut self)
        requires
            old(self).wf(),
        ensures
            final(self).wf(),
            final(self)@ == old(self)@.deleted(),
    {
        let (chars, k) = self.chars_at();
        if k < chars.len() {
            self.cut_range(k, k + 1);
        }
    }

    /// Takes out everything from the start of the word before the cursor.
    pub fn delete_prev_word(&mut self)
        requires
            old(self).wf(),
        ensures
            final(self).wf(),
            final(self)@ == old(self)@.word_deleted(),
    {
        let (chars, k) = self.chars_at();
        if k > 0 {
            let start: usize = words::find_word_start(&chars, k);
            self.cut_range(start, k);
        }
    }

    /// Takes out everything before the cursor.
    pub fn delete_to_start(&mut self)
        requires
            old(self).wf(),
        ensures
            final(self).wf(),
            final(self)@ == old(self)@.start_deleted(),
    {
        let (chars, k) = self.chars_at();
        if k > 0 {
            self.cut_range(0, k);
        }
    }

    /// Takes out everything after the cursor.
    pub fn delete_to_end(&mut self)
        requires
            old(self).wf(),
        ensures
            final(self).wf(),
            final(self)@ == old(self)@.end_deleted(),
    {
        let (chars, k) = self.chars_at();
        if k < chars.len() {
            self.cut_range(k, chars.len());
        }
    }

    /// One character to the left.
    pub fn left(&mut self)
        requires
            old(self).wf(),
        ensures
            final(self).wf(),
            final(self)@ == old(self)@.stepped_left(),
    {
        let (chars, k) = self.chars_at();
        if k > 0 {
            self.move_to(k - 1);
        }
    }

    /// One character to the right.
    pub fn right(&mut self)
        requires
            old(self).wf(),
        ensures
            final(self).wf(),
            final(self)@ == old(self)@.stepped_right(),
    {
        let (chars, k) = self.chars_at();
        if k < chars.len() {
            self.move_to(k + 1);
        }
    }

    /// To the start of the word before the cursor.
    pub fn word_left(&mut self)
        requires
            old(self).wf(),
        ensures
            final(self).wf(),
            final(self)@ == old(self)@.moved(words::word_start(old(self)@.text, old(self)@.at)),
    {
        let (chars, k) = self.chars_at();
        let i: usize = words::find_word_start(&chars, k);
        self.move_to(i);
    }

    /// To the end of the word after the cursor.
    pub fn word_right(&mut self)
        requires
            old(self).wf(),
        ensures
            final(self).wf(),
            final(self)@ == old(self)@.moved(words::word_end(old(self)@.text, old(self)@.at)),
    {
        let (chars, k) = self.chars_at();
        let i: usize = words::find_word_end(&chars, k);
        self.move_to(i);
    }

    /// To the start of the draft.
    pub fn home(&mut self)
        requires
            old(self).wf(),
        ensures
            final(self).wf(),
            final(self)@ == old(self)@.moved(0),
    {
        self.move_to(0);
    }

    /// To the end of the draft.
    pub fn end(&mut self)
        requires
            old(self).wf(),
        ensures
            final(self).wf(),
            final(self)@ == old(self)@.moved(old(self)@.text.len() as int),
    {
        let (chars, k) = self.chars_at();
        self.move_to(chars.len());
    }

    /// Whether the cursor stands at the end of the draft.
    pub fn at_end(&self) -> (r: bool)
        requires
            self.wf(),
        ensures
            r == (self@.at == self@.text.len()),
    {
        let (chars, k) = self.chars_at();
        k == chars.len()
    }

    /// One step back through earlier prompts, oldest first in `history`.
    pub fn history_previous(&mut self, history: &Vec<String>)
        requires
            old(self).wf(),
        ensures
            final(self).wf(),
            final(self)@ == old(self)@.walked_back(text::texts(history@)),
    {
        if history.len() == 0 {
            return;
        }
        let depth: usize = match self.hist_depth {
            None => {
                self.draft_stash = text::copy_text(self.input.as_str());
                1
            },
            Some(depth) => {
                if depth < history.len() {
                    depth + 1
                } else {
                    history.len()
                }
            },
        };
        self.hist_depth = Some(depth);
        let shown = text::copy_text(history[history.len() - depth].as_str());
        self.set_input(shown);
        self.ghost_text = None;
    }

    /// One step forward through earlier prompts. Where there are fewer than the walk has
    /// gone back, it goes on from the oldest.
    pub fn history_next(&mut self, history: &Vec<String>)
        requires
            old(self).wf(),
        ensures
            final(self).wf(),
            final(self)@ == old(self)@.walked_on(text::texts(history@)),
    {
        let depth: usize = match self.hist_depth {
            None => {
                return;
            },
            Some(depth) => depth,
        };
        let next: usize = if depth == 0 {
            0
        } else if depth - 1 <= history.len() {
            depth - 1
        } else {
            history.len()
        };
        if next > 0 {
            self.hist_depth = Some(next);
            let shown = text::copy_text(history[history.len() - next].as_str());
            self.set_input(shown);
        } else {
            self.hist_depth = None;
            let stash = text::copy_text(self.draft_stash.as_str());
            self.draft_stash = String::new();
            self.set_input(stash);
        }
        self.ghost_text = None;
    }
}

// ---------------------------------------------------------------------------
// Laws
// ---------------------------------------------------------------------------

/// Taking out the character that was just put in restores the draft and the cursor.
pub proof fn backspace_undoes_insert(v: ComposerView, c: char)
    requires
        v.valid(),
        v.walk is None,
    ensures
        v.inserted(seq![c]).backspaced() == v,
{
    let w = v.inserted(seq![c]);
    assert(splice(w.text, w.at - 1, w.at, Seq::empty()) =~= v.text);
}

/// What is put in can be taken out again from the other side.
pub proof fn delete_undoes_insert(v: ComposerView, c: char)
    requires
        v.valid(),
        v.walk is None,
    ensures
        v.inserted(seq![c]).moved(v.at).deleted() == v,
{
    let w = v.inserted(seq![c]).moved(v.at);
    assert(splice(w.text, w.at, w.at + 1, Seq::empty()) =~= v.text);
}

/// Typing an opening bracket where it pairs up and then its closing one gives the pair
/// once, with the cursor after it.
pub proof fn closing_steps_over_pair(v: ComposerView, open: char)
    requires
        v.valid(),
        closer_of(open) is Some,
        v.room_for_pair(true),
    ensures
        v.typed(open).typed(closer_of(open)->0).text == splice(
            v.text,
            v.at,
            v.at,
            seq![open, closer_of(open)->0],
        ),
        v.typed(open).typed(closer_of(open)->0).at == v.at + 2,
{
    let close = closer_of(open)->0;
    let w = v.typed(open);
    assert(w.text[w.at] == close);
}

/// Every edit leaves the cursor within the text.
pub proof fn edits_keep_cursor_valid(v: ComposerView, c: char, t: Seq<char>)
    requires
        v.valid(),
    ensures
        v.typed(c).valid(),
        v.inserted(t).valid(),
        v.backspaced().valid(),
        v.deleted().valid(),
        v.word_deleted().valid(),
        v.start_deleted().valid(),
        v.end_deleted().valid(),
        v.walk_ended(true).valid(),
        v.walk_ended(false).valid(),
{
    words::back_over_bounds(v.text, v.at, false);
    words::back_over_bounds(v.text, words::back_over(v.text, v.at, false), true);
}

/// `n` steps back through earlier prompts.
pub open spec fn back_steps(v: ComposerView, history: Seq<Seq<char>>, n: nat) -> ComposerView
    decreases n,
{
    if n == 0 {
        v
    } else {
        back_steps(v, history, (n - 1) as nat).walked_back(history)
    }
}

/// `n` steps forward through earlier prompts.
pub open spec fn on_steps(v: ComposerView, history: Seq<Seq<char>>, n: nat) -> ComposerView
    decreases n,
{
    if n == 0 {
        v
    } else {
        on_steps(v.walked_on(history), history, (n - 1) as nat)
    }
}

proof fn back_steps_reach(v: ComposerView, history: Seq<Seq<char>>, n: nat)
    requires
        v.walk is None,
        1 <= n <= history.len(),
    ensures
        back_steps(v, history, n).walk == Some(n as int),
        back_steps(v, history, n).stash == v.text,
        back_steps(v, history, n).text == history[history.len() - n],
    decreases n,
{
    if n > 1 {
        back_steps_reach(v, history, (n - 1) as nat);
    } else {
        assert(back_steps(v, history, 0) == v);
    }
}

proof fn on_steps_return(v: ComposerView, history: Seq<Seq<char>>, n: nat)
    requires
        1 <= n <= history.len(),
        v.walk == Some(n as int),
    ensures
        on_steps(v, history, n).walk is None,
        on_steps(v, history, n).text == v.stash,
    decreases n,
{
    if n > 1 {
        on_steps_return(v.walked_on(history), history, (n - 1) as nat);
    } else {
        assert(on_steps(v.walked_on(history), history, 0) == v.walked_on(history));
    }
}

/// Walking back through earlier prompts and forward again restores the draft; so does
/// ending the walk anywhere on the way.
pub proof fn walk_restores_draft(v: ComposerView, history: Seq<Seq<char>>, n: nat)
    requires
        v.walk is None,
        1 <= n <= history.len(),
    ensures
        on_steps(back_steps(v, history, n), history, n).text == v.text,
        on_steps(back_steps(v, history, n), history, n).walk is None,
        back_steps(v, history, n).walk_ended(false).text == v.text,
        back_steps(v, history, n).walk_ended(false).walk is None,
{
    back_steps_reach(v, history, n);
    on_steps_return(back_steps(v, history, n), history, n);
}

/// Where prompts went away under a walk, its next step either way is within those that
/// are left; with none left a step forward restores the draft.
pub proof fn walk_follows_the_history(v: ComposerView, history: Seq<Seq<char>>)
    requires
        v.walk matches Some(d) ==> d >= 0,
    ensures
        v.walked_on(history).walk matches Some(d) ==> 1 <= d <= history.len()
            && v.walked_on(history).text == history[history.len() - d],
        history.len() > 0 ==> (v.walked_back(history).walk matches Some(d) && 1 <= d <= history.len()
            && v.walked_back(history).text == history[history.len() - d]),
        v.walk is Some && history.len() == 0 ==> v.walked_on(history).walk is None
            && v.walked_on(history).text == v.stash,
{
}

/// The walk stops at the oldest prompt.
pub proof fn walk_clamps_at_oldest(v: ComposerView, history: Seq<Seq<char>>)
    requires
        v.walk is None,
        history.len() >= 1,
    ensures
        back_steps(v, history, history.len()).walked_back(history).text == history[0],
        back_steps(v, history, history.len()).walked_back(history).walk == Some(
            history.len() as int,
        ),
{
    back_steps_reach(v, history, history.len());
}

} // verus!
