//! Commands on the blocks of a transcript: filters, listings, copies, and taking
//! exchanges back.

use crate::events::{StatusTone, UndoEntry};
use crate::filters::{FILTER_USAGE, FilterAction, FilterOutcome};
use crate::filters;
use crate::model::MessageView;
use crate::model;
use crate::pattern;
use crate::replies;
use crate::scan;
use crate::text;
use crate::transcript::{Transcript, TranscriptView};
use crate::transcript;
use vstd::prelude::*;
use vstd::string::*;

verus! {

/// The number that a position has for the user: one more.
pub open spec fn block_label(index: int) -> Seq<char> {
    scan::decimal((index + 1) as nat)
}

/// The listing of the filters that are set among the first `n` blocks.
pub open spec fn filter_rows(v: TranscriptView, n: int) -> Seq<Seq<char>>
    decreases n,
{
    if n <= 0 {
        Seq::empty()
    } else {
        let m = v.history[n - 1];
        if v.filters.contains_key(m.id) {
            filter_rows(v, n - 1).push(
                "  block "@ + scan::decimal(n as nat) + " ("@ + m.role + ") · "@ + scan::join(
                    filters::summary_parts(v.filters[m.id]),
                    " · "@,
                ),
            )
        } else {
            filter_rows(v, n - 1)
        }
    }
}

/// The row of a block in a listing.
pub open spec fn block_row(v: TranscriptView, index: int) -> Seq<char> {
    let m = v.history[index];
    " "@ + scan::pad_left(block_label(index), 3) + " "@ + scan::pad_right(m.role, 9) + " "@ + scan::first_chars(
        scan::first_line(m.content),
        60,
    ) + (if v.filters.contains_key(m.id) {
        " ·filtered"@
    } else {
        ""@
    })
}

/// The rows of the blocks `from..to`.
pub open spec fn block_rows(v: TranscriptView, from: int, to: int) -> Seq<Seq<char>>
    decreases to - from,
{
    if to <= from {
        Seq::empty()
    } else {
        block_rows(v, from, to - 1).push(block_row(v, to - 1))
    }
}

/// A text with its line feeds as blanks.
pub open spec fn one_line(s: Seq<char>) -> Seq<char> {
    s.map_values(
        |c: char|
            if c == '\n' {
                ' '
            } else {
                c
            },
    )
}

/// The rows of the messages `from..to` in `/history`.
pub open spec fn history_rows(v: TranscriptView, from: int, to: int) -> Seq<Seq<char>>
    decreases to - from,
{
    if to <= from {
        Seq::empty()
    } else {
        let m = v.history[to - 1];
        history_rows(v, from, to - 1).push(
            "["@ + m.role + "] "@ + one_line(scan::first_chars(m.content, 160)),
        )
    }
}

/// The first of the last `n` positions out of `len`.
pub open spec fn tail_start(len: int, n: int) -> int {
    if len > n {
        len - n
    } else {
        0
    }
}

/// How many turns `/rewind` is asked for; zero where it is no count.
pub open spec fn rewind_turns(args: Seq<Seq<char>>) -> nat {
    if args.len() == 0 {
        1
    } else {
        match scan::parse_up_to(args[0], filters::index_max()) {
            Some(n) => n,
            None => 0,
        }
    }
}

impl TranscriptView {
    /// `/filter`: a filter set, cleared or listed.
    pub open spec fn filtered_by(self, args: Seq<Seq<char>>) -> TranscriptView {
        match filters::filter_outcome(self.history.len(), args, |p: Seq<char>| pattern::pattern_error(p)) {
            FilterOutcome::Fail(text) => self.noted(text, StatusTone::Error),
            FilterOutcome::List => {
                let rows = filter_rows(self, self.history.len() as int);
                if rows.len() == 0 {
                    self.noted("No block filters active · "@ + FILTER_USAGE@, StatusTone::Muted)
                } else {
                    self.told("Block filters\n"@ + scan::join(rows, "\n"@))
                }
            },
            FilterOutcome::Store(index, f) => {
                let named = self.named(index);
                TranscriptView { filters: named.filters.insert(self.id_of(index), f), ..named }.noted(
                    "Filter block "@ + block_label(index) + " · "@ + scan::join(filters::summary_parts(f), " · "@),
                    StatusTone::Success,
                )
            },
            FilterOutcome::Clear(index) => {
                let named = self.named(index);
                let id = self.id_of(index);
                let cleared = TranscriptView { filters: named.filters.remove(id), ..named };
                if self.filters.contains_key(id) {
                    cleared.noted(
                        "Filter cleared on block "@ + block_label(index),
                        StatusTone::Success,
                    )
                } else {
                    cleared.noted("Block "@ + block_label(index) + " has no filter"@, StatusTone::Muted)
                }
            },
        }
    }

    /// `/block`: the latest blocks listed, or one described.
    pub open spec fn block_shown(self, args: Seq<Seq<char>>) -> TranscriptView {
        let len = self.history.len();
        if args.len() == 0 {
            if len == 0 {
                self.noted("Session is empty"@, StatusTone::Muted)
            } else {
                let start = tail_start(len as int, 40);
                self.told(
                    scan::join(
                        seq![
                            "Blocks "@ + scan::decimal((start + 1) as nat) + "-"@ + scan::decimal(len)
                                + " of "@ + scan::decimal(len),
                        ] + block_rows(self, start, len as int),
                        "\n"@,
                    ),
                )
            }
        } else {
            match filters::block_number(args[0]) {
                None => self.noted("Usage: /block [n]"@, StatusTone::Muted),
                Some(number) => if number < 1 || number > len {
                    self.noted(filters::out_of_range(number, len), StatusTone::Error)
                } else {
                    let id = self.id_of(number - 1);
                    let m = self.history[number - 1];
                    let summary = if self.filters.contains_key(id) {
                        scan::join(filters::summary_parts(self.filters[id]), " · "@)
                    } else {
                        "none"@
                    };
                    self.named(number - 1).told(
                        "Block "@ + scan::decimal(number) + " · "@ + m.role + " · "@ + scan::decimal(
                            m.content.len(),
                        ) + " chars · "@ + scan::decimal(scan::lines(m.content).len())
                            + " line(s) · filter: "@ + summary + "\n  "@ + scan::first_chars(
                            scan::first_line(m.content),
                            100,
                        ),
                    )
                },
            }
        }
    }

    /// `/history`: the last messages in short.
    pub open spec fn history_shown(self) -> TranscriptView {
        let len = self.history.len();
        if len == 0 {
            self.told("Session is empty"@)
        } else {
            let start = tail_start(len as int, 12);
            self.told(
                scan::join(
                    seq![
                        "Last "@ + scan::decimal((len - start) as nat) + " of "@ + scan::decimal(len)
                            + " messages:"@,
                    ] + history_rows(self, start, len as int),
                    "\n"@,
                ),
            )
        }
    }

    /// Which block `/copy out` copies; `None` where it copies none.
    pub open spec fn copy_index(self, arg: Option<Seq<char>>) -> Option<int> {
        match arg {
            None => if self.history.len() >= 1 {
                Some(self.history.len() - 1)
            } else {
                None
            },
            Some(text) => match filters::block_number(text) {
                Some(n) if 1 <= n <= self.history.len() => Some(n - 1),
                _ => None,
            },
        }
    }

    /// What the transcript becomes before a block is copied.
    pub open spec fn copy_prepared(self, arg: Option<Seq<char>>) -> TranscriptView {
        match self.copy_index(arg) {
            Some(index) => self.named(index),
            None => match arg {
                None => self.noted(filters::out_of_range(0, self.history.len()), StatusTone::Error),
                Some(text) => match filters::block_number(text) {
                    None => self.noted("Usage: /copy out [n]"@, StatusTone::Muted),
                    Some(n) => self.noted(filters::out_of_range(n, self.history.len()), StatusTone::Error),
                },
            },
        }
    }

    /// What copying a block gives.
    pub open spec fn copy_text_of(self, index: int) -> Seq<char> {
        let id = self.id_of(index);
        if self.filters.contains_key(id) {
            scan::join(filters::filtered(self.filters[id], self.history[index].content), "\n"@)
        } else {
            self.history[index].content
        }
    }

    /// Where `/rewind` cuts, or why it does not.
    pub open spec fn rewind_at(self, busy: bool, args: Seq<Seq<char>>) -> Result<int, Seq<char>> {
        if busy {
            Err("Finish the active request before rewinding"@)
        } else if rewind_turns(args) == 0 {
            Err("Usage: /rewind [turns]"@)
        } else {
            match transcript::user_back(
                self.history,
                self.history.len() as int,
                rewind_turns(args) as int,
            ) {
                Some(index) => Ok(index),
                None => {
                    let seen = transcript::users_in(self.history, self.history.len() as int);
                    if seen == 0 {
                        Err("Nothing to rewind"@)
                    } else {
                        Err("Only "@ + scan::decimal(seen) + " user turn(s) in the session"@)
                    }
                },
            }
        }
    }
}

fn one_line_text(s: &str) -> (r: String)
    ensures
        r@ == one_line(s@),
{
    let c = text::to_chars(s);
    let mut r = String::new();
    for i in 0..c.len()
        invariant
            c@ == s@,
            r@ == one_line(s@).take(i as int),
    {
        if c[i] == '\n' {
            r.push(' ');
        } else {
            r.push(c[i]);
        }
        assert(one_line(s@).take(i + 1) =~= one_line(s@).take(i as int).push(
            one_line(s@)[i as int],
        ));
    }
    assert(one_line(s@).take(s@.len() as int) =~= one_line(s@));
    r
}

proof fn user_back_bounds(history: Seq<MessageView>, i: int, n: int)
    requires
        0 <= i <= history.len(),
    ensures
        transcript::user_back(history, i, n) matches Some(k) ==> 0 <= k < i && history[k].role == "user"@
            && transcript::users_in(history, i) == transcript::users_in(history, k) + n,
        transcript::user_back(history, i, n) is None && n >= 1 ==> transcript::users_in(history, i) < n,
    decreases i,
{
    if i > 0 && n > 0 {
        if history[i - 1].role == "user"@ {
            if n > 1 {
                user_back_bounds(history, i - 1, n - 1);
            }
        } else {
            user_back_bounds(history, i - 1, n);
        }
    }
}

impl Transcript {
    fn find_user_back(&self, turns: usize) -> (r: (Option<usize>, usize))
        requires
            turns >= 1,
        ensures
            match r.0 {
                Some(k) => transcript::user_back(
                    self@.history,
                    self@.history.len() as int,
                    turns as int,
                ) == Some(k as int) && k < self.history@.len(),
                None => transcript::user_back(
                    self@.history,
                    self@.history.len() as int,
                    turns as int,
                ) == None::<int> && r.1 == transcript::users_in(self@.history, self@.history.len() as int),
            },
    {
        let ghost all = self@.history;
        let mut seen: usize = 0;
        let mut i: usize = self.history.len();
        while i > 0
            invariant
                i <= self.history@.len(),
                all == self@.history,
                seen < turns,
                seen <= self.history.len() - i,
                transcript::user_back(all, all.len() as int, turns as int) == transcript::user_back(
                    all,
                    i as int,
                    turns - seen,
                ),
                transcript::users_in(all, all.len() as int) == transcript::users_in(all, i as int) + seen,
            decreases i,
        {
            assert(all[i - 1] == self.history@[i - 1]@);
            if self.history[i - 1].has_role("user") {
                seen = seen + 1;
                if seen == turns {
                    return (Some(i - 1), seen);
                }
            }
            i = i - 1;
        }
        (None, seen)
    }

    fn cut(&mut self, index: usize) -> (r: usize)
        requires
            index < old(self).history@.len(),
            old(self).wf(),
        ensures
            final(self).wf(),
            r == old(self).history@.len() - index,
            final(self)@ == old(self)@.cut_from(index as int).pruned(),
    {
        let ghost before = self@;
        let removed = self.history.split_off(index);
        let count: usize = removed.len();
        let ghost taken = model::messages(removed@);
        assert(taken =~= before.history.skip(index as int));
        let ghost stack = self.redo_stack@;
        let entry = UndoEntry { messages: removed };
        self.redo_stack.push(entry);
        assert(transcript::entries_view(self.redo_stack@) =~= transcript::entries_view(stack).push(taken));
        assert(model::messages(self.history@) =~= before.history.take(index as int));
        self.follow_transcript = true;
        self.prune_sections();
        count
    }

    /// Takes the last exchange back and gives its prompt.
    pub fn undo(&mut self) -> (r: Option<String>)
        requires
            old(self).wf(),
        ensures
            final(self).wf(),
            final(self)@ == old(self)@.undone(),
            match transcript::user_back(old(self)@.history, old(self)@.history.len() as int, 1) {
                Some(index) => r is Some && r->0@ == old(self)@.history[index].content,
                None => r is None,
            },
    {
        match self.find_user_back(1).0 {
            None => {
                self.set_error(text::copy_text("Nothing to undo"));
                None
            },
            Some(index) => {
                assert(self@.history[index as int] == self.history@[index as int]@);
                let prompt = text::copy_text(self.history[index].content.as_str());
                let count: usize = self.cut(index);
                let n = scan::decimal_text(count as u64);
                self.set_ok(
                    text::cat3(
                        "Undid ",
                        n.as_str(),
                        " message(s); prompt restored · /redo to re-apply",
                    ),
                );
                Some(prompt)
            },
        }
    }

    /// Puts the latest undone exchange back.
    pub fn redo(&mut self)
        ensures
            old(self).wf() ==> final(self).wf(),
            final(self)@ == old(self)@.redone(),
    {
        let ghost before = self@;
        match self.redo_stack.pop() {
            None => {
                self.set_error(text::copy_text("Nothing to redo"));
            },
            Some(entry) => {
                let mut entry = entry;
                assert(before.redo.last() == model::messages(entry.messages@));
                assert(self@.redo =~= before.redo.drop_last());
                let count: usize = entry.messages.len();
                let ghost tail = model::messages(entry.messages@);
                self.history.append(&mut entry.messages);
                assert(model::messages(self.history@) =~= before.history + tail);
                self.follow_transcript = true;
                let n = scan::decimal_text(count as u64);
                self.set_ok(text::cat3("Redid ", n.as_str(), " message(s)"));
            },
        }
    }

    /// Where `/rewind` will cut; where it does not, the status line says why.
    pub fn rewind_plan(&mut self, busy: bool, args: &Vec<String>) -> (r: Option<usize>)
        ensures
            old(self).wf() ==> final(self).wf(),
            match old(self)@.rewind_at(busy, text::texts(args@)) {
                Ok(index) => r == Some(index as usize) && index == r->0 && r->0
                    < old(self)@.history.len() && final(self)@ == old(self)@,
                Err(text) => r is None && final(self)@ == old(self)@.noted(text, StatusTone::Error),
            },
    {
        if busy {
            self.set_error(text::copy_text("Finish the active request before rewinding"));
            return None;
        }
        let turns: usize = if args.len() == 0 {
            1
        } else {
            assert(text::texts(args@)[0] == args@[0]@);
            match filters::parse_index(args[0].as_str()) {
                Some(n) => n,
                None => 0,
            }
        };
        if turns == 0 {
            self.set_error(text::copy_text("Usage: /rewind [turns]"));
            return None;
        }
        let (found, seen) = self.find_user_back(turns);
        match found {
            Some(index) => Some(index),
            None => {
                if seen == 0 {
                    self.set_error(text::copy_text("Nothing to rewind"));
                } else {
                    let n = scan::decimal_text(seen as u64);
                    self.set_error(text::cat3("Only ", n.as_str(), " user turn(s) in the session"));
                }
                None
            },
        }
    }

    /// Cuts the transcript at `index` once it is backed up; a backup that failed keeps
    /// it.
    pub fn rewind_finish(&mut self, index: usize, backup: Result<String, String>)
        requires
            old(self).wf(),
            index < old(self).history@.len(),
        ensures
            final(self).wf(),
            final(self)@ == match backup {
                Ok(name) => old(self)@.rewound(index as int, name@),
                Err(error) => old(self)@.noted(
                    "Rewind backup failed, session kept: "@ + error@,
                    StatusTone::Error,
                ),
            },
    {
        match backup {
            Err(error) => {
                self.set_error(text::cat2("Rewind backup failed, session kept: ", error.as_str()));
            },
            Ok(name) => {
                let count: usize = self.cut(index);
                let n = scan::decimal_text(count as u64);
                let head = text::cat4("Rewound ", n.as_str(), " message(s) · backup ", name.as_str());
                let note = text::cat4(
                    head.as_str(),
                    " · /redo to re-apply, /session load ",
                    name.as_str(),
                    " to restore",
                );
                self.push_system(note.as_str());
                self.set_ok(text::cat4("Rewound ", n.as_str(), " message(s); backup ", name.as_str()));
            },
        }
    }

    fn list_filters(&mut self)
        requires
            old(self).wf(),
        ensures
            final(self).wf(),
            final(self)@ == ({
                let rows = filter_rows(old(self)@, old(self)@.history.len() as int);
                if rows.len() == 0 {
                    old(self)@.noted(
                        "No block filters active · "@ + FILTER_USAGE@,
                        StatusTone::Muted,
                    )
                } else {
                    old(self)@.told("Block filters\n"@ + scan::join(rows, "\n"@))
                }
            }),
    {
        let mut rows: Vec<String> = Vec::new();
        assert(text::texts(rows@) =~= filter_rows(self@, 0));
        for i in 0..self.history.len()
            invariant
                text::texts(rows@) == filter_rows(self@, i as int),
        {
            let m = &self.history[i];
            assert(self@.history[i as int] == m@);
            if let Some(filter) = self.block_filters.get(m.id.as_str()) {
                let summary = filter.describe();
                let n = scan::decimal_text(i as u64 + 1);
                let head = text::cat4("  block ", n.as_str(), " (", m.role.as_str());
                let row = text::cat3(head.as_str(), ") · ", summary.as_str());
                proof {
                    text::texts_push(rows@, row);
                }
                rows.push(row);
            }
        }
        if rows.len() == 0 {
            self.set_status(text::cat2("No block filters active · ", FILTER_USAGE));
        } else {
            let body = scan::join_texts(&rows, "\n");
            let note = text::cat2("Block filters\n", body.as_str());
            self.push_system(note.as_str());
        }
    }

    /// `/filter`: sets, clears or lists filters on blocks.
    pub fn command_filter(&mut self, args: &Vec<String>)
        requires
            old(self).wf(),
        ensures
            final(self).wf(),
            final(self)@ == old(self)@.filtered_by(text::texts(args@)),
    {
        proof {
            filter_index_bounds(self@.history.len(), text::texts(args@), |p: Seq<char>| pattern::pattern_error(p));
        }
        match filters::parse_block_filter(self.history.len(), args) {
            Err(text) => {
                self.set_error(text);
            },
            Ok(FilterAction::List) => {
                self.list_filters();
            },
            Ok(FilterAction::Store(index, filter)) => {
                let summary = filter.describe();
                let id = self.section_id(index);
                proof {
                    transcript::filters_view_insert(self.block_filters@, id@, filter);
                }
                self.block_filters.insert(id, filter);
                let n = scan::decimal_text(index as u64 + 1);
                self.set_ok(text::cat4("Filter block ", n.as_str(), " · ", summary.as_str()));
            },
            Ok(FilterAction::Clear(index)) => {
                let id = self.section_id(index);
                let had = self.block_filters.get(id.as_str()).is_some();
                let ghost before = self@;
                self.block_filters.remove(id.as_str());
                assert(self@.filters =~= before.filters.remove(id@));
                let n = scan::decimal_text(index as u64 + 1);
                if had {
                    self.set_ok(text::cat2("Filter cleared on block ", n.as_str()));
                } else {
                    self.set_status(text::cat3("Block ", n.as_str(), " has no filter"));
                }
            },
        }
    }

    fn block_row_text(&self, index: usize) -> (r: String)
        requires
            index < self.history@.len(),
        ensures
            r@ == block_row(self@, index as int),
    {
        assert(index < self.history.len());
        let m = &self.history[index];
        assert(self@.history[index as int] == m@);
        let n = scan::decimal_text(index as u64 + 1);
        let number = scan::pad_left_text(n.as_str(), 3);
        let role = scan::pad_right_text(m.role.as_str(), 9);
        let line = scan::first_line_text(m.content.as_str());
        let preview = scan::take_chars(line.as_str(), 60);
        let filtered = if self.block_filters.get(m.id.as_str()).is_some() {
            " ·filtered"
        } else {
            ""
        };
        let head = text::cat4(" ", number.as_str(), " ", role.as_str());
        text::cat4(head.as_str(), " ", preview.as_str(), filtered)
    }

    /// `/block [n]`: lists the latest blocks, or describes one.
    pub fn command_block(&mut self, args: &Vec<String>)
        requires
            old(self).wf(),
        ensures
            final(self).wf(),
            final(self)@ == old(self)@.block_shown(text::texts(args@)),
    {
        let len: usize = self.history.len();
        let count = scan::decimal_text(len as u64);
        if args.len() == 0 {
            if len == 0 {
                self.set_status(text::copy_text("Session is empty"));
                return;
            }
            let start: usize = if len > 40 {
                len - 40
            } else {
                0
            };
            let first = scan::decimal_text(start as u64 + 1);
            let head = text::cat5("Blocks ", first.as_str(), "-", count.as_str(), " of ");
            let mut rows: Vec<String> = Vec::new();
            rows.push(text::cat2(head.as_str(), count.as_str()));
            let ghost top = text::texts(rows@)[0];
            assert(text::texts(rows@) =~= seq![top] + block_rows(self@, start as int, start as int));
            let mut i: usize = start;
            while i < len
                invariant
                    start <= i <= len == self.history@.len(),
                    text::texts(rows@) == seq![top] + block_rows(self@, start as int, i as int),
                decreases len - i,
            {
                let row = self.block_row_text(i);
                proof {
                    text::texts_push(rows@, row);
                }
                rows.push(row);
                i = i + 1;
                assert(text::texts(rows@) =~= seq![top] + block_rows(self@, start as int, i as int));
            }
            let note = scan::join_texts(&rows, "\n");
            self.push_system(note.as_str());
            return;
        }
        assert(text::texts(args@)[0] == args@[0]@);
        let number: usize = match filters::parse_block_number(args[0].as_str()) {
            Some(n) => n,
            None => {
                self.set_status(text::copy_text("Usage: /block [n]"));
                return;
            },
        };
        if number < 1 || number > len {
            self.set_error(filters::out_of_range_text(number, len));
            return;
        }
        let id = self.section_id(number - 1);
        let m = &self.history[number - 1];
        assert(self@.history[number - 1] == m@);
        let n = scan::decimal_text(number as u64);
        let chars = scan::decimal_text(scan::count_chars(m.content.as_str()) as u64);
        let list = scan::text_lines(m.content.as_str());
        let line_count = scan::decimal_text(list.len() as u64);
        let summary = match self.block_filters.get(id.as_str()) {
            Some(filter) => filter.describe(),
            None => text::copy_text("none"),
        };
        let line = scan::first_line_text(m.content.as_str());
        let preview = scan::take_chars(line.as_str(), 100);
        let a = text::cat4("Block ", n.as_str(), " · ", m.role.as_str());
        let b = text::cat4(a.as_str(), " · ", chars.as_str(), " chars · ");
        let c = text::cat4(b.as_str(), line_count.as_str(), " line(s) · filter: ", summary.as_str());
        let note = text::cat3(c.as_str(), "\n  ", preview.as_str());
        self.push_system(note.as_str());
    }

    /// `/history`: the last messages in short.
    pub fn command_history(&mut self)
        requires
            old(self).wf(),
        ensures
            final(self).wf(),
            final(self)@ == old(self)@.history_shown(),
    {
        let len: usize = self.history.len();
        if len == 0 {
            self.push_system("Session is empty");
            return;
        }
        let start: usize = if len > 12 {
            len - 12
        } else {
            0
        };
        let shown = scan::decimal_text((len - start) as u64);
        let count = scan::decimal_text(len as u64);
        let mut rows: Vec<String> = Vec::new();
        rows.push(text::cat5("Last ", shown.as_str(), " of ", count.as_str(), " messages:"));
        let ghost top = text::texts(rows@)[0];
        assert(text::texts(rows@) =~= seq![top] + history_rows(self@, start as int, start as int));
        let mut i: usize = start;
        while i < len
            invariant
                start <= i <= len == self.history@.len(),
                text::texts(rows@) == seq![top] + history_rows(self@, start as int, i as int),
            decreases len - i,
        {
            let m = &self.history[i];
            assert(self@.history[i as int] == m@);
            let cut = scan::take_chars(m.content.as_str(), 160);
            let preview = one_line_text(cut.as_str());
            let row = text::cat4("[", m.role.as_str(), "] ", preview.as_str());
            proof {
                text::texts_push(rows@, row);
            }
            rows.push(row);
            i = i + 1;
            assert(text::texts(rows@) =~= seq![top] + history_rows(self@, start as int, i as int));
        }
        let note = scan::join_texts(&rows, "\n");
        self.push_system(note.as_str());
    }

    /// The text and the number of the block that `/copy out` copies: by default the last
    /// one. Where there is none, the status line says why.
    pub fn copy_block(&mut self, arg: Option<&String>) -> (r: Option<(usize, String)>)
        requires
            old(self).wf(),
        ensures
            final(self).wf(),
            ({
                let a = match arg {
                    Some(s) => Some(s@),
                    None => None,
                };
                &&& final(self)@ == old(self)@.copy_prepared(a)
                &&& match old(self)@.copy_index(a) {
                    Some(index) => (r matches Some(pair) && pair.0 == index + 1 && pair.1@ == old(
                        self,
                    )@.copy_text_of(index)),
                    None => r is None,
                }
            }),
    {
        let len: usize = self.history.len();
        let number: usize = match arg {
            Some(text) => match filters::parse_block_number(text.as_str()) {
                Some(n) => n,
                None => {
                    self.set_status(text::copy_text("Usage: /copy out [n]"));
                    return None;
                },
            },
            None => len,
        };
        if number < 1 || number > len {
            self.set_error(filters::out_of_range_text(number, len));
            return None;
        }
        let id = self.section_id(number - 1);
        assert(self@.history[number - 1] == self.history@[number - 1]@);
        let content = filters::block_copy_content(
            self.history[number - 1].content.as_str(),
            self.block_filters.get(id.as_str()),
        );
        Some((number, content))
    }
}

proof fn filter_index_bounds(
    count: nat,
    args: Seq<Seq<char>>,
    error: spec_fn(Seq<char>) -> Option<Seq<char>>,
)
    ensures
        match filters::filter_outcome(count, args, error) {
            FilterOutcome::Store(index, _) => 0 <= index < count,
            FilterOutcome::Clear(index) => 0 <= index < count,
            _ => true,
        },
{
}

// ---------------------------------------------------------------------------
// Laws
// ---------------------------------------------------------------------------

/// Redoing what was undone restores the messages as they were.
pub proof fn redo_restores_undone(v: TranscriptView)
    ensures
        v.undone().tone == StatusTone::Success ==> v.undone().redone().history == v.history
            && v.undone().redone().redo == v.redo,
        transcript::users_in(v.history, v.history.len() as int) > 0 ==> v.undone().tone == StatusTone::Success,
{
    user_back_bounds(v.history, v.history.len() as int, 1);
    match transcript::user_back(v.history, v.history.len() as int, 1) {
        Some(index) => {
            assert(v.history.take(index) + v.history.skip(index) =~= v.history);
            assert(v.redo.push(v.history.skip(index)).drop_last() =~= v.redo);
        },
        None => {},
    }
}

/// Undoing takes out the last message of the user and everything after it, and leaves
/// what is before it alone.
pub proof fn undo_takes_one_exchange(v: TranscriptView)
    requires
        transcript::users_in(v.history, v.history.len() as int) > 0,
    ensures
        v.undone().history.len() < v.history.len(),
        v.undone().history == v.history.take(v.undone().history.len() as int),
        v.history[v.undone().history.len() as int].role == "user"@,
        transcript::users_in(v.undone().history, v.undone().history.len() as int) + 1 == transcript::users_in(
            v.history,
            v.history.len() as int,
        ),
{
    user_back_bounds(v.history, v.history.len() as int, 1);
    let index = transcript::user_back(v.history, v.history.len() as int, 1)->0;
    users_prefix(v.history, index, index);
}

proof fn users_prefix(history: Seq<MessageView>, n: int, i: int)
    requires
        0 <= i <= n <= history.len(),
    ensures
        transcript::users_in(history.take(n), i) == transcript::users_in(history, i),
    decreases i,
{
    if i > 0 {
        users_prefix(history, n, i - 1);
    }
}

/// Rewinding drops exactly the turns asked for, keeps what is before them, and leaves
/// them on the redo stack.
pub proof fn rewind_drops_turns(v: TranscriptView, args: Seq<Seq<char>>, backup: Seq<char>)
    requires
        v.rewind_at(false, args) is Ok,
    ensures
        ({
            let index = v.rewind_at(false, args)->Ok_0;
            let w = v.rewound(index, backup);
            &&& 0 <= index < v.history.len()
            &&& w.redo == v.redo.push(v.history.skip(index))
            &&& transcript::users_in(v.history, v.history.len() as int) == transcript::users_in(v.history, index)
                + rewind_turns(args)
            &&& v.history.take(index) + w.redo.last() == v.history
        }),
{
    user_back_bounds(v.history, v.history.len() as int, rewind_turns(args) as int);
    let index = v.rewind_at(false, args)->Ok_0;
    assert(v.history.take(index) + v.history.skip(index) =~= v.history);
}

/// Opening or closing a section twice leaves it as it was.
pub proof fn toggling_twice_restores(
    v: TranscriptView,
    id: Seq<char>,
    default: bool,
    label: Seq<char>,
)
    ensures
        v.toggled(id, default, label).toggled(id, default, label).open(id, default) == v.open(
            id,
            default,
        ),
{
    let w = v.toggled(id, default, label);
    transcript::failed_by_history(v, w, id);
}

/// No command to close sections ever closes a failed tool result.
pub proof fn failed_results_stay_open(v: TranscriptView, args: Seq<Seq<char>>, id: Seq<char>)
    requires
        v.failed(id),
        id.len() > 0,
        v.open(id, true),
    ensures
        v.expanded(args).open(id, true),
{
    if args.len() > 0 && args[0].len() > 0 && args[0][0] == '#' {
        let number = scan::parse_up_to(args[0].skip(1), filters::index_max());
        if number is Some && 1 <= number->0 <= v.history.len() && args[0] != "all"@ && args[0]
            != "none"@ {
            let k = number->0 - 1;
            let named = v.named(k);
            let i = choose|i: int| 0 <= i < v.history.len() && #[trigger] v.failed_at(id, i);
            assert(named.failed_at(id, i));
        }
    }
}

/// Notes that repeat each other are folded into one message, whose count goes up by
/// one each time.
pub proof fn repeated_notes_fold(v: TranscriptView, text: Seq<char>)
    requires
        replies::repeat_parts(text) == (text, 1nat),
    ensures
        v.told(text).told(text).history.len() == v.told(text).history.len(),
        v.told(text).history.last().role == "system"@,
        replies::repeat_parts(v.told(text).history.last().content).0 == text,
        replies::repeat_parts(v.told(text).told(text).history.last().content) == (
            text,
            transcript::one_more(replies::repeat_parts(v.told(text).history.last().content).1, filters::index_max()),
        ),
{
    let w = v.told(text);
    if v.repeats(text) {
        replies::repeat_mark_reads_back(
            text,
            transcript::one_more(replies::repeat_parts(v.history.last().content).1, filters::index_max()),
        );
    }
    count_fits(w.history.last().content);
    replies::repeat_mark_reads_back(text, transcript::one_more(replies::repeat_parts(w.history.last().content).1, filters::index_max()));
}

proof fn count_fits(s: Seq<char>)
    ensures
        replies::repeat_parts(s).1 <= filters::index_max(),
{
}

/// After the id counter is moved past the history, the next id is new: no message has
/// it. (Left out is a history that holds the largest id there can be.)
pub proof fn fresh_ids_are_new(v: TranscriptView, i: int)
    requires
        0 <= i < v.history.len(),
        transcript::top_number(v.history) < u64::MAX,
        v.reseeded().next_id <= u64::MAX,
    ensures
        v.history[i].id != "m"@ + scan::decimal(v.reseeded().next_id),
{
    reveal_strlit("m");
    let next = v.reseeded().next_id;
    let fresh = "m"@ + scan::decimal(next);
    replies::decimal_reads_back(next);
    assert(fresh.skip(1) =~= scan::decimal(next));
    if v.history[i].id == fresh {
        assert(v.history[i].id.len() > 0);
        top_covers(v.history, i);
        assert(transcript::id_number(fresh) == Some(next));
        assert(false);
    }
}

proof fn top_covers(history: Seq<MessageView>, i: int)
    requires
        0 <= i < history.len(),
    ensures
        transcript::id_number(history[i].id) matches Some(n) ==> n <= transcript::top_number(history),
    decreases history.len(),
{
    if i < history.len() - 1 {
        top_covers(history.drop_last(), i);
    }
}

/// What was open, closed or filtered in an undone exchange is forgotten: put back, it
/// is shown as at first. What stays keeps how it is shown.
pub proof fn undone_blocks_are_shown_afresh(v: TranscriptView, id: Seq<char>)
    requires
        transcript::users_in(v.history, v.history.len() as int) > 0,
    ensures
        !transcript::id_set(v.undone().history).contains(id) ==> !v.undone().redone().sections.contains_key(id)
            && !v.undone().redone().filters.contains_key(id),
        transcript::id_set(v.undone().history).contains(id) ==> (v.undone().redone().sections.contains_key(id)
            <==> v.sections.contains_key(id)) && (v.sections.contains_key(id)
            ==> v.undone().redone().sections[id] == v.sections[id]),
{
    user_back_bounds(v.history, v.history.len() as int, 1);
}

} // verus!
