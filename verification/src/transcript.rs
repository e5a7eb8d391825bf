//! The transcript of a pane: its messages, which of their sections are open, the
//! filters on them, the status line, and what can be redone.

use crate::events::{StatusTone, UndoEntry};
use crate::filters::{BlockFilter, FilterView};
use crate::filters;
use crate::idmap::IdMap;
use crate::model::{Message, MessageView};
use crate::model;
use crate::replies;
use crate::scan;
use crate::text;
use vstd::prelude::*;

verus! {

/// The transcript of a pane and its status line.
pub struct Transcript {
    pub history: Vec<Message>,
    /// The number of the next message id.
    pub next_msg_id: u64,
    /// Sections that the user opened or closed, by message id.
    pub section_state: IdMap<bool>,
    /// The sections of the last drawing in order, with whether each is open by default.
    pub section_order: Vec<(String, bool)>,
    /// Filters by message id.
    pub block_filters: IdMap<BlockFilter>,
    pub transcript_scroll: usize,
    pub follow_transcript: bool,
    pub show_details: bool,
    pub status: String,
    pub status_tone: StatusTone,
    /// Undone exchanges, the newest last.
    pub redo_stack: Vec<UndoEntry>,
}

/// What a transcript holds.
#[verifier::ext_equal]
pub struct TranscriptView {
    pub history: Seq<MessageView>,
    pub next_id: nat,
    pub sections: Map<Seq<char>, bool>,
    pub order: Seq<(Seq<char>, bool)>,
    pub filters: Map<Seq<char>, FilterView>,
    pub scroll: int,
    pub follow: bool,
    pub details: bool,
    pub status: Seq<char>,
    pub tone: StatusTone,
    pub redo: Seq<Seq<MessageView>>,
}

/// The sections of a list.
pub open spec fn sections_view(list: Seq<(String, bool)>) -> Seq<(Seq<char>, bool)> {
    list.map_values(|e: (String, bool)| (e.0@, e.1))
}

/// What the filters of a map hold.
pub open spec fn filters_view(m: Map<Seq<char>, BlockFilter>) -> Map<Seq<char>, FilterView> {
    m.map_values(|f: BlockFilter| f@)
}

/// Setting a filter sets its contents.
pub proof fn filters_view_insert(m: Map<Seq<char>, BlockFilter>, id: Seq<char>, f: BlockFilter)
    ensures
        filters_view(m.insert(id, f)) == filters_view(m).insert(id, f@),
{
    assert(filters_view(m.insert(id, f)) =~= filters_view(m).insert(id, f@));
}

/// The entries of a redo stack.
pub open spec fn entries_view(list: Seq<UndoEntry>) -> Seq<Seq<MessageView>> {
    list.map_values(|e: UndoEntry| model::messages(e.messages@))
}

impl View for Transcript {
    type V = TranscriptView;

    open spec fn view(&self) -> TranscriptView {
        TranscriptView {
            history: model::messages(self.history@),
            next_id: self.next_msg_id as nat,
            sections: self.section_state@,
            order: sections_view(self.section_order@),
            filters: filters_view(self.block_filters@),
            scroll: self.transcript_scroll as int,
            follow: self.follow_transcript,
            details: self.show_details,
            status: self.status@,
            tone: self.status_tone,
            redo: entries_view(self.redo_stack@),
        }
    }
}

/// The number of a message id `m<N>`.
pub open spec fn id_number(id: Seq<char>) -> Option<nat> {
    if id.len() > 0 && id[0] == 'm' {
        scan::parse_up_to(id.skip(1), u64::MAX as nat)
    } else {
        None
    }
}

/// The largest number among the ids of messages; zero without any.
pub open spec fn top_number(history: Seq<MessageView>) -> nat
    decreases history.len(),
{
    if history.len() == 0 {
        0
    } else {
        let rest = top_number(history.drop_last());
        match id_number(history.last().id) {
            Some(n) if n > rest => n,
            _ => rest,
        }
    }
}

/// The ids of messages.
pub open spec fn ids_of(history: Seq<MessageView>) -> Seq<Seq<char>> {
    history.map_values(|m: MessageView| m.id)
}

/// The ids of messages, as a set.
pub open spec fn id_set(history: Seq<MessageView>) -> Set<Seq<char>> {
    Set::new(|id: Seq<char>| ids_of(history).contains(id))
}

/// The words for an open and a closed section.
pub open spec fn state_word(open: bool) -> Seq<char> {
    if open {
        "expanded"@
    } else {
        "collapsed"@
    }
}

/// The position of the first section with the given id, from `i` on.
pub open spec fn section_at(order: Seq<(Seq<char>, bool)>, id: Seq<char>, i: int) -> Option<int>
    decreases order.len() - i,
{
    if i < 0 || i >= order.len() {
        None
    } else if order[i].0 == id {
        Some(i)
    } else {
        section_at(order, id, i + 1)
    }
}

/// Whether one of the first `n` sections has the given id.
pub open spec fn among(order: Seq<(Seq<char>, bool)>, n: int, id: Seq<char>) -> bool {
    exists|j: int| 0 <= j < n && (#[trigger] order[j]).0 == id
}

proof fn among_step(order: Seq<(Seq<char>, bool)>, n: int, id: Seq<char>)
    requires
        0 <= n < order.len(),
    ensures
        among(order, n + 1, id) == (among(order, n, id) || order[n].0 == id),
{
    if among(order, n, id) {
        let j = choose|j: int| 0 <= j < n && (#[trigger] order[j]).0 == id;
        assert(0 <= j < n + 1 && order[j].0 == id);
    }
    if order[n].0 == id {
        assert(0 <= n < n + 1 && order[n].0 == id);
    }
}

/// Whether a section failed depends on the messages only.
pub proof fn failed_by_history(a: TranscriptView, b: TranscriptView, id: Seq<char>)
    requires
        a.history == b.history,
    ensures
        a.failed(id) == b.failed(id),
{
    if a.failed(id) {
        let i = choose|i: int| 0 <= i < a.history.len() && #[trigger] a.failed_at(id, i);
        assert(b.failed_at(id, i));
    }
    if b.failed(id) {
        let i = choose|i: int| 0 <= i < b.history.len() && #[trigger] b.failed_at(id, i);
        assert(a.failed_at(id, i));
    }
}

/// One more, but never more than fits a count.
pub open spec fn one_more(n: nat, max: nat) -> nat {
    if n < max {
        n + 1
    } else {
        max
    }
}

/// Where the `n`-th user message from the end stands, looking back from `i`.
pub open spec fn user_back(history: Seq<MessageView>, i: int, n: int) -> Option<int>
    decreases i,
{
    if i <= 0 || i > history.len() || n <= 0 {
        None
    } else if history[i - 1].role == "user"@ {
        if n == 1 {
            Some(i - 1)
        } else {
            user_back(history, i - 1, n - 1)
        }
    } else {
        user_back(history, i - 1, n)
    }
}

/// How many of the first `i` messages are the user's.
pub open spec fn users_in(history: Seq<MessageView>, i: int) -> nat
    decreases i,
{
    if i <= 0 || i > history.len() {
        0
    } else if history[i - 1].role == "user"@ {
        users_in(history, i - 1) + 1
    } else {
        users_in(history, i - 1)
    }
}

impl TranscriptView {
    /// The status line replaced.
    pub open spec fn noted(self, text: Seq<char>, tone: StatusTone) -> TranscriptView {
        TranscriptView { status: text, tone: tone, ..self }
    }

    /// One message more at the end.
    pub open spec fn pushed(self, m: MessageView) -> TranscriptView {
        TranscriptView { history: self.history.push(m), ..self }
    }

    /// Whether a note would only repeat the last message.
    pub open spec fn repeats(self, text: Seq<char>) -> bool {
        &&& self.history.len() > 0
        &&& self.history.last().role == "system"@
        &&& replies::repeat_parts(self.history.last().content).0 == text
    }

    /// A note of the interface: a note that repeats the last message only raises its
    /// count.
    pub open spec fn told(self, text: Seq<char>) -> TranscriptView {
        if self.repeats(text) {
            let last = self.history.last();
            let count = one_more(replies::repeat_parts(last.content).1, filters::index_max());
            TranscriptView {
                history: self.history.update(
                    self.history.len() - 1,
                    MessageView { content: replies::repeated(text, count), ..last },
                ),
                follow: true,
                ..self
            }
        } else {
            TranscriptView { follow: true, ..self.pushed(model::plain_message("system"@, text)) }
        }
    }

    /// The id of message `index`: its own, or the next free one.
    pub open spec fn id_of(self, index: int) -> Seq<char> {
        if self.history[index].id.len() == 0 {
            "m"@ + scan::decimal(self.next_id)
        } else {
            self.history[index].id
        }
    }

    /// Message `index` given an id, where it had none.
    pub open spec fn named(self, index: int) -> TranscriptView {
        if self.history[index].id.len() == 0 {
            TranscriptView {
                history: self.history.update(
                    index,
                    MessageView { id: self.id_of(index), ..self.history[index] },
                ),
                next_id: one_more(self.next_id, u64::MAX as nat),
                ..self
            }
        } else {
            self
        }
    }

    /// Whether a section is open: as the user left it, or else by default.
    pub open spec fn open(self, id: Seq<char>, default: bool) -> bool {
        if self.sections.contains_key(id) {
            self.sections[id]
        } else {
            default
        }
    }

    /// Whether message `i` is the failed result of a tool and has the given id.
    pub open spec fn failed_at(self, id: Seq<char>, i: int) -> bool {
        &&& self.history[i].id == id
        &&& self.history[i].role == "tool"@
        &&& scan::contains_text(self.history[i].content, "tool error:"@)
    }

    /// Whether a section is a failed tool result, which is always shown in full.
    pub open spec fn failed(self, id: Seq<char>) -> bool {
        exists|i: int| 0 <= i < self.history.len() && #[trigger] self.failed_at(id, i)
    }

    /// A section opened or closed.
    pub open spec fn toggled(self, id: Seq<char>, default: bool, label: Seq<char>) -> TranscriptView {
        if self.failed(id) {
            self.noted(label + " failed and stays expanded"@, StatusTone::Muted)
        } else {
            TranscriptView { sections: self.sections.insert(id, !self.open(id, default)), ..self }
        }
    }

    /// A section opened or closed, and the status line told so.
    pub open spec fn flipped(self, id: Seq<char>, default: bool, label: Seq<char>) -> TranscriptView {
        if self.failed(id) {
            self.toggled(id, default, label)
        } else {
            self.toggled(id, default, label).noted(
                label + " "@ + state_word(!self.open(id, default)),
                StatusTone::Muted,
            )
        }
    }

    /// Overrides and filters kept only for messages that are there.
    pub open spec fn pruned(self) -> TranscriptView {
        TranscriptView {
            sections: self.sections.restrict(id_set(self.history)),
            filters: self.filters.restrict(id_set(self.history)),
            ..self
        }
    }

    /// The id counter moved past every id in the history.
    pub open spec fn reseeded(self) -> TranscriptView {
        if exists|i: int| 0 <= i < self.history.len() && (#[trigger] self.history[i]).id.len() > 0 {
            let next = one_more(top_number(self.history), u64::MAX as nat);
            TranscriptView {
                next_id: if next > self.next_id {
                    next
                } else {
                    self.next_id
                },
                ..self
            }
        } else {
            self
        }
    }

    /// The usage of `/expand`.
    pub open spec fn expand_usage(self) -> TranscriptView {
        self.noted(
            "Usage: /expand [1-"@ + scan::decimal(
                if self.order.len() >= 1 {
                    self.order.len()
                } else {
                    1
                },
            ) + "|#block|all|none]"@,
            StatusTone::Error,
        )
    }

    /// Every section opened, or every one closed that is no failed result.
    pub open spec fn all_set(self, open: bool) -> TranscriptView {
        TranscriptView {
            sections: self.sections.union_prefer_right(
                Map::new(
                    |id: Seq<char>|
                        among(self.order, self.order.len() as int, id) && (open || !self.failed(id)),
                    |id: Seq<char>| open,
                ),
            ),
            ..self
        }.noted(
            (if open {
                "Expanded"@
            } else {
                "Collapsed"@
            }) + " "@ + scan::decimal(self.order.len()) + " section(s)"@,
            StatusTone::Success,
        )
    }

    /// `/expand` with an argument.
    pub open spec fn expanded_by(self, arg: Seq<char>) -> TranscriptView {
        if arg == "all"@ {
            self.all_set(true)
        } else if arg == "none"@ {
            self.all_set(false)
        } else if arg.len() > 0 && arg[0] == '#' {
            match scan::parse_up_to(arg.skip(1), filters::index_max()) {
                None => self.expand_usage(),
                Some(number) => if number < 1 || number > self.history.len() {
                    self.noted(filters::out_of_range(number, self.history.len()), StatusTone::Error)
                } else {
                    let named = self.named(number - 1);
                    let id = self.id_of(number - 1);
                    match section_at(self.order, id, 0) {
                        None => named.noted(
                            "Block "@ + scan::decimal(number) + " is not a collapsible section"@,
                            StatusTone::Muted,
                        ),
                        Some(i) => named.flipped(
                            id,
                            self.order[i].1,
                            "Block "@ + scan::decimal(number),
                        ),
                    }
                },
            }
        } else {
            match scan::parse_up_to(arg, filters::index_max()) {
                Some(number) if 1 <= number <= self.order.len() => self.flipped(
                    self.order[number - 1].0,
                    self.order[number - 1].1,
                    "Section "@ + scan::decimal(number),
                ),
                _ => self.expand_usage(),
            }
        }
    }

    /// `/expand`: one section by its number or its block, all, none, or the latest.
    pub open spec fn expanded(self, args: Seq<Seq<char>>) -> TranscriptView {
        if args.len() > 0 {
            self.expanded_by(args[0])
        } else if self.order.len() > 0 {
            self.flipped(
                self.order.last().0,
                self.order.last().1,
                "Section "@ + scan::decimal(self.order.len()),
            )
        } else {
            self.noted("Nothing to expand"@, StatusTone::Muted)
        }
    }

    /// Everything from message `index` on taken out and put on the redo stack.
    pub open spec fn cut_from(self, index: int) -> TranscriptView {
        TranscriptView {
            history: self.history.take(index),
            redo: self.redo.push(self.history.skip(index)),
            follow: true,
            ..self
        }
    }

    /// The last exchange taken out.
    pub open spec fn undone(self) -> TranscriptView {
        match user_back(self.history, self.history.len() as int, 1) {
            None => self.noted("Nothing to undo"@, StatusTone::Error),
            Some(index) => self.cut_from(index).pruned().noted(
                "Undid "@ + scan::decimal((self.history.len() - index) as nat)
                    + " message(s); prompt restored · /redo to re-apply"@,
                StatusTone::Success,
            ),
        }
    }

    /// The latest undone exchange put back.
    pub open spec fn redone(self) -> TranscriptView {
        if self.redo.len() == 0 {
            self.noted("Nothing to redo"@, StatusTone::Error)
        } else {
            TranscriptView {
                history: self.history + self.redo.last(),
                redo: self.redo.drop_last(),
                follow: true,
                ..self
            }.noted("Redid "@ + scan::decimal(self.redo.last().len()) + " message(s)"@, StatusTone::Success)
        }
    }

    /// What rewinding takes out, once the transcript is backed up under `backup`.
    pub open spec fn rewound(self, index: int, backup: Seq<char>) -> TranscriptView {
        let count = scan::decimal((self.history.len() - index) as nat);
        self.cut_from(index).pruned().told(
            "Rewound "@ + count + " message(s) · backup "@ + backup
                + " · /redo to re-apply, /session load "@ + backup + " to restore"@,
        ).noted("Rewound "@ + count + " message(s); backup "@ + backup, StatusTone::Success)
    }
}

/// A transcript without messages.
pub open spec fn empty_transcript() -> TranscriptView {
    TranscriptView {
        history: Seq::empty(),
        next_id: 0,
        sections: Map::empty(),
        order: Seq::empty(),
        filters: Map::empty(),
        scroll: 0,
        follow: true,
        details: false,
        status: Seq::empty(),
        tone: StatusTone::Muted,
        redo: Seq::empty(),
    }
}

impl Transcript {
    /// No id has two overrides or two filters.
    pub open spec fn wf(self) -> bool {
        self.section_state.wf() && self.block_filters.wf()
    }

    /// An empty transcript.
    pub fn new() -> (r: Transcript)
        ensures
            r.wf(),
            r@ == empty_transcript(),
    {
        let r = Transcript {
            history: Vec::new(),
            next_msg_id: 0,
            section_state: IdMap::new(),
            section_order: Vec::new(),
            block_filters: IdMap::new(),
            transcript_scroll: 0,
            follow_transcript: true,
            show_details: false,
            status: String::new(),
            status_tone: StatusTone::Muted,
            redo_stack: Vec::new(),
        };
        assert(r@.history =~= Seq::empty());
        assert(r@.order =~= Seq::empty());
        assert(r@.redo =~= Seq::empty());
        assert(r@.filters =~= Map::empty());
        r
    }

    /// A neutral note in the status line.
    pub fn set_status(&mut self, text: String)
        ensures
            final(self)@ == old(self)@.noted(text@, StatusTone::Muted),
            old(self).wf() ==> final(self).wf(),
    {
        self.status = text;
        self.status_tone = StatusTone::Muted;
    }

    /// A note in the status line that something was done.
    pub fn set_ok(&mut self, text: String)
        ensures
            final(self)@ == old(self)@.noted(text@, StatusTone::Success),
            old(self).wf() ==> final(self).wf(),
    {
        self.status = text;
        self.status_tone = StatusTone::Success;
    }

    /// A note in the status line that something failed or was refused.
    pub fn set_error(&mut self, text: String)
        ensures
            final(self)@ == old(self)@.noted(text@, StatusTone::Error),
            old(self).wf() ==> final(self).wf(),
    {
        self.status = text;
        self.status_tone = StatusTone::Error;
    }

    /// Appends a message.
    pub fn push(&mut self, m: Message)
        ensures
            final(self)@ == old(self)@.pushed(m@),
            old(self).wf() ==> final(self).wf(),
    {
        proof {
            model::messages_push(self.history@, m);
        }
        self.history.push(m);
    }

    /// Appends a note of the interface. A note that repeats the last message is folded
    /// into it with a count.
    pub fn push_system(&mut self, content: &str)
        ensures
            final(self)@ == old(self)@.told(content@),
            old(self).wf() ==> final(self).wf(),
    {
        let n: usize = self.history.len();
        if n > 0 {
            assert(self@.history.last() == self.history@.last()@);
            if self.history[n - 1].has_role("system") {
                let (base, count) = replies::split_repeat_suffix(self.history[n - 1].content.as_str());
                if text::same_text(base.as_str(), content) {
                    let next: usize = if count < usize::MAX {
                        count + 1
                    } else {
                        usize::MAX
                    };
                    let number = scan::decimal_text(next as u64);
                    let text = text::cat4(content, " (×", number.as_str(), ")");
                    let mut last = self.history[n - 1].copy();
                    last.content = text;
                    self.history.set(n - 1, last);
                    self.follow_transcript = true;
                    assert(self@.history =~= old(self)@.told(content@).history);
                    return;
                }
            }
        }
        self.push(Message::system(content));
        self.follow_transcript = true;
    }

    /// The id of a message, given to it now where it has none.
    pub fn section_id(&mut self, index: usize) -> (r: String)
        requires
            index < old(self).history@.len(),
        ensures
            r@ == old(self)@.id_of(index as int),
            final(self)@ == old(self)@.named(index as int),
            final(self).history@.len() == old(self).history@.len(),
            old(self).wf() ==> final(self).wf(),
    {
        assert(self@.history[index as int] == self.history@[index as int]@);
        if self.history[index].id.as_str().is_empty() {
            let number = scan::decimal_text(self.next_msg_id);
            let id = text::cat2("m", number.as_str());
            if self.next_msg_id < u64::MAX {
                self.next_msg_id = self.next_msg_id + 1;
            }
            let mut m = self.history[index].copy();
            m.id = text::copy_text(id.as_str());
            self.history.set(index, m);
            assert(self@.history =~= old(self)@.named(index as int).history);
            id
        } else {
            text::copy_text(self.history[index].id.as_str())
        }
    }

    /// Whether a section is open.
    pub fn section_expanded(&self, id: &str, default: bool) -> (r: bool)
        ensures
            r == self@.open(id@, default),
    {
        match self.section_state.get(id) {
            Some(open) => *open,
            None => default,
        }
    }

    /// Whether a section is a failed tool result.
    pub fn section_failed(&self, id: &str) -> (r: bool)
        ensures
            r == self@.failed(id@),
    {
        let mut i: usize = 0;
        while i < self.history.len()
            invariant
                i <= self.history@.len(),
                forall|j: int| 0 <= j < i ==> !#[trigger] self@.failed_at(id@, j),
            decreases self.history.len() - i,
        {
            assert(self@.history[i as int] == self.history@[i as int]@);
            if text::same_text(self.history[i].id.as_str(), id) && self.history[i].has_role("tool")
                && scan::text_contains(self.history[i].content.as_str(), "tool error:") {
                assert(self@.failed_at(id@, i as int));
                return true;
            }
            assert(!self@.failed_at(id@, i as int));
            i = i + 1;
        }
        false
    }

    /// Opens or closes a section, unless it is a failed result. Gives its new state, or
    /// nothing where it was refused.
    pub fn toggle_section(&mut self, id: &str, default: bool, label: &str) -> (r: Option<bool>)
        requires
            old(self).wf(),
        ensures
            final(self).wf(),
            final(self)@ == old(self)@.toggled(id@, default, label@),
            r == if old(self)@.failed(id@) {
                None
            } else {
                Some(!old(self)@.open(id@, default))
            },
    {
        if self.section_failed(id) {
            self.set_status(text::cat2(label, " failed and stays expanded"));
            return None;
        }
        let next = !self.section_expanded(id, default);
        self.section_state.insert(text::copy_text(id), next);
        Some(next)
    }

    /// Opens or closes a section and says so in the status line.
    pub fn flip_section(&mut self, id: &str, default: bool, label: &str)
        requires
            old(self).wf(),
        ensures
            final(self).wf(),
            final(self)@ == old(self)@.flipped(id@, default, label@),
    {
        if let Some(next) = self.toggle_section(id, default, label) {
            self.set_status(
                text::cat3(
                    label,
                    " ",
                    if next {
                        "expanded"
                    } else {
                        "collapsed"
                    },
                ),
            );
        }
    }

    fn message_ids(&self) -> (r: Vec<String>)
        ensures
            text::texts(r@) == ids_of(self@.history),
    {
        let mut r: Vec<String> = Vec::new();
        for i in 0..self.history.len()
            invariant
                r@.len() == i,
                forall|j: int| 0 <= j < i ==> (#[trigger] r@[j])@ == self.history@[j].id@,
        {
            r.push(text::copy_text(self.history[i].id.as_str()));
        }
        assert(text::texts(r@) =~= ids_of(self@.history));
        r
    }

    /// Drops overrides and filters of messages that have left the transcript.
    pub fn prune_sections(&mut self)
        requires
            old(self).wf(),
        ensures
            final(self).wf(),
            final(self)@ == old(self)@.pruned(),
    {
        let ids = self.message_ids();
        self.section_state.keep(&ids);
        self.block_filters.keep(&ids);
        assert(self@.filters =~= old(self)@.pruned().filters);
    }

    /// Moves the id counter past every id in the history.
    pub fn reseed_msg_ids(&mut self)
        ensures
            final(self)@ == old(self)@.reseeded(),
            old(self).wf() ==> final(self).wf(),
    {
        let mut any = false;
        let mut top: u64 = 0;
        let ghost all = self@.history;
        assert(all.take(0) =~= Seq::empty());
        for i in 0..self.history.len()
            invariant
                all == self@.history,
                any == exists|j: int| 0 <= j < i && (#[trigger] all[j]).id.len() > 0,
                top == top_number(all.take(i as int)),
        {
            let id = self.history[i].id.as_str();
            assert(all[i as int] == self.history@[i as int]@);
            assert(all.take(i + 1).drop_last() =~= all.take(i as int));
            if !id.is_empty() {
                any = true;
                assert(all[i as int].id.len() > 0);
            }
            if let Some(rest) = filters::strip_char(id, 'm') {
                if let Some(n) = scan::parse_number(rest.as_str(), u64::MAX) {
                    if n > top {
                        top = n;
                    }
                }
            }
        }
        assert(all.take(all.len() as int) =~= all);
        if any {
            let next: u64 = if top < u64::MAX {
                top + 1
            } else {
                u64::MAX
            };
            if next > self.next_msg_id {
                self.next_msg_id = next;
            }
        }
    }

    pub(crate) fn find_section(&self, id: &str) -> (r: Option<usize>)
        ensures
            match r {
                Some(i) => section_at(self@.order, id@, 0) == Some(i as int) && i
                    < self.section_order@.len(),
                None => section_at(self@.order, id@, 0) == None::<int>,
            },
    {
        let mut i: usize = 0;
        while i < self.section_order.len()
            invariant
                i <= self.section_order@.len(),
                section_at(self@.order, id@, 0) == section_at(self@.order, id@, i as int),
            decreases self.section_order.len() - i,
        {
            assert(self@.order[i as int] == (
                self.section_order@[i as int].0@,
                self.section_order@[i as int].1,
            ));
            if text::same_text(self.section_order[i].0.as_str(), id) {
                return Some(i);
            }
            i = i + 1;
        }
        None
    }

    fn set_expand_usage(&mut self)
        ensures
            final(self)@ == old(self)@.expand_usage(),
            old(self).wf() ==> final(self).wf(),
    {
        let n: usize = if self.section_order.len() >= 1 {
            self.section_order.len()
        } else {
            1
        };
        let number = scan::decimal_text(n as u64);
        self.set_error(text::cat3("Usage: /expand [1-", number.as_str(), "|#block|all|none]"));
    }

    fn set_all(&mut self, open: bool)
        requires
            old(self).wf(),
        ensures
            final(self).wf(),
            final(self)@ == old(self)@.all_set(open),
    {
        let ghost before = self@;
        let count: usize = self.section_order.len();
        for i in 0..count
            invariant
                self.wf(),
                count == self.section_order@.len(),
                before.order.len() == count,
                self@ == (TranscriptView { sections: self@.sections, ..before }),
                forall|id: Seq<char>| #[trigger]
                    self@.sections.contains_key(id) == (before.sections.contains_key(id) || (among(
                        before.order,
                        i as int,
                        id,
                    ) && (open || !before.failed(id)))),
                forall|id: Seq<char>| #[trigger]
                    self@.sections.contains_key(id) ==> self@.sections[id] == (if among(
                        before.order,
                        i as int,
                        id,
                    ) && (open || !before.failed(id)) {
                        open
                    } else {
                        before.sections[id]
                    }),
        {
            let id = text::copy_text(self.section_order[i].0.as_str());
            let ghost prev = self@;
            assert(before.order[i as int].0 == id@);
            let go = open || !self.section_failed(id.as_str());
            proof {
                failed_by_history(self@, before, id@);
            }
            if go {
                self.section_state.insert(id, open);
            }
            proof {
                assert forall|q: Seq<char>| #[trigger]
                    self@.sections.contains_key(q) == (before.sections.contains_key(q) || (among(
                        before.order,
                        i + 1,
                        q,
                    ) && (open || !before.failed(q)))) && (self@.sections.contains_key(q)
                        ==> self@.sections[q] == (if among(before.order, i + 1, q) && (open
                        || !before.failed(q)) {
                        open
                    } else {
                        before.sections[q]
                    })) by {
                    among_step(before.order, i as int, q);
                    assert(prev.sections.contains_key(q) == (before.sections.contains_key(q) || (
                    among(before.order, i as int, q) && (open || !before.failed(q)))));
                }
            }
        }
        let ghost want = before.all_set(open).sections;
        assert(self@.sections =~= want);
        let number = scan::decimal_text(count as u64);
        self.set_ok(
            text::cat4(
                if open {
                    "Expanded"
                } else {
                    "Collapsed"
                },
                " ",
                number.as_str(),
                " section(s)",
            ),
        );
    }

    /// `/expand [n|#n|all|none]`: opens or closes one section, or all. Without an
    /// argument it is the latest one.
    pub fn command_expand(&mut self, args: &Vec<String>)
        requires
            old(self).wf(),
        ensures
            final(self).wf(),
            final(self)@ == old(self)@.expanded(text::texts(args@)),
    {
        if args.len() == 0 {
            let n: usize = self.section_order.len();
            if n == 0 {
                self.set_status(text::copy_text("Nothing to expand"));
                return;
            }
            assert(self@.order.last() == (
                self.section_order@.last().0@,
                self.section_order@.last().1,
            ));
            let id = text::copy_text(self.section_order[n - 1].0.as_str());
            let default = self.section_order[n - 1].1;
            let number = scan::decimal_text(n as u64);
            let label = text::cat2("Section ", number.as_str());
            self.flip_section(id.as_str(), default, label.as_str());
            return;
        }
        let arg = args[0].as_str();
        assert(text::texts(args@)[0] == arg@);
        if text::same_text(arg, "all") {
            self.set_all(true);
            return;
        }
        if text::same_text(arg, "none") {
            self.set_all(false);
            return;
        }
        if let Some(rest) = filters::strip_char(arg, '#') {
            let number: usize = match filters::parse_index(rest.as_str()) {
                Some(n) => n,
                None => {
                    self.set_expand_usage();
                    return;
                },
            };
            if number < 1 || number > self.history.len() {
                self.set_error(filters::out_of_range_text(number, self.history.len()));
                return;
            }
            let id = self.section_id(number - 1);
            let n = scan::decimal_text(number as u64);
            match self.find_section(id.as_str()) {
                None => {
                    self.set_status(text::cat3("Block ", n.as_str(), " is not a collapsible section"));
                },
                Some(i) => {
                    assert(self@.order[i as int].1 == self.section_order@[i as int].1);
                    let default = self.section_order[i].1;
                    let label = text::cat2("Block ", n.as_str());
                    self.flip_section(id.as_str(), default, label.as_str());
                },
            }
            return;
        }
        if let Some(number) = filters::parse_index(arg) {
            if number >= 1 && number <= self.section_order.len() {
                assert(self@.order[number - 1] == (
                    self.section_order@[number - 1].0@,
                    self.section_order@[number - 1].1,
                ));
                let id = text::copy_text(self.section_order[number - 1].0.as_str());
                let default = self.section_order[number - 1].1;
                let n = scan::decimal_text(number as u64);
                let label = text::cat2("Section ", n.as_str());
                self.flip_section(id.as_str(), default, label.as_str());
                return;
            }
        }
        self.set_expand_usage();
    }
}

} // verus!
