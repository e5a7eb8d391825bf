//! Ghost text: the continuation that is offered after the draft.

use crate::caret;
use crate::composer::{Composer, ComposerView};
use crate::composer;
use crate::replies;
use crate::scan;
use crate::text;
use vstd::prelude::*;
use vstd::string::*;

verus! {

/// How long the draft has to rest before the model is asked, in milliseconds.
pub const AI_DEBOUNCE_MS: u64 = 900;

/// What stands around the composer when a tick comes.
pub struct TickContext {
    /// Completion is switched on.
    pub enabled: bool,
    /// A menu, an overlay or another pane owns the next key.
    pub menu_open: bool,
    pub overlay_open: bool,
    pub busy: bool,
    /// The time, and how long the draft has to rest, in milliseconds.
    pub now: u64,
    pub debounce: u64,
}

/// How long ago a moment was; not at all if it is still to come.
pub open spec fn elapsed(now: int, then: int) -> int {
    if now > then {
        now - then
    } else {
        0
    }
}

/// The length of the first word of an offer, with the white space before it.
pub open spec fn offer_word(offer: Seq<char>) -> int {
    scan::skip_word(offer, scan::skip_white(offer, 0))
}

impl ComposerView {
    /// The draft grown by accepted text: what was offered is taken, and the longer
    /// draft counts as seen.
    pub open spec fn grown(self, by: Seq<char>) -> ComposerView {
        let text = self.text + by;
        ComposerView {
            offer: None,
            seen: text,
            dismissed: None,
            ..self.with_text(text)
        }
    }

    /// The whole offer accepted, where the cursor is at the end.
    pub open spec fn offer_taken(self) -> ComposerView {
        match self.offer {
            Some(offer) if self.at == self.text.len() => self.grown(offer),
            _ => self,
        }
    }

    /// One word of the offer accepted, where the cursor is at the end.
    pub open spec fn offer_word_taken(self) -> ComposerView {
        match self.offer {
            Some(offer) if self.at == self.text.len() => if offer_word(offer) == 0 {
                ComposerView { offer: None, ..self }
            } else {
                self.grown(offer.take(offer_word(offer)))
            },
            _ => self,
        }
    }

    /// The offer dismissed until the draft changes.
    pub open spec fn offer_dismissed(self) -> ComposerView {
        if self.offer is Some {
            ComposerView { offer: None, dismissed: Some(self.text), ..self }
        } else {
            self
        }
    }

    /// A changed draft drops the offer, a dismissal and a question to the model.
    pub open spec fn refreshed(self, now: int) -> ComposerView {
        if self.text != self.seen {
            ComposerView {
                seen: self.text,
                changed_at: now,
                offer: None,
                dismissed: None,
                pending: None,
                ..self
            }
        } else {
            self
        }
    }

    /// A tick: a changed draft is noticed, and a menu or a walk hides the offer.
    pub open spec fn ticked(self, c: TickContext) -> ComposerView {
        if !c.enabled {
            self
        } else {
            let v = self.refreshed(c.now as int);
            if c.menu_open || v.walk is Some {
                ComposerView { offer: None, ..v }
            } else {
                v
            }
        }
    }

    /// Whether a tick is to look for an offer: nothing is in the way, the draft has
    /// rested, and none was dismissed for it.
    pub open spec fn wants_offer(self, c: TickContext) -> bool {
        let v = self.ticked(c);
        &&& c.enabled
        &&& !c.menu_open
        &&& v.walk is None
        &&& v.offer is None
        &&& !c.overlay_open
        &&& !c.busy
        &&& elapsed(c.now as int, v.changed_at) >= c.debounce
        &&& v.dismissed != Some(v.text)
    }

    /// Whether the model is to be asked to continue a shell line that nothing else
    /// continues. `complete` says that the line needs no continuation.
    pub open spec fn wants_model(self, on: bool, prefix: Seq<char>, complete: bool, now: int) -> bool {
        &&& on
        &&& caret::byte_len(scan::trim(prefix)) >= 3
        &&& !complete
        &&& elapsed(now, self.changed_at) >= AI_DEBOUNCE_MS
        &&& self.pending != Some(prefix)
    }

    /// The model asked about a prefix.
    pub open spec fn asked(self, prefix: Seq<char>) -> ComposerView {
        ComposerView {
            seq: if self.seq < u64::MAX {
                self.seq + 1
            } else {
                0
            },
            pending: Some(prefix),
            ..self
        }
    }

    /// The answer of the model: it is offered only if it is for this very draft, is not
    /// empty, nothing is offered already, and none was dismissed.
    pub open spec fn answered(
        self,
        seq: int,
        for_input: Seq<char>,
        suffix: Option<Seq<char>>,
    ) -> ComposerView {
        let v = if seq == self.seq {
            ComposerView { pending: None, ..self }
        } else {
            self
        };
        match suffix {
            Some(text) if seq == self.seq && for_input == self.text && self.offer is None
                && self.dismissed != Some(for_input) && text.len() > 0 => ComposerView {
                offer: Some(text),
                ..v
            },
            _ => v,
        }
    }
}

/// The prompt that asks the model to complete a shell line.
pub open spec fn completion_prompt(prefix: Seq<char>) -> Seq<char> {
    "The user typed this partial shell command:\n"@ + prefix
        + "\nOutput ONLY the completed full command on one line: no fences, no explanation. If it is complete already or is not a shell command, repeat it unchanged."@
}

/// What of the model's answer continues the line: the rest of a line that begins with
/// what was typed, at most 120 characters of it.
pub open spec fn answer_suffix(prefix: Seq<char>, reply: Seq<char>) -> Option<Seq<char>> {
    match replies::draft_line(reply) {
        Some(full) if scan::begins(full, prefix) => {
            let rest = full.skip(prefix.len() as int);
            if scan::blank(rest) || rest.contains('\n') {
                None
            } else {
                Some(scan::first_chars(rest, 120))
            }
        },
        _ => None,
    }
}

/// Whether a text holds a character.
pub fn has_char(s: &str, c: char) -> (r: bool)
    ensures
        r == s@.contains(c),
{
    let v = text::to_chars(s);
    let mut i: usize = 0;
    while i < v.len()
        invariant
            v@ == s@,
            i <= v@.len(),
            forall|j: int| 0 <= j < i ==> s@[j] != c,
        decreases v.len() - i,
    {
        if v[i] == c {
            assert(s@[i as int] == c);
            return true;
        }
        i = i + 1;
    }
    false
}

/// What of the model's answer continues the line.
pub fn ai_ghost_suffix(prefix: &str, reply: &str) -> (r: Option<String>)
    ensures
        composer::opt_text(r) == answer_suffix(prefix@, reply@),
{
    match replies::clean_shell_draft(reply) {
        Some(full) => match scan::strip_prefix(full.as_str(), prefix) {
            Some(rest) => {
                if scan::is_blank(rest.as_str()) || has_char(rest.as_str(), '\n') {
                    None
                } else {
                    Some(scan::take_chars(rest.as_str(), 120))
                }
            },
            None => None,
        },
        None => None,
    }
}

fn same_opt(o: &Option<String>, s: &str) -> (r: bool)
    ensures
        r == (composer::opt_text(*o) == Some(s@)),
{
    match o {
        Some(t) => text::same_text(t.as_str(), s),
        None => false,
    }
}

/// A question to the model about a shell line.
#[derive(Debug, Clone, PartialEq, Eq)]
pub struct GhostQuestion {
    pub seq: u64,
    pub prefix: String,
    pub for_input: String,
    pub prompt: String,
}

impl Composer {
    fn grow(&mut self, by: &str)
        requires
            old(self).wf(),
        ensures
            final(self).wf(),
            final(self)@ == old(self)@.grown(by@),
    {
        let text = text::cat2(self.input.as_str(), by);
        self.ghost_seen_input = text::copy_text(text.as_str());
        self.set_input(text);
        self.ghost_text = None;
        self.ghost_dismissed = None;
    }

    /// Accepts the offer where the cursor is at the end. Says whether it did.
    pub fn accept_ghost(&mut self) -> (r: bool)
        requires
            old(self).wf(),
        ensures
            final(self).wf(),
            final(self)@ == old(self)@.offer_taken(),
            r == (old(self)@.at == old(self)@.text.len() && old(self)@.offer is Some),
    {
        if !self.at_end() {
            return false;
        }
        match composer::copy_opt(&self.ghost_text) {
            Some(offer) => {
                self.grow(offer.as_str());
                true
            },
            None => false,
        }
    }

    /// Accepts one word of the offer, with the white space before it, where the cursor
    /// is at the end. Says whether it did.
    pub fn accept_ghost_word(&mut self) -> (r: bool)
        requires
            old(self).wf(),
        ensures
            final(self).wf(),
            final(self)@ == old(self)@.offer_word_taken(),
            r == (old(self)@.at == old(self)@.text.len() && (old(self)@.offer matches Some(offer)
                && offer_word(offer) > 0)),
    {
        if !self.at_end() {
            return false;
        }
        match composer::copy_opt(&self.ghost_text) {
            Some(offer) => {
                let c = text::to_chars(offer.as_str());
                let a: usize = scan::after_white(&c, 0);
                let end: usize = scan::after_word(&c, a);
                if end == 0 {
                    self.ghost_text = None;
                    return false;
                }
                let word = text::slice_text(&c, 0, end);
                assert(word@ =~= offer@.take(end as int));
                self.grow(word.as_str());
                true
            },
            None => false,
        }
    }

    /// Dismisses the offer until the draft changes. Says whether there was one.
    pub fn dismiss_ghost(&mut self) -> (r: bool)
        requires
            old(self).wf(),
        ensures
            final(self).wf(),
            final(self)@ == old(self)@.offer_dismissed(),
            r == (old(self)@.offer is Some),
    {
        if self.ghost_text.is_none() {
            return false;
        }
        self.ghost_text = None;
        self.ghost_dismissed = Some(text::copy_text(self.input.as_str()));
        true
    }

    /// A tick of the clock. Says whether an offer is to be looked for now.
    pub fn tick_ghost(&mut self, c: &TickContext) -> (r: bool)
        requires
            old(self).wf(),
        ensures
            final(self).wf(),
            final(self)@ == old(self)@.ticked(*c),
            r == old(self)@.wants_offer(*c),
    {
        if !c.enabled {
            return false;
        }
        if !text::same_text(self.input.as_str(), self.ghost_seen_input.as_str()) {
            self.ghost_seen_input = text::copy_text(self.input.as_str());
            self.ghost_changed_at = c.now;
            self.ghost_text = None;
            self.ghost_dismissed = None;
            self.ai_ghost_pending = None;
        }
        if c.menu_open || self.hist_depth.is_some() {
            self.ghost_text = None;
            return false;
        }
        if self.ghost_text.is_some() || c.overlay_open || c.busy {
            return false;
        }
        let rested: u64 = if c.now > self.ghost_changed_at {
            c.now - self.ghost_changed_at
        } else {
            0
        };
        if rested < c.debounce {
            return false;
        }
        !same_opt(&self.ghost_dismissed, self.input.as_str())
    }

    /// Offers what was found for the draft.
    pub fn offer(&mut self, found: Option<String>)
        requires
            old(self).wf(),
        ensures
            final(self).wf(),
            final(self)@ == (ComposerView { offer: composer::opt_text(found), ..old(self)@ }),
    {
        self.ghost_text = found;
    }

    /// The question to ask the model about a shell line that nothing else continues,
    /// if it is time to.
    pub fn kick_ai_ghost(&mut self, on: bool, prefix: &str, complete: bool, now: u64) -> (r: Option<
        GhostQuestion,
    >)
        requires
            old(self).wf(),
        ensures
            final(self).wf(),
            if old(self)@.wants_model(on, prefix@, complete, now as int) {
                &&& final(self)@ == old(self)@.asked(prefix@)
                &&& r matches Some(q) && q.seq == final(self)@.seq && q.prefix@ == prefix@
                    && q.for_input@ == old(self)@.text && q.prompt@ == completion_prompt(prefix@)
            } else {
                final(self)@ == old(self)@ && r is None
            },
    {
        let bare = scan::trim_text(prefix);
        let len: usize = caret::text_len(bare.as_str());
        if !on || len < 3 || complete {
            return None;
        }
        let rested: u64 = if now > self.ghost_changed_at {
            now - self.ghost_changed_at
        } else {
            0
        };
        if rested < AI_DEBOUNCE_MS || same_opt(&self.ai_ghost_pending, prefix) {
            return None;
        }
        self.ai_ghost_seq = if self.ai_ghost_seq < u64::MAX {
            self.ai_ghost_seq + 1
        } else {
            0
        };
        self.ai_ghost_pending = Some(text::copy_text(prefix));
        Some(
            GhostQuestion {
                seq: self.ai_ghost_seq,
                prefix: text::copy_text(prefix),
                for_input: text::copy_text(self.input.as_str()),
                prompt: text::cat3(
                    "The user typed this partial shell command:\n",
                    prefix,
                    "\nOutput ONLY the completed full command on one line: no fences, no explanation. If it is complete already or is not a shell command, repeat it unchanged.",
                ),
            },
        )
    }

    /// Takes the answer of the model.
    pub fn apply_ai_ghost(&mut self, seq: u64, for_input: &str, suffix: Option<String>)
        requires
            old(self).wf(),
        ensures
            final(self).wf(),
            final(self)@ == old(self)@.answered(seq as int, for_input@, composer::opt_text(suffix)),
    {
        let current = seq == self.ai_ghost_seq;
        let fresh = current && text::same_text(for_input, self.input.as_str());
        if current {
            self.ai_ghost_pending = None;
        }
        if fresh && self.ghost_text.is_none() && !same_opt(&self.ghost_dismissed, for_input) {
            if let Some(text) = suffix {
                if !text.as_str().is_empty() {
                    self.ghost_text = Some(text);
                }
            }
        }
    }
}

// ---------------------------------------------------------------------------
// Laws
// ---------------------------------------------------------------------------

/// A dismissed offer does not come back while the draft stays as it is: a tick looks
/// for none, and an answer of the model is not offered.
pub proof fn dismissal_sticks(
    v: ComposerView,
    c: TickContext,
    seq: int,
    suffix: Option<Seq<char>>,
)
    requires
        v.offer is Some,
        v.seen == v.text,
    ensures
        !v.offer_dismissed().wants_offer(c),
        v.offer_dismissed().ticked(c).offer is None,
        v.offer_dismissed().answered(seq, v.text, suffix).offer is None,
{
}

/// An answer for an older draft is never offered, and an answer never replaces what is
/// already offered.
pub proof fn stale_answers_are_dropped(
    v: ComposerView,
    seq: int,
    for_input: Seq<char>,
    suffix: Option<Seq<char>>,
)
    ensures
        seq != v.seq ==> v.answered(seq, for_input, suffix).offer == v.offer,
        for_input != v.text ==> v.answered(seq, for_input, suffix).offer == v.offer,
        v.offer is Some ==> v.answered(seq, for_input, suffix).offer == v.offer,
        v.answered(seq, for_input, suffix).text == v.text,
{
}

/// Accepting an offer word by word gives the text that accepting all of it gives, as
/// long as the rest is offered again.
pub proof fn words_make_the_offer(v: ComposerView, offer: Seq<char>)
    requires
        v.offer == Some(offer),
        v.at == v.text.len(),
        offer.len() > 0,
    ensures
        0 < offer_word(offer) <= offer.len(),
        (ComposerView {
            offer: Some(offer.skip(offer_word(offer))),
            ..v.offer_word_taken()
        }).offer_taken().text == v.offer_taken().text,
{
    scan::skip_white_bounds(offer, 0);
    scan::skip_word_bounds(offer, scan::skip_white(offer, 0));
    let n = offer_word(offer);
    if scan::skip_white(offer, 0) == 0 {
        assert(!text::white(offer[0]));
        if n == 0 {
            assert(text::white(offer[0]));
        }
    }
    assert(v.text + offer.take(n) + offer.skip(n) =~= v.text + offer);
}

} // verus!
