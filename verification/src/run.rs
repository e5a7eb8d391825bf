//! The running request of a pane, and the prompts that wait for it.

use crate::composer;
use crate::events::Usage;
use crate::text;
use vstd::prelude::*;

verus! {

/// A prompt that waits, with the files attached to it.
#[derive(Debug, Clone, PartialEq, Eq)]
pub struct Queued {
    pub prompt: String,
    pub context: Option<String>,
}

/// What a waiting prompt holds.
#[verifier::ext_equal]
pub struct QueuedView {
    pub prompt: Seq<char>,
    pub context: Option<Seq<char>>,
}

impl View for Queued {
    type V = QueuedView;

    open spec fn view(&self) -> QueuedView {
        QueuedView { prompt: self.prompt@, context: composer::opt_text(self.context) }
    }
}

/// What the waiting prompts of a list hold.
pub open spec fn queue_view(list: Seq<Queued>) -> Seq<QueuedView> {
    list.map_values(|q: Queued| q@)
}

/// The running request of a pane and what waits for it.
pub struct Run {
    /// A request is running, or a round of tools.
    pub busy: bool,
    /// The reply so far.
    pub streaming: String,
    /// The reasoning so far.
    pub streaming_reasoning: String,
    /// When the request started, in milliseconds.
    pub request_started: Option<u64>,
    pub awaiting_first_token: bool,
    pub slow_hint_shown: bool,
    /// Prompts that wait, the next one first.
    pub queue: Vec<Queued>,
    /// The copy that was made before the running compaction.
    pub compact_backup: Option<String>,
    /// Files that were attached to the running prompt.
    pub pending_context: Option<String>,
    /// The running request was stopped in favour of another prompt.
    pub drop_next_restore: bool,
    /// The running prompt.
    pub active_user: Option<String>,
    pub last_failed_prompt: Option<String>,
    pub tool_round: usize,
    /// There is a request that can be stopped.
    pub stoppable: bool,
    pub last_response: String,
    pub session_in: u64,
    pub session_out: u64,
    pub session_cached: u64,
    pub last_usage: Usage,
}

/// What a run holds.
#[verifier::ext_equal]
pub struct RunView {
    pub busy: bool,
    pub reply: Seq<char>,
    pub reasoning: Seq<char>,
    pub started: Option<u64>,
    pub awaiting: bool,
    pub hinted: bool,
    pub queue: Seq<QueuedView>,
    pub backup: Option<Seq<char>>,
    pub context: Option<Seq<char>>,
    pub steered: bool,
    pub prompt: Option<Seq<char>>,
    pub failed: Option<Seq<char>>,
    pub round: int,
    pub stoppable: bool,
    pub last: Seq<char>,
    pub tokens_in: nat,
    pub tokens_out: nat,
    pub tokens_cached: nat,
    pub usage: Usage,
}

impl View for Run {
    type V = RunView;

    open spec fn view(&self) -> RunView {
        RunView {
            busy: self.busy,
            reply: self.streaming@,
            reasoning: self.streaming_reasoning@,
            started: self.request_started,
            awaiting: self.awaiting_first_token,
            hinted: self.slow_hint_shown,
            queue: queue_view(self.queue@),
            backup: composer::opt_text(self.compact_backup),
            context: composer::opt_text(self.pending_context),
            steered: self.drop_next_restore,
            prompt: composer::opt_text(self.active_user),
            failed: composer::opt_text(self.last_failed_prompt),
            round: self.tool_round as int,
            stoppable: self.stoppable,
            last: self.last_response@,
            tokens_in: self.session_in as nat,
            tokens_out: self.session_out as nat,
            tokens_cached: self.session_cached as nat,
            usage: self.last_usage,
        }
    }
}

/// How many rounds of tools one prompt may take.
pub const MAX_TOOL_ROUNDS: usize = 8;

/// A run with nothing in it.
pub open spec fn idle_run() -> RunView {
    RunView {
        busy: false,
        reply: Seq::empty(),
        reasoning: Seq::empty(),
        started: None,
        awaiting: false,
        hinted: false,
        queue: Seq::empty(),
        backup: None,
        context: None,
        steered: false,
        prompt: None,
        failed: None,
        round: 0,
        stoppable: false,
        last: Seq::empty(),
        tokens_in: 0,
        tokens_out: 0,
        tokens_cached: 0,
        usage: Usage { prompt_tokens: None, completion_tokens: None, cached_tokens: None },
    }
}

/// A counter after adding to it; it stays at the largest number that it can hold.
pub open spec fn counted(total: nat, more: Option<u64>) -> nat {
    match more {
        None => total,
        Some(n) => if total + n <= u64::MAX {
            total + n as nat
        } else {
            u64::MAX as nat
        },
    }
}

/// Adds to a counter.
pub fn count_on(total: u64, more: Option<u64>) -> (r: u64)
    ensures
        r as nat == counted(total as nat, more),
{
    match more {
        None => total,
        Some(n) => if n <= u64::MAX - total {
            total + n
        } else {
            u64::MAX
        },
    }
}

impl RunView {
    /// A prompt sent now: everything of the request before it is gone.
    pub open spec fn launched(self, prompt: Seq<char>, context: Option<Seq<char>>, now: u64) -> RunView {
        RunView {
            busy: true,
            prompt: Some(prompt),
            failed: None,
            context: context,
            started: Some(now),
            awaiting: true,
            hinted: false,
            usage: idle_run().usage,
            round: 0,
            reply: Seq::empty(),
            stoppable: true,
            ..self
        }
    }

    /// A prompt that waits behind all others.
    pub open spec fn enqueued(self, prompt: Seq<char>, context: Option<Seq<char>>) -> RunView {
        RunView { queue: self.queue.push(QueuedView { prompt, context }), ..self }
    }

    /// The next waiting prompt taken out.
    pub open spec fn popped(self) -> RunView {
        RunView { queue: self.queue.skip(1), ..self }
    }

    /// A reply that ended: its tokens are counted, and the prompt and its files are no
    /// longer pending.
    pub open spec fn tallied(self, content: Seq<char>, usage: Usage) -> RunView {
        RunView {
            reply: Seq::empty(),
            awaiting: false,
            usage,
            tokens_in: counted(self.tokens_in, usage.prompt_tokens),
            tokens_out: counted(self.tokens_out, usage.completion_tokens),
            tokens_cached: counted(self.tokens_cached, usage.cached_tokens),
            prompt: None,
            context: None,
            last: content,
            ..self
        }
    }

    /// A prompt that goes before all others and takes the place of the running one.
    pub open spec fn steered_by(self, prompt: Seq<char>, context: Option<Seq<char>>) -> RunView {
        RunView {
            steered: true,
            queue: seq![QueuedView { prompt, context }] + self.queue,
            ..self
        }
    }

    /// A compaction started now.
    pub open spec fn compacting(self, backup: Seq<char>, now: u64) -> RunView {
        RunView {
            busy: true,
            started: Some(now),
            awaiting: true,
            hinted: false,
            stoppable: true,
            backup: Some(backup),
            ..self
        }
    }
}

impl Run {
    /// A run with nothing in it.
    pub fn new() -> (r: Run)
        ensures
            r@ == idle_run(),
    {
        let r = Run {
            busy: false,
            streaming: String::new(),
            streaming_reasoning: String::new(),
            request_started: None,
            awaiting_first_token: false,
            slow_hint_shown: false,
            queue: Vec::new(),
            compact_backup: None,
            pending_context: None,
            drop_next_restore: false,
            active_user: None,
            last_failed_prompt: None,
            tool_round: 0,
            stoppable: false,
            last_response: String::new(),
            session_in: 0,
            session_out: 0,
            session_cached: 0,
            last_usage: Usage::none(),
        };
        assert(r@ =~= idle_run());
        r
    }

    /// Starts the request of a prompt.
    pub fn launch(&mut self, prompt: String, context: Option<String>, now: u64)
        ensures
            final(self)@ == old(self)@.launched(prompt@, composer::opt_text(context), now),
    {
        self.busy = true;
        self.active_user = Some(prompt);
        self.last_failed_prompt = None;
        self.pending_context = context;
        self.request_started = Some(now);
        self.awaiting_first_token = true;
        self.slow_hint_shown = false;
        self.last_usage = Usage::none();
        self.tool_round = 0;
        self.streaming = String::new();
        self.stoppable = true;
        assert(self@ =~= old(self)@.launched(prompt@, composer::opt_text(context), now));
    }

    /// Lets a prompt wait behind all others.
    pub fn enqueue(&mut self, prompt: String, context: Option<String>)
        ensures
            final(self)@ == old(self)@.enqueued(prompt@, composer::opt_text(context)),
            final(self).queue@.len() == old(self).queue@.len() + 1,
    {
        self.queue.push(Queued { prompt, context });
        assert(self@ =~= old(self)@.enqueued(prompt@, composer::opt_text(context)));
    }

    /// Ends a reply. Gives back the prompt and its files.
    pub fn tally(&mut self, content: &str, usage: Usage) -> (r: (Option<String>, Option<String>))
        ensures
            final(self)@ == old(self)@.tallied(content@, usage),
            composer::opt_text(r.0) == old(self)@.prompt,
            composer::opt_text(r.1) == old(self)@.context,
            final(self).tool_round == old(self).tool_round,
    {
        self.streaming = String::new();
        self.awaiting_first_token = false;
        self.last_usage = usage;
        self.session_in = count_on(self.session_in, usage.prompt_tokens);
        self.session_out = count_on(self.session_out, usage.completion_tokens);
        self.session_cached = count_on(self.session_cached, usage.cached_tokens);
        self.last_response = text::copy_text(content);
        let prompt = self.active_user.take();
        let context = self.pending_context.take();
        assert(self@ =~= old(self)@.tallied(content@, usage));
        (prompt, context)
    }

    /// Puts a prompt before all others, in place of the running one.
    pub fn steer(&mut self, prompt: String, context: Option<String>)
        ensures
            final(self)@ == old(self)@.steered_by(prompt@, composer::opt_text(context)),
    {
        self.drop_next_restore = true;
        self.queue.insert(0, Queued { prompt, context });
        assert(self@ =~= old(self)@.steered_by(prompt@, composer::opt_text(context)));
    }

    /// Takes out the next waiting prompt.
    pub fn pop(&mut self) -> (r: Option<Queued>)
        ensures
            match r {
                Some(q) => old(self)@.queue.len() > 0 && q@ == old(self)@.queue[0] && final(self)@
                    == old(self)@.popped(),
                None => old(self)@.queue.len() == 0 && final(self)@ == old(self)@,
            },
    {
        assert(self@.queue.len() == self.queue@.len());
        if self.queue.len() == 0 {
            return None;
        }
        assert(self@.queue[0] == self.queue@[0]@);
        let q = self.queue.remove(0);
        assert(self@ =~= old(self)@.popped());
        Some(q)
    }
}

} // verus!
