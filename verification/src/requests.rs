//! The course of a request: sending prompts, finishing, failing, stopping, running
//! tools and summing up.

use crate::composer;
use crate::effects::{BackupReason, Effect, EffectView, ToolLimits};
use crate::events::{ChatResult, Usage};
use crate::files;
use crate::model::{Message, MessageView, ToolCall, ToolCallView, ToolResult, ToolResultView};
use crate::model;
use crate::pane::{Pane, PaneView};
use crate::pane;
use crate::render::{TodoItem, TodoStatus};
use crate::render;
use crate::replies;
use crate::run::{MAX_TOOL_ROUNDS, QueuedView, RunView};
use crate::run;
use crate::scan;
use crate::settings;
use crate::text;
use crate::transcript::TranscriptView;
use vstd::prelude::*;

verus! {

/// What the files attached to a prompt are announced with.
pub open spec fn attached(context: Seq<char>) -> MessageView {
    model::plain_message("system"@, "Attached context:\n"@ + context)
}

/// The message that keeps the result of a tool.
pub open spec fn tool_message(r: ToolResultView) -> MessageView {
    MessageView {
        call_id: Some(r.call_id),
        ..model::plain_message("tool"@, "["@ + r.name + "]\n"@ + r.content)
    }
}

/// The messages that keep the results of tools.
pub open spec fn tool_messages(list: Seq<ToolResultView>) -> Seq<MessageView> {
    list.map_values(|r: ToolResultView| tool_message(r))
}

/// The names of the tools that gave results.
pub open spec fn result_names(list: Seq<ToolResultView>) -> Seq<Seq<char>> {
    list.map_values(|r: ToolResultView| r.name)
}

/// The messages of a conversation written out, each behind its role.
pub open spec fn dialogue(list: Seq<MessageView>) -> Seq<Seq<char>> {
    list.map_values(|m: MessageView| m.role + ": "@ + m.content)
}

/// What the model is told when it sums up a conversation.
pub open spec fn summary_prompt(list: Seq<MessageView>) -> Seq<char> {
    "Summarize the following conversation for a future coding harness turn. Preserve decisions, constraints, file paths, unresolved work, and user preferences. Be concise and factual.\n\n"@
        + scan::join(dialogue(list), "\n\n"@)
}

/// What a reply with more tool calls than one prompt may take is answered.
pub open spec fn limit_note() -> Seq<char> {
    "Tool-round limit (8) reached. The model requested further tool calls that were not executed. Refine the prompt or continue manually."@
}

/// The references of a prompt that were not found.
pub open spec fn unknown_refs(refs: Seq<Seq<char>>, found: Seq<Option<Seq<char>>>, n: int) -> Seq<
    Seq<char>,
>
    decreases n,
{
    if n <= 0 {
        Seq::empty()
    } else if found[n - 1] is None {
        unknown_refs(refs, found, n - 1).push(refs[n - 1])
    } else {
        unknown_refs(refs, found, n - 1)
    }
}

/// What the references of a prompt stand for, where they were found.
pub open spec fn found_blocks(found: Seq<Option<Seq<char>>>, n: int) -> Seq<Seq<char>>
    decreases n,
{
    if n <= 0 {
        Seq::empty()
    } else {
        match found[n - 1] {
            Some(block) => found_blocks(found, n - 1).push(block),
            None => found_blocks(found, n - 1),
        }
    }
}

/// The context that the references of a prompt give.
pub open spec fn context_of(found: Seq<Option<Seq<char>>>) -> Option<Seq<char>> {
    let blocks = found_blocks(found, found.len() as int);
    if blocks.len() == 0 {
        None
    } else {
        Some(scan::join(blocks, "\n"@))
    }
}

impl PaneView {
    /// A prompt sent now, or left to wait while a request is running.
    #[verifier::opaque]
    pub open spec fn prompted(self, prompt: Seq<char>, context: Option<Seq<char>>, now: u64) -> PaneView {
        if self.run.busy {
            PaneView { run: self.run.enqueued(prompt, context), ..self }.said(
                "Queued ("@ + scan::decimal((self.run.queue.len() + 1) as nat) + " waiting)"@,
            )
        } else {
            PaneView { run: self.run.launched(prompt, context, now), ..self }.said(
                "Sending in "@ + settings::mode_name(self.mode) + " mode…"@,
            ).asking(EffectView::Send { prompt })
        }
    }

    /// The next waiting prompt sent, if there is one.
    pub open spec fn next_prompted(self, now: u64) -> PaneView {
        if self.run.queue.len() == 0 {
            self
        } else {
            PaneView { run: self.run.popped(), ..self }.prompted(
                self.run.queue[0].prompt,
                self.run.queue[0].context,
                now,
            )
        }
    }

    /// The request over; the next waiting prompt is sent, or else the bell rings.
    pub open spec fn settled(self, bell: bool, now: u64) -> PaneView {
        let next = self.next_prompted(now);
        if self.run.queue.len() == 0 && bell {
            next.asking(EffectView::Bell)
        } else {
            next
        }
    }

    /// No request is running any more.
    pub open spec fn released(self) -> PaneView {
        PaneView { run: RunView { busy: false, stoppable: false, ..self.run }, ..self }
    }

    /// The conversation sent as it stands, if it can still be stopped.
    pub open spec fn continued(self, now: u64) -> PaneView {
        if self.run.stoppable {
            self.asking(EffectView::Continue)
        } else {
            PaneView { run: RunView { busy: false, ..self.run }, ..self }.failed(
                "Nothing to continue"@,
            ).next_prompted(now)
        }
    }

    /// The running request stopped. A round that waits for decisions is given up at
    /// once, for nothing else would end it.
    pub open spec fn stopped(self, status: Seq<char>, now: u64) -> PaneView {
        if self.tools is Some {
            PaneView {
                tools: None,
                run: RunView { busy: false, stoppable: false, round: 0, ..self.run },
                ..self
            }.said(status).next_prompted(now)
        } else if self.run.stoppable {
            self.asking(EffectView::Stop).said(status)
        } else if !self.run.busy {
            self.said(status)
        } else {
            self
        }
    }

    /// A finished reply written down, with the prompt and its files before it.
    pub open spec fn recorded(self, content: Seq<char>, list: Seq<ToolCallView>, usage: Usage) -> PaneView {
        let h1 = match self.run.prompt {
            Some(p) => self.log.history.push(model::plain_message("user"@, p)),
            None => self.log.history,
        };
        let h2 = match self.run.context {
            Some(c) => h1.push(attached(c)),
            None => h1,
        };
        let h3 = h2.push(
            MessageView { calls: list, ..model::plain_message("assistant"@, content) },
        );
        PaneView {
            log: TranscriptView { history: h3, follow: true, ..self.log },
            run: self.run.tallied(content, usage),
            ..self
        }
    }

    /// What the tools of the next round may do.
    pub open spec fn limits(self) -> ToolLimits {
        ToolLimits {
            network: settings::allows_network(self.settings.posture),
            code: settings::allows_code(self.settings.posture),
            mode: self.mode,
        }
    }

    /// A round of tools begun.
    pub open spec fn round_begun(self, list: Seq<ToolCallView>, now: u64) -> PaneView {
        let v = PaneView { run: RunView { round: self.run.round + 1, ..self.run }, ..self }.said(
            "Running "@ + scan::decimal(list.len()) + " tool call(s) ["@ + render::names_text(model::call_names(list))
                + "]…"@,
        );
        if self.run.stoppable {
            v.asking(EffectView::Check { calls: list, limits: self.limits() })
        } else {
            PaneView { run: RunView { busy: false, ..v.run }, ..v }.failed(
                "Tool execution aborted: missing cancellation token"@,
            ).next_prompted(now)
        }
    }

    /// A round of tools refused, because the prompt has had all its rounds.
    pub open spec fn round_refused(self, list: Seq<ToolCallView>, bell: bool, now: u64) -> PaneView {
        self.released().said(
            "Tool-round limit (8) reached; "@ + scan::decimal(list.len()) + " call(s) ["@ + render::names_text(
                model::call_names(list),
            ) + "] not executed"@,
        ).told(limit_note()).settled(bell, now)
    }

    /// A finished reply: tools run next, up to the limit; else the conversation is
    /// summed up if that is due, or the request is over.
    pub open spec fn finished(
        self,
        content: Seq<char>,
        list: Seq<ToolCallView>,
        usage: Usage,
        wall: Seq<char>,
        compact_due: bool,
        bell: bool,
        now: u64,
    ) -> PaneView {
        let v = self.recorded(content, list, usage);
        if list.len() > 0 && self.run.round < MAX_TOOL_ROUNDS {
            v.round_begun(list, now)
        } else if list.len() > 0 {
            v.round_refused(list, bell, now)
        } else if self.settings.auto_compact && v.log.history.len() >= 4 && compact_due {
            v.compaction_begun(true)
        } else {
            v.released().did("Done in "@ + wall + "s"@).settled(bell, now)
        }
    }

    /// A copy of the conversation asked for before it is summed up.
    pub open spec fn compaction_begun(self, automatic: bool) -> PaneView {
        if self.log.history.len() < 4 {
            self.failed("There is not enough conversation to compact yet"@)
        } else {
            self.asking(EffectView::Backup { reason: BackupReason::Compact { automatic } })
        }
    }

    /// The conversation handed to the model to be summed up, once a copy of it exists.
    pub open spec fn compaction_backed_up(
        self,
        backup: Result<Seq<char>, Seq<char>>,
        automatic: bool,
        now: u64,
    ) -> PaneView {
        match backup {
            Err(error) => self.failed("Compact backup failed, session kept: "@ + error),
            Ok(name) => {
                let at = replies::compact_at(self.log.history);
                if at == 0 {
                    self.failed("There is not enough conversation to compact yet"@)
                } else {
                    PaneView { run: self.run.compacting(name, now), ..self }.said(
                        if automatic {
                            "Context near its limit; compacting…"@
                        } else {
                            "Compacting context…"@
                        },
                    ).asking(
                        EffectView::Summarize {
                            prompt: summary_prompt(self.log.history.take(at)),
                            recent: self.log.history.skip(at),
                        },
                    )
                }
            },
        }
    }

    /// A summary put in place of the conversation; a blank one changes nothing of it.
    pub open spec fn summarized(self, summary: Seq<char>, recent: Seq<MessageView>) -> PaneView {
        if scan::blank(summary) {
            PaneView {
                run: RunView { backup: None, ..self.released().run },
                log: TranscriptView { follow: true, ..self.log },
                ..self
            }.failed("Compaction returned an empty summary · /compact to retry"@)
        } else {
            let log = TranscriptView {
                history: seq![
                    model::plain_message("system"@, "Conversation summary:\n"@ + summary),
                ] + recent,
                ..self.log
            }.pruned();
            PaneView {
                run: RunView { backup: None, usage: run::idle_run().usage, ..self.released().run },
                log: TranscriptView { follow: true, ..log },
                ..self
            }.did(
                "Context compacted"@ + (match self.run.backup {
                    Some(name) => " · backup "@ + name,
                    None => Seq::empty(),
                }),
            )
        }
    }

    /// A failed request told: its prompt goes back into the draft, unless it was stopped in
    /// favour of another one.
    pub open spec fn failure_told(self, error: Seq<char>) -> PaneView {
        PaneView {
            run: RunView {
                reply: Seq::empty(),
                awaiting: false,
                round: 0,
                context: None,
                prompt: None,
                steered: false,
                backup: None,
                failed: if self.run.steered || self.run.prompt is None {
                    self.run.failed
                } else {
                    self.run.prompt
                },
                ..self.released().run
            },
            composer: if self.run.steered || self.run.prompt is None {
                self.composer
            } else {
                self.composer.with_text(self.run.prompt->0)
            },
            ..self
        }.failed(
            if self.run.backup is Some {
                "Compaction failed: "@ + error + " · /compact to retry"@
            } else {
                "Request failed: "@ + error + " · /retry to try again"@
            },
        )
    }

    /// A failed request: it is told, and the next waiting prompt is sent.
    pub open spec fn request_failed(self, error: Seq<char>, bell: bool, now: u64) -> PaneView {
        self.failure_told(error).settled(bell && !scan::contains_text(error, "cancelled"@), now)
    }

    /// The results of a round of tools written down, and the conversation sent on.
    pub open spec fn tools_finished(
        self,
        results: Seq<ToolResultView>,
        todos: Seq<(Seq<char>, TodoStatus)>,
        now: u64,
    ) -> PaneView {
        PaneView {
            run: RunView { awaiting: false, ..self.run },
            log: TranscriptView {
                history: self.log.history + tool_messages(results),
                ..self.log
            },
            todos,
            ..self
        }.said(
            scan::decimal(results.len()) + " result(s) ["@ + render::names_text(result_names(results))
                + "] · continuing…"@,
        ).continued(now)
    }

    /// A prompt taken over with the files that it refers to: what was undone is gone,
    /// and a reference that stands for nothing is reported.
    pub open spec fn referring(self, value: Seq<char>, found: Seq<Option<Seq<char>>>) -> PaneView {
        let refs = files::refs_of(value);
        let unknown = unknown_refs(refs, found, refs.len() as int);
        let cleared = PaneView { log: TranscriptView { redo: Seq::empty(), ..self.log }, ..self };
        if unknown.len() > 0 {
            cleared.failed("Unknown @refs: "@ + scan::join(unknown, ", "@))
        } else {
            cleared
        }
    }

    /// A prompt of the user: it is sent, or takes the place of the running request.
    pub open spec fn submitted(
        self,
        value: Seq<char>,
        found: Seq<Option<Seq<char>>>,
        now: u64,
    ) -> PaneView {
        let v = self.referring(value, found);
        let context = context_of(found);
        if self.run.busy {
            let w = if self.run.stoppable {
                v.asking(EffectView::Stop)
            } else {
                v
            };
            PaneView { run: w.run.steered_by(value, context), ..w }.said("Steering… ("@ + scan::decimal(self.run.queue.len()) + " behind)"@)
        } else {
            v.prompted(value, context, now)
        }
    }

    /// The failed prompt sent again, or else the draft.
    pub open spec fn retried(self, now: u64) -> PaneView {
        if self.run.busy {
            self.failed("Finish the active request before retrying"@)
        } else if self.run.failed is None && scan::blank(self.composer.text) {
            self.failed("Nothing to retry"@)
        } else {
            let prompt = match self.run.failed {
                Some(p) => p,
                None => scan::trim(self.composer.text),
            };
            PaneView { run: RunView { failed: None, ..self.run }, ..self }.undrafted().prompted(
                prompt,
                None,
                now,
            )
        }
    }

    /// The user asked to sum up the conversation.
    pub open spec fn compaction_asked(self) -> PaneView {
        if self.run.busy {
            self.failed("Finish the active request before compacting"@)
        } else {
            self.compaction_begun(false)
        }
    }

    /// Told that the first word of the reply is slow to come, once for each request.
    pub open spec fn hinted(self, now: u64) -> PaneView {
        if replies::is_slow_start(
            self.run.busy,
            self.run.awaiting,
            self.run.hinted,
            self.run.started,
            now,
        ) {
            PaneView { run: RunView { hinted: true, ..self.run }, ..self }.said(
                "Still waiting for the first token (>15s) — the server may be loading the model; Esc cancels"@,
            )
        } else {
            self
        }
    }
}

/// Sorts the references of a prompt: those that were not found, and what the others
/// stand for.
fn sort_refs(value: &str, found: &Vec<Option<String>>) -> (r: (Vec<String>, Vec<String>))
    requires
        found@.len() == files::refs_of(value@).len(),
    ensures
        text::texts(r.0@) == unknown_refs(
            files::refs_of(value@),
            pane::headers_view(found@),
            files::refs_of(value@).len() as int,
        ),
        text::texts(r.1@) == found_blocks(pane::headers_view(found@), found@.len() as int),
{
    let refs = files::extract_file_refs(value);
    let ghost all = text::texts(refs@);
    let ghost seen = pane::headers_view(found@);
    assert(all.len() == refs@.len());
    let mut unknown: Vec<String> = Vec::new();
    let mut blocks: Vec<String> = Vec::new();
    assert(text::texts(unknown@) =~= unknown_refs(all, seen, 0));
    assert(text::texts(blocks@) =~= found_blocks(seen, 0));
    for i in 0..found.len()
        invariant
            found@.len() == refs@.len(),
            all == text::texts(refs@),
            seen == pane::headers_view(found@),
            text::texts(unknown@) == unknown_refs(all, seen, i as int),
            text::texts(blocks@) == found_blocks(seen, i as int),
    {
        assert(seen[i as int] == composer::opt_text(found@[i as int]));
        assert(all[i as int] == refs@[i as int]@);
        match &found[i] {
            Some(block) => {
                let one = text::copy_text(block.as_str());
                proof {
                    text::texts_push(blocks@, one);
                }
                blocks.push(one);
            },
            None => {
                let one = text::copy_text(refs[i].as_str());
                proof {
                    text::texts_push(unknown@, one);
                }
                unknown.push(one);
            },
        }
    }
    (unknown, blocks)
}

impl Pane {
    /// Sends a prompt, or lets it wait while a request is running.
    pub fn start_prompt(&mut self, prompt: String, context: Option<String>, now: u64)
        requires
            old(self).wf(),
        ensures
            final(self).wf(),
            final(self)@ == old(self)@.prompted(prompt@, composer::opt_text(context), now),
    {
        reveal(PaneView::prompted);
        if self.run.busy {
            self.run.enqueue(prompt, context);
            assert(self.run@.queue.len() == self.run.queue@.len());
            let n = scan::decimal_text(self.run.queue.len() as u64);
            self.set_status(text::cat3("Queued (", n.as_str(), " waiting)"));
            return;
        }
        let sent = text::copy_text(prompt.as_str());
        self.run.launch(prompt, context, now);
        self.set_status(text::cat3("Sending in ", self.mode.as_str(), " mode…"));
        self.ask(Effect::Send { prompt: sent });
    }

    /// Sends the next waiting prompt, if there is one.
    pub fn start_next_queued(&mut self, now: u64)
        requires
            old(self).wf(),
        ensures
            final(self).wf(),
            final(self)@ == old(self)@.next_prompted(now),
    {
        match self.run.pop() {
            None => {},
            Some(q) => {
                self.start_prompt(q.prompt, q.context, now);
            },
        }
    }

    fn settle(&mut self, bell: bool, now: u64)
        requires
            old(self).wf(),
        ensures
            final(self).wf(),
            final(self)@ == old(self)@.settled(bell, now),
    {
        assert(self.run@.queue.len() == self.run.queue@.len());
        let empty = self.run.queue.len() == 0;
        self.start_next_queued(now);
        if empty && bell {
            self.ask(Effect::Bell);
        }
    }

    fn release(&mut self)
        ensures
            final(self)@ == old(self)@.released(),
            old(self).wf() ==> final(self).wf(),
    {
        self.run.busy = false;
        self.run.stoppable = false;
    }

    /// Sends the conversation as it stands.
    pub fn start_continue(&mut self, now: u64)
        requires
            old(self).wf(),
        ensures
            final(self).wf(),
            final(self)@ == old(self)@.continued(now),
    {
        if self.run.stoppable {
            self.ask(Effect::Continue);
        } else {
            self.run.busy = false;
            self.fail("Nothing to continue");
            self.start_next_queued(now);
        }
    }

    /// Stops the running request. Says whether a round that waited for decisions was
    /// given up, whose card is then gone.
    pub fn cancel_work(&mut self, status: &str, now: u64) -> (r: bool)
        requires
            old(self).wf(),
        ensures
            final(self).wf(),
            r == (old(self)@.tools is Some),
            final(self)@ == old(self)@.stopped(status@, now),
    {
        if self.pending_tools.is_some() {
            self.pending_tools = None;
            self.run.busy = false;
            self.run.stoppable = false;
            self.run.tool_round = 0;
            self.say(status);
            self.start_next_queued(now);
            return true;
        }
        if self.run.stoppable {
            self.ask(Effect::Stop);
            self.say(status);
        } else if !self.run.busy {
            self.say(status);
        }
        false
    }

    fn record(&mut self, content: &str, tool_calls: Vec<ToolCall>, usage: Usage)
        requires
            old(self).wf(),
        ensures
            final(self).wf(),
            final(self)@ == old(self)@.recorded(content@, model::calls(tool_calls@), usage),
    {
        let (prompt, context) = self.run.tally(content, usage);
        if let Some(p) = prompt {
            self.log.push(Message::user(p.as_str()));
        }
        if let Some(c) = context {
            let text = text::cat2("Attached context:\n", c.as_str());
            self.log.push(Message::system(text.as_str()));
        }
        self.log.push(Message::assistant_with_tools(content, tool_calls));
        self.log.follow_transcript = true;
    }

    fn tool_limits(&self) -> (r: ToolLimits)
        ensures
            r == self@.limits(),
    {
        ToolLimits {
            network: self.settings.network_allowed(),
            code: self.settings.code_allowed(),
            mode: self.mode,
        }
    }

    #[verifier::spinoff_prover]
    fn begin_round(&mut self, list: Vec<ToolCall>, now: u64)
        requires
            old(self).wf(),
            old(self).run.tool_round < MAX_TOOL_ROUNDS,
        ensures
            final(self).wf(),
            final(self)@ == old(self)@.round_begun(model::calls(list@), now),
    {
        let ghost all = model::calls(list@);
        assert(all.len() == list@.len());
        self.run.tool_round = self.run.tool_round + 1;
        let n = scan::decimal_text(list.len() as u64);
        let names = model::names_of_calls(&list);
        let shown = render::tool_names(&names);
        self.set_status(
            text::cat5("Running ", n.as_str(), " tool call(s) [", shown.as_str(), "]…"),
        );
        if self.run.stoppable {
            let limits = self.tool_limits();
            self.ask(Effect::Check { calls: list, limits });
        } else {
            self.run.busy = false;
            self.fail("Tool execution aborted: missing cancellation token");
            self.start_next_queued(now);
        }
    }

    fn refuse_round(&mut self, list: &Vec<ToolCall>, bell: bool, now: u64)
        requires
            old(self).wf(),
        ensures
            final(self).wf(),
            final(self)@ == old(self)@.round_refused(model::calls(list@), bell, now),
    {
        assert(model::calls(list@).len() == list@.len());
        self.release();
        let n = scan::decimal_text(list.len() as u64);
        let names = model::names_of_calls(list);
        let shown = render::tool_names(&names);
        self.set_status(
            text::cat5(
                "Tool-round limit (8) reached; ",
                n.as_str(),
                " call(s) [",
                shown.as_str(),
                "] not executed",
            ),
        );
        self.push_system(
            "Tool-round limit (8) reached. The model requested further tool calls that were not executed. Refine the prompt or continue manually.",
        );
        self.settle(bell, now);
    }

    /// A reply is finished. `compact_due` says that the conversation nears the limit of
    /// the model, `bell` that the bell is on.
    pub fn chat_done(&mut self, result: ChatResult, compact_due: bool, bell: bool, now: u64)
        requires
            old(self).wf(),
        ensures
            final(self).wf(),
            final(self)@ == old(self)@.finished(
                result.content@,
                model::calls(result.tool_calls@),
                result.usage,
                result.wall_text@,
                compact_due,
                bell,
                now,
            ),
    {
        let ghost list = model::calls(result.tool_calls@);
        assert(list.len() == result.tool_calls@.len());
        let kept = model::copy_calls(&result.tool_calls);
        self.record(result.content.as_str(), kept, result.usage);
        assert(self.log@.history.len() == self.log.history@.len());
        if result.tool_calls.len() > 0 && self.run.tool_round < MAX_TOOL_ROUNDS {
            self.begin_round(result.tool_calls, now);
        } else if result.tool_calls.len() > 0 {
            self.refuse_round(&result.tool_calls, bell, now);
        } else if self.settings.auto_compact && self.log.history.len() >= 4 && compact_due {
            self.start_compaction(true);
        } else {
            self.release();
            self.set_ok(text::cat3("Done in ", result.wall_text.as_str(), "s"));
            self.settle(bell, now);
        }
    }

    /// Begins to sum up the conversation, with a copy of it first.
    pub fn start_compaction(&mut self, automatic: bool)
        requires
            old(self).wf(),
        ensures
            final(self).wf(),
            final(self)@ == old(self)@.compaction_begun(automatic),
    {
        assert(self.log@.history.len() == self.log.history@.len());
        if self.log.history.len() < 4 {
            self.fail("There is not enough conversation to compact yet");
        } else {
            self.ask(Effect::Backup { reason: BackupReason::Compact { automatic } });
        }
    }

    /// Goes on to sum up the conversation: `backup` is the name of the copy, or why
    /// there is none.
    #[verifier::spinoff_prover]
    pub fn finish_backup(&mut self, backup: Result<String, String>, automatic: bool, now: u64)
        requires
            old(self).wf(),
        ensures
            final(self).wf(),
            final(self)@ == old(self)@.compaction_backed_up(replies::result_text(backup), automatic, now),
    {
        let name = match backup {
            Err(error) => {
                self.set_error(text::cat2("Compact backup failed, session kept: ", error.as_str()));
                return;
            },
            Ok(name) => name,
        };
        let ghost history = self.log@.history;
        assert(history.len() == self.log.history@.len());
        let (older, _) = replies::split_compact(self.log.history.as_slice());
        let at: usize = older.len();
        if at == 0 {
            self.fail("There is not enough conversation to compact yet");
            return;
        }
        let recent = model::copy_messages(&self.log.history, at, self.log.history.len());
        assert(model::messages(recent@) =~= history.skip(at as int));
        let mut said: Vec<String> = Vec::new();
        for i in 0..at
            invariant
                at <= self.log.history@.len(),
                history == model::messages(self.log.history@),
                said@.len() == i,
                forall|j: int|
                    0 <= j < i ==> (#[trigger] said@[j])@ == dialogue(history.take(at as int))[j],
        {
            assert(history[i as int] == self.log.history@[i as int]@);
            said.push(
                text::cat3(
                    self.log.history[i].role.as_str(),
                    ": ",
                    self.log.history[i].content.as_str(),
                ),
            );
        }
        assert(text::texts(said@) =~= dialogue(history.take(at as int)));
        let all = scan::join_texts(&said, "\n\n");
        let prompt = text::cat2(
            "Summarize the following conversation for a future coding harness turn. Preserve decisions, constraints, file paths, unresolved work, and user preferences. Be concise and factual.\n\n",
            all.as_str(),
        );
        self.run.busy = true;
        self.run.request_started = Some(now);
        self.run.awaiting_first_token = true;
        self.run.slow_hint_shown = false;
        self.run.stoppable = true;
        self.run.compact_backup = Some(name);
        if automatic {
            self.say("Context near its limit; compacting…");
        } else {
            self.say("Compacting context…");
        }
        self.ask(Effect::Summarize { prompt, recent });
    }

    /// Puts a summary in place of the conversation. Says whether it did: a blank
    /// summary changes nothing of it.
    #[verifier::spinoff_prover]
    pub fn apply_compaction(&mut self, summary: &str, recent: Vec<Message>) -> (r: bool)
        requires
            old(self).wf(),
        ensures
            final(self).wf(),
            r == !scan::blank(summary@),
            final(self)@ == old(self)@.summarized(summary@, model::messages(recent@)),
    {
        if scan::is_blank(summary) {
            self.release();
            self.run.compact_backup = None;
            self.log.follow_transcript = true;
            self.fail("Compaction returned an empty summary · /compact to retry");
            return false;
        }
        let text = text::cat2("Conversation summary:\n", summary);
        let mut history: Vec<Message> = Vec::new();
        history.push(Message::system(text.as_str()));
        let ghost first = history@;
        let mut rest = recent;
        history.append(&mut rest);
        assert(model::messages(history@) =~= seq![
            model::plain_message("system"@, "Conversation summary:\n"@ + summary@),
        ] + model::messages(recent@));
        self.log.history = history;
        self.log.prune_sections();
        self.run.last_usage = Usage::none();
        self.release();
        self.log.follow_transcript = true;
        let backup = self.run.compact_backup.take();
        match backup {
            Some(name) => {
                self.set_ok(text::cat3("Context compacted", " · backup ", name.as_str()));
                assert(("Context compacted"@ + " · backup "@) + name@ =~= "Context compacted"@ + (
                " · backup "@ + name@));
            },
            None => {
                self.did("Context compacted");
                assert("Context compacted"@ + Seq::<char>::empty() =~= "Context compacted"@);
            },
        }
        true
    }

    #[verifier::spinoff_prover]
    fn tell_failure(&mut self, error: &str)
        requires
            old(self).wf(),
        ensures
            final(self).wf(),
            final(self)@ == old(self)@.failure_told(error@),
    {
        self.run.streaming = String::new();
        self.run.awaiting_first_token = false;
        self.release();
        self.run.tool_round = 0;
        self.run.pending_context = None;
        let prompt = self.run.active_user.take();
        if self.run.drop_next_restore {
            self.run.drop_next_restore = false;
        } else if let Some(p) = prompt {
            self.run.last_failed_prompt = Some(text::copy_text(p.as_str()));
            self.draft(p);
        }
        let backup = self.run.compact_backup.take();
        if backup.is_some() {
            self.set_error(text::cat3("Compaction failed: ", error, " · /compact to retry"));
        } else {
            self.set_error(text::cat3("Request failed: ", error, " · /retry to try again"));
        }
    }

    /// A request failed.
    pub fn chat_failed(&mut self, error: &str, bell: bool, now: u64)
        requires
            old(self).wf(),
        ensures
            final(self).wf(),
            final(self)@ == old(self)@.request_failed(error@, bell, now),
    {
        self.tell_failure(error);
        let cancelled = scan::text_contains(error, "cancelled");
        self.settle(bell && !cancelled, now);
    }

    /// The tools of a round are done. `todos` is the list of tasks that they left.
    #[verifier::spinoff_prover]
    pub fn tools_done(&mut self, results: &Vec<ToolResult>, todos: Vec<TodoItem>, now: u64)
        requires
            old(self).wf(),
        ensures
            final(self).wf(),
            final(self)@ == old(self)@.tools_finished(
                model::results_view(results@),
                render::todos_view(todos@),
                now,
            ),
    {
        let ghost all = model::results_view(results@);
        let ghost before = self.log@;
        assert(all.len() == results@.len());
        self.run.awaiting_first_token = false;
        let mut names: Vec<String> = Vec::new();
        assert(before.history + tool_messages(all).take(0) =~= before.history);
        for i in 0..results.len()
            invariant
                all == model::results_view(results@),
                names@.len() == i,
                self.wf(),
                forall|j: int| 0 <= j < i ==> (#[trigger] names@[j])@ == result_names(all)[j],
                self@ == (PaneView {
                    log: TranscriptView {
                        history: before.history + tool_messages(all).take(i as int),
                        ..before
                    },
                    run: RunView { awaiting: false, ..old(self)@.run },
                    ..old(self)@
                }),
        {
            assert(all[i as int] == results@[i as int]@);
            let text = text::cat4(
                "[",
                results[i].name.as_str(),
                "]\n",
                results[i].content.as_str(),
            );
            let m = Message::tool(results[i].call_id.as_str(), text.as_str());
            assert(m@ == tool_message(all[i as int]));
            self.log.push(m);
            names.push(text::copy_text(results[i].name.as_str()));
            assert(before.history + tool_messages(all).take(i + 1) =~= (before.history
                + tool_messages(all).take(i as int)).push(tool_message(all[i as int])));
        }
        assert(tool_messages(all).take(all.len() as int) =~= tool_messages(all));
        assert(text::texts(names@) =~= result_names(all));
        self.todos = todos;
        let n = scan::decimal_text(results.len() as u64);
        let shown = render::tool_names(&names);
        self.set_status(text::cat4(n.as_str(), " result(s) [", shown.as_str(), "] · continuing…"));
        self.start_continue(now);
    }

    /// A prompt of the user. `found` has what each of its `@path` references stands
    /// for.
    pub fn submit_prompt(&mut self, value: String, found: &Vec<Option<String>>, now: u64)
        requires
            old(self).wf(),
            found@.len() == files::refs_of(value@).len(),
        ensures
            final(self).wf(),
            final(self)@ == old(self)@.submitted(value@, pane::headers_view(found@), now),
    {
        let context = self.take_refs(value.as_str(), found);
        if self.run.busy {
            self.steer(value, context);
        } else {
            self.start_prompt(value, context, now);
        }
    }

    fn take_refs(&mut self, value: &str, found: &Vec<Option<String>>) -> (context: Option<String>)
        requires
            old(self).wf(),
            found@.len() == files::refs_of(value@).len(),
        ensures
            final(self).wf(),
            final(self)@ == old(self)@.referring(value@, pane::headers_view(found@)),
            composer::opt_text(context) == context_of(pane::headers_view(found@)),
    {
        let (unknown, blocks) = sort_refs(value, found);
        assert(text::texts(unknown@).len() == unknown@.len());
        assert(text::texts(blocks@).len() == blocks@.len());
        self.log.redo_stack = Vec::new();
        assert(self.log@.redo =~= Seq::empty());
        if unknown.len() > 0 {
            let list = scan::join_texts(&unknown, ", ");
            self.set_error(text::cat2("Unknown @refs: ", list.as_str()));
        }
        if blocks.len() == 0 {
            None
        } else {
            Some(scan::join_texts(&blocks, "\n"))
        }
    }

    fn steer(&mut self, value: String, context: Option<String>)
        requires
            old(self).wf(),
        ensures
            final(self).wf(),
            final(self)@ == ({
                let w = if old(self)@.run.stoppable {
                    old(self)@.asking(EffectView::Stop)
                } else {
                    old(self)@
                };
                PaneView { run: w.run.steered_by(value@, composer::opt_text(context)), ..w }.said(
                    "Steering… ("@ + scan::decimal(old(self)@.run.queue.len()) + " behind)"@,
                )
            }),
    {
        if self.run.stoppable {
            self.ask(Effect::Stop);
        }
        assert(self.run@.queue.len() == self.run.queue@.len());
        let n = scan::decimal_text(self.run.queue.len() as u64);
        self.run.steer(value, context);
        self.set_status(text::cat3("Steering… (", n.as_str(), " behind)"));
    }

    /// Sends the failed prompt again, or else the draft.
    #[verifier::spinoff_prover]
    pub fn command_retry(&mut self, now: u64)
        requires
            old(self).wf(),
        ensures
            final(self).wf(),
            final(self)@ == old(self)@.retried(now),
    {
        if self.run.busy {
            self.fail("Finish the active request before retrying");
            return;
        }
        let prompt = match composer::copy_opt(&self.run.last_failed_prompt) {
            Some(p) => p,
            None => {
                if scan::is_blank(self.composer.input.as_str()) {
                    self.fail("Nothing to retry");
                    return;
                }
                scan::trim_text(self.composer.input.as_str())
            },
        };
        self.run.last_failed_prompt = None;
        self.undraft();
        assert(self@ == PaneView {
            run: RunView { failed: None, ..old(self)@.run },
            ..old(self)@
        }.undrafted());
        self.start_prompt(prompt, None, now);
    }

    /// Sums up the conversation on request.
    pub fn command_compact(&mut self)
        requires
            old(self).wf(),
        ensures
            final(self).wf(),
            final(self)@ == old(self)@.compaction_asked(),
    {
        if self.run.busy {
            self.fail("Finish the active request before compacting");
        } else {
            self.start_compaction(false);
        }
    }

    /// Says, once for each request, that the first word of the reply is slow to come.
    pub fn maybe_note_slow_start(&mut self, now: u64)
        ensures
            final(self)@ == old(self)@.hinted(now),
            old(self).wf() ==> final(self).wf(),
    {
        if replies::slow_start_due(
            self.run.busy,
            self.run.awaiting_first_token,
            self.run.slow_hint_shown,
            self.run.request_started,
            now,
        ) {
            self.run.slow_hint_shown = true;
            self.say(
                "Still waiting for the first token (>15s) — the server may be loading the model; Esc cancels",
            );
        }
    }
}

// ---------------------------------------------------------------------------
// Laws
// ---------------------------------------------------------------------------

/// While a request is running, a further prompt only waits: nothing is sent, the
/// conversation stays as it is, and the prompt stands behind all others.
pub proof fn busy_prompts_wait(v: PaneView, prompt: Seq<char>, context: Option<Seq<char>>, now: u64)
    requires
        v.run.busy,
    ensures
        v.prompted(prompt, context, now).out == v.out,
        v.prompted(prompt, context, now).log.history == v.log.history,
        v.prompted(prompt, context, now).run.queue == v.run.queue.push(
            QueuedView { prompt, context },
        ),
{
    reveal(PaneView::prompted);
}

/// Waiting prompts are sent oldest first, one at a time, and the others keep their
/// order.
pub proof fn oldest_prompt_goes_first(v: PaneView, now: u64)
    requires
        v.run.queue.len() > 0,
        !v.run.busy,
    ensures
        ({
            let next = v.next_prompted(now);
            &&& next.out == v.out.push(EffectView::Send { prompt: v.run.queue[0].prompt })
            &&& next.run.queue == v.run.queue.skip(1)
            &&& next.run.busy
        }),
{
    reveal(PaneView::prompted);
}

/// A prompt that is given while a request is running goes before every prompt that
/// waits, and stops the request.
pub proof fn steering_goes_first(v: PaneView, value: Seq<char>, found: Seq<Option<Seq<char>>>, now: u64)
    requires
        v.run.busy,
        v.run.stoppable,
    ensures
        ({
            let next = v.submitted(value, found, now);
            &&& next.out == v.out.push(EffectView::Stop)
            &&& next.run.queue[0].prompt == value
            &&& next.run.queue.skip(1) == v.run.queue
            &&& next.run.steered
        }),
{
    let next = v.submitted(value, found, now);
    assert(next.run.queue.skip(1) =~= v.run.queue);
}

/// A prompt takes at most eight rounds of tools: the count never passes eight, and once
/// it is reached no further call is even checked.
pub proof fn rounds_are_bounded(
    v: PaneView,
    content: Seq<char>,
    list: Seq<ToolCallView>,
    usage: Usage,
    wall: Seq<char>,
    compact_due: bool,
    bell: bool,
    now: u64,
)
    requires
        0 <= v.run.round <= MAX_TOOL_ROUNDS,
    ensures
        ({
            let next = v.finished(content, list, usage, wall, compact_due, bell, now);
            &&& 0 <= next.run.round <= MAX_TOOL_ROUNDS
            &&& v.run.round == MAX_TOOL_ROUNDS ==> forall|i: int|
                v.out.len() <= i < next.out.len() ==> !(#[trigger] next.out[i] is Check)
        }),
{
    reveal(PaneView::prompted);
}

/// A finished reply adds to the conversation and changes nothing that was said before.
pub proof fn replies_only_add(
    v: PaneView,
    content: Seq<char>,
    list: Seq<ToolCallView>,
    usage: Usage,
)
    ensures
        ({
            let history = v.recorded(content, list, usage).log.history;
            &&& history.len() > v.log.history.len()
            &&& history.take(v.log.history.len() as int) == v.log.history
            &&& history.last().content == content
            &&& history.last().calls == list
        }),
{
    let history = v.recorded(content, list, usage).log.history;
    assert(history.take(v.log.history.len() as int) =~= v.log.history);
}

/// A prompt whose request fails is not lost: it stands in the draft again, and a retry
/// sends it.
pub proof fn failed_prompt_is_kept(v: PaneView, error: Seq<char>, bell: bool, now: u64, later: u64)
    requires
        v.run.prompt is Some,
        !v.run.steered,
        v.run.queue.len() == 0,
    ensures
        ({
            let next = v.request_failed(error, bell, now);
            &&& next.composer.text == v.run.prompt->0
            &&& !next.run.busy
            &&& next.log.history == v.log.history
            &&& next.retried(later).out.last() == (EffectView::Send { prompt: v.run.prompt->0 })
        }),
{
    reveal(PaneView::prompted);
}

/// A request that was stopped in favour of another prompt leaves the draft alone.
pub proof fn steered_prompt_is_dropped(v: PaneView, error: Seq<char>, bell: bool, now: u64)
    requires
        v.run.steered,
    ensures
        v.request_failed(error, bell, now).composer == v.composer,
{
    reveal(PaneView::prompted);
}

/// Giving up a round that waits for decisions frees the pane.
pub proof fn stopping_frees_the_pane(v: PaneView, status: Seq<char>, now: u64)
    requires
        v.tools is Some,
        v.run.queue.len() == 0,
    ensures
        !v.stopped(status, now).run.busy,
        v.stopped(status, now).tools is None,
        v.stopped(status, now).log.history == v.log.history,
{
    reveal(PaneView::prompted);
}

/// A blank summary keeps the conversation; any other keeps the recent messages, behind
/// the summary.
pub proof fn summaries_keep_recent(v: PaneView, summary: Seq<char>, recent: Seq<MessageView>)
    ensures
        scan::blank(summary) ==> v.summarized(summary, recent).log.history == v.log.history,
        !scan::blank(summary) ==> v.summarized(summary, recent).log.history.skip(1) == recent,
        !v.summarized(summary, recent).run.busy,
{
    if !scan::blank(summary) {
        assert(v.summarized(summary, recent).log.history.skip(1) =~= recent);
    }
}

/// A new prompt ends what could be redone, whether it is sent, waits or steers.
pub proof fn prompts_end_redo(
    v: PaneView,
    value: Seq<char>,
    found: Seq<Option<Seq<char>>>,
    now: u64,
)
    ensures
        v.submitted(value, found, now).log.redo.len() == 0,
        v.submitted(value, found, now).log.history == v.log.history,
{
    reveal(PaneView::prompted);
}

/// A request that is slow to start is spoken of once.
pub proof fn slow_starts_are_told_once(v: PaneView, now: u64, later: u64)
    ensures
        v.hinted(now).run.hinted ==> v.hinted(now).hinted(later) == v.hinted(now),
        v.hinted(now) != v ==> v.hinted(now).run.hinted,
{
}

} // verus!
