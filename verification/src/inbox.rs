//! What happens to a pane from outside.

use crate::composer;
use crate::desk::{Desk, DeskView, OverlayView, SceneView};
use crate::desk;
use crate::effects::{Effect, EffectView, Saved, SavedView};
use crate::events::{BackendEvent, ModelInfo, ModelView, Overlay, UiEvent};
use crate::events;
use crate::model::{Message, MessageView};
use crate::model;
use crate::pane::{Correction, CorrectionView, Pane, PaneView};
use crate::render::{TodoItem, TodoStatus};
use crate::render;
use crate::replies;
use crate::run::RunView;
use crate::scan;
use crate::settings;
use crate::text;
use crate::transcript::TranscriptView;
use vstd::prelude::*;

verus! {

/// What the surroundings know when an event comes in: the tasks that tools left, whether
/// the conversation nears the limit of the model, and the time in milliseconds.
#[derive(Debug, Clone)]
pub struct EventFacts {
    pub todos: Vec<TodoItem>,
    pub compact_due: bool,
    pub now: u64,
}

/// How many of the first `n` models have to be loaded first.
pub open spec fn cold_in(list: Seq<ModelView>, n: int) -> nat
    decreases n,
{
    if n <= 0 {
        0
    } else {
        cold_in(list, n - 1) + (if list[n - 1].status matches Some(s) && s != "loaded"@ {
            1nat
        } else {
            0nat
        })
    }
}

/// The names of models.
pub open spec fn model_ids(list: Seq<ModelView>) -> Seq<Seq<char>> {
    list.map_values(|m: ModelView| m.id)
}

/// What is said when models were listed.
pub open spec fn models_note(list: Seq<ModelView>) -> Seq<char> {
    let cold = cold_in(list, list.len() as int);
    "Connected · "@ + scan::decimal(list.len()) + (if cold > 0 {
        " models ("@ + scan::decimal(cold) + " load on first use)"@
    } else {
        " models"@
    })
}

/// What is said of a proposal to mend a shell line.
pub open spec fn correction_note(fixed: Seq<char>, more: nat) -> Seq<char> {
    "Did you mean `!"@ + fixed + (if more == 0 {
        "`? → applies"@
    } else {
        "`? → applies · +"@ + scan::decimal(more) + " more"@
    })
}

impl PaneView {
    /// A piece of the reply.
    pub open spec fn streamed(self, token: Seq<char>) -> PaneView {
        PaneView {
            run: RunView { reply: self.run.reply + token, awaiting: false, ..self.run },
            log: TranscriptView { follow: true, ..self.log },
            ..self
        }.said("Generating…"@)
    }

    /// A summary that came in; once it is in place the next prompt is sent.
    pub open spec fn compacted(self, summary: Seq<char>, recent: Seq<MessageView>, now: u64) -> PaneView {
        let v = PaneView { run: RunView { awaiting: false, ..self.run }, ..self }.summarized(
            summary,
            recent,
        );
        if scan::blank(summary) {
            v
        } else {
            v.next_prompted(now)
        }
    }

    /// A proposal to mend a shell line: offered where nothing is being typed, else only
    /// noted.
    pub open spec fn corrected(
        self,
        failed: Seq<char>,
        fixed: Seq<char>,
        more: Seq<Seq<char>>,
    ) -> PaneView {
        if scan::blank(self.composer.text) {
            PaneView { correction: Some(CorrectionView { failed, fixed, more }), ..self }.said(
                correction_note(fixed, more.len()),
            )
        } else {
            self.told("Did you mean `!"@ + fixed + "`?"@)
        }
    }

    /// A drafted command: it goes into an empty draft, else into the transcript.
    pub open spec fn command_drafted(self, outcome: Result<Seq<char>, Seq<char>>) -> PaneView {
        match outcome {
            Ok(command) => if self.composer.text.len() == 0 {
                self.drafted(command).noted("Review — Enter runs · Esc clears"@, self.log.tone)
            } else {
                self.told("Composer busy — run it when ready:\n"@ + command).did(
                    "Saved to session"@,
                )
            },
            Err(error) => self.failed(error),
        }
    }
}

impl SceneView {
    /// The models of a connection listed, to choose from.
    pub open spec fn models_listed(self, list: Seq<ModelView>) -> SceneView {
        if list.len() == 0 {
            self.with(
                self.pane.said("Connected · no models listed"@).asking(
                    EffectView::Keep { setting: SavedView::Connection(None), report: true },
                ),
            )
        } else {
            let active = self.pane.settings.model;
            let s = self.with(self.pane.said(models_note(list))).covered(
                OverlayView::Models {
                    items: list,
                    selected: match settings::place_of(model_ids(list), active) {
                        Some(k) => k,
                        None => 0,
                    },
                    scroll: 0,
                    active,
                },
            );
            SceneView { desk: DeskView { known_models: model_ids(list), ..s.desk }, ..s }
        }
    }

    /// An event that came in.
    #[verifier::opaque]
    pub open spec fn received(
        self,
        event: UiEvent,
        todos: Seq<(Seq<char>, TodoStatus)>,
        compact_due: bool,
        now: u64,
    ) -> SceneView {
        match event {
            UiEvent::Backend(BackendEvent::Token(token)) => self.with(self.pane.streamed(token@)),
            UiEvent::Backend(BackendEvent::Status(text)) => self.with(self.pane.said(text@)),
            UiEvent::ChatDone(result) => self.with(
                self.pane.finished(
                    result.content@,
                    model::calls(result.tool_calls@),
                    result.usage,
                    result.wall_text@,
                    compact_due,
                    self.desk.bell,
                    now,
                ),
            ),
            UiEvent::ChatError(error) => self.with(
                self.pane.request_failed(error@, self.desk.bell, now),
            ),
            UiEvent::ToolsDone(results) => self.with(
                self.pane.tools_finished(model::results_view(results@), todos, now),
            ),
            UiEvent::Compacted { summary, recent } => self.with(
                self.pane.compacted(summary@, model::messages(recent@), now),
            ),
            UiEvent::ShellDraft(outcome) => self.with(
                self.pane.command_drafted(replies::result_text(outcome)),
            ),
            UiEvent::ShellCorrection { failed, fixed, more } => self.with(
                self.pane.corrected(failed@, fixed@, text::texts(more@)),
            ),
            UiEvent::LiveValues { key, values, ok } => SceneView {
                desk: DeskView {
                    live: self.desk.live.answered(key@, text::texts(values@), ok, now),
                    ..self.desk
                },
                ..self
            },
            UiEvent::AiGhost { seq, for_input, suffix } => self.with(
                self.pane.composed(
                    self.pane.composer.answered(seq as int, for_input@, composer::opt_text(suffix)),
                ),
            ),
            UiEvent::ModelsLoaded { models } => self.models_listed(events::models_view(models@)),
            UiEvent::Notice(text) => self.with(self.pane.told(text@)),
        }
    }
}

fn count_cold(models: &Vec<ModelInfo>) -> (r: usize)
    ensures
        r == cold_in(events::models_view(models@), models@.len() as int),
        r <= models@.len(),
{
    let ghost all = events::models_view(models@);
    let mut n: usize = 0;
    for i in 0..models.len()
        invariant
            all == events::models_view(models@),
            n == cold_in(all, i as int),
            n <= i,
    {
        assert(all[i as int] == models@[i as int]@);
        if let Some(status) = &models[i].status {
            if !text::same_text(status.as_str(), "loaded") {
                n = n + 1;
            }
        }
    }
    n
}

fn ids_of_models(models: &Vec<ModelInfo>) -> (r: Vec<String>)
    ensures
        text::texts(r@) == model_ids(events::models_view(models@)),
        r@.len() == models@.len(),
{
    let mut r: Vec<String> = Vec::new();
    for i in 0..models.len()
        invariant
            r@.len() == i,
            forall|j: int| 0 <= j < i ==> (#[trigger] r@[j])@ == models@[j].id@,
    {
        r.push(text::copy_text(models[i].id.as_str()));
    }
    assert(text::texts(r@) =~= model_ids(events::models_view(models@)));
    r
}

impl Pane {
    fn list_models(&mut self, desk: &mut Desk, models: Vec<ModelInfo>)
        requires
            old(self).wf(),
            old(desk).wf(),
        ensures
            final(self).wf(),
            final(desk).wf(),
            desk::scene(*final(self), *final(desk)) == desk::scene(*old(self), *old(desk)).models_listed(
                events::models_view(models@),
            ),
    {
        assert(events::models_view(models@).len() == models@.len());
        if models.len() == 0 {
            self.say("Connected · no models listed");
            self.ask(Effect::Keep { setting: Saved::Connection(None), report: true });
            return;
        }
        let cold: usize = count_cold(&models);
        let n = scan::decimal_text(models.len() as u64);
        let tail = if cold > 0 {
            let k = scan::decimal_text(cold as u64);
            text::cat3(" models (", k.as_str(), " load on first use)")
        } else {
            text::copy_text(" models")
        };
        self.set_status(text::cat3("Connected · ", n.as_str(), tail.as_str()));
        let ids = ids_of_models(&models);
        let active = text::copy_text(self.settings.model.as_str());
        let selected: usize = match settings::position_of(&ids, active.as_str()) {
            Some(k) => k,
            None => 0,
        };
        desk.known_models = ids;
        desk.overlay = Overlay::Models { items: models, selected, scroll: 0, active };
    }

    fn take_correction(&mut self, failed: String, fixed: String, more: Vec<String>)
        requires
            old(self).wf(),
        ensures
            final(self).wf(),
            final(self)@ == old(self)@.corrected(failed@, fixed@, text::texts(more@)),
    {
        assert(text::texts(more@).len() == more@.len());
        if scan::is_blank(self.composer.input.as_str()) {
            let tail = if more.len() == 0 {
                text::copy_text("`? → applies")
            } else {
                let n = scan::decimal_text(more.len() as u64);
                text::cat3("`? → applies · +", n.as_str(), " more")
            };
            let text = text::cat3("Did you mean `!", fixed.as_str(), tail.as_str());
            self.pending_correction = Some(Correction { failed, fixed, more });
            self.set_status(text);
        } else {
            let text = text::cat3("Did you mean `!", fixed.as_str(), "`?");
            self.push_system(text.as_str());
        }
    }

    fn take_draft(&mut self, outcome: Result<String, String>)
        requires
            old(self).wf(),
        ensures
            final(self).wf(),
            final(self)@ == old(self)@.command_drafted(replies::result_text(outcome)),
    {
        match outcome {
            Ok(command) => {
                if self.composer.input.as_str().is_empty() {
                    self.draft(command);
                    self.log.status = text::copy_text("Review — Enter runs · Esc clears");
                } else {
                    let text = text::cat2(
                        "Composer busy — run it when ready:\n",
                        command.as_str(),
                    );
                    self.push_system(text.as_str());
                    self.did("Saved to session");
                }
            },
            Err(error) => {
                self.set_error(error);
            },
        }
    }

    fn take_token(&mut self, token: &str)
        requires
            old(self).wf(),
        ensures
            final(self).wf(),
            final(self)@ == old(self)@.streamed(token@),
    {
        self.run.streaming = text::cat2(self.run.streaming.as_str(), token);
        self.run.awaiting_first_token = false;
        self.log.follow_transcript = true;
        self.say("Generating…");
    }

    fn take_summary(&mut self, summary: String, recent: Vec<Message>, now: u64)
        requires
            old(self).wf(),
        ensures
            final(self).wf(),
            final(self)@ == old(self)@.compacted(summary@, model::messages(recent@), now),
    {
        self.run.awaiting_first_token = false;
        if self.apply_compaction(summary.as_str(), recent) {
            self.start_next_queued(now);
        }
    }

    /// Takes an event.
    #[verifier::spinoff_prover]
    pub fn process_event(&mut self, desk: &mut Desk, event: UiEvent, facts: EventFacts)
        requires
            old(self).wf(),
            old(desk).wf(),
        ensures
            final(self).wf(),
            final(desk).wf(),
            desk::scene(*final(self), *final(desk)) == desk::scene(*old(self), *old(desk)).received(
                event,
                render::todos_view(facts.todos@),
                facts.compact_due,
                facts.now,
            ),
    {
        reveal(SceneView::received);
        match event {
            UiEvent::Backend(BackendEvent::Token(token)) => self.take_token(token.as_str()),
            UiEvent::Backend(BackendEvent::Status(text)) => self.set_status(text),
            UiEvent::ChatDone(result) => self.chat_done(
                result,
                facts.compact_due,
                desk.attention_bell,
                facts.now,
            ),
            UiEvent::ChatError(error) => self.chat_failed(
                error.as_str(),
                desk.attention_bell,
                facts.now,
            ),
            UiEvent::ToolsDone(results) => self.tools_done(&results, facts.todos, facts.now),
            UiEvent::Compacted { summary, recent } => self.take_summary(summary, recent, facts.now),
            UiEvent::ShellDraft(outcome) => self.take_draft(outcome),
            UiEvent::ShellCorrection { failed, fixed, more } => self.take_correction(
                failed,
                fixed,
                more,
            ),
            UiEvent::LiveValues { key, values, ok } => desk.live.take_answer(
                key,
                values,
                ok,
                facts.now,
            ),
            UiEvent::AiGhost { seq, for_input, suffix } => self.composer.apply_ai_ghost(
                seq,
                for_input.as_str(),
                suffix,
            ),
            UiEvent::ModelsLoaded { models } => self.list_models(desk, models),
            UiEvent::Notice(text) => self.push_system(text.as_str()),
        }
    }
}

// ---------------------------------------------------------------------------
// Laws
// ---------------------------------------------------------------------------

/// A proposal or a drafted command never overwrites what is being typed.
pub proof fn offers_keep_the_draft(
    v: PaneView,
    failed: Seq<char>,
    fixed: Seq<char>,
    more: Seq<Seq<char>>,
    outcome: Result<Seq<char>, Seq<char>>,
)
    ensures
        v.corrected(failed, fixed, more).composer == v.composer,
        v.composer.text.len() > 0 ==> v.command_drafted(outcome).composer == v.composer,
{
}

/// The pieces of a reply add up in the order in which they come.
pub proof fn pieces_add_up(v: PaneView, a: Seq<char>, b: Seq<char>)
    ensures
        v.streamed(a).streamed(b).run.reply == v.run.reply + (a + b),
        v.streamed(a).log.history == v.log.history,
{
    assert(v.run.reply + a + b =~= v.run.reply + (a + b));
}

} // verus!
