//! A pane: one running session with its transcript, draft, request and menus.

use crate::approvals::{PendingTools, RoundView};
use crate::approvals;
use crate::composer::{Composer, ComposerView};
use crate::composer;
use crate::effects::{Effect, EffectView};
use crate::effects;
use crate::events::StatusTone;
use crate::menus::{Menu, MenuView, ShellMenu, ShellMenuView};
use crate::menus;
use crate::paint::Rect;
use crate::render::{TodoItem, TodoStatus};
use crate::render;
use crate::run::{Run, RunView};
use crate::run;
use crate::settings::{Mode, Settings, SettingsView};
use crate::skills::{Skills, SkillsView};
use crate::skills;
use crate::text;
use crate::transcript::{Transcript, TranscriptView};
use crate::transcript;
use vstd::prelude::*;

verus! {

/// A proposal to mend a shell line that failed.
#[derive(Debug, Clone, PartialEq, Eq)]
pub struct Correction {
    pub failed: String,
    pub fixed: String,
    pub more: Vec<String>,
}

/// What a proposal holds.
#[verifier::ext_equal]
pub struct CorrectionView {
    pub failed: Seq<char>,
    pub fixed: Seq<char>,
    pub more: Seq<Seq<char>>,
}

impl View for Correction {
    type V = CorrectionView;

    open spec fn view(&self) -> CorrectionView {
        CorrectionView { failed: self.failed@, fixed: self.fixed@, more: text::texts(self.more@) }
    }
}

/// What an optional proposal holds.
pub open spec fn correction_view(o: Option<Correction>) -> Option<CorrectionView> {
    match o {
        Some(c) => Some(c@),
        None => None,
    }
}

/// What the last drawing of a pane showed, for paging and clicks.
#[derive(Debug, Clone)]
pub struct Drawn {
    pub frame: Rect,
    pub transcript_height: u16,
    pub transcript: Rect,
    pub composer: Rect,
    pub palette: Option<Rect>,
    pub palette_count: usize,
    /// For each line of the transcript, the section that it is the title of.
    pub header_rows: Vec<Option<String>>,
    pub scroll: usize,
}

/// What a drawing holds.
#[verifier::ext_equal]
pub struct DrawnView {
    pub frame: Rect,
    pub height: u16,
    pub transcript: Rect,
    pub composer: Rect,
    pub palette: Option<Rect>,
    pub palette_count: int,
    pub headers: Seq<Option<Seq<char>>>,
    pub scroll: int,
}

/// The sections that lines are titles of.
pub open spec fn headers_view(list: Seq<Option<String>>) -> Seq<Option<Seq<char>>> {
    list.map_values(|o: Option<String>| composer::opt_text(o))
}

impl View for Drawn {
    type V = DrawnView;

    open spec fn view(&self) -> DrawnView {
        DrawnView {
            frame: self.frame,
            height: self.transcript_height,
            transcript: self.transcript,
            composer: self.composer,
            palette: self.palette,
            palette_count: self.palette_count as int,
            headers: headers_view(self.header_rows@),
            scroll: self.scroll as int,
        }
    }
}

/// One running session.
pub struct Pane {
    /// The id that events are addressed to. It never changes.
    pub id: u64,
    pub title: String,
    /// Something finished here while another pane had the focus.
    pub attention: bool,
    pub composer: Composer,
    pub log: Transcript,
    pub run: Run,
    pub mode: Mode,
    pub settings: Settings,
    pub at_menu: Menu,
    pub arg_menu: Menu,
    pub sh_menu: ShellMenu,
    pub todos: Vec<TodoItem>,
    /// The round of tools that waits for decisions.
    pub pending_tools: Option<PendingTools>,
    /// The name under which the session was saved or loaded.
    pub current_session: Option<String>,
    pub pending_correction: Option<Correction>,
    pub workspace: String,
    pub skills: Skills,
    pub completion_on: bool,
    pub ai_suggest_on: bool,
    /// How long the draft must rest before a continuation is offered, in milliseconds.
    pub ghost_debounce: u64,
    pub drawn: Drawn,
    /// What the pane asks of its surroundings, oldest first.
    pub outbox: Vec<Effect>,
}

/// What a pane holds.
pub struct PaneView {
    pub id: u64,
    pub title: Seq<char>,
    pub attention: bool,
    pub composer: ComposerView,
    pub log: TranscriptView,
    pub run: RunView,
    pub mode: Mode,
    pub settings: SettingsView,
    pub at_menu: MenuView,
    pub arg_menu: MenuView,
    pub sh_menu: ShellMenuView,
    pub todos: Seq<(Seq<char>, TodoStatus)>,
    pub tools: Option<RoundView>,
    pub session: Option<Seq<char>>,
    pub correction: Option<CorrectionView>,
    pub workspace: Seq<char>,
    pub skills: SkillsView,
    pub completion_on: bool,
    pub ai_on: bool,
    pub debounce: u64,
    pub drawn: DrawnView,
    pub out: Seq<EffectView>,
}

impl View for Pane {
    type V = PaneView;

    open spec fn view(&self) -> PaneView {
        PaneView {
            id: self.id,
            title: self.title@,
            attention: self.attention,
            composer: self.composer@,
            log: self.log@,
            run: self.run@,
            mode: self.mode,
            settings: self.settings@,
            at_menu: self.at_menu@,
            arg_menu: self.arg_menu@,
            sh_menu: self.sh_menu@,
            todos: render::todos_view(self.todos@),
            tools: approvals::round_view(self.pending_tools),
            session: composer::opt_text(self.current_session),
            correction: correction_view(self.pending_correction),
            workspace: self.workspace@,
            skills: self.skills@,
            completion_on: self.completion_on,
            ai_on: self.ai_suggest_on,
            debounce: self.ghost_debounce,
            drawn: self.drawn@,
            out: effects::effects(self.outbox@),
        }
    }
}

impl PaneView {
    /// The status line replaced.
    pub open spec fn noted(self, text: Seq<char>, tone: StatusTone) -> PaneView {
        PaneView { log: self.log.noted(text, tone), ..self }
    }

    /// A neutral note.
    pub open spec fn said(self, text: Seq<char>) -> PaneView {
        self.noted(text, StatusTone::Muted)
    }

    /// A note that something was done.
    pub open spec fn did(self, text: Seq<char>) -> PaneView {
        self.noted(text, StatusTone::Success)
    }

    /// A note that something failed or was refused.
    pub open spec fn failed(self, text: Seq<char>) -> PaneView {
        self.noted(text, StatusTone::Error)
    }

    /// A note in the transcript.
    pub open spec fn told(self, text: Seq<char>) -> PaneView {
        PaneView { log: self.log.told(text), ..self }
    }

    /// One request more.
    pub open spec fn asking(self, e: EffectView) -> PaneView {
        PaneView { out: self.out.push(e), ..self }
    }

    /// The draft replaced, with the cursor at its end.
    pub open spec fn drafted(self, text: Seq<char>) -> PaneView {
        PaneView { composer: self.composer.with_text(text), ..self }
    }

    /// The draft emptied.
    pub open spec fn undrafted(self) -> PaneView {
        self.drafted(Seq::empty())
    }

    /// The composer changed.
    pub open spec fn composed(self, composer: ComposerView) -> PaneView {
        PaneView { composer: composer, ..self }
    }
}

/// A fresh pane.
pub open spec fn fresh_pane(
    id: u64,
    settings: SettingsView,
    mode: Mode,
    workspace: Seq<char>,
    debounce: u64,
    completion_on: bool,
    ai_on: bool,
) -> PaneView {
    PaneView {
        id,
        title: Seq::empty(),
        attention: false,
        composer: composer::empty_composer(),
        log: transcript::empty_transcript(),
        run: run::idle_run(),
        mode,
        settings,
        at_menu: MenuView::empty(),
        arg_menu: MenuView::empty(),
        sh_menu: menus::closed_menu(),
        todos: Seq::empty(),
        tools: None,
        session: None,
        correction: None,
        workspace,
        skills: skills::no_skills(),
        completion_on,
        ai_on,
        debounce,
        drawn: nothing_drawn(),
        out: Seq::empty(),
    }
}

/// What a pane shows before it is first drawn.
pub open spec fn nothing_drawn() -> DrawnView {
    DrawnView {
        frame: Rect { x: 0, y: 0, width: 0, height: 0 },
        height: 20,
        transcript: Rect { x: 0, y: 0, width: 0, height: 0 },
        composer: Rect { x: 0, y: 0, width: 0, height: 0 },
        palette: None,
        palette_count: 0,
        headers: Seq::empty(),
        scroll: 0,
    }
}

impl Pane {
    /// The parts are well-formed.
    pub open spec fn wf(self) -> bool {
        &&& self.composer.wf()
        &&& self.log.wf()
        &&& self.skills.wf()
        &&& self.pending_tools matches Some(p) ==> p.wf()
    }

    /// A fresh session.
    pub fn new(
        id: u64,
        settings: Settings,
        mode: Mode,
        workspace: String,
        ghost_debounce: u64,
        completion_on: bool,
        ai_suggest_on: bool,
    ) -> (r: Pane)
        ensures
            r.wf(),
            r@ == fresh_pane(
                id,
                settings@,
                mode,
                workspace@,
                ghost_debounce,
                completion_on,
                ai_suggest_on,
            ),
    {
        let r = Pane {
            id,
            title: String::new(),
            attention: false,
            composer: Composer::new(),
            log: Transcript::new(),
            run: Run::new(),
            mode,
            settings,
            at_menu: Menu::new(),
            arg_menu: Menu::new(),
            sh_menu: ShellMenu::new(),
            todos: Vec::new(),
            pending_tools: None,
            current_session: None,
            pending_correction: None,
            workspace,
            skills: Skills::new(),
            completion_on,
            ai_suggest_on,
            ghost_debounce,
            drawn: Drawn {
                frame: Rect::none(),
                transcript_height: 20,
                transcript: Rect::none(),
                composer: Rect::none(),
                palette: None,
                palette_count: 0,
                header_rows: Vec::new(),
                scroll: 0,
            },
            outbox: Vec::new(),
        };
        assert(r@.title =~= Seq::empty());
        assert(r@.todos =~= Seq::empty());
        assert(r@.drawn =~= nothing_drawn());
        assert(r@.out =~= Seq::empty());
        r
    }

    /// A neutral note in the status line.
    pub fn set_status(&mut self, text: String)
        ensures
            final(self)@ == old(self)@.said(text@),
            old(self).wf() ==> final(self).wf(),
    {
        self.log.set_status(text);
    }

    /// A note in the status line that something was done.
    pub fn set_ok(&mut self, text: String)
        ensures
            final(self)@ == old(self)@.did(text@),
            old(self).wf() ==> final(self).wf(),
    {
        self.log.set_ok(text);
    }

    /// A note in the status line that something failed or was refused.
    pub fn set_error(&mut self, text: String)
        ensures
            final(self)@ == old(self)@.failed(text@),
            old(self).wf() ==> final(self).wf(),
    {
        self.log.set_error(text);
    }

    /// A neutral note in the status line.
    pub(crate) fn say(&mut self, text: &str)
        ensures
            final(self)@ == old(self)@.said(text@),
            old(self).wf() ==> final(self).wf(),
    {
        self.log.set_status(text::copy_text(text));
    }

    /// A note in the status line that something was done.
    pub(crate) fn did(&mut self, text: &str)
        ensures
            final(self)@ == old(self)@.did(text@),
            old(self).wf() ==> final(self).wf(),
    {
        self.log.set_ok(text::copy_text(text));
    }

    /// A note in the status line that something failed or was refused.
    pub(crate) fn fail(&mut self, text: &str)
        ensures
            final(self)@ == old(self)@.failed(text@),
            old(self).wf() ==> final(self).wf(),
    {
        self.log.set_error(text::copy_text(text));
    }

    /// A note in the transcript.
    pub fn push_system(&mut self, content: &str)
        ensures
            final(self)@ == old(self)@.told(content@),
            old(self).wf() ==> final(self).wf(),
    {
        self.log.push_system(content);
    }

    /// Asks something of the surroundings.
    pub(crate) fn ask(&mut self, e: Effect)
        ensures
            final(self)@ == old(self)@.asking(e@),
            old(self).wf() ==> final(self).wf(),
    {
        proof {
            effects::effects_push(self.outbox@, e);
        }
        self.outbox.push(e);
    }

    /// Replaces the draft.
    pub(crate) fn draft(&mut self, text: String)
        requires
            old(self).wf(),
        ensures
            final(self)@ == old(self)@.drafted(text@),
            final(self).wf(),
    {
        self.composer.set_input(text);
    }

    /// Empties the draft.
    pub(crate) fn undraft(&mut self)
        requires
            old(self).wf(),
        ensures
            final(self)@ == old(self)@.undrafted(),
            final(self).wf(),
    {
        self.composer.set_input(String::new());
        assert(self@ =~= old(self)@.undrafted());
    }
}

} // verus!
