//! Keys in a pane: editing the draft, menus, scrolling, and sending what was typed.

use crate::approvals::ApprovalVerdict;
use crate::caret;
use crate::commands::{CommandFacts, ParsedCommand};
use crate::desk::{Desk, DeskView, OverlayView, SceneView};
use crate::desk;
use crate::effects::{Effect, EffectView};
use crate::events::Overlay;
use crate::files;
use crate::ghost;
use crate::keys::{Key, KeyCode};
use crate::keys;
use crate::menus::{MenuView, ShellCandidate, ShellMenuView, ShellTab};
use crate::menus;
use crate::model;
use crate::overlays;
use crate::palette::{ItemView, PaletteItem};
use crate::palette;
use crate::pane::{Pane, PaneView};
use crate::pane;
use crate::panels;
use crate::replies;
use crate::scan;
use crate::settings::SettingsView;
use crate::settings;
use crate::text;
use crate::transcript::TranscriptView;
use crate::words;
use vstd::prelude::*;
use vstd::string::*;

verus! {

/// What the surroundings know when a key is pressed.
#[derive(Debug, Clone)]
pub struct KeyFacts {
    /// A draft without a mark reads as a shell line.
    pub reads_as_shell: bool,
    /// The candidates for the shell line.
    pub candidates: Vec<ShellCandidate>,
    /// The selected file is a directory.
    pub pick_is_dir: bool,
    /// The rows of the list of commands that fit the draft.
    pub palette: Vec<PaletteItem>,
    /// The draft is the name of a built-in command.
    pub builtin: bool,
    /// The draft as a command.
    pub parsed: Option<ParsedCommand>,
    /// What the references of the draft stand for.
    pub found: Vec<Option<String>>,
    pub command: CommandFacts,
    pub now: u64,
}

/// What is known fits the draft and the commands.
pub open spec fn facts_fit(f: KeyFacts, pane: Pane, desk: Desk) -> bool {
    &&& f.found@.len() == files::refs_of(scan::trim(pane@.composer.text)).len()
    &&& f.command.shadowed@.len() == desk.custom_commands@.len()
    &&& f.command.expansion matches Some(p) ==> f.command.found@.len() == files::refs_of(p@).len()
}

// ---------------------------------------------------------------------------
// Sending
// ---------------------------------------------------------------------------

impl PaneView {
    /// The menus under the draft have to be looked up again.
    pub open spec fn menus_forgotten(self) -> PaneView {
        PaneView {
            at_menu: MenuView { key: Seq::empty(), ..self.at_menu },
            arg_menu: MenuView { key: Seq::empty(), ..self.arg_menu },
            ..self
        }
    }

    /// A shell line without a mark: a change of directory, or a line to run.
    pub open spec fn bare_line_entered(self, value: Seq<char>) -> PaneView {
        if scan::begins(value, "cd "@) {
            self.asking(EffectView::ChangeDir { path: scan::trim(value.skip(3)) })
        } else {
            self.shell_entered(value, value)
        }
    }

    /// A shell line behind its mark.
    pub open spec fn marked_line_entered(self, value: Seq<char>) -> PaneView {
        let command = scan::trim(value.skip(1));
        if command.len() == 0 {
            self.said("Usage: !<command>"@)
        } else {
            self.shell_entered(value, command)
        }
    }
}

impl SceneView {
    /// What was typed sent: a shell line, a command or a prompt.
    #[verifier::opaque]
    pub open spec fn line_entered(self, value: Seq<char>, f: KeyFacts) -> SceneView {
        if value[0] == '!' {
            self.with(self.pane.marked_line_entered(value))
        } else {
            match f.parsed {
                Some(p) => self.commanded(p.name@, text::texts(p.args@), f.command),
                None => if f.reads_as_shell {
                    self.with(self.pane.bare_line_entered(value))
                } else {
                    self.with(self.pane.submitted(value, pane::headers_view(f.found@), f.now))
                },
            }
        }
    }

    /// The selected row of the list of commands put into the draft.
    pub open spec fn palette_taken(self, found: Seq<ItemView>) -> SceneView {
        let rows = palette::palette_rows(found, self.desk.recent, self.pane.settings, self.pane.mode);
        if self.desk.palette_selected < rows.len() {
            self.with(self.pane.drafted(rows[self.desk.palette_selected].name + " "@))
        } else {
            self
        }
    }

    /// The draft sent: a description becomes a command, a command that is still being
    /// typed is completed from the list, and anything else is taken as it is.
    #[verifier::opaque]
    pub open spec fn entered(self, f: KeyFacts) -> SceneView {
        let text = self.pane.composer.text;
        let value = scan::trim(text);
        let v = PaneView {
            composer: self.pane.composer.walk_ended(true),
            sh_menu: menus::closed_menu(),
            ..self.pane
        };
        if value.len() == 0 {
            self
        } else if value[0] == '#' {
            self.with(v.undrafted().menus_forgotten().draft_asked(scan::trim(value.skip(1))))
        } else if self.desk.overlay is Closed && menus::is_palette(text) && !f.builtin && !palette::is_custom(
            self.desk.customs,
            value,
        ) {
            self.with(v).palette_taken(palette::items_view(f.palette@))
        } else {
            self.with(v.undrafted().menus_forgotten()).line_entered(value, f)
        }
    }
}

impl Pane {
    fn forget_menus(&mut self)
        ensures
            final(self)@ == old(self)@.menus_forgotten(),
            old(self).wf() ==> final(self).wf(),
    {
        self.at_menu.forget();
        self.arg_menu.forget();
    }

    fn enter_bare_line(&mut self, value: String)
        requires
            old(self).wf(),
        ensures
            final(self).wf(),
            final(self)@ == old(self)@.bare_line_entered(value@),
    {
        match scan::strip_prefix(value.as_str(), "cd ") {
            Some(rest) => {
                proof {
                    reveal_strlit("cd ");
                    assert(rest@ =~= value@.skip(3));
                }
                let path = scan::trim_text(rest.as_str());
                self.ask(Effect::ChangeDir { path });
            },
            None => {
                let line = text::copy_text(value.as_str());
                self.enter_shell_line(value.as_str(), line);
            },
        }
    }

    fn enter_marked_line(&mut self, value: &str)
        requires
            old(self).wf(),
            value@.len() > 0,
        ensures
            final(self).wf(),
            final(self)@ == old(self)@.marked_line_entered(value@),
    {
        let c = text::to_chars(value);
        let rest = text::slice_text(&c, 1, c.len());
        assert(rest@ =~= value@.skip(1));
        let command = scan::trim_text(rest.as_str());
        if command.as_str().is_empty() {
            self.say("Usage: !<command>");
        } else {
            self.enter_shell_line(value, command);
        }
    }

    fn enter_line(&mut self, desk: &mut Desk, value: String, f: &KeyFacts)
        requires
            old(self).wf(),
            old(desk).wf(),
            value@.len() > 0,
            f.found@.len() == files::refs_of(value@).len(),
            f.command.shadowed@.len() == old(desk).custom_commands@.len(),
            f.command.expansion matches Some(p) ==> f.command.found@.len() == files::refs_of(p@).len(),
        ensures
            final(self).wf(),
            final(desk).wf(),
            desk::scene(*final(self), *final(desk)) == desk::scene(*old(self), *old(desk)).line_entered(
                value@,
                *f,
            ),
    {
        reveal(SceneView::line_entered);
        let c = text::to_chars(value.as_str());
        if c[0] == '!' {
            self.enter_marked_line(value.as_str());
            return;
        }
        match &f.parsed {
            Some(p) => {
                self.handle_command(desk, p, &f.command);
            },
            None => {
                if f.reads_as_shell {
                    self.enter_bare_line(value);
                } else {
                    self.submit_prompt(value, &f.found, f.now);
                }
            },
        }
    }

    fn take_palette(&mut self, desk: &Desk, found: &Vec<PaletteItem>)
        requires
            old(self).wf(),
        ensures
            final(self).wf(),
            desk::scene(*final(self), *desk) == desk::scene(*old(self), *desk).palette_taken(
                palette::items_view(found@),
            ),
    {
        let rows = palette::palette_items(found, &desk.recent_commands, &self.settings, self.mode);
        assert(palette::items_view(rows@).len() == rows@.len());
        if desk.palette_selected < rows.len() {
            assert(palette::items_view(rows@)[desk.palette_selected as int]
                == rows@[desk.palette_selected as int]@);
            let text = text::cat2(rows[desk.palette_selected].name.as_str(), " ");
            self.draft(text);
        }
    }

    /// Sends the draft.
    #[verifier::spinoff_prover]
    pub fn submit(&mut self, desk: &mut Desk, f: &KeyFacts)
        requires
            old(self).wf(),
            old(desk).wf(),
            facts_fit(*f, *old(self), *old(desk)),
        ensures
            final(self).wf(),
            final(desk).wf(),
            desk::scene(*final(self), *final(desk)) == desk::scene(*old(self), *old(desk)).entered(*f),
    {
        reveal(SceneView::entered);
        let value = scan::trim_text(self.composer.input.as_str());
        if value.as_str().is_empty() {
            return;
        }
        let typing = self.composer.is_palette_query();
        self.composer.end_history_walk(true);
        self.sh_menu.close_sh_menu();
        let c = text::to_chars(value.as_str());
        if c[0] == '#' {
            let rest = text::slice_text(&c, 1, c.len());
            assert(rest@ =~= value@.skip(1));
            let request = scan::trim_text(rest.as_str());
            self.undraft();
            self.forget_menus();
            self.command_shell_draft(request);
            return;
        }
        if desk.overlay_closed() && typing && !f.builtin && !palette::is_custom_command(
            &desk.custom_commands,
            value.as_str(),
        ) {
            self.take_palette(desk, &f.palette);
            return;
        }
        self.undraft();
        self.forget_menus();
        self.enter_line(desk, value, f);
    }
}

// ---------------------------------------------------------------------------
// Keys before the overlay
// ---------------------------------------------------------------------------

impl SceneView {
    /// The running request stopped; the card of a round that waited is gone.
    pub open spec fn work_stopped(self, status: Seq<char>, now: u64) -> SceneView {
        let s = self.with(self.pane.stopped(status, now));
        if self.pane.tools is Some {
            s.uncovered()
        } else {
            s
        }
    }

    /// The list of commands opened, or closed where it is open.
    pub open spec fn palette_toggled(self) -> SceneView {
        let text = self.pane.composer.text;
        if text.len() > 0 && text[0] == '/' && caret::byte_len(text) <= 24 && !text.contains(' ')
            && !text.contains('\n') {
            SceneView {
                desk: DeskView { palette_selected: 0, ..self.desk },
                pane: self.pane.undrafted(),
            }
        } else {
            SceneView {
                desk: DeskView { palette_selected: 0, palette_scroll: 0, ..self.desk },
                pane: self.pane.drafted("/"@).said("Palette — type to filter · Enter opens"@),
            }
        }
    }

    /// Esc: ends a walk, denies a card, closes what is open, dismisses an offer, or stops
    /// the request, whichever comes first.
    #[verifier::opaque]
    pub open spec fn escaped(self, now: u64) -> SceneView {
        let v = self.pane;
        if v.composer.walk is Some {
            self.with(v.composed(v.composer.walk_ended(false)).said("Restored"@))
        } else if self.desk.overlay is Approval {
            self.resolved(ApprovalVerdict::Deny)
        } else if self.desk.overlay is Closed {
            if v.sh_menu.invoked {
                self.with(PaneView { sh_menu: menus::closed_menu(), ..v })
            } else if !v.run.busy && v.composer.offer is Some {
                self.with(v.composed(v.composer.offer_dismissed()))
            } else {
                self.work_stopped("Stopped"@, now)
            }
        } else {
            let w = match self.desk.overlay {
                OverlayView::Theme { original, .. } => v.set_up(
                    SettingsView { theme: original, ..v.settings },
                ),
                _ => v,
            };
            self.with(w.undrafted()).uncovered()
        }
    }

    /// Keys that mean the same whatever lies over the screen.
    #[verifier::opaque]
    pub open spec fn first_key(self, key: Key, now: u64) -> Option<SceneView> {
        if keys::triggers(self.pane.settings.bindings, "cancel"@, key) {
            Some(self.work_stopped("Stopping…"@, now))
        } else if key.is_ctrl('p') {
            Some(self.palette_toggled())
        } else if key.code == KeyCode::Esc {
            Some(self.escaped(now))
        } else if !(self.desk.overlay is Closed) {
            Some(self.overlay_key(key))
        } else {
            None
        }
    }
}

impl Pane {
    pub(crate) fn stop_work(&mut self, desk: &mut Desk, status: &str, now: u64)
        requires
            old(self).wf(),
            old(desk).wf(),
        ensures
            final(self).wf(),
            final(desk).wf(),
            desk::scene(*final(self), *final(desk)) == desk::scene(*old(self), *old(desk)).work_stopped(
                status@,
                now,
            ),
    {
        if self.cancel_work(status, now) {
            desk.close_overlay();
        }
    }

    /// Opens the list of commands, or closes it.
    #[verifier::spinoff_prover]
    pub fn open_palette(&mut self, desk: &mut Desk)
        requires
            old(self).wf(),
            old(desk).wf(),
        ensures
            final(self).wf(),
            final(desk).wf(),
            desk::scene(*final(self), *final(desk)) == desk::scene(*old(self), *old(desk)).palette_toggled(),
    {
        let c = text::to_chars(self.composer.input.as_str());
        if c.len() > 0 && c[0] == '/' && caret::text_len(self.composer.input.as_str()) <= 24 && !ghost::has_char(
            self.composer.input.as_str(),
            ' ',
        ) && !ghost::has_char(self.composer.input.as_str(), '\n') {
            self.undraft();
            desk.palette_selected = 0;
        } else {
            self.draft(text::copy_text("/"));
            desk.palette_selected = 0;
            desk.palette_scroll = 0;
            self.say("Palette — type to filter · Enter opens");
        }
    }

    #[verifier::spinoff_prover]
    fn escape(&mut self, desk: &mut Desk, now: u64)
        requires
            old(self).wf(),
            old(desk).wf(),
        ensures
            final(self).wf(),
            final(desk).wf(),
            desk::scene(*final(self), *final(desk)) == desk::scene(*old(self), *old(desk)).escaped(now),
    {
        reveal(SceneView::escaped);
        if self.composer.hist_depth.is_some() {
            self.composer.end_history_walk(false);
            self.say("Restored");
            return;
        }
        if matches!(desk.overlay, Overlay::Approval) {
            self.resolve_approval(desk, ApprovalVerdict::Deny);
            return;
        }
        if desk.overlay_closed() {
            if self.sh_menu.invoked {
                self.sh_menu.close_sh_menu();
            } else if !self.run.busy && self.composer.ghost_text.is_some() {
                self.composer.dismiss_ghost();
            } else {
                self.stop_work(desk, "Stopped", now);
            }
            return;
        }
        if let Overlay::Theme { original, .. } = &desk.overlay {
            self.settings.theme = text::copy_text(original.as_str());
        }
        self.undraft();
        desk.close_overlay();
    }

    /// Takes a key that means the same whatever lies over the screen, or that belongs to
    /// what lies there. Says whether it did.
    pub fn handle_first_key(&mut self, desk: &mut Desk, key: &Key, now: u64) -> (r: bool)
        requires
            old(self).wf(),
            old(desk).wf(),
        ensures
            final(self).wf(),
            final(desk).wf(),
            match desk::scene(*old(self), *old(desk)).first_key(*key, now) {
                Some(t) => r && desk::scene(*final(self), *final(desk)) == t,
                None => !r && *final(self) == *old(self) && *final(desk) == *old(desk)
                    && desk_is_clear(*old(desk)),
            },
    {
        reveal(SceneView::first_key);
        if keys::action_key(&self.settings.keybindings, "cancel", key) {
            self.stop_work(desk, "Stopping…", now);
            return true;
        }
        if key.is_ctrl_letter('p') {
            self.open_palette(desk);
            return true;
        }
        if key.code == KeyCode::Esc {
            self.escape(desk, now);
            return true;
        }
        if !desk.overlay_closed() {
            self.handle_overlay_key(desk, key);
            return true;
        }
        false
    }
}

/// Nothing lies over the screen.
pub open spec fn desk_is_clear(desk: Desk) -> bool {
    desk@.overlay is Closed
}

// ---------------------------------------------------------------------------
// Keys of the pane
// ---------------------------------------------------------------------------

/// How many lines alt with an arrow scrolls.
pub open spec fn short_step(height: u16) -> int {
    let n = words::page_lines(height);
    if n < 4 {
        4
    } else if n > 10 {
        10
    } else {
        n
    }
}

/// A scroll position further down; it stays at the largest number that it can hold.
pub open spec fn scrolled_down(scroll: int, by: int) -> int {
    if scroll + by <= usize::MAX {
        scroll + by
    } else {
        usize::MAX as int
    }
}

impl PaneView {
    /// The transcript scrolled by hand; it no longer follows what comes.
    pub open spec fn scrolled_by(self, up: bool, by: int) -> PaneView {
        PaneView {
            log: TranscriptView {
                scroll: if up {
                    overlays::less_by(self.log.scroll, by)
                } else {
                    scrolled_down(self.log.scroll, by)
                },
                follow: false,
                ..self.log
            },
            ..self
        }
    }

    /// What is going on, in the transcript.
    pub open spec fn work_told(self) -> PaneView {
        let n = scan::decimal(self.run.queue.len());
        self.told(
            if self.run.busy {
                "active request; "@ + n + " queued prompt(s); tool round "@ + scan::decimal(
                    self.run.round as nat,
                )
            } else {
                "idle; "@ + n + " queued prompt(s)"@
            },
        )
    }

    /// Keys for the whole pane.
    #[verifier::opaque]
    pub open spec fn pane_key(self, key: Key) -> Option<PaneView> {
        let b = self.settings.bindings;
        if keys::triggers(b, "details"@, key) {
            Some(
                PaneView {
                    log: TranscriptView { details: !self.log.details, ..self.log },
                    ..self
                }.said(
                    if self.log.details {
                        "Details off"@
                    } else {
                        "Details on"@
                    },
                ),
            )
        } else if keys::triggers(b, "tasks"@, key) {
            Some(self.work_told())
        } else if keys::triggers(b, "redraw"@, key) {
            Some(
                PaneView {
                    log: TranscriptView { scroll: 0, follow: true, ..self.log },
                    ..self
                }.said("Top"@),
            )
        } else if key.is_ctrl('a') {
            Some(self.composed(self.composer.moved(0)))
        } else if key.is_ctrl('e') {
            Some(self.composed(self.composer.moved(self.composer.text.len() as int)))
        } else if key.is_ctrl('k') {
            Some(self.edited(self.composer.end_deleted()))
        } else if key.is_ctrl('u') {
            Some(self.edited(self.composer.start_deleted()))
        } else if key.is_ctrl('w') {
            Some(self.edited(self.composer.word_deleted()))
        } else {
            None
        }
    }

    /// The file menu is up.
    pub open spec fn at_up(self) -> bool {
        self.at_menu.key.len() > 0 && menus::token_before(self.composer.text, self.composer.at) is Some
            && self.at_menu.items.len() > 0 && self.at_menu.key == menus::draft_key(self.composer)
    }

    /// The value menu is up.
    pub open spec fn arg_up(self) -> bool {
        self.arg_menu.key.len() > 0 && self.arg_menu.items.len() > 0 && self.arg_menu.key
            == menus::draft_key(self.composer)
    }

    /// The menu of shell candidates is up.
    pub open spec fn sh_up(self) -> bool {
        self.sh_menu.invoked && self.sh_menu.key.len() > 0 && self.sh_menu.items.len() > 0
            && self.sh_menu.key == menus::draft_key(self.composer)
    }

    /// The selected file taken.
    pub open spec fn file_taken(self, is_dir: bool) -> PaneView {
        let m = self.at_menu;
        let c = self.composer;
        if m.selected < m.items.len() && replies::rfind(c.text.take(c.at), seq!['@']) is Some {
            PaneView {
                composer: c.file_accepted(m.items[m.selected], is_dir),
                at_menu: MenuView::empty(),
                ..self
            }
        } else {
            self
        }
    }

    /// The selected value taken.
    pub open spec fn value_taken(self) -> PaneView {
        let m = self.arg_menu;
        if m.selected < m.items.len() && replies::rfind(self.composer.text, seq![' ']) is Some {
            PaneView {
                composer: self.composer.value_accepted(m.items[m.selected]),
                arg_menu: MenuView::empty(),
                ..self
            }
        } else {
            self
        }
    }

    /// A completed shell line put into the draft.
    pub open spec fn line_swapped(self, line: Seq<char>, reads_as_shell: bool) -> Option<PaneView> {
        match menus::shell_of(self.composer, reads_as_shell) {
            Some((n, _)) => Some(
                self.edited(
                    self.composer.with_text(self.composer.text.take(n) + line),
                ),
            ),
            None => None,
        }
    }

    /// The selected shell candidate taken.
    pub open spec fn candidate_taken(self, reads_as_shell: bool) -> PaneView {
        let m = self.sh_menu;
        if m.selected < m.items.len() {
            match self.line_swapped(m.items[m.selected].line@, reads_as_shell) {
                Some(v) => PaneView { sh_menu: menus::closed_menu(), ..v },
                None => self,
            }
        } else {
            self
        }
    }

    /// Tab on a shell line: a single candidate is taken, several open the menu.
    pub open spec fn candidates_asked(
        self,
        candidates: Seq<ShellCandidate>,
        reads_as_shell: bool,
    ) -> Option<PaneView> {
        if self.sh_menu.invoked || candidates.len() == 0 {
            None
        } else if candidates.len() == 1 {
            let v = PaneView {
                sh_menu: ShellMenuView { selected: 0, ..self.sh_menu },
                ..self
            };
            Some(
                match v.line_swapped(candidates[0].line@, reads_as_shell) {
                    Some(w) => w,
                    None => v,
                },
            )
        } else {
            Some(
                PaneView {
                    sh_menu: ShellMenuView {
                        selected: 0,
                        key: menus::draft_key(self.composer),
                        items: candidates,
                        invoked: true,
                    },
                    ..self
                },
            )
        }
    }

    /// Tab: completes what a menu or an offer holds, and else moves on to the next mode.
    #[verifier::opaque]
    pub open spec fn tabbed(self, f: KeyFacts) -> PaneView {
        if self.at_up() {
            self.file_taken(f.pick_is_dir)
        } else if self.arg_up() {
            self.value_taken()
        } else if self.sh_up() {
            self.candidate_taken(f.reads_as_shell)
        } else if let Some(v) = self.candidates_asked(f.candidates@, f.reads_as_shell) {
            v
        } else if self.composer.at == self.composer.text.len() && self.composer.offer is Some {
            self.edited(self.composer.offer_taken())
        } else {
            self.moded(settings::mode_after(self.mode))
        }
    }
}

impl SceneView {
    /// The selection in the list of commands moved.
    pub open spec fn palette_moved(self, down: bool, found: Seq<ItemView>) -> SceneView {
        let count = palette::palette_rows(
            found,
            self.desk.recent,
            self.pane.settings,
            self.pane.mode,
        ).len() as int;
        if count == 0 {
            self
        } else {
            let next = if down {
                overlays::more_by(self.desk.palette_selected, 1, count)
            } else {
                overlays::less_by(self.desk.palette_selected, 1)
            };
            SceneView {
                desk: DeskView {
                    palette_selected: next,
                    palette_scroll: panels::scroll_for(next, self.desk.palette_scroll, 7, count),
                    ..self.desk
                },
                ..self
            }
        }
    }

    /// An arrow up or down: scrolls with alt, else moves in a menu, else walks through
    /// earlier prompts.
    #[verifier::opaque]
    pub open spec fn arrowed(self, key: Key, down: bool, f: KeyFacts) -> SceneView {
        let v = self.pane;
        if key.alt {
            self.with(v.scrolled_by(!down, short_step(v.drawn.height)))
        } else if v.at_up() {
            self.with(PaneView { at_menu: v.at_menu.stepped(down), ..v })
        } else if v.arg_up() {
            self.with(PaneView { arg_menu: v.arg_menu.stepped(down), ..v })
        } else if v.sh_up() {
            self.with(
                PaneView {
                    sh_menu: ShellMenuView {
                        selected: if down {
                            overlays::more_by(v.sh_menu.selected, 1, v.sh_menu.items.len() as int)
                        } else {
                            overlays::less_by(v.sh_menu.selected, 1)
                        },
                        ..v.sh_menu
                    },
                    ..v
                },
            )
        } else if menus::is_palette(v.composer.text) {
            self.palette_moved(down, palette::items_view(f.palette@))
        } else if down {
            self.with(v.composed(v.composer.walked_on(model::user_texts(v.log.history))))
        } else {
            self.with(v.composed(v.composer.walked_back(model::user_texts(v.log.history))))
        }
    }
}

impl PaneView {
    /// The arrow to the right: takes a proposal into an empty draft, takes an offer at
    /// the end of the draft, and else moves.
    #[verifier::opaque]
    pub open spec fn right_pressed(self, word: bool) -> PaneView {
        let c = self.composer;
        let offered = c.at == c.text.len() && c.offer is Some;
        if word {
            if offered {
                self.edited(c.offer_word_taken())
            } else {
                self.composed(c.moved(words::word_end(c.text, c.at)))
            }
        } else if c.text.len() == 0 && self.correction is Some {
            PaneView { correction: None, ..self }.drafted("!"@ + self.correction->0.fixed)
        } else if offered {
            self.edited(c.offer_taken())
        } else {
            self.composed(c.stepped_right())
        }
    }

    /// A character typed, or a word motion.
    pub open spec fn character_pressed(self, key: Key, c: char) -> PaneView {
        if key.alt && (c == 'f' || c == 'F') {
            self.composed(self.composer.moved(words::word_end(self.composer.text, self.composer.at)))
        } else if key.alt && (c == 'b' || c == 'B') {
            self.composed(self.composer.moved(words::word_start(self.composer.text, self.composer.at)))
        } else {
            self.edited(self.composer.typed(c))
        }
    }

    /// Keys that edit the draft or scroll.
    #[verifier::opaque]
    pub open spec fn draft_key_pressed(self, key: Key) -> PaneView {
        let c = self.composer;
        match key.code {
            KeyCode::Char(ch) => self.character_pressed(key, ch),
            KeyCode::Backspace => self.edited(c.backspaced()),
            KeyCode::Delete => self.edited(c.deleted()),
            KeyCode::Left => if key.ctrl || key.alt {
                self.composed(c.moved(words::word_start(c.text, c.at)))
            } else {
                self.composed(c.stepped_left())
            },
            KeyCode::Right => self.right_pressed(key.ctrl || key.alt),
            KeyCode::Home => if key.ctrl {
                PaneView {
                    log: TranscriptView { scroll: 0, follow: false, ..self.log },
                    ..self
                }.said("Top"@)
            } else {
                self.composed(c.moved(0))
            },
            KeyCode::End => if key.ctrl {
                PaneView { log: TranscriptView { follow: true, ..self.log }, ..self }.said(
                    "Latest"@,
                )
            } else {
                self.composed(c.moved(c.text.len() as int))
            },
            KeyCode::PageUp => self.scrolled_by(true, words::page_lines(self.drawn.height)),
            KeyCode::PageDown => self.scrolled_by(false, words::page_lines(self.drawn.height)),
            _ => self,
        }
    }
}

impl SceneView {
    /// A key in a pane over which nothing lies.
    #[verifier::opaque]
    pub open spec fn pane_keyed(self, key: Key, f: KeyFacts) -> SceneView {
        match self.pane.pane_key(key) {
            Some(v) => self.with(v),
            None => match key.code {
                KeyCode::Tab => self.with(self.pane.tabbed(f)),
                KeyCode::Up => self.arrowed(key, false, f),
                KeyCode::Down => self.arrowed(key, true, f),
                KeyCode::Enter => if key.alt || key.shift {
                    self.with(self.pane.edited(self.pane.composer.inserted("\n"@)))
                } else {
                    self.entered(f)
                },
                _ => self.with(self.pane.draft_key_pressed(key)),
            },
        }
    }

    /// A key in a pane.
    pub open spec fn keyed(self, key: Key, f: KeyFacts) -> SceneView {
        match self.first_key(key, f.now) {
            Some(t) => t,
            None => self.pane_keyed(key, f),
        }
    }
}

impl Pane {
    pub(crate) fn scroll_by(&mut self, up: bool, by: usize)
        ensures
            final(self)@ == old(self)@.scrolled_by(up, by as int),
            old(self).wf() ==> final(self).wf(),
    {
        let at: usize = self.log.transcript_scroll;
        self.log.transcript_scroll = if up {
            if at >= by {
                at - by
            } else {
                0
            }
        } else if at <= usize::MAX - by {
            at + by
        } else {
            usize::MAX
        };
        self.log.follow_transcript = false;
    }

    /// Scrolls a page up.
    pub fn page_up(&mut self)
        ensures
            final(self)@ == old(self)@.scrolled_by(true, words::page_lines(old(self)@.drawn.height)),
            old(self).wf() ==> final(self).wf(),
    {
        let n: usize = words::page_step(self.drawn.transcript_height);
        self.scroll_by(true, n);
    }

    /// Scrolls a page down.
    pub fn page_down(&mut self)
        ensures
            final(self)@ == old(self)@.scrolled_by(false, words::page_lines(old(self)@.drawn.height)),
            old(self).wf() ==> final(self).wf(),
    {
        let n: usize = words::page_step(self.drawn.transcript_height);
        self.scroll_by(false, n);
    }

    fn tell_work(&mut self)
        ensures
            final(self)@ == old(self)@.work_told(),
            old(self).wf() ==> final(self).wf(),
    {
        assert(self.run@.queue.len() == self.run.queue@.len());
        let n = scan::decimal_text(self.run.queue.len() as u64);
        let text = if self.run.busy {
            let r = scan::decimal_text(self.run.tool_round as u64);
            text::cat4("active request; ", n.as_str(), " queued prompt(s); tool round ", r.as_str())
        } else {
            text::cat3("idle; ", n.as_str(), " queued prompt(s)")
        };
        self.push_system(text.as_str());
    }

    /// Deletes from the cursor to the end of the draft.
    pub fn delete_to_end(&mut self)
        requires
            old(self).wf(),
        ensures
            final(self).wf(),
            final(self)@ == old(self)@.edited(old(self)@.composer.end_deleted()),
    {
        self.composer.delete_to_end();
        self.pending_correction = None;
    }

    /// Deletes from the start of the draft to the cursor.
    pub fn delete_to_start(&mut self)
        requires
            old(self).wf(),
        ensures
            final(self).wf(),
            final(self)@ == old(self)@.edited(old(self)@.composer.start_deleted()),
    {
        self.composer.delete_to_start();
        self.pending_correction = None;
    }

    /// Deletes the word before the cursor.
    pub fn delete_prev_word(&mut self)
        requires
            old(self).wf(),
        ensures
            final(self).wf(),
            final(self)@ == old(self)@.edited(old(self)@.composer.word_deleted()),
    {
        self.composer.delete_prev_word();
        self.pending_correction = None;
    }

    /// Types a character, with its counterpart where it opens something.
    pub fn insert_paired(&mut self, character: char)
        requires
            old(self).wf(),
        ensures
            final(self).wf(),
            final(self)@ == old(self)@.edited(old(self)@.composer.typed(character)),
    {
        self.composer.insert_paired(character);
        self.pending_correction = None;
    }

    #[verifier::spinoff_prover]
    fn take_pane_key(&mut self, key: &Key) -> (r: bool)
        requires
            old(self).wf(),
        ensures
            final(self).wf(),
            match old(self)@.pane_key(*key) {
                Some(v) => r && final(self)@ == v,
                None => !r && *final(self) == *old(self),
            },
    {
        reveal(PaneView::pane_key);
        if keys::action_key(&self.settings.keybindings, "details", key) {
            self.log.show_details = !self.log.show_details;
            if self.log.show_details {
                self.say("Details on");
            } else {
                self.say("Details off");
            }
        } else if keys::action_key(&self.settings.keybindings, "tasks", key) {
            self.tell_work();
        } else if keys::action_key(&self.settings.keybindings, "redraw", key) {
            self.log.transcript_scroll = 0;
            self.log.follow_transcript = true;
            self.say("Top");
        } else if key.is_ctrl_letter('a') {
            self.composer.home();
        } else if key.is_ctrl_letter('e') {
            self.composer.end();
        } else if key.is_ctrl_letter('k') {
            self.delete_to_end();
        } else if key.is_ctrl_letter('u') {
            self.delete_to_start();
        } else if key.is_ctrl_letter('w') {
            self.delete_prev_word();
        } else {
            return false;
        }
        true
    }

    fn swap_line(&mut self, line: &str, reads_as_shell: bool) -> (r: bool)
        requires
            old(self).wf(),
        ensures
            final(self).wf(),
            match old(self)@.line_swapped(line@, reads_as_shell) {
                Some(v) => r && final(self)@ == v,
                None => !r && final(self)@ == old(self)@,
            },
    {
        if menus::apply_sh_pick(&mut self.composer, reads_as_shell, line) {
            self.pending_correction = None;
            true
        } else {
            false
        }
    }

    /// Takes the selected shell candidate.
    pub fn accept_sh_complete(&mut self, reads_as_shell: bool)
        requires
            old(self).wf(),
        ensures
            final(self).wf(),
            final(self)@ == old(self)@.candidate_taken(reads_as_shell),
    {
        if self.sh_menu.selected < self.sh_menu.items.len() {
            let line = text::copy_text(self.sh_menu.items[self.sh_menu.selected].line.as_str());
            if self.swap_line(line.as_str(), reads_as_shell) {
                self.sh_menu.close_sh_menu();
            }
        }
    }

    /// Tab on a shell line. Says whether it meant something there.
    pub fn sh_tab(&mut self, candidates: Vec<ShellCandidate>, reads_as_shell: bool) -> (r: bool)
        requires
            old(self).wf(),
        ensures
            final(self).wf(),
            match old(self)@.candidates_asked(candidates@, reads_as_shell) {
                Some(v) => r && final(self)@ == v,
                None => !r && final(self)@ == old(self)@,
            },
    {
        let line = if candidates.len() == 1 {
            text::copy_text(candidates[0].line.as_str())
        } else {
            String::new()
        };
        match self.sh_menu.sh_tab(&self.composer, candidates) {
            ShellTab::Pass => false,
            ShellTab::Take => {
                self.swap_line(line.as_str(), reads_as_shell);
                true
            },
            ShellTab::Opened => true,
        }
    }

    #[verifier::spinoff_prover]
    fn tab(&mut self, f: KeyFacts)
        requires
            old(self).wf(),
        ensures
            final(self).wf(),
            final(self)@ == old(self)@.tabbed(f),
    {
        reveal(PaneView::tabbed);
        if self.at_menu.at_active(&self.composer) {
            menus::accept_at_complete(&mut self.composer, &mut self.at_menu, f.pick_is_dir);
        } else if self.arg_menu.arg_active(&self.composer) {
            menus::accept_arg_complete(&mut self.composer, &mut self.arg_menu);
        } else if self.sh_menu.sh_menu_active(&self.composer) {
            self.accept_sh_complete(f.reads_as_shell);
        } else if self.sh_tab(f.candidates, f.reads_as_shell) {
        } else if self.composer.at_end() && self.composer.ghost_text.is_some() {
            self.composer.accept_ghost();
            self.pending_correction = None;
        } else {
            let next = self.mode.next();
            self.set_mode(next);
        }
    }

    fn move_palette(&mut self, desk: &mut Desk, down: bool, found: &Vec<PaletteItem>)
        requires
            old(self).wf(),
            old(desk).wf(),
        ensures
            *final(self) == *old(self),
            final(desk).wf(),
            desk::scene(*final(self), *final(desk)) == desk::scene(*old(self), *old(desk)).palette_moved(
                down,
                palette::items_view(found@),
            ),
    {
        let rows = palette::palette_items(found, &desk.recent_commands, &self.settings, self.mode);
        assert(palette::items_view(rows@).len() == rows@.len());
        if rows.len() > 0 {
            desk.palette_selected = if down {
                overlays::step_more(desk.palette_selected, 1, rows.len())
            } else {
                overlays::step_less(desk.palette_selected, 1)
            };
            desk.palette_scroll =
            panels::ensure_visible(desk.palette_selected, desk.palette_scroll, 7, rows.len());
        }
    }

    #[verifier::spinoff_prover]
    fn arrow(&mut self, desk: &mut Desk, key: &Key, down: bool, f: &KeyFacts)
        requires
            old(self).wf(),
            old(desk).wf(),
        ensures
            final(self).wf(),
            final(desk).wf(),
            desk::scene(*final(self), *final(desk)) == desk::scene(*old(self), *old(desk)).arrowed(
                *key,
                down,
                *f,
            ),
    {
        reveal(SceneView::arrowed);
        if key.alt {
            let n: usize = words::page_step(self.drawn.transcript_height);
            let by: usize = if n < 4 {
                4
            } else if n > 10 {
                10
            } else {
                n
            };
            self.scroll_by(!down, by);
        } else if self.at_menu.at_active(&self.composer) {
            self.at_menu.step(down);
        } else if self.arg_menu.arg_active(&self.composer) {
            self.arg_menu.step(down);
        } else if self.sh_menu.sh_menu_active(&self.composer) {
            self.sh_menu.selected = if down {
                overlays::step_more(self.sh_menu.selected, 1, self.sh_menu.items.len())
            } else {
                overlays::step_less(self.sh_menu.selected, 1)
            };
        } else if self.composer.is_palette_query() {
            self.move_palette(desk, down, &f.palette);
        } else {
            let history = model::user_history(&self.log.history);
            assert(text::texts(history@).len() == history@.len());
            if down {
                self.composer.history_next(&history);
            } else {
                self.composer.history_previous(&history);
            }
        }
    }

    #[verifier::spinoff_prover]
    fn press_right(&mut self, word: bool)
        requires
            old(self).wf(),
        ensures
            final(self).wf(),
            final(self)@ == old(self)@.right_pressed(word),
    {
        reveal(PaneView::right_pressed);
        let offered = self.composer.at_end() && self.composer.ghost_text.is_some();
        if word {
            if offered {
                self.composer.accept_ghost_word();
                self.pending_correction = None;
            } else {
                self.composer.word_right();
            }
            return;
        }
        if self.composer.input.as_str().is_empty() && self.pending_correction.is_some() {
            let fixed = match &self.pending_correction {
                Some(c) => text::cat2("!", c.fixed.as_str()),
                None => String::new(),
            };
            self.pending_correction = None;
            self.draft(fixed);
        } else if offered {
            self.composer.accept_ghost();
            self.pending_correction = None;
        } else {
            self.composer.right();
        }
    }

    fn press_character(&mut self, key: &Key, c: char)
        requires
            old(self).wf(),
        ensures
            final(self).wf(),
            final(self)@ == old(self)@.character_pressed(*key, c),
    {
        if key.alt && (c == 'f' || c == 'F') {
            self.composer.word_right();
        } else if key.alt && (c == 'b' || c == 'B') {
            self.composer.word_left();
        } else {
            self.insert_paired(c);
        }
    }

    #[verifier::spinoff_prover]
    fn press_draft_key(&mut self, key: &Key)
        requires
            old(self).wf(),
        ensures
            final(self).wf(),
            final(self)@ == old(self)@.draft_key_pressed(*key),
    {
        reveal(PaneView::draft_key_pressed);
        match key.code {
            KeyCode::Char(c) => self.press_character(key, c),
            KeyCode::Backspace => self.backspace(),
            KeyCode::Delete => self.delete(),
            KeyCode::Left => {
                if key.ctrl || key.alt {
                    self.composer.word_left();
                } else {
                    self.composer.left();
                }
            },
            KeyCode::Right => self.press_right(key.ctrl || key.alt),
            KeyCode::Home => {
                if key.ctrl {
                    self.log.transcript_scroll = 0;
                    self.log.follow_transcript = false;
                    self.say("Top");
                } else {
                    self.composer.home();
                }
            },
            KeyCode::End => {
                if key.ctrl {
                    self.log.follow_transcript = true;
                    self.say("Latest");
                } else {
                    self.composer.end();
                }
            },
            KeyCode::PageUp => self.page_up(),
            KeyCode::PageDown => self.page_down(),
            _ => {},
        }
    }

    /// Takes a key in a pane over which nothing lies.
    pub fn handle_pane_key(&mut self, desk: &mut Desk, key: &Key, f: KeyFacts)
        requires
            old(self).wf(),
            old(desk).wf(),
            facts_fit(f, *old(self), *old(desk)),
        ensures
            final(self).wf(),
            final(desk).wf(),
            desk::scene(*final(self), *final(desk)) == desk::scene(*old(self), *old(desk)).pane_keyed(
                *key,
                f,
            ),
    {
        reveal(SceneView::pane_keyed);
        if self.take_pane_key(key) {
            return;
        }
        match key.code {
            KeyCode::Tab => self.tab(f),
            KeyCode::Up => self.arrow(desk, key, false, &f),
            KeyCode::Down => self.arrow(desk, key, true, &f),
            KeyCode::Enter => {
                if key.alt || key.shift {
                    self.insert_text("\n");
                } else {
                    self.submit(desk, &f);
                }
            },
            _ => self.press_draft_key(key),
        }
    }

    /// Takes a key.
    pub fn handle_key(&mut self, desk: &mut Desk, key: &Key, f: KeyFacts)
        requires
            old(self).wf(),
            old(desk).wf(),
            facts_fit(f, *old(self), *old(desk)),
        ensures
            final(self).wf(),
            final(desk).wf(),
            desk::scene(*final(self), *final(desk)) == desk::scene(*old(self), *old(desk)).keyed(*key, f),
    {
        if self.handle_first_key(desk, key, f.now) {
            return;
        }
        self.handle_pane_key(desk, key, f);
    }
}

/// An empty draft sends nothing and changes nothing.
pub proof fn empty_drafts_stay(s: SceneView, f: KeyFacts)
    requires
        scan::trim(s.pane.composer.text).len() == 0,
    ensures
        s.entered(f) == s,
{
    reveal(SceneView::entered);
}

/// What lies over the screen takes every key: none reaches the draft below it.
pub proof fn covered_drafts_get_no_keys(s: SceneView, key: Key, now: u64)
    requires
        !(s.desk.overlay is Closed),
    ensures
        s.first_key(key, now) is Some,
{
    reveal(SceneView::first_key);
}

/// Opening the list of commands and closing it again leaves an empty draft.
pub proof fn palette_toggles_twice(s: SceneView)
    requires
        !(s.pane.composer.text.len() > 0 && s.pane.composer.text[0] == '/'),
    ensures
        s.palette_toggled().pane.composer.text == "/"@,
        s.palette_toggled().palette_toggled().pane.composer.text.len() == 0,
{
    reveal_strlit("/");
    let t = s.palette_toggled().pane.composer.text;
    assert(t =~= seq!['/']);
    reveal_with_fuel(caret::offset, 3);
    assert(t.drop_last().len() == 0);
    assert(t.drop_first().len() == 0);
}

/// A cancelled walk through earlier prompts gives back the draft that it began with.
pub proof fn escape_ends_the_walk(s: SceneView, now: u64)
    requires
        s.pane.composer.walk is Some,
    ensures
        s.escaped(now).pane.composer == s.pane.composer.walk_ended(false),
        s.escaped(now).desk == s.desk,
{
    reveal(SceneView::escaped);
}

/// Leaving the card of a call decides it: the call is denied.
pub proof fn left_cards_are_denied(s: SceneView, now: u64)
    requires
        s.desk.overlay is Approval,
        s.pane.composer.walk is None,
    ensures
        s.escaped(now) == s.resolved(ApprovalVerdict::Deny),
{
    reveal(SceneView::escaped);
}

/// The arrow to the right takes a proposal to mend a shell line into an empty draft.
pub proof fn right_takes_a_proposal(s: SceneView, key: Key, f: KeyFacts)
    requires
        s.desk.overlay is Closed,
        s.pane.composer.text.len() == 0,
        s.pane.correction is Some,
        key.code == KeyCode::Right,
        !key.ctrl && !key.alt,
    ensures
        s.keyed(key, f) == s.with(
            (PaneView { correction: None, ..s.pane }).drafted("!"@ + s.pane.correction->0.fixed),
        ),
{
    reveal(SceneView::first_key);
    reveal(SceneView::pane_keyed);
    reveal(PaneView::pane_key);
    reveal(PaneView::draft_key_pressed);
    reveal(PaneView::right_pressed);
}

/// A proposal to mend a shell line is gone once the draft is edited.
pub proof fn edits_drop_a_proposal(s: SceneView, key: Key, f: KeyFacts)
    requires
        s.desk.overlay is Closed,
        key.code is Char || key.code is Backspace || key.code is Delete,
        !key.ctrl && !key.alt,
    ensures
        s.keyed(key, f).pane.correction is None,
{
    reveal(SceneView::first_key);
    reveal(SceneView::pane_keyed);
    reveal(PaneView::pane_key);
    reveal(PaneView::draft_key_pressed);
}

} // verus!
