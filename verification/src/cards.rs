//! What lies over the screen, as it is drawn.

use crate::choices;
use crate::composer;
use crate::desk::{Desk, DeskView, OverlayView, Preset, PresetView, SceneView};
use crate::desk;
use crate::events::{ModelInfo, ModelView, Overlay};
use crate::events;
use crate::paint::{Color, Line, Rect, SpanView, Style};
use crate::paint;
use crate::pane::{Pane, PaneView};
use crate::panels::{Boxed, BoxedView};
use crate::panels;
use crate::scan;
use crate::text;
use vstd::prelude::*;

verus! {

/// A framed piece of the screen and where it lies.
#[derive(Debug, Clone, PartialEq, Eq)]
pub struct Card {
    pub rect: Rect,
    pub content: Boxed,
}

/// What a card holds.
#[verifier::ext_equal]
pub struct CardView {
    pub rect: Rect,
    pub content: BoxedView,
}

impl View for Card {
    type V = CardView;

    open spec fn view(&self) -> CardView {
        CardView { rect: self.rect, content: self.content@ }
    }
}

/// What an optional card holds.
pub open spec fn card_view(o: Option<Card>) -> Option<CardView> {
    match o {
        Some(c) => Some(c@),
        None => None,
    }
}

/// A rectangle whose far corner can be counted too.
pub open spec fn within_screen(area: Rect) -> bool {
    area.x + area.width <= u16::MAX && area.y + area.height <= u16::MAX
}

/// A rectangle of at most the given size in the middle of another one.
pub open spec fn middle(area: Rect, width: int, height: int) -> Rect {
    let w = paint::least(width, area.width as int);
    let h = paint::least(height, area.height as int);
    Rect {
        x: (area.x + (area.width - w) / 2) as u16,
        y: (area.y + (area.height - h) / 2) as u16,
        width: w as u16,
        height: h as u16,
    }
}

fn in_middle(area: Rect, width: u16, height: u16) -> (r: Rect)
    requires
        within_screen(area),
    ensures
        r == middle(area, width as int, height as int),
{
    paint::centered(area, width, height)
}

/// Lines of plain text.
pub open spec fn plain_lines(list: Seq<Seq<char>>) -> Seq<Seq<SpanView>> {
    list.map_values(|s: Seq<char>| paint::line_of(s, paint::plain()))
}

fn push_plain(out: &mut Vec<Line>, text: String)
    ensures
        paint::line_views(final(out)@) == paint::line_views(old(out)@).push(paint::line_of(text@, paint::plain())),
{
    let ghost before = out@;
    let line = Line::one(text, Style::raw());
    proof {
        paint::line_views_push(before, line);
    }
    out.push(line);
}

fn five_lines(a: String, b: String, c: String) -> (r: Vec<Line>)
    ensures
        paint::line_views(r@) == plain_lines(seq![a@, ""@, b@, ""@, c@]),
{
    let mut r: Vec<Line> = Vec::new();
    assert(paint::line_views(r@) =~= Seq::empty());
    push_plain(&mut r, a);
    push_plain(&mut r, text::copy_text(""));
    push_plain(&mut r, b);
    push_plain(&mut r, text::copy_text(""));
    push_plain(&mut r, c);
    assert(paint::line_views(r@) =~= plain_lines(seq![a@, ""@, b@, ""@, c@]));
    r
}

// ---------------------------------------------------------------------------
// Lists to pick from
// ---------------------------------------------------------------------------

/// How high the frame of a list of `count` rows is on a screen.
pub open spec fn picker_height(count: int, screen: Rect) -> int {
    let room = if screen.height >= 8 {
        screen.height - 8
    } else {
        0
    };
    let wanted = paint::least(count, room) + 4;
    paint::least(
        if wanted < 8 {
            8
        } else {
            wanted
        },
        screen.height as int,
    )
}

/// Where a list of `count` rows lies on a screen.
pub open spec fn picker_rect(count: int, screen: Rect) -> Rect {
    let width = if screen.width >= 8 {
        screen.width - 8
    } else {
        0
    };
    middle(screen, paint::least(width, 104), picker_height(count, screen))
}

/// How many rows of a list are in view on a screen.
pub open spec fn picker_room(count: int, screen: Rect) -> int {
    let h = picker_rect(count, screen).height;
    if h >= 4 {
        h - 4
    } else {
        0
    }
}

/// The selected row, or the last one where there are fewer.
pub open spec fn row_within(selected: int, count: int) -> int {
    if count == 0 {
        0
    } else {
        paint::least(selected, count - 1)
    }
}

/// A list to pick from, scrolled from row `scroll` so that the selected row is in view.
pub open spec fn picker_card(
    screen: Rect,
    title: Seq<char>,
    items: Seq<Seq<char>>,
    selected: int,
    scroll: int,
    theme: Seq<char>,
) -> CardView {
    let n = items.len() as int;
    let at = row_within(selected, n);
    CardView {
        rect: picker_rect(n, screen),
        content: BoxedView {
            title,
            lines: panels::list_lines(
                panels::picker_texts(items, at),
                at,
                panels::scroll_for(at, scroll, picker_room(n, screen), n),
                picker_room(n, screen),
                theme,
            ),
        },
    }
}

fn place_picker(count: usize, screen: Rect) -> (r: Rect)
    requires
        within_screen(screen),
    ensures
        r == picker_rect(count as int, screen),
{
    let room: usize = if screen.height >= 8 {
        (screen.height - 8) as usize
    } else {
        0
    };
    let rows: usize = if count <= room {
        count
    } else {
        room
    };
    let wanted: usize = if rows < 4 {
        8
    } else {
        rows + 4
    };
    let height: u16 = if wanted <= screen.height as usize {
        wanted as u16
    } else {
        screen.height
    };
    let width: u16 = if screen.width < 8 {
        0
    } else if screen.width - 8 <= 104 {
        screen.width - 8
    } else {
        104
    };
    in_middle(screen, width, height)
}

/// Draws a list to pick from. Keeps the selection within its rows, and from which row on
/// it is drawn.
pub fn render_picker(
    screen: Rect,
    title: &str,
    items: &Vec<String>,
    selected: &mut usize,
    scroll: &mut usize,
    theme: &str,
) -> (r: Card)
    requires
        within_screen(screen),
    ensures
        *final(selected) == row_within(*old(selected) as int, items@.len() as int),
        *final(scroll) == panels::scroll_for(
            *final(selected) as int,
            *old(scroll) as int,
            picker_room(items@.len() as int, screen),
            items@.len() as int,
        ),
        r@ == picker_card(
            screen,
            title@,
            text::texts(items@),
            *old(selected) as int,
            *old(scroll) as int,
            theme@,
        ),
{
    assert(text::texts(items@).len() == items@.len());
    let rect = place_picker(items.len(), screen);
    let viewport: usize = if rect.height >= 4 {
        (rect.height - 4) as usize
    } else {
        0
    };
    let at: usize = if items.len() == 0 {
        0
    } else if *selected <= items.len() - 1 {
        *selected
    } else {
        items.len() - 1
    };
    let from: usize = panels::ensure_visible(at, *scroll, viewport, items.len());
    *selected = at;
    *scroll = from;
    let lines = panels::draw_picker_rows(items, at, from, viewport, theme);
    Card { rect, content: Boxed { title: text::copy_text(title), lines } }
}

/// A list lies within the screen, whatever its size.
pub proof fn pickers_lie_on_the_screen(count: int, screen: Rect)
    requires
        within_screen(screen),
        count >= 0,
    ensures
        forall|c: int, r: int| picker_rect(count, screen).holds(c, r) ==> screen.holds(c, r),
        picker_room(count, screen) <= picker_rect(count, screen).height,
{
}

// ---------------------------------------------------------------------------
// Each overlay
// ---------------------------------------------------------------------------

/// How the themes are listed.
pub open spec fn theme_texts(themes: Seq<Seq<char>>, theme: Seq<char>) -> Seq<Seq<char>> {
    themes.map_values(
        |name: Seq<char>|
            if name == theme {
                "● "@ + name + " (active)"@
            } else {
                "  "@ + name
            },
    )
}

fn list_themes(themes: &Vec<String>, theme: &str) -> (r: Vec<String>)
    ensures
        text::texts(r@) == theme_texts(text::texts(themes@), theme@),
{
    let ghost want = theme_texts(text::texts(themes@), theme@);
    let mut r: Vec<String> = Vec::new();
    for i in 0..themes.len()
        invariant
            want == theme_texts(text::texts(themes@), theme@),
            r@.len() == i,
            forall|j: int| 0 <= j < i ==> (#[trigger] r@[j])@ == want[j],
    {
        let name = themes[i].as_str();
        let row = if text::same_text(name, theme) {
            text::cat3("● ", name, " (active)")
        } else {
            text::cat2("  ", name)
        };
        assert(text::texts(themes@)[i as int] == themes@[i as int]@);
        r.push(row);
    }
    assert(text::texts(r@) =~= want);
    r
}

/// How the providers are listed.
pub open spec fn preset_texts(presets: Seq<PresetView>) -> Seq<Seq<char>> {
    presets.map_values(|p: PresetView| desk::preset_row(p))
}

fn list_presets(presets: &Vec<Preset>) -> (r: Vec<String>)
    ensures
        text::texts(r@) == preset_texts(desk::presets_view(presets@)),
{
    let mut r: Vec<String> = Vec::new();
    for i in 0..presets.len()
        invariant
            r@.len() == i,
            forall|j: int| 0 <= j < i ==> (#[trigger] r@[j])@ == desk::preset_row(presets@[j]@),
    {
        r.push(desk::provider_label(&presets[i]));
    }
    assert(text::texts(r@) =~= preset_texts(desk::presets_view(presets@)));
    r
}

/// How models are listed.
pub open spec fn model_texts(models: Seq<ModelView>, active: Seq<char>) -> Seq<Seq<char>> {
    models.map_values(|m: ModelView| events::model_row(m, active))
}

fn list_models_shown(models: &Vec<ModelInfo>, active: &str) -> (r: Vec<String>)
    ensures
        text::texts(r@) == model_texts(events::models_view(models@), active@),
{
    let mut r: Vec<String> = Vec::new();
    for i in 0..models.len()
        invariant
            r@.len() == i,
            forall|j: int| 0 <= j < i ==> (#[trigger] r@[j])@ == events::model_row(models@[j]@, active@),
    {
        r.push(models[i].display(active));
    }
    assert(text::texts(r@) =~= model_texts(events::models_view(models@), active@));
    r
}

/// The card on which a key is typed: what was typed is not shown.
pub open spec fn key_card(screen: Rect, provider: Seq<char>, typed: nat) -> CardView {
    CardView {
        rect: middle(screen, 72, 7),
        content: BoxedView {
            title: " Credentials "@,
            lines: plain_lines(
                seq![
                    "API key for "@ + provider,
                    ""@,
                    "  "@ + scan::repeat_char('•', typed as int),
                    ""@,
                    "Enter submit · Esc cancel · key is never saved"@,
                ],
            ),
        },
    }
}

fn draw_key_card(screen: Rect, provider: &str, draft: &str) -> (r: Card)
    requires
        within_screen(screen),
    ensures
        r@ == key_card(screen, provider@, draft@.len()),
{
    let dots = scan::repeat_text('•', scan::count_chars(draft));
    let lines = five_lines(
        text::cat2("API key for ", provider),
        text::cat2("  ", dots.as_str()),
        text::copy_text("Enter submit · Esc cancel · key is never saved"),
    );
    Card {
        rect: in_middle(screen, 72, 7),
        content: Boxed { title: text::copy_text(" Credentials "), lines },
    }
}

/// The card on which an address is typed.
pub open spec fn url_card(
    screen: Rect,
    preset: Option<PresetView>,
    draft: Seq<char>,
) -> CardView {
    CardView {
        rect: middle(screen, 78, 7),
        content: BoxedView {
            title: match preset {
                Some(p) => " "@ + p.label + " connection "@,
                None => " Custom connection "@,
            },
            lines: plain_lines(
                seq![
                    match preset {
                        Some(p) => p.label + " base URL"@,
                        None => "OpenAI-compatible base URL"@,
                    },
                    ""@,
                    "  "@ + draft,
                    ""@,
                    match preset {
                        Some(p) => match p.base_url {
                            Some(url) => "Empty = "@ + url + " · LAN: replace 127.0.0.1"@,
                            None => "Enter submit · Ctrl+A clear · Esc cancel"@,
                        },
                        None => "Enter submit · Ctrl+A clear · Esc cancel"@,
                    },
                ],
            ),
        },
    }
}

/// The provider with an id.
pub open spec fn preset_named(presets: Seq<PresetView>, id: Seq<char>) -> Option<PresetView> {
    match desk::preset_from(presets, id, 0) {
        Some(i) => Some(presets[i]),
        None => None,
    }
}

fn draw_url_card(screen: Rect, presets: &Vec<Preset>, provider: &str, draft: &str) -> (r: Card)
    requires
        within_screen(screen),
    ensures
        r@ == url_card(screen, preset_named(desk::presets_view(presets@), provider@), draft@),
{
    let plain_hint = "Enter submit · Ctrl+A clear · Esc cancel";
    let (title, prompt, hint) = match desk::find_preset(presets, provider) {
        Some(i) => {
            assert(desk::presets_view(presets@)[i as int] == presets@[i as int]@);
            let label = presets[i].label.as_str();
            let hint = match &presets[i].base_url {
                Some(url) => text::cat3("Empty = ", url.as_str(), " · LAN: replace 127.0.0.1"),
                None => text::copy_text(plain_hint),
            };
            (text::cat3(" ", label, " connection "), text::cat2(label, " base URL"), hint)
        },
        None => (
            text::copy_text(" Custom connection "),
            text::copy_text("OpenAI-compatible base URL"),
            text::copy_text(plain_hint),
        ),
    };
    let lines = five_lines(prompt, text::cat2("  ", draft), hint);
    Card { rect: in_middle(screen, 78, 7), content: Boxed { title, lines } }
}

/// The lines of what a call would change.
pub open spec fn preview_lines(preview: Option<Seq<char>>) -> Seq<Seq<SpanView>> {
    match preview {
        None => Seq::empty(),
        Some(text) => {
            let all = scan::lines(text);
            all.take(paint::least(all.len() as int, 6)).map_values(
                |s: Seq<char>| paint::line_of("  "@ + s, paint::colored(Color::DarkGray)),
            )
        },
    }
}

/// The card on which the user decides on a call.
pub open spec fn approval_card_view(
    screen: Rect,
    name: Seq<char>,
    summary: Seq<char>,
    preview: Option<Seq<char>>,
    remaining: nat,
) -> CardView {
    let shown = preview_lines(preview);
    CardView {
        rect: middle(
            screen,
            78,
            8 + shown.len() + (if remaining > 0 {
                1int
            } else {
                0
            }),
        ),
        content: BoxedView {
            title: " Approval "@,
            lines: plain_lines(seq!["Approve `"@ + name + "`?"@, ""@, "  "@ + summary]) + shown
                + plain_lines(seq![""@, "y approve once · a always allow this run · n deny"@]) + (
            if remaining > 0 {
                plain_lines(seq!["+"@ + scan::decimal(remaining) + " more awaiting decision"@])
            } else {
                Seq::empty()
            }),
        },
    }
}

fn push_preview(out: &mut Vec<Line>, preview: &Option<String>) -> (r: usize)
    ensures
        paint::line_views(final(out)@) == paint::line_views(old(out)@) + preview_lines(composer::opt_text(*preview)),
        r == preview_lines(composer::opt_text(*preview)).len(),
        r <= 6,
{
    let ghost before = paint::line_views(out@);
    match preview {
        None => {
            assert(before + Seq::<Seq<SpanView>>::empty() =~= before);
            0
        },
        Some(text) => {
            let all = scan::text_lines(text.as_str());
            let ghost list = scan::lines(text@);
            assert(text::texts(all@).len() == all@.len());
            let n: usize = if all.len() <= 6 {
                all.len()
            } else {
                6
            };
            let ghost want = preview_lines(Some(text@));
            assert(want.take(0) =~= Seq::empty());
            assert(before + want.take(0) =~= before);
            for i in 0..n
                invariant
                    list == text::texts(all@),
                    n <= all@.len(),
                    n <= 6,
                    want == preview_lines(Some(text@)),
                    list == scan::lines(text@),
                    want.len() == n,
                    paint::line_views(out@) == before + want.take(i as int),
            {
                assert(list[i as int] == all@[i as int]@);
                let line = Line::one(text::cat2("  ", all[i].as_str()), Style::of(Color::DarkGray));
                let ghost so_far = out@;
                proof {
                    paint::line_views_push(so_far, line);
                }
                out.push(line);
                assert(want.take(i + 1) =~= want.take(i as int).push(line@));
                assert(paint::line_views(out@) =~= before + want.take(i + 1));
            }
            assert(want.take(n as int) =~= want);
            n
        },
    }
}

fn draw_approval_card(
    screen: Rect,
    name: &str,
    summary: &str,
    preview: &Option<String>,
    remaining: usize,
) -> (r: Card)
    requires
        within_screen(screen),
    ensures
        r@ == approval_card_view(screen, name@, summary@, composer::opt_text(*preview), remaining as nat),
{
    let mut out: Vec<Line> = Vec::new();
    assert(paint::line_views(out@) =~= Seq::empty());
    push_plain(&mut out, text::cat3("Approve `", name, "`?"));
    push_plain(&mut out, text::copy_text(""));
    push_plain(&mut out, text::cat2("  ", summary));
    assert(paint::line_views(out@) =~= plain_lines(
        seq!["Approve `"@ + name@ + "`?"@, ""@, "  "@ + summary@],
    ));
    let shown: usize = push_preview(&mut out, preview);
    push_plain(&mut out, text::copy_text(""));
    push_plain(&mut out, text::copy_text("y approve once · a always allow this run · n deny"));
    let mut height: u16 = 8 + shown as u16;
    if remaining > 0 {
        let n = scan::decimal_text(remaining as u64);
        push_plain(&mut out, text::cat3("+", n.as_str(), " more awaiting decision"));
        height = height + 1;
    }
    assert(paint::line_views(out@) =~= approval_card_view(
        screen,
        name@,
        summary@,
        composer::opt_text(*preview),
        remaining as nat,
    ).content.lines);
    Card {
        rect: in_middle(screen, 78, height),
        content: Boxed { title: text::copy_text(" Approval "), lines: out },
    }
}

impl PaneView {
    /// The card of the next waiting call; a card without one stands for any tool.
    pub open spec fn waiting_card(self, screen: Rect) -> CardView {
        if self.tools matches Some(round) && round.queue.len() > 0 {
            let round = self.tools->0;
            let a = round.queue[0];
            approval_card_view(
                screen,
                a.name,
                a.summary,
                a.preview,
                (round.queue.len() - 1) as nat,
            )
        } else {
            approval_card_view(screen, "tool"@, ""@, None, 0)
        }
    }
}

impl SceneView {
    /// The card with the settings.
    pub open spec fn settings_card(self, screen: Rect, selected: int) -> CardView {
        let rows = self.setting_rows();
        CardView {
            rect: middle(screen, 56, rows.len() as int + 4),
            content: BoxedView {
                title: " Settings "@,
                lines: panels::list_lines(
                    panels::setting_texts(rows),
                    selected,
                    0,
                    rows.len() as int,
                    self.pane.settings.theme,
                ),
            },
        }
    }

    /// What lies over the screen.
    pub open spec fn overlay_card(self, screen: Rect) -> Option<CardView> {
        let theme = self.pane.settings.theme;
        match self.desk.overlay {
            OverlayView::Closed => None,
            OverlayView::Providers { selected, scroll } => Some(
                picker_card(
                    screen,
                    " Connect "@,
                    preset_texts(self.desk.presets),
                    selected,
                    scroll,
                    theme,
                ),
            ),
            OverlayView::Models { items, selected, scroll, active } => Some(
                picker_card(
                    screen,
                    " Models "@,
                    model_texts(items, active),
                    selected,
                    scroll,
                    active,
                ),
            ),
            OverlayView::ApiKey { provider } => Some(
                key_card(screen, provider, self.pane.composer.text.len()),
            ),
            OverlayView::CustomUrl { provider } => Some(
                url_card(
                    screen,
                    preset_named(self.desk.presets, provider),
                    self.pane.composer.text,
                ),
            ),
            OverlayView::Theme { selected, .. } => Some(
                picker_card(
                    screen,
                    " Theme "@,
                    theme_texts(self.desk.themes, theme),
                    selected,
                    0,
                    self.desk.themes[selected],
                ),
            ),
            OverlayView::Settings { selected } => Some(self.settings_card(screen, selected)),
            OverlayView::Approval => Some(self.pane.waiting_card(screen)),
        }
    }
}

impl Pane {
    fn draw_settings(&self, desk: &Desk, screen: Rect, selected: usize) -> (r: Card)
        requires
            within_screen(screen),
        ensures
            r@ == desk::scene(*self, *desk).settings_card(screen, selected as int),
    {
        let rows = self.settings_rows(desk);
        assert(choices::pairs_view(rows@).len() == rows@.len());
        let lines = panels::draw_setting_lines(&rows, selected, self.settings.theme.as_str());
        assert(desk::scene(*self, *desk).setting_rows().len() == 7);
        Card {
            rect: in_middle(screen, 56, rows.len() as u16 + 4),
            content: Boxed { title: text::copy_text(" Settings "), lines },
        }
    }

    fn draw_waiting_card(&self, screen: Rect) -> (r: Card)
        requires
            within_screen(screen),
        ensures
            r@ == self@.waiting_card(screen),
    {
        match self.approval_card() {
            Some((name, summary, preview, remaining)) => draw_approval_card(
                screen,
                name.as_str(),
                summary.as_str(),
                &preview,
                remaining,
            ),
            None => draw_approval_card(screen, "tool", "", &None, 0),
        }
    }

    /// Draws what lies over the screen. A list that is drawn keeps its selection within its
    /// rows, and from which row on it is drawn.
    #[verifier::spinoff_prover]
    pub fn draw_overlay(&self, desk: &mut Desk, screen: Rect) -> (r: Option<Card>)
        requires
            old(desk).wf(),
            within_screen(screen),
        ensures
            final(desk).wf(),
            card_view(r) == desk::scene(*self, *old(desk)).overlay_card(screen),
            final(desk)@ == old(desk)@.overlay_settled(screen),
    {
        let theme = self.settings.theme.as_str();
        let mut at: usize = 0;
        let mut from: usize = 0;
        let card = match &desk.overlay {
            Overlay::Closed => None,
            Overlay::Providers { selected, scroll } => {
                let items = list_presets(&desk.presets);
                at = *selected;
                from = *scroll;
                assert(text::texts(items@).len() == items@.len());
                Some(render_picker(screen, " Connect ", &items, &mut at, &mut from, theme))
            },
            Overlay::Models { items, selected, scroll, active } => {
                let rows = list_models_shown(items, active.as_str());
                at = *selected;
                from = *scroll;
                assert(text::texts(rows@).len() == rows@.len());
                Some(render_picker(screen, " Models ", &rows, &mut at, &mut from, active.as_str()))
            },
            Overlay::ApiKey { provider } => Some(
                draw_key_card(screen, provider.as_str(), self.composer.input.as_str()),
            ),
            Overlay::CustomUrl { provider } => Some(
                draw_url_card(
                    screen,
                    &desk.presets,
                    provider.as_str(),
                    self.composer.input.as_str(),
                ),
            ),
            Overlay::Theme { selected, .. } => {
                let rows = list_themes(&desk.themes, theme);
                assert(text::texts(desk.themes@)[*selected as int] == desk.themes@[*selected as int]@);
                let preview = desk.themes[*selected].as_str();
                at = *selected;
                Some(render_picker(screen, " Theme ", &rows, &mut at, &mut from, preview))
            },
            Overlay::Settings { selected } => Some(self.draw_settings(desk, screen, *selected)),
            Overlay::Approval => Some(self.draw_waiting_card(screen)),
        };
        desk.settle_overlay(at, from);
        card
    }
}

impl DeskView {
    /// A list that lies over the screen as it is kept once it was drawn: the selection is
    /// one of its rows, and that row is in view.
    pub open spec fn overlay_settled(self, screen: Rect) -> DeskView {
        DeskView {
            overlay: match self.overlay {
                OverlayView::Providers { selected, scroll } => {
                    let n = self.presets.len() as int;
                    let at = row_within(selected, n);
                    OverlayView::Providers {
                        selected: at,
                        scroll: panels::scroll_for(at, scroll, picker_room(n, screen), n),
                    }
                },
                OverlayView::Models { items, selected, scroll, active } => {
                    let n = items.len() as int;
                    let at = row_within(selected, n);
                    OverlayView::Models {
                        items,
                        selected: at,
                        scroll: panels::scroll_for(at, scroll, picker_room(n, screen), n),
                        active,
                    }
                },
                other => other,
            },
            ..self
        }
    }
}

impl Desk {
    fn settle_overlay(&mut self, at: usize, from: usize)
        requires
            old(self).wf(),
            old(self).overlay is Providers ==> at < old(self).presets@.len(),
        ensures
            final(self).wf(),
            final(self)@ == (DeskView {
                overlay: match old(self)@.overlay {
                    OverlayView::Providers { .. } => OverlayView::Providers {
                        selected: at as int,
                        scroll: from as int,
                    },
                    OverlayView::Models { items, active, .. } => OverlayView::Models {
                        items,
                        selected: at as int,
                        scroll: from as int,
                        active,
                    },
                    other => other,
                },
                ..old(self)@
            }),
    {
        match &mut self.overlay {
            Overlay::Providers { selected, scroll } => {
                *selected = at;
                *scroll = from;
            },
            Overlay::Models { selected, scroll, .. } => {
                *selected = at;
                *scroll = from;
            },
            _ => {},
        }
    }
}

/// What is selected in a list that lies over the screen is in view once it is drawn, and
/// drawing it again changes nothing.
pub proof fn selections_are_drawn(d: DeskView, screen: Rect)
    requires
        within_screen(screen),
        screen.height >= 5,
        d.overlay matches OverlayView::Providers { selected, scroll } ==> 0 <= selected && 0 <= scroll
            && d.presets.len() > 0,
        d.overlay matches OverlayView::Models { items, selected, scroll, .. } ==> 0 <= selected && 0
            <= scroll && items.len() > 0,
    ensures
        d.overlay_settled(screen).overlay matches OverlayView::Providers { selected, scroll } ==> scroll
            <= selected < scroll + picker_room(d.presets.len() as int, screen),
        d.overlay_settled(screen).overlay matches OverlayView::Models { items, selected, scroll, .. }
            ==> scroll <= selected < scroll + picker_room(items.len() as int, screen),
        d.overlay_settled(screen).overlay_settled(screen) == d.overlay_settled(screen),
{
    match d.overlay {
        OverlayView::Providers { selected, scroll } => {
            let n = d.presets.len() as int;
            panels::selected_rows_are_in_view(
                row_within(selected, n),
                scroll,
                picker_room(n, screen),
                n,
            );
        },
        OverlayView::Models { items, selected, scroll, .. } => {
            let n = items.len() as int;
            panels::selected_rows_are_in_view(
                row_within(selected, n),
                scroll,
                picker_room(n, screen),
                n,
            );
        },
        _ => {},
    }
}

/// A key that is typed is never drawn: two keys of the same length look the same.
pub proof fn typed_keys_are_not_drawn(a: SceneView, b: SceneView, screen: Rect)
    requires
        a.desk == b.desk,
        a.desk.overlay is ApiKey,
        a.pane.composer.text.len() == b.pane.composer.text.len(),
    ensures
        a.overlay_card(screen) == b.overlay_card(screen),
{
}

} // verus!
