//! Lists in frames: which rows of a list are drawn, and how.

use crate::choices;
use crate::menus::ShellCandidate;
use crate::paint::{Color, Line, Span, SpanView, Style};
use crate::paint;
use crate::palette::{ItemView, PaletteItem};
use crate::palette;
use crate::scan;
use crate::search::HistSearch;
use crate::text;
use vstd::prelude::*;

verus! {

/// A framed piece of the screen: its title and the lines within.
#[derive(Debug, Clone, PartialEq, Eq)]
pub struct Boxed {
    pub title: String,
    pub lines: Vec<Line>,
}

/// What a framed piece of the screen holds.
#[verifier::ext_equal]
pub struct BoxedView {
    pub title: Seq<char>,
    pub lines: Seq<Seq<SpanView>>,
}

impl View for Boxed {
    type V = BoxedView;

    open spec fn view(&self) -> BoxedView {
        BoxedView { title: self.title@, lines: paint::line_views(self.lines@) }
    }
}

/// From which row on a list of `count` rows is drawn in `viewport` lines so that the selected
/// one is in view: as far from `scroll` as it takes and no further, without empty lines under
/// the last row.
pub open spec fn scroll_for(selected: int, scroll: int, viewport: int, count: int) -> int {
    if viewport <= 0 || count <= 0 {
        0
    } else {
        let at = paint::least(selected, count - 1);
        let moved = if at < scroll {
            at
        } else if at >= scroll + viewport {
            at - viewport + 1
        } else {
            scroll
        };
        if count <= viewport {
            0
        } else {
            paint::least(moved, count - viewport)
        }
    }
}

/// Scrolls a list so that its selected row is in view.
pub fn ensure_visible(selected: usize, scroll: usize, viewport: usize, count: usize) -> (r: usize)
    ensures
        r == scroll_for(selected as int, scroll as int, viewport as int, count as int),
{
    if viewport == 0 || count <= viewport {
        return 0;
    }
    let at: usize = if selected <= count - 1 {
        selected
    } else {
        count - 1
    };
    let moved: usize = if at < scroll {
        at
    } else if at - scroll >= viewport {
        at - viewport + 1
    } else {
        scroll
    };
    if moved <= count - viewport {
        moved
    } else {
        count - viewport
    }
}

/// How many rows are drawn of a list of `count`, from row `scroll` on, in `viewport` lines.
pub open spec fn rows_drawn(count: int, scroll: int, viewport: int) -> int {
    if scroll >= count {
        0
    } else {
        paint::least(viewport, count - scroll)
    }
}

/// The style of a row.
pub open spec fn row_style(i: int, selected: int, theme: Seq<char>) -> Style {
    if i == selected {
        paint::selection_of(theme)
    } else {
        paint::colored(Color::White)
    }
}

/// The rows of a list that are drawn.
pub open spec fn list_lines(
    rows: Seq<Seq<char>>,
    selected: int,
    scroll: int,
    viewport: int,
    theme: Seq<char>,
) -> Seq<Seq<SpanView>> {
    Seq::new(
        rows_drawn(rows.len() as int, scroll, viewport) as nat,
        |k: int| paint::line_of(rows[scroll + k], row_style(scroll + k, selected, theme)),
    )
}

fn pick_style(i: usize, selected: usize, theme: &str) -> (r: Style)
    ensures
        r == row_style(i as int, selected as int, theme@),
{
    if i == selected {
        paint::selection_style(theme)
    } else {
        Style::of(Color::White)
    }
}

fn count_drawn(count: usize, scroll: usize, viewport: usize) -> (r: usize)
    ensures
        r == rows_drawn(count as int, scroll as int, viewport as int),
        scroll < count ==> scroll + r <= count,
        scroll >= count ==> r == 0,
{
    if scroll >= count {
        0
    } else if viewport <= count - scroll {
        viewport
    } else {
        count - scroll
    }
}

fn draw_list(rows: &Vec<String>, selected: usize, scroll: usize, viewport: usize, theme: &str) -> (r:
    Vec<Line>)
    ensures
        paint::line_views(r@) == list_lines(
            text::texts(rows@),
            selected as int,
            scroll as int,
            viewport as int,
            theme@,
        ),
{
    let n: usize = count_drawn(rows.len(), scroll, viewport);
    let ghost all = text::texts(rows@);
    let mut r: Vec<Line> = Vec::new();
    for k in 0..n
        invariant
            all == text::texts(rows@),
            all.len() == rows@.len(),
            n > 0 ==> scroll + n <= rows@.len(),
            r@.len() == k,
            forall|j: int|
                0 <= j < k ==> (#[trigger] r@[j])@ == paint::line_of(
                    all[scroll + j],
                    row_style(scroll + j, selected as int, theme@),
                ),
    {
        assert(scroll + k < rows.len());
        assert(all[scroll + k] == rows@[scroll + k]@);
        let style = pick_style(scroll + k, selected, theme);
        r.push(Line::one(text::copy_text(rows[scroll + k].as_str()), style));
    }
    assert(paint::line_views(r@) =~= list_lines(
        all,
        selected as int,
        scroll as int,
        viewport as int,
        theme@,
    ));
    r
}

/// Texts with the same beginning.
pub open spec fn led(lead: Seq<char>, list: Seq<Seq<char>>) -> Seq<Seq<char>> {
    list.map_values(|s: Seq<char>| lead + s)
}

fn lead_all(lead: &str, list: &Vec<String>) -> (r: Vec<String>)
    ensures
        text::texts(r@) == led(lead@, text::texts(list@)),
{
    let mut r: Vec<String> = Vec::new();
    for i in 0..list.len()
        invariant
            r@.len() == i,
            forall|j: int| 0 <= j < i ==> (#[trigger] r@[j])@ == lead@ + list@[j]@,
    {
        r.push(text::cat2(lead, list[i].as_str()));
    }
    assert(text::texts(r@) =~= led(lead@, text::texts(list@)));
    r
}

/// How many lines a frame of the given height has room for.
pub open spec fn room_in(height: u16) -> int {
    if height >= 2 {
        height - 2
    } else {
        0
    }
}

/// How many lines a frame of the given height has room for.
pub fn viewport_of(height: u16) -> (r: usize)
    ensures
        r == room_in(height),
{
    if height >= 2 {
        (height - 2) as usize
    } else {
        0
    }
}

/// The menu of files.
pub fn draw_file_complete(
    items: &Vec<String>,
    selected: usize,
    height: u16,
    theme: &str,
) -> (r: Boxed)
    ensures
        r@ == (BoxedView {
            title: " Files · Tab fills "@,
            lines: list_lines(
                led(" @"@, text::texts(items@)),
                selected as int,
                scroll_for(selected as int, 0, room_in(height), items@.len() as int),
                room_in(height),
                theme@,
            ),
        }),
{
    let rows = lead_all(" @", items);
    let scroll: usize = ensure_visible(selected, 0, viewport_of(height), items.len());
    let lines = draw_list(&rows, selected, scroll, viewport_of(height), theme);
    Boxed { title: text::copy_text(" Files · Tab fills "), lines }
}

/// The menu of values.
pub fn draw_arg_complete(
    items: &Vec<String>,
    selected: usize,
    height: u16,
    theme: &str,
) -> (r: Boxed)
    ensures
        r@ == (BoxedView {
            title: " Values · Tab fills "@,
            lines: list_lines(
                led(" "@, text::texts(items@)),
                selected as int,
                scroll_for(selected as int, 0, room_in(height), items@.len() as int),
                room_in(height),
                theme@,
            ),
        }),
{
    let rows = lead_all(" ", items);
    let scroll: usize = ensure_visible(selected, 0, viewport_of(height), items.len());
    let lines = draw_list(&rows, selected, scroll, viewport_of(height), theme);
    Boxed { title: text::copy_text(" Values · Tab fills "), lines }
}

/// The title of the panel of matches.
pub open spec fn search_title(query: Seq<char>) -> Seq<char> {
    if query.len() == 0 {
        " history · type to search · Enter accepts · Esc cancels "@
    } else {
        " history · "@ + query + " "@
    }
}

/// The panel of the matches of a search.
pub fn draw_hist_search(
    search: &HistSearch,
    matches: &Vec<String>,
    height: u16,
    theme: &str,
) -> (r: Boxed)
    ensures
        r@ == (BoxedView {
            title: search_title(search@.query),
            lines: list_lines(
                led(" "@, text::texts(matches@)),
                search@.selected,
                scroll_for(search@.selected, 0, room_in(height), matches@.len() as int),
                room_in(height),
                theme@,
            ),
        }),
{
    let title = if search.query.as_str().is_empty() {
        text::copy_text(" history · type to search · Enter accepts · Esc cancels ")
    } else {
        text::cat3(" history · ", search.query.as_str(), " ")
    };
    let rows = lead_all(" ", matches);
    let scroll: usize = ensure_visible(search.selected, 0, viewport_of(height), matches.len());
    let lines = draw_list(&rows, search.selected, scroll, viewport_of(height), theme);
    Boxed { title, lines }
}

/// The row of a shell candidate: the candidate, then of what kind it is.
pub open spec fn candidate_spans(c: ShellCandidate, style: Style) -> Seq<SpanView> {
    seq![
        SpanView { text: " "@ + c.text@, style },
        SpanView {
            text: " · "@ + c.kind@ + (if c.detail@.len() == 0 {
                ""@
            } else {
                " · "@ + c.detail@
            }),
            style: paint::colored(Color::DarkGray),
        },
    ]
}

/// The menu of shell candidates.
pub open spec fn candidate_lines(
    items: Seq<ShellCandidate>,
    selected: int,
    scroll: int,
    viewport: int,
    theme: Seq<char>,
) -> Seq<Seq<SpanView>> {
    Seq::new(
        rows_drawn(items.len() as int, scroll, viewport) as nat,
        |k: int| candidate_spans(items[scroll + k], row_style(scroll + k, selected, theme)),
    )
}

fn draw_candidate(c: &ShellCandidate, style: Style) -> (r: Line)
    ensures
        r@ == candidate_spans(*c, style),
{
    let detail = if c.detail.as_str().is_empty() {
        text::copy_text("")
    } else {
        text::cat2(" · ", c.detail.as_str())
    };
    let mut spans: Vec<Span> = Vec::new();
    spans.push(Span { text: text::cat2(" ", c.text.as_str()), style });
    spans.push(
        Span {
            text: text::cat3(" · ", c.kind.as_str(), detail.as_str()),
            style: Style::of(Color::DarkGray),
        },
    );
    let r = Line { spans };
    assert(r@ =~= candidate_spans(*c, style));
    r
}

/// The menu of shell candidates.
pub fn draw_sh_complete(
    items: &Vec<ShellCandidate>,
    selected: usize,
    height: u16,
    theme: &str,
) -> (r: Boxed)
    ensures
        r@ == (BoxedView {
            title: " Complete · Tab fills "@,
            lines: candidate_lines(
                items@,
                selected as int,
                scroll_for(selected as int, 0, room_in(height), items@.len() as int),
                room_in(height),
                theme@,
            ),
        }),
{
    let viewport: usize = viewport_of(height);
    let scroll: usize = ensure_visible(selected, 0, viewport, items.len());
    let n: usize = count_drawn(items.len(), scroll, viewport);
    let mut lines: Vec<Line> = Vec::new();
    for k in 0..n
        invariant
            n > 0 ==> scroll + n <= items@.len(),
            lines@.len() == k,
            forall|j: int|
                0 <= j < k ==> (#[trigger] lines@[j])@ == candidate_spans(
                    items@[scroll + j],
                    row_style(scroll + j, selected as int, theme@),
                ),
    {
        assert(scroll + k < items.len());
        let style = pick_style(scroll + k, selected, theme);
        let line = draw_candidate(&items[scroll + k], style);
        lines.push(line);
    }
    assert(paint::line_views(lines@) =~= candidate_lines(
        items@,
        selected as int,
        scroll as int,
        viewport as int,
        theme@,
    ));
    Boxed { title: text::copy_text(" Complete · Tab fills "), lines }
}

/// The text of a row of the list of commands. A star marks commands of the user's own.
pub open spec fn palette_text(item: ItemView) -> Seq<char> {
    " "@ + scan::pad_right(
        item.name + (if item.custom {
            "*"@
        } else {
            ""@
        }),
        18,
    ) + " "@ + item.description
}

/// The texts of the rows of the list of commands.
pub open spec fn palette_texts(items: Seq<ItemView>) -> Seq<Seq<char>> {
    items.map_values(|i: ItemView| palette_text(i))
}

/// The list of commands, from row `scroll` on.
pub fn draw_palette(
    items: &Vec<PaletteItem>,
    selected: usize,
    scroll: usize,
    height: u16,
    theme: &str,
) -> (r: Boxed)
    ensures
        r@ == (BoxedView {
            title: " commands · type to filter "@,
            lines: list_lines(
                palette_texts(palette::items_view(items@)),
                selected as int,
                scroll as int,
                room_in(height),
                theme@,
            ),
        }),
{
    let ghost want = palette_texts(palette::items_view(items@));
    let mut rows: Vec<String> = Vec::new();
    for i in 0..items.len()
        invariant
            rows@.len() == i,
            forall|j: int| 0 <= j < i ==> (#[trigger] rows@[j])@ == palette_text(items@[j]@),
    {
        let name = text::cat2(
            items[i].name.as_str(),
            if items[i].custom {
                "*"
            } else {
                ""
            },
        );
        let padded = scan::pad_right_text(name.as_str(), 18);
        rows.push(text::cat4(" ", padded.as_str(), " ", items[i].description.as_str()));
    }
    assert(text::texts(rows@) =~= want);
    let lines = draw_list(&rows, selected, scroll, viewport_of(height), theme);
    Boxed { title: text::copy_text(" commands · type to filter "), lines }
}

/// The text of a row of the settings.
pub open spec fn setting_text(row: (Seq<char>, Seq<char>)) -> Seq<char> {
    " "@ + scan::pad_right(row.0, 14) + " "@ + row.1
}

/// The texts of the rows of the settings.
pub open spec fn setting_texts(rows: Seq<(Seq<char>, Seq<char>)>) -> Seq<Seq<char>> {
    rows.map_values(|r: (Seq<char>, Seq<char>)| setting_text(r))
}

/// The texts of the rows of the settings.
pub fn draw_setting_rows(rows: &Vec<(String, String)>) -> (r: Vec<String>)
    ensures
        text::texts(r@) == setting_texts(choices::pairs_view(rows@)),
{
    let mut r: Vec<String> = Vec::new();
    for i in 0..rows.len()
        invariant
            r@.len() == i,
            forall|j: int|
                0 <= j < i ==> (#[trigger] r@[j])@ == setting_text((rows@[j].0@, rows@[j].1@)),
    {
        let label = scan::pad_right_text(rows[i].0.as_str(), 14);
        r.push(text::cat4(" ", label.as_str(), " ", rows[i].1.as_str()));
    }
    assert(text::texts(r@) =~= setting_texts(choices::pairs_view(rows@)));
    r
}

/// The text of a row of a list to pick from.
pub open spec fn picker_text(item: Seq<char>, i: int, selected: int) -> Seq<char> {
    " "@ + (if i == selected {
        "▶"@
    } else {
        " "@
    }) + " "@ + item
}

/// The texts of the rows of a list to pick from.
pub open spec fn picker_texts(items: Seq<Seq<char>>, selected: int) -> Seq<Seq<char>> {
    Seq::new(items.len(), |i: int| picker_text(items[i], i, selected))
}

/// The lines of a list to pick from.
pub fn draw_picker_rows(
    items: &Vec<String>,
    selected: usize,
    scroll: usize,
    viewport: usize,
    theme: &str,
) -> (r: Vec<Line>)
    ensures
        paint::line_views(r@) == list_lines(
            picker_texts(text::texts(items@), selected as int),
            selected as int,
            scroll as int,
            viewport as int,
            theme@,
        ),
{
    let mut rows: Vec<String> = Vec::new();
    for i in 0..items.len()
        invariant
            rows@.len() == i,
            forall|j: int|
                0 <= j < i ==> (#[trigger] rows@[j])@ == picker_text(
                    items@[j]@,
                    j,
                    selected as int,
                ),
    {
        rows.push(
            text::cat4(
                " ",
                if i == selected {
                    "▶"
                } else {
                    " "
                },
                " ",
                items[i].as_str(),
            ),
        );
    }
    assert(text::texts(rows@) =~= picker_texts(text::texts(items@), selected as int));
    draw_list(&rows, selected, scroll, viewport, theme)
}

/// The lines of the settings.
pub fn draw_setting_lines(rows: &Vec<(String, String)>, selected: usize, theme: &str) -> (r: Vec<
    Line,
>)
    ensures
        paint::line_views(r@) == list_lines(
            setting_texts(choices::pairs_view(rows@)),
            selected as int,
            0,
            rows@.len() as int,
            theme@,
        ),
{
    let list = draw_setting_rows(rows);
    draw_list(&list, selected, 0, rows.len(), theme)
}

/// Scrolling brings the selected row into view and leaves no room under the last one; a
/// list whose selected row is in view already stays where it is.
pub proof fn selected_rows_are_in_view(selected: int, scroll: int, viewport: int, count: int)
    requires
        0 <= selected < count,
        0 < viewport,
        0 <= scroll,
    ensures
        ({
            let from = scroll_for(selected, scroll, viewport, count);
            &&& 0 <= from <= selected < from + viewport
            &&& from + paint::least(viewport, count) <= count
            &&& scroll <= selected < scroll + viewport && scroll + viewport <= count ==> from == scroll
            &&& from <= selected < from + rows_drawn(count, from, viewport)
            &&& scroll_for(selected, from, viewport, count) == from
        }),
{
}

/// The selected row of a list is drawn in the selection's style wherever the list is
/// scrolled so that it is in view, and no other row is.
pub proof fn only_the_selected_row_stands_out(
    rows: Seq<Seq<char>>,
    selected: int,
    scroll: int,
    viewport: int,
    theme: Seq<char>,
    k: int,
)
    requires
        0 <= scroll,
        0 <= viewport,
        0 <= k < list_lines(rows, selected, scroll, viewport, theme).len(),
    ensures
        list_lines(rows, selected, scroll, viewport, theme)[k] == paint::line_of(
            rows[scroll + k],
            if scroll + k == selected {
                paint::selection_of(theme)
            } else {
                paint::colored(Color::White)
            },
        ),
        list_lines(rows, selected, scroll, viewport, theme).len() <= viewport,
        scroll + k < rows.len(),
{
}

} // verus!
