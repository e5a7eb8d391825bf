//! What holds of what is told, listed and copied, and of clicks.

use crate::blocks;
use crate::commands::ContextText;
use crate::commands;
use crate::desk::{PresetView, SceneView};
use crate::desk;
use crate::effects::{CopiedPart, EffectView};
use crate::events::ModelView;
use crate::events;
use crate::files;
use crate::filters;
use crate::laws_commands;
use crate::laws_text;
use crate::mouse;
use crate::paint::Rect;
use crate::palette::{CustomView, ItemView};
use crate::palette;
use crate::pane::PaneView;
use crate::replies;
use crate::scan;
use crate::shell;
use crate::tabs;
use crate::text;
use crate::transcript::TranscriptView;
use crate::window::{WindowAskView, WindowView};
use crate::window;
use vstd::prelude::*;

verus! {

// ---------------------------------------------------------------------------
// The conversation, listed
// ---------------------------------------------------------------------------

proof fn joined_holds(parts: Seq<Seq<char>>, sep: Seq<char>, i: int)
    requires
        0 <= i < parts.len(),
    ensures
        scan::contains_text(scan::join(parts, sep), parts[i]),
{
    laws_text::joined_parts_stand_in_order(parts, sep, i);
    assert(scan::occurs_at(scan::join(parts, sep), parts[i], laws_text::part_start(parts, sep, i)));
}

proof fn history_row_is(v: TranscriptView, from: int, to: int, i: int)
    requires
        0 <= from <= i < to <= v.history.len(),
    ensures
        blocks::history_rows(v, from, to).len() == to - from,
        blocks::history_rows(v, from, to)[i - from] == "["@ + v.history[i].role + "] "@ + blocks::one_line(
            scan::first_chars(v.history[i].content, 160),
        ),
    decreases to - from,
{
    reveal_with_fuel(blocks::history_rows, 2);
    if i < to - 1 {
        history_row_is(v, from, to - 1, i);
    } else if from < to - 1 {
        history_row_is(v, from, to - 1, from);
    }
}

/// The history that is told holds each of the last twelve messages: its role and the
/// beginning of its content.
pub proof fn told_histories_hold_the_last_messages(v: TranscriptView, i: int)
    requires
        0 <= i < v.history.len(),
        v.history.len() - 12 <= i,
        !v.history[i].content.contains('\n'),
        v.history[i].content.len() <= 160,
    ensures
        scan::contains_text(
            v.history_shown().history.last().content,
            "["@ + v.history[i].role + "] "@ + v.history[i].content,
        ),
{
    let len = v.history.len() as int;
    let start = blocks::tail_start(len, 12);
    let rows = blocks::history_rows(v, start, len);
    history_row_is(v, start, len, i);
    let head =
        "Last "@ + scan::decimal((len - start) as nat) + " of "@ + scan::decimal(len as nat) + " messages:"@;
    let parts = seq![head] + rows;
    let note = scan::join(parts, "\n"@);
    let content = v.history[i].content;
    assert(blocks::one_line(scan::first_chars(content, 160)) =~= content) by {
        assert forall|k: int| 0 <= k < content.len() implies content[k] != '\n' by {
            assert(content.contains(content[k]));
        }
    }
    let row = "["@ + v.history[i].role + "] "@ + content;
    assert(parts[1 + (i - start)] == row);
    joined_holds(parts, "\n"@, 1 + (i - start));
    let last = v.history_shown().history.last().content;
    if v.repeats(note) {
        let tail = last.skip(note.len() as int);
        laws_commands::piece_of_a_part(Seq::empty(), note, tail, row);
        assert(last =~= Seq::<char>::empty() + note + tail);
    } else {
        assert(last == note);
    }
}

/// A block that is asked for is told by its number, its role and its first line.
pub proof fn told_blocks_are_the_ones_asked_for(v: TranscriptView, arg: Seq<char>, n: nat)
    requires
        filters::block_number(arg) == Some(n),
        1 <= n <= v.history.len(),
        scan::first_line(v.history[n - 1].content).len() <= 100,
    ensures
        ({
            let last = v.block_shown(seq![arg]).history.last().content;
            &&& scan::contains_text(last, scan::decimal(n))
            &&& scan::contains_text(last, v.history[n - 1].role)
            &&& scan::contains_text(last, scan::first_line(v.history[n - 1].content))
        }),
{
    let m = v.history[n - 1];
    let id = v.id_of(n - 1);
    let summary = if v.filters.contains_key(id) {
        scan::join(filters::summary_parts(v.filters[id]), " · "@)
    } else {
        "none"@
    };
    let first = scan::first_line(m.content);
    let a = "Block "@;
    let mid = " · "@ + scan::decimal(m.content.len()) + " chars · "@ + scan::decimal(
        scan::lines(m.content).len(),
    ) + " line(s) · filter: "@ + summary + "\n  "@;
    let note = a + scan::decimal(n) + " · "@ + m.role + " · "@ + scan::decimal(m.content.len())
        + " chars · "@ + scan::decimal(scan::lines(m.content).len()) + " line(s) · filter: "@ + summary
        + "\n  "@ + scan::first_chars(first, 100);
    laws_commands::piece(a, scan::decimal(n), " · "@ + m.role + mid + first);
    assert(note =~= a + scan::decimal(n) + (" · "@ + m.role + mid + first));
    laws_commands::piece(a + scan::decimal(n) + " · "@, m.role, mid + first);
    assert(note =~= a + scan::decimal(n) + " · "@ + m.role + (mid + first));
    laws_commands::piece(a + scan::decimal(n) + " · "@ + m.role + mid, first, Seq::empty());
    assert(note =~= a + scan::decimal(n) + " · "@ + m.role + mid + first + Seq::<char>::empty());
    let w = v.named(n - 1);
    let last = w.told(note).history.last().content;
    let tail = last.skip(note.len() as int);
    assert(last =~= Seq::<char>::empty() + note + tail);
    laws_commands::piece_of_a_part(Seq::empty(), note, tail, scan::decimal(n));
    laws_commands::piece_of_a_part(Seq::empty(), note, tail, m.role);
    laws_commands::piece_of_a_part(Seq::empty(), note, tail, first);
}

/// A number says how many turns are rewound; without one it is one turn.
pub proof fn rewinding_takes_the_number_given(n: nat)
    requires
        n <= usize::MAX,
    ensures
        blocks::rewind_turns(Seq::empty()) == 1,
        blocks::rewind_turns(seq![scan::decimal(n)]) == n,
{
    replies::decimal_reads_back(n);
}

/// The copy of a filtered block is what its filter shows, line by line.
pub proof fn filtered_blocks_are_copied_as_shown(v: PaneView, arg: Seq<char>, n: nat)
    requires
        filters::block_number(arg) == Some(n),
        1 <= n <= v.log.history.len(),
        v.log.filters.contains_key(v.log.id_of(n - 1)),
    ensures
        v.copy_asked(seq!["out"@, arg]).out == v.out.push(
            EffectView::Copy {
                text: scan::join(
                    filters::filtered(v.log.filters[v.log.id_of(n - 1)], v.log.history[n - 1].content),
                    "\n"@,
                ),
                what: CopiedPart::Block { number: n as usize },
            },
        ),
{
    reveal(PaneView::block_copied);
}

/// The flags of a filter set what they say, wherever they stand, and the other words are what
/// it looks for.
pub proof fn filter_flags_set_what_they_say(v: TranscriptView, arg: Seq<char>, word: Seq<char>, n: nat, c: nat)
    requires
        filters::block_number(arg) == Some(n),
        1 <= n <= v.history.len(),
        word.len() > 0 && word[0] != '-',
        c <= usize::MAX,
    ensures
        ({
            let id = v.id_of(n - 1);
            &&& v.filtered_by(seq![arg, word, "--case"@]).filters[id].case
            &&& v.filtered_by(seq![arg, word, "--case"@]).filters[id].pattern == word
            &&& v.filtered_by(seq![arg, "--invert"@, word]).filters[id].invert
            &&& v.filtered_by(seq![arg, "--invert"@, word]).filters[id].pattern == word
            &&& v.filtered_by(seq![arg, word, "--context"@, scan::decimal(c)]).filters[id].context == c
            &&& v.filtered_by(seq![arg, word, "--context"@, scan::decimal(c)]).filters[id].pattern == word
            &&& !v.filtered_by(seq![arg, word, "--clear"@]).filters.contains_key(id)
        }),
{
    flags_differ();
    replies::decimal_reads_back(c);
    reveal_with_fuel(filters::read_flags, 4);
    assert(!scan::begins(word, "--"@)) by {
        reveal_strlit("--");
        if scan::begins(word, "--"@) {
            assert(word.subrange(0, 2)[0] == '-');
        }
    }
    assert(word != "--regex"@ && word != "--case"@ && word != "--invert"@ && word != "--clear"@ && word
        != "--context"@);
    let words = filters::no_flags().words.push(word);
    assert(words =~= seq![word]);
    assert(scan::join(words, " "@) == word);
}

proof fn flags_differ()
    ensures
        "--regex"@[0] == '-' && "--case"@[0] == '-' && "--invert"@[0] == '-' && "--clear"@[0] == '-'
            && "--context"@[0] == '-',
        "--regex"@ != "--case"@ && "--regex"@ != "--invert"@ && "--regex"@ != "--clear"@ && "--regex"@
            != "--context"@,
        "--case"@ != "--invert"@ && "--case"@ != "--clear"@ && "--case"@ != "--context"@,
        "--invert"@ != "--clear"@ && "--invert"@ != "--context"@ && "--clear"@ != "--context"@,
{
    reveal_strlit("--regex");
    reveal_strlit("--case");
    reveal_strlit("--invert");
    reveal_strlit("--clear");
    reveal_strlit("--context");
    assert("--regex"@[2] == 'r' && "--case"@[2] == 'c' && "--invert"@[2] == 'i' && "--clear"@[3] == 'l'
        && "--context"@[3] == 'o' && "--case"@[3] == 'a' && "--clear"@[2] == 'c' && "--context"@[2] == 'c');
}

// ---------------------------------------------------------------------------
// Replies taken apart
// ---------------------------------------------------------------------------

/// A fence.
pub open spec fn is_fence(line: Seq<char>) -> bool {
    scan::begins(scan::trim_start(line), "```"@)
}

proof fn fenced_in(list: Seq<Seq<char>>, i: int, j: int, open: Seq<char>)
    requires
        0 <= i <= j < list.len(),
        forall|k: int| i <= k < j ==> !is_fence(#[trigger] list[k]),
        is_fence(list[j]),
        open.len() > 0 || i == j || list[i].len() > 0,
    ensures
        replies::fenced_from(list, i, Some(open)) == seq![
            if i == j {
                open
            } else if open.len() == 0 {
                scan::join(list.subrange(i, j), "\n"@)
            } else {
                open.push('\n') + scan::join(list.subrange(i, j), "\n"@)
            },
        ] + replies::fenced_from(list, j + 1, None),
    decreases j - i,
{
    reveal_strlit("\n");
    assert("\n"@ =~= seq!['\n']);
    if i < j {
        assert(!is_fence(list[i]));
        let next = replies::add_line(open, list[i]);
        if open.len() == 0 {
            assert(next.len() > 0);
        }
        fenced_in(list, i + 1, j, next);
        join_first(list.subrange(i, j));
        assert(list.subrange(i, j).drop_first() =~= list.subrange(i + 1, j));
        if i + 1 < j {
            if open.len() == 0 {
                assert(next.push('\n') + scan::join(list.subrange(i + 1, j), "\n"@) =~= scan::join(
                    list.subrange(i, j),
                    "\n"@,
                ));
            } else {
                assert(next.push('\n') + scan::join(list.subrange(i + 1, j), "\n"@) =~= open.push('\n')
                    + scan::join(list.subrange(i, j), "\n"@));
            }
        } else {
            assert(list.subrange(i, j) =~= seq![list[i]]);
        }
    }
}

proof fn join_first(parts: Seq<Seq<char>>)
    requires
        parts.len() > 0,
    ensures
        parts.len() > 1 ==> scan::join(parts, "\n"@) == parts[0] + "\n"@ + scan::join(
            parts.drop_first(),
            "\n"@,
        ),
    decreases parts.len(),
{
    if parts.len() > 2 {
        join_first(parts.drop_last());
        assert(parts.drop_last().drop_first() =~= parts.drop_first().drop_last());
        assert(scan::join(parts, "\n"@) =~= parts[0] + "\n"@ + scan::join(parts.drop_first(), "\n"@));
    } else if parts.len() == 2 {
        assert(parts.drop_last() =~= seq![parts[0]]);
        assert(parts.drop_first() =~= seq![parts[1]]);
        assert(scan::join(parts.drop_last(), "\n"@) == parts[0]);
    }
}

proof fn before_the_fence(list: Seq<Seq<char>>, i: int, k: int)
    requires
        0 <= i <= k < list.len(),
        forall|j: int| i <= j < k ==> !is_fence(#[trigger] list[j]),
        is_fence(list[k]),
    ensures
        replies::fenced_from(list, i, None) == replies::fenced_from(list, k + 1, Some(Seq::empty())),
    decreases k - i,
{
    if i < k {
        assert(!is_fence(list[i]));
        before_the_fence(list, i + 1, k);
    }
}

/// The first code block of a reply is what stands between its first two fences, line by line.
pub proof fn code_blocks_stand_between_fences(reply: Seq<char>, k: int, j: int)
    requires
        0 <= k,
        k + 1 < j < scan::lines(reply).len(),
        is_fence(scan::lines(reply)[k]),
        is_fence(scan::lines(reply)[j]),
        forall|i: int| 0 <= i < k ==> !is_fence(#[trigger] scan::lines(reply)[i]),
        forall|i: int| k < i < j ==> !is_fence(#[trigger] scan::lines(reply)[i]),
        scan::lines(reply)[k + 1].len() > 0,
    ensures
        replies::fenced(reply).len() > 0,
        replies::fenced(reply)[0] == scan::join(scan::lines(reply).subrange(k + 1, j), "\n"@),
{
    let list = scan::lines(reply);
    before_the_fence(list, 0, k);
    fenced_in(list, k + 1, j, Seq::empty());
}

/// A command that the model drafts in a line of its own is taken as it is.
pub proof fn drafted_lines_are_taken_as_they_are(line: Seq<char>)
    requires
        line.len() > 0,
        !line.contains('\n') && !line.contains('\r'),
        scan::trim(line) == line,
        line[0] != '`' && line[0] != '$',
    ensures
        replies::draft_line(line) == Some(line),
{
    let list = scan::lines(line);
    scan::seek_spec(line, '\n', 0);
    let n = scan::seek(line, '\n', 0);
    if n < line.len() {
        assert(line.contains(line[n]));
    }
    assert(scan::line_at(line, 0, n) =~= line);
    assert(scan::lines_from(line, n + 1) =~= Seq::empty());
    assert(list =~= seq![line]);
    reveal_strlit("```");
    reveal_strlit("$ ");
    if scan::begins(line, "```"@) {
        assert(line.subrange(0, 3)[0] == '`');
    }
    if scan::begins(line, "$ "@) {
        assert(line.subrange(0, 2)[0] == '$');
    }
    assert(replies::first_usable(list, 0) == Some(line));
}

// ---------------------------------------------------------------------------
// What is listed
// ---------------------------------------------------------------------------

/// The row of a model names it, with its status, and marks the one in use.
pub proof fn model_rows_name_the_model(m: ModelView, active: Seq<char>)
    ensures
        scan::contains_text(events::model_row(m, active), m.id),
        m.id == active ==> scan::contains_text(events::model_row(m, active), " (active)"@),
        m.status matches Some(status) ==> scan::contains_text(events::model_row(m, active), status),
{
    let tail = match m.status {
        Some(status) => " · "@ + status,
        None => Seq::empty(),
    };
    let mark = if m.id == active {
        "● "@
    } else {
        "  "@
    };
    let note = if m.id == active {
        " (active)"@
    } else {
        Seq::empty()
    };
    let all = events::model_row(m, active);
    assert(all =~= mark + m.id + (note + tail));
    laws_commands::piece(mark, m.id, note + tail);
    assert(all =~= mark + m.id + note + tail);
    laws_commands::piece(mark + m.id, note, tail);
    if let Some(status) = m.status {
        laws_commands::piece(mark + m.id + note + " · "@, status, Seq::empty());
        assert(all =~= mark + m.id + note + " · "@ + status + Seq::<char>::empty());
    }
}

/// The row of a provider names it, by its label and its id, and says what it is.
pub proof fn provider_rows_name_the_provider(p: PresetView)
    ensures
        scan::contains_text(desk::preset_row(p), p.label),
        scan::contains_text(desk::preset_row(p), p.id),
        scan::contains_text(desk::preset_row(p), p.description),
{
    let row = desk::preset_row(p);
    let last = "  ["@ + p.id + "]"@;
    laws_commands::piece(Seq::empty(), p.label, "  ·  "@ + p.description + last);
    assert(row =~= Seq::<char>::empty() + p.label + ("  ·  "@ + p.description + last));
    laws_commands::piece(p.label + "  ·  "@, p.description, last);
    assert(row =~= p.label + "  ·  "@ + p.description + last);
    laws_commands::piece(p.label + "  ·  "@ + p.description + "  ["@, p.id, "]"@);
}

/// The list of the user's own commands holds each of them, with what it does.
pub proof fn own_commands_are_listed(
    list: Seq<CustomView>,
    shadowed: Seq<bool>,
    dir: Seq<char>,
    project: Seq<char>,
    i: int,
)
    requires
        0 <= i < list.len(),
        shadowed.len() == list.len(),
    ensures
        scan::contains_text(commands::customs_note(list, shadowed, dir, project), list[i].name),
        scan::contains_text(commands::customs_note(list, shadowed, dir, project), list[i].description),
{
    custom_row_is(list, shadowed, list.len() as int, i);
    let rows = commands::custom_rows(list, shadowed, list.len() as int);
    let parts = seq!["Saved workflows"@, Seq::empty()] + rows;
    let note = scan::join(parts, "\n"@);
    assert(parts[2 + i] == rows[i]);
    joined_holds(parts, "\n"@, 2 + i);
    let c = list[i];
    let row = rows[i];
    let blanks = scan::repeat_char(' ', 18 - c.name.len());
    let tail = " ("@ + c.source + ")"@ + (if shadowed[i] {
        " (shadowed by built-in)"@
    } else {
        Seq::empty()
    });
    laws_commands::piece("  /"@, c.name, blanks + " "@ + c.description + tail);
    assert(row =~= "  /"@ + c.name + (blanks + " "@ + c.description + tail));
    laws_commands::piece("  /"@ + c.name + blanks + " "@, c.description, tail);
    assert(row =~= "  /"@ + c.name + blanks + " "@ + c.description + tail);
    inside(note, row, c.name);
    inside(note, row, c.description);
}

proof fn inside(s: Seq<char>, part: Seq<char>, p: Seq<char>)
    requires
        scan::contains_text(s, part),
        scan::contains_text(part, p),
    ensures
        scan::contains_text(s, p),
{
    let i = choose|i: int| #[trigger] scan::occurs_at(s, part, i);
    let head = s.take(i);
    let tail = s.skip(i + part.len());
    assert(s =~= head + part + tail) by {
        assert(s.subrange(i, i + part.len()) == part);
        assert forall|k: int| i <= k < i + part.len() implies s[k] == part[k - i] by {
            assert(s.subrange(i, i + part.len())[k - i] == s[k]);
        }
    }
    laws_commands::piece_of_a_part(head, part, tail, p);
}

proof fn custom_row_is(list: Seq<CustomView>, shadowed: Seq<bool>, n: int, i: int)
    requires
        0 <= i < n <= list.len(),
        shadowed.len() == list.len(),
    ensures
        commands::custom_rows(list, shadowed, n).len() == n,
        commands::custom_rows(list, shadowed, n)[i] == "  /"@ + scan::pad_right(list[i].name, 18) + " "@
            + list[i].description + " ("@ + list[i].source + ")"@ + (if shadowed[i] {
            " (shadowed by built-in)"@
        } else {
            Seq::empty()
        }),
    decreases n,
{
    reveal_with_fuel(commands::custom_rows, 2);
    if i < n - 1 {
        custom_row_is(list, shadowed, n - 1, i);
    } else if n > 1 {
        custom_row_is(list, shadowed, n - 1, 0);
    }
}

/// What is told of the context holds how much is used, of how much, and how full it is.
pub proof fn contexts_are_told_in_numbers(c: ContextText)
    ensures
        scan::contains_text(
            commands::context_note(c),
            scan::decimal(c.used as nat) + " / "@ + scan::decimal(c.total as nat) + " tokens ("@ + c.percent@
                + "%"@,
        ),
{
    let mid = scan::decimal(c.used as nat) + " / "@ + scan::decimal(c.total as nat) + " tokens ("@
        + c.percent@ + "%"@;
    let tail = ", "@ + c.source@ + " confidence)"@ + commands::cache_note(c.cache_hit, c.cache_miss);
    reveal_strlit("%, ");
    reveal_strlit("%");
    reveal_strlit(", ");
    laws_commands::piece("Context: "@, mid, tail);
    assert("%, "@ =~= "%"@ + ", "@);
    assert(commands::context_note(c) =~= "Context: "@ + mid + tail);
}

/// Help that is asked for is told: of a command where it names one, and else of all.
pub proof fn help_is_told(
    v: PaneView,
    help: Seq<char>,
    usage: Seq<char>,
    description: Seq<char>,
    word: Seq<char>,
    customs: Seq<CustomView>,
)
    ensures
        v.help_asked(Seq::empty(), help, None, customs) == v.told(help),
        v.help_asked(seq![word], help, Some((usage, description)), customs) == v.told(
            usage + "\n  "@ + description,
        ),
{
}

/// A directory that is attached holds each of its entries, in text order.
pub proof fn attached_directories_hold_their_entries(path: Seq<char>, entries: Seq<Seq<char>>, i: int)
    requires
        0 <= i < entries.len(),
    ensures
        scan::contains_text(shell::directory_text(path, entries), entries[i]),
        scan::contains_text(shell::directory_text(path, entries), path),
{
    let before = |a: Seq<char>, b: Seq<char>| files::text_before(a, b, 0);
    assert(files::orders(before)) by {
        assert forall|a: Seq<char>, b: Seq<char>| #[trigger] before(a, b) implies !before(b, a) by {
            files::texts_are_ordered(a, b, b);
        }
        assert forall|a: Seq<char>, b: Seq<char>, c: Seq<char>| #[trigger]
            before(a, b) && !before(c, b) implies #[trigger] before(a, c) by {
            files::texts_are_ordered(a, b, c);
        }
    }
    files::ordered_is_sorted(entries, before, entries.len() as int);
    assert(entries.take(entries.len() as int) =~= entries);
    let sorted = files::sorted_texts(entries);
    sorted.to_multiset_ensures();
    entries.to_multiset_ensures();
    assert(entries.contains(entries[i]));
    assert(sorted.to_multiset().count(entries[i]) > 0);
    assert(sorted.contains(entries[i]));
    let k = sorted.index_of(entries[i]);
    joined_holds(sorted, "\n"@, k);
    let list = scan::join(sorted, "\n"@);
    let head = "<directory path=\""@ + path + "\">\n"@;
    let tail = "\n</directory>"@;
    laws_commands::piece_of_a_part(head, list, tail, entries[i]);
    laws_commands::piece("<directory path=\""@, path, "\">\n"@ + list + tail);
    assert(shell::directory_text(path, entries) =~= "<directory path=\""@ + path + ("\">\n"@ + list + tail));
}

// ---------------------------------------------------------------------------
// Clicks
// ---------------------------------------------------------------------------

proof fn reaches(s: Seq<char>, k: int, drawn: int, target: int, width: int)
    requires
        0 <= k <= s.len(),
        drawn <= target,
        !s.contains('\n'),
    ensures
        mouse::reached(s, k, drawn, target, width) == (if k + (target - drawn) <= s.len() {
            k + (target - drawn)
        } else {
            s.len() as int
        }),
    decreases s.len() - k,
{
    if k < s.len() && drawn < target {
        assert(s.contains(s[k]));
        reaches(s, k + 1, drawn + 1, target, width);
    }
}

/// A click in a draft of one line puts the cursor before the character that is drawn there,
/// and behind the last one where none is.
pub proof fn clicks_put_the_cursor_where_they_are(draft: Seq<char>, r: Rect, k: int)
    requires
        !draft.contains('\n'),
        r.width > 2,
        r.height > 1,
        0 <= k,
        k + 2 < r.width - 2,
        r.x + 1 + k + 2 <= u16::MAX,
        r.y + 1 <= u16::MAX,
    ensures
        mouse::place_under(draft, r, (r.x + 1 + k + 2) as u16, (r.y + 1) as u16) == (if k <= draft.len() {
            k
        } else {
            draft.len() as int
        }),
{
    reveal_strlit("> ");
    let s = "> "@ + draft;
    assert(!s.contains('\n')) by {
        if s.contains('\n') {
            let i = choose|i: int| 0 <= i < s.len() && s[i] == '\n';
            if i >= 2 {
                assert(draft[i - 2] == '\n');
                assert(draft.contains('\n'));
            }
        }
    }
    let width = r.width - 2;
    assert(0 * width + (k + 2) == k + 2);
    reaches(s, 0, 0, k + 2, width);
}

/// A click on the row of a command selects it, and a click on the selected one makes it the
/// draft.
pub proof fn clicked_commands_become_the_draft(
    s: SceneView,
    column: u16,
    row: u16,
    found: Seq<ItemView>,
    i: int,
)
    requires
        s.pane.drawn.palette is Some,
        mouse::framed_item(
            s.pane.drawn.palette->0,
            column,
            row,
            s.desk.palette_scroll,
            s.pane.drawn.palette_count,
        ) == Some(i),
        0 <= i < palette::palette_rows(found, s.desk.recent, s.pane.settings, s.pane.mode).len(),
    ensures
        ({
            let t = s.palette_clicked(column, row, found);
            &&& t is Some
            &&& s.desk.palette_selected != i ==> t->0.desk.palette_selected == i && t->0.pane == s.pane
            &&& s.desk.palette_selected == i ==> t->0.pane.composer.text == palette::palette_rows(
                found,
                s.desk.recent,
                s.pane.settings,
                s.pane.mode,
            )[i].name + " "@
        }),
{
}

/// A row of a framed list is the item that is drawn there.
pub proof fn framed_rows_are_their_items(r: Rect, column: u16, row: u16, scroll: int, count: int)
    requires
        r.holds(column as int, row as int),
        r.y < row,
        row - r.y - 1 < r.height - 2,
        scroll + (row - r.y - 1) < count,
    ensures
        mouse::framed_item(r, column, row, scroll, count) == Some(scroll + (row - r.y - 1)),
{
}

/// A click on the chip of a tab asks for that tab.
pub proof fn clicked_chips_ask_for_their_tab(w: WindowView, column: u16, row: u16, i: int)
    requires
        w.bar.valid(),
        w.bar.tabs.len() <= usize::MAX,
        0 <= i < w.bar.regions(window::names_of(w.panes)).len(),
        w.bar.on_bar(column as int, row as int),
        w.bar.regions(window::names_of(w.panes))[i].start <= column
            < w.bar.regions(window::names_of(w.panes))[i].end,
        !w.bar.cross_at(window::names_of(w.panes), column as int, row as int),
    ensures
        w.bar_clicked(column, row) == Some(w.asking(WindowAskView::SwitchTab(i as usize))),
{
    reveal(WindowView::bar_clicked);
    let names = window::names_of(w.panes);
    let list = w.bar.regions(names);
    tabs::chips_are_disjoint(w.bar, names);
    assert(list[i].index == i);
    if i < list.len() - 1 {
        assert(list[i].end < list[list.len() - 1].start);
        assert(list.last() == list[list.len() - 1]);
        ends_after_start(w, names, list.len() - 1);
    }
    region_found(list, column as int, 0, i);
}

proof fn ends_after_start(w: WindowView, names: Seq<Seq<char>>, k: int)
    requires
        0 <= k < w.bar.regions(names).len(),
    ensures
        w.bar.regions(names)[k].start <= w.bar.regions(names)[k].end,
{
    starts_first(w, names, 0, w.bar.rect.x + 6, k);
}

proof fn starts_first(w: WindowView, names: Seq<Seq<char>>, i: int, from: int, k: int)
    requires
        0 <= from,
        0 <= i,
        0 <= k < w.bar.regions_from(names, i, from).len(),
    ensures
        w.bar.regions_from(names, i, from)[k].start <= w.bar.regions_from(names, i, from)[k].end,
    decreases w.bar.tabs.len() - i,
{
    let end = from + w.bar.chip(i, names).len();
    if k > 0 {
        starts_first(w, names, i + 1, end + 1, k - 1);
    }
}

proof fn region_found(list: Seq<tabs::Region>, column: int, i: int, k: int)
    requires
        0 <= i <= k < list.len(),
        list[k].start <= column < list[k].end,
        forall|a: int, b: int| 0 <= a < b < list.len() ==> (#[trigger] list[a]).end < (#[trigger] list[b]).start,
    ensures
        tabs::region_at(list, column, i) == Some(list[k].index as int),
    decreases k - i,
{
    if i < k {
        assert(list[i].end < list[k].start);
        region_found(list, column, i + 1, k);
    }
}

// ---------------------------------------------------------------------------
// Words
// ---------------------------------------------------------------------------

proof fn words_hold_from(s: Seq<char>, i: int)
    requires
        0 <= i <= s.len(),
    ensures
        scan::words_from(s, i).flatten() == s.skip(i).filter(|c: char| !text::white(c)),
        forall|k: int|
            0 <= k < scan::words_from(s, i).len() ==> (#[trigger] scan::words_from(s, i)[k]).len() > 0 && forall|
                j: int,
            | 0 <= j < scan::words_from(s, i)[k].len() ==> !text::white(#[trigger] scan::words_from(s, i)[k][j]),
    decreases s.len() - i,
{
    let f = |c: char| !text::white(c);
    let a = scan::skip_white(s, i);
    scan::skip_white_bounds(s, i);
    none_kept(s.subrange(i, a), f);
    assert(s.skip(i) =~= s.subrange(i, a) + s.skip(a));
    Seq::filter_distributes_over_add(s.subrange(i, a), s.skip(a), f);
    assert(s.subrange(i, a).filter(f) + s.skip(a).filter(f) =~= s.skip(a).filter(f));
    if i < s.len() && a < s.len() {
        let b = scan::skip_word(s, a);
        scan::skip_word_bounds(s, a);
        assert(b > a) by {
            assert(!text::white(s[a]));
        }
        words_hold_from(s, b);
        let word = s.subrange(a, b);
        let rest = scan::words_from(s, b);
        let all = scan::words_from(s, i);
        assert(all == seq![word] + rest);
        assert(all.first() == word);
        assert(all.drop_first() =~= rest);
        all_kept(word, f);
        assert(s.skip(a) =~= word + s.skip(b));
        Seq::filter_distributes_over_add(word, s.skip(b), f);
        assert forall|k: int| 0 <= k < all.len() implies (#[trigger] all[k]).len() > 0 && forall|j: int|
            0 <= j < all[k].len() ==> !text::white(#[trigger] all[k][j]) by {
            if k > 0 {
                assert(all[k] == rest[k - 1]);
            }
        }
    } else {
        assert(scan::words_from(s, i) =~= Seq::empty());
        assert(s.skip(a) =~= Seq::empty());
        reveal(Seq::filter);
        assert(scan::words_from(s, i).flatten() =~= Seq::empty());
    }
}

proof fn none_kept(s: Seq<char>, f: spec_fn(char) -> bool)
    requires
        forall|i: int| 0 <= i < s.len() ==> !f(#[trigger] s[i]),
    ensures
        s.filter(f) == Seq::<char>::empty(),
    decreases s.len(),
{
    reveal(Seq::filter);
    if s.len() > 0 {
        assert(!f(s[s.len() - 1]));
        none_kept(s.drop_last(), f);
    }
}

proof fn all_kept(s: Seq<char>, f: spec_fn(char) -> bool)
    requires
        forall|i: int| 0 <= i < s.len() ==> f(#[trigger] s[i]),
    ensures
        s.filter(f) == s,
    decreases s.len(),
{
    reveal(Seq::filter);
    if s.len() > 0 {
        assert(f(s[s.len() - 1]));
        all_kept(s.drop_last(), f);
        assert(s.drop_last().push(s.last()) =~= s);
    } else {
        assert(s =~= Seq::empty());
    }
}

/// The words of a text are what is left of it without white space, in order, and none of them
/// is empty or holds any.
pub proof fn words_are_all_but_white_space(s: Seq<char>)
    ensures
        scan::words(s).flatten() == s.filter(|c: char| !text::white(c)),
        forall|k: int|
            0 <= k < scan::words(s).len() ==> (#[trigger] scan::words(s)[k]).len() > 0 && forall|j: int|
                0 <= j < scan::words(s)[k].len() ==> !text::white(#[trigger] scan::words(s)[k][j]),
{
    words_hold_from(s, 0);
    assert(s.skip(0) =~= s);
}

} // verus!
