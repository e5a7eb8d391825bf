//! Conversations: how they are drawn, folded, filtered and cut.

use r105_ui::effects::Effect;
use r105_ui::events::StatusTone;
use r105_ui::filters::{
    apply_block_filter, block_copy_content, parse_block_filter, BlockFilter, FilterAction,
};
use r105_ui::frames::FooterFacts;
use r105_ui::model::{user_history, FunctionCall, Message, ToolCall};
use r105_ui::paint::Color;
use r105_ui::pane::Pane;
use r105_ui::render::{TodoItem, TodoStatus};
use r105_ui::replies::{rerun_target, split_compact};
use r105_ui::sessions::SessionRequest;
use r105_ui::settings::{Mode, Settings};

fn settings() -> Settings {
    Settings {
        theme: "midnight".to_string(),
        model: "local".to_string(),
        quality: None,
        profile: None,
        reasoning_effort: "auto".to_string(),
        permission_posture: "full-access".to_string(),
        auto_compact: true,
        cache_prompt: true,
        json_mode: false,
        show_thinking: true,
        thinking_default_expanded: false,
        max_tokens: None,
        keybindings: Vec::new(),
    }
}

fn pane() -> Pane {
    Pane::new(1, settings(), Mode::Build, "/repo".to_string(), 0, true, false)
}

fn words(list: &[&str]) -> Vec<String> {
    list.iter().map(|word| word.to_string()).collect()
}

fn footer_facts() -> FooterFacts {
    FooterFacts {
        tenths: 1,
        percent: "10.0".to_string(),
        high: false,
        used: 10,
        total: 100,
        branch: None,
        sandbox: "none".to_string(),
    }
}

/// What a pane shows: its conversation, the draft and the footer.
fn render_lines(app: &mut Pane, height: u16) -> String {
    let mut out: Vec<String> = app
        .draw_transcript(height)
        .iter()
        .map(|row| row.line.text())
        .collect();
    let (rule, draft) = app.draw_composer(false, 80);
    out.push(rule.text());
    out.push(draft.text());
    let (first, second) = app.draw_footer(&footer_facts());
    out.push(first.text());
    out.push(second.text());
    out.join("\n")
}

fn system_notes(app: &Pane) -> Vec<String> {
    app.log
        .history
        .iter()
        .filter(|message| message.role == "system")
        .map(|message| message.content.clone())
        .collect()
}

fn user_messages(app: &Pane) -> Vec<String> {
    app.log
        .history
        .iter()
        .filter(|message| message.role == "user")
        .map(|message| message.content.clone())
        .collect()
}

fn filter(pattern: &str) -> BlockFilter {
    BlockFilter {
        pattern: pattern.to_string(),
        regex: false,
        case: false,
        invert: false,
        context: 0,
    }
}

#[test]
fn harness_renders_status_and_composer_text() {
    let mut app = pane();
    app.set_status("Hello status".to_string());
    app.composer.set_input("hello world".to_string());
    let joined = render_lines(&mut app, 24);
    assert!(
        joined.contains("Hello status"),
        "status line missing:\n{joined}"
    );
    assert!(
        joined.contains("> hello world"),
        "composer text missing:\n{joined}"
    );
}

/// Empty-composer hint: idle coaching is a display-only string, never part of the input; an
/// active walk retitles the composer.
#[test]
fn empty_composer_shows_teaching_hint() {
    let mut app = pane();
    let joined = render_lines(&mut app, 24);
    assert!(
        joined.contains("Ask anything · shell runs"),
        "idle hint missing:\n{joined}"
    );
    assert!(app.composer.input.is_empty());

    app.log.push(Message::user("old"));
    let history = user_history(&app.log.history);
    app.composer.history_previous(&history);
    app.composer.input.clear();
    app.composer.cursor = 0;
    let walking = render_lines(&mut app, 24);
    assert!(
        walking.contains("Esc restores"),
        "walk title missing:\n{walking}"
    );
}

/// The composer carries a visible reversed cursor cell.
#[test]
fn composer_draws_cursor_cell() {
    let mut app = pane();
    app.composer.set_input("git status".to_string());
    app.composer.cursor = 4;
    let (_, draft) = app.draw_composer(true, 80);
    let reversed = draft
        .spans
        .iter()
        .filter(|span| span.style.reversed)
        .count();
    assert!(reversed >= 1, "cursor cell missing");
}

/// `/filter` parsing: flags, `#n` form, clear, bad regex, missing context value,
/// out-of-range blocks.
#[test]
fn block_filter_parses() {
    assert_eq!(
        parse_block_filter(3, &words(&[])).unwrap(),
        FilterAction::List
    );
    match parse_block_filter(3, &words(&["#2", "error", "--context", "1"])).unwrap() {
        FilterAction::Store(index, filter) => {
            assert_eq!(index, 1);
            assert_eq!(filter.context, 1);
            assert_eq!(filter.describe(), "\"error\" · ctx 1");
        }
        other => panic!("{other:?}"),
    }
    match parse_block_filter(3, &words(&["2"])).unwrap() {
        FilterAction::Clear(index) => assert_eq!(index, 1),
        other => panic!("{other:?}"),
    }
    assert!(parse_block_filter(3, &words(&["9", "x"])).is_err());
    assert!(parse_block_filter(3, &words(&["1", "[", "--regex"])).is_err());
    assert!(parse_block_filter(3, &words(&["1", "--context"])).is_err());
    assert!(parse_block_filter(0, &words(&["1", "x"])).is_err());
}

/// `/filter` application: hits, context windows, invert, regex, case, and the all-hidden
/// case.
#[test]
fn block_filter_keeps_hits_and_context() {
    let body = "alpha\nbeta error\ngamma\ndelta error\nepsilon";
    let base = filter("error");
    let filtered = apply_block_filter(body, &base);
    assert_eq!(filtered.shown, vec!["beta error", "delta error"]);
    assert_eq!(filtered.hidden, 3);

    let contextual = BlockFilter {
        context: 1,
        ..base.clone()
    };
    let filtered = apply_block_filter(body, &contextual);
    assert_eq!(filtered.shown.len(), 5);
    assert_eq!(filtered.hidden, 0);

    let inverted = BlockFilter {
        invert: true,
        ..base.clone()
    };
    assert_eq!(
        apply_block_filter(body, &inverted).shown,
        vec!["alpha", "gamma", "epsilon"]
    );

    let regex = BlockFilter {
        pattern: "err.r".into(),
        regex: true,
        ..base.clone()
    };
    assert_eq!(apply_block_filter(body, &regex).shown.len(), 2);

    let case = BlockFilter {
        pattern: "ERROR".into(),
        case: true,
        ..base
    };
    let all_hidden = apply_block_filter(body, &case);
    assert!(all_hidden.shown.is_empty());
    assert_eq!(all_hidden.hidden, 5);
}

/// `/filter` stores by message id and bare `/filter <n>` clears.
#[test]
fn filter_command_stores_and_clears() {
    let mut app = pane();
    app.log.push(Message::user("hello"));
    let id = app.log.section_id(0);
    app.log.command_filter(&words(&["1", "err"]));
    assert!(app.log.block_filters.get(&id).is_some());
    app.log.command_filter(&words(&["#1"]));
    assert!(app.log.block_filters.is_empty());
}

/// `/copy out` payload: verbatim without a filter, filtered view with one.
#[test]
fn copy_payload_respects_filter() {
    let body = "keep\nnoise\nkeep too";
    assert_eq!(block_copy_content(body, None), body);
    let filter = BlockFilter {
        pattern: "keep".into(),
        regex: false,
        case: false,
        invert: false,
        context: 0,
    };
    assert_eq!(block_copy_content(body, Some(&filter)), "keep\nkeep too");
}

/// Rerun resolves explicit blocks, defaults to the last user turn, and refuses non-user
/// blocks and out-of-range numbers.
#[test]
fn rerun_resolves_user_blocks_only() {
    let history = vec![
        Message::user("first"),
        Message::assistant_with_tools("ok", vec![]),
        Message::user("!ls -la"),
    ];
    assert_eq!(rerun_target(&history, None).unwrap(), "!ls -la");
    assert_eq!(rerun_target(&history, Some(1)).unwrap(), "first");
    assert!(rerun_target(&history, Some(2)).is_err());
    assert!(rerun_target(&history, Some(9)).is_err());
    assert!(rerun_target(&Vec::new(), None).is_err());
}

/// `/expand #n` maps a block to its section; failed tool blocks and non-section blocks
/// refuse with a status note.
#[test]
fn expand_accepts_block_address() {
    let mut app = pane();
    app.log.push(Message::tool("call-1", "tool error: boom"));
    let id = app.log.section_id(0);
    app.log.section_order = vec![(id.clone(), false)];
    app.log.command_expand(&words(&["#1"]));
    assert!(
        app.log.section_state.get(&id).is_none(),
        "failed tool block must stay expanded"
    );

    app.log.history[0].content = "clean output".into();
    app.log.command_expand(&words(&["#1"]));
    assert_eq!(app.log.section_state.get(&id), Some(&true));

    app.log.push(Message::user("hi"));
    app.log.command_expand(&words(&["#2"]));
    assert!(
        app.log.status.contains("not a collapsible section"),
        "status: {}",
        app.log.status
    );
}

/// The transcript renders block addresses as `#n` so `/filter`, `/block`, and `/rerun`
/// targets are visible.
#[test]
fn transcript_renders_block_numbers() {
    let mut app = pane();
    app.log.push(Message::user("hello"));
    app.log.push(Message::assistant_with_tools("hi", vec![]));
    let joined = render_lines(&mut app, 24);
    assert!(
        joined.contains("USER #1"),
        "block gutter missing:\n{joined}"
    );
    assert!(
        joined.contains("ASSISTANT #2"),
        "block gutter missing:\n{joined}"
    );
}

/// The task list renders as a collapsible TASKS section and the footer counts progress;
/// collapsing uses the same section state as `/expand`.
#[test]
fn todo_render_section_collapses() {
    let mut app = pane();
    app.todos = vec![
        TodoItem {
            content: "first".to_string(),
            status: TodoStatus::Completed,
        },
        TodoItem {
            content: "second".to_string(),
            status: TodoStatus::InProgress,
        },
    ];
    let joined = render_lines(&mut app, 30);
    assert!(joined.contains("TASKS"), "section missing:\n{joined}");
    assert!(joined.contains("✓ first"), "done marker missing:\n{joined}");
    assert!(
        joined.contains("▶ second"),
        "active marker missing:\n{joined}"
    );
    assert!(
        joined.contains("tasks 1/2"),
        "footer count missing:\n{joined}"
    );
    app.log.section_state.insert("todos".to_string(), false);
    let collapsed = render_lines(&mut app, 30);
    assert!(
        collapsed.contains("1/2 done"),
        "collapsed summary missing:\n{collapsed}"
    );
    assert!(
        !collapsed.contains("✓ first"),
        "collapsed section leaks items:\n{collapsed}"
    );
}

/// Shrinking conversations leave nothing behind.
#[test]
fn redraw_clears_shrunk_transcript() {
    let mut app = pane();
    app.log.push(Message::user("old leftover line"));
    assert!(render_lines(&mut app, 24).contains("old leftover"));
    app.log.history.clear();
    assert!(
        !render_lines(&mut app, 24).contains("old leftover"),
        "stale glyphs survived redraw"
    );
}

#[test]
fn status_error_renders_red() {
    let mut app = pane();
    app.set_error("Error demo".to_string());
    assert_eq!(app.log.status_tone, StatusTone::Error);
    app.set_ok("Ok demo".to_string());
    assert_eq!(app.log.status_tone, StatusTone::Success);
    app.set_error("Error demo".to_string());
    // The status span opens the footer, behind one space.
    let (first, _) = app.draw_footer(&footer_facts());
    let span = &first.spans[0];
    assert_eq!(span.text.chars().nth(2), Some('r'));
    assert_eq!(span.style.fg, Some(Color::Red));
}

#[test]
fn push_system_folds_consecutive_duplicates() {
    let mut app = pane();
    let before = system_notes(&app).len();
    app.push_system("Same note");
    app.push_system("Same note");
    app.push_system("Same note");
    let folded = system_notes(&app);
    assert_eq!(folded.len(), before + 1);
    assert_eq!(folded[before], "Same note (×3)");
    // A different note breaks the run; the earlier text returns plain.
    app.push_system("Other note");
    app.push_system("Same note");
    let after = system_notes(&app);
    assert_eq!(
        after[before..],
        vec!["Same note (×3)", "Other note", "Same note"]
    );
}

#[test]
fn expand_toggles_single_tool_section() {
    let mut app = pane();
    app.log.push(Message::user("do things"));
    app.log.push(Message::tool("call-1", "line1\nline2\nline3"));
    // Collapsed by default: only the first line shows, with a marker.
    let collapsed = render_lines(&mut app, 24);
    assert!(
        collapsed.contains("TOOL [1]"),
        "gutter missing:\n{collapsed}"
    );
    assert!(collapsed.contains("▸[1]"), "marker missing:\n{collapsed}");
    assert!(!collapsed.contains("line2"), "should start collapsed");
    app.log.command_expand(&words(&["1"]));
    let expanded = render_lines(&mut app, 24);
    assert!(expanded.contains("line2"), "toggle did not expand");
    assert!(expanded.contains("line3"), "toggle did not expand");
    // Toggling again collapses back to the summary row.
    app.log.command_expand(&words(&["1"]));
    let again = render_lines(&mut app, 24);
    assert!(!again.contains("line2"), "second toggle did not collapse");
}

#[test]
fn expand_all_none_and_failed_guard() {
    let mut app = pane();
    app.log.push(Message::tool("call-1", "ok1\nok1b"));
    app.log
        .push(Message::tool("call-2", "tool error: boom\ndetail"));
    let _ = render_lines(&mut app, 24);
    assert_eq!(app.log.section_order.len(), 2);
    // The failed result reports that it stays expanded.
    app.log.command_expand(&words(&["2"]));
    assert!(
        app.log.status.contains("stays expanded"),
        "guard missing: {}",
        app.log.status
    );
    let rendered = render_lines(&mut app, 24);
    assert!(rendered.contains("detail"), "failed result must expand");
    // `none` collapses the healthy section but not the failed one.
    app.log.command_expand(&words(&["none"]));
    let collapsed = render_lines(&mut app, 24);
    assert!(!collapsed.contains("ok1b"), "healthy section not collapsed");
    assert!(
        collapsed.contains("detail"),
        "failed result must stay expanded"
    );
    app.log.command_expand(&words(&["all"]));
    let all = render_lines(&mut app, 24);
    assert!(all.contains("ok1b"), "all did not expand");
    // Bare `/expand` toggles the most recent section (the failed one refuses, so point the
    // check at a healthy-only transcript).
    let mut solo = pane();
    solo.log.push(Message::tool("call-9", "solo1\nsolo2"));
    let _ = render_lines(&mut solo, 24);
    solo.log.command_expand(&words(&[]));
    let bare = render_lines(&mut solo, 24);
    assert!(
        bare.contains("solo2"),
        "bare expand did not toggle last section"
    );
}

#[test]
fn rewind_truncates_and_pushes_redo() {
    let mut app = pane();
    app.log.push(Message::user("first"));
    app.log
        .push(Message::assistant_with_tools("answer one", vec![]));
    app.log.push(Message::user("second"));
    app.log
        .push(Message::assistant_with_tools("answer two", vec![]));
    rewind(&mut app, &[]);
    let users = user_messages(&app);
    assert_eq!(users, vec!["first"]);
    assert_eq!(app.log.redo_stack.len(), 1);
    assert!(app.log.status.contains("backup checkpoint-rewind-"));
    // The boundary notice names the backup for a later restore.
    let notes = system_notes(&app);
    assert!(
        notes
            .last()
            .is_some_and(|note| note.contains("backup checkpoint-rewind-")),
        "boundary notice missing: {notes:?}"
    );
    // `/redo` re-applies the dropped turn.
    app.command_redo();
    assert_eq!(user_messages(&app), vec!["first", "second"]);
    // Two turns back drops every user message.
    rewind(&mut app, &["2"]);
    assert!(user_messages(&app).is_empty());
    // Nothing left to rewind.
    app.command_rewind(&words(&[]));
    assert_eq!(app.log.status, "Nothing to rewind");
}

/// Rewinds, with a backup that succeeds.
fn rewind(app: &mut Pane, args: &[&str]) {
    app.command_rewind(&words(args));
    match app.outbox.pop() {
        Some(Effect::Backup { reason }) => {
            let name = format!("checkpoint-{}-1", reason.word());
            app.backup_done(reason, Ok(name), 0);
        }
        other => panic!("{other:?}"),
    }
}

/// The whole conversation is handed out for a backup before anything is dropped.
#[test]
fn rewind_writes_checkpoint_backup() {
    let mut app = pane();
    app.log.push(Message::user("keep me"));
    app.log.push(Message::assistant_with_tools("kept", vec![]));
    app.command_rewind(&words(&[]));
    let backup = match app.outbox.pop() {
        Some(Effect::Backup { reason }) => reason,
        other => panic!("checkpoint backup: {other:?}"),
    };
    assert_eq!(app.log.history.len(), 2);
    assert_eq!(app.log.history[0].content, "keep me");
    let name = format!("checkpoint-{}-1", backup.word());
    assert!(name.starts_with("checkpoint-rewind-"));
    app.backup_done(backup, Ok(name), 0);
    assert!(app.log.history.len() <= 1);
}

#[test]
fn compact_split_keeps_tool_pairs_intact() {
    // Naive last-third splitting (len 9, keep 3) would cut at index 6, stranding tool
    // results whose call was summarized away.
    let history = vec![
        Message::user("u1"),
        Message::assistant_with_tools("a1", vec![]),
        Message::tool("c1", "r1"),
        Message::user("u2"),
        Message::assistant_with_tools("a2", vec![]),
        Message::tool("c2", "r2"),
        Message::tool("c3", "r3"),
        Message::user("u3"),
        Message::assistant_with_tools("a3", vec![]),
    ];
    assert_eq!(history[6].role, "tool");
    let (older, recent) = split_compact(&history);
    assert_eq!(older.len() + recent.len(), 9);
    assert_ne!(
        recent.first().map(|message| message.role.as_str()),
        Some("tool"),
        "kept tail starts mid-exchange"
    );
    assert!(recent.iter().any(|message| message.content == "a2"));
}

#[test]
fn compact_rejects_empty_summary() {
    let mut app = pane();
    for index in 0..5 {
        app.log.push(Message::user(&format!("m{index}")));
    }
    let before = app.log.history.clone();
    let recent = before[3..].to_vec();
    assert!(!app.apply_compaction("", recent.clone()));
    assert_eq!(app.log.history, before);
    assert!(
        app.log.status.contains("empty summary"),
        "status: {}",
        app.log.status
    );
    assert!(app.apply_compaction("summary text", recent));
    assert_eq!(app.log.history.len(), 3);
    assert!(app.log.history[0].content.contains("summary text"));
}

#[test]
fn fork_with_turns_snaps_to_boundary() {
    let mut app = pane();
    let call = ToolCall {
        id: "c1".to_string(),
        type_: "function".to_string(),
        function: FunctionCall {
            name: "read_file".to_string(),
            arguments: "{}".to_string(),
        },
    };
    app.log.push(Message::user("first"));
    app.log
        .push(Message::assistant_with_tools("answer", vec![call]));
    app.log.push(Message::tool("c1", "result"));
    app.log.push(Message::user("second"));
    app.log.push(Message::assistant_with_tools("later", vec![]));
    match app.command_session(&words(&["fork", "child", "1"])) {
        Some(SessionRequest::Fork {
            name,
            turns,
            end,
            parent,
        }) => {
            assert_eq!(name, "child");
            assert_eq!(end, 3);
            assert_eq!(app.log.history[2].content, "result");
            // The fork records its source (none yet: nothing saved or loaded).
            assert_eq!(parent, None);
            app.session_forked(&name, turns, end, Ok("/sessions/child.json".to_string()));
        }
        other => panic!("forked session: {other:?}"),
    }
    assert!(app.log.status.contains("Forked first 1 turn(s) as child"));
}
