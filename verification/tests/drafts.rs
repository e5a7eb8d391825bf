//! Drafts, what is offered behind them, and what becomes of them.

use r105_ui::approvals::{merge_results, ApprovalVerdict, CallCheck, Decision};
use r105_ui::commands::{CommandFacts, ConnectionText, ContextText};
use r105_ui::desk::{Desk, Preset};
use r105_ui::effects::{Effect, ToolLimits};
use r105_ui::events::{Overlay, UiEvent};
use r105_ui::ghost::TickContext;
use r105_ui::inbox::EventFacts;
use r105_ui::input::KeyFacts;
use r105_ui::keys::{Key, KeyCode};
use r105_ui::menus::ShellCandidate;
use r105_ui::model::{user_history, FunctionCall, Message, ToolCall, ToolResult};
use r105_ui::pane::{Correction, Pane};
use r105_ui::settings::{Mode, Settings};

fn settings() -> Settings {
    Settings {
        theme: "midnight".to_string(),
        model: "local".to_string(),
        quality: None,
        profile: None,
        reasoning_effort: "auto".to_string(),
        permission_posture: "full-access".to_string(),
        auto_compact: true,
        cache_prompt: true,
        json_mode: false,
        show_thinking: true,
        thinking_default_expanded: false,
        max_tokens: None,
        keybindings: Vec::new(),
    }
}

fn pane() -> Pane {
    Pane::new(1, settings(), Mode::Build, "/repo".to_string(), 0, true, false)
}

fn preset(id: &str, asks_for_url: bool, api_key_required: bool) -> Preset {
    Preset {
        id: id.to_string(),
        label: id.to_uppercase(),
        description: "hosted".to_string(),
        base_url: None,
        asks_for_url,
        api_key_required,
        api_key_env: None,
        key_at_hand: false,
    }
}

fn desk() -> Desk {
    Desk::new(
        vec!["midnight".to_string(), "dracula".to_string()],
        vec![preset("local", false, false), preset("custom", true, true)],
        true,
        true,
    )
}

fn command_facts() -> CommandFacts {
    CommandFacts {
        builtin: true,
        help: "All commands".to_string(),
        topic: None,
        expansion: None,
        found: Vec::new(),
        suggestion: None,
        connection: ConnectionText {
            name: "local".to_string(),
            backend: "llama".to_string(),
            url: "http://127.0.0.1:9".to_string(),
        },
        sandbox: "none".to_string(),
        approvals: "ask".to_string(),
        context: ContextText {
            used: 10,
            total: 100,
            percent: "10.0".to_string(),
            source: "estimated".to_string(),
            cache_hit: None,
            cache_miss: None,
        },
        url_valid: false,
        provider: String::new(),
        editor_set: false,
        commands_dir: "/config/commands".to_string(),
        project_dir: "/repo/.r105/commands".to_string(),
        shadowed: Vec::new(),
        now: 0,
    }
}

fn key_facts() -> KeyFacts {
    KeyFacts {
        reads_as_shell: false,
        candidates: Vec::new(),
        pick_is_dir: false,
        palette: Vec::new(),
        builtin: false,
        parsed: None,
        found: Vec::new(),
        command: command_facts(),
        now: 0,
    }
}

fn event_facts() -> EventFacts {
    EventFacts {
        todos: Vec::new(),
        compact_due: false,
        now: 0,
    }
}

fn plain(code: KeyCode) -> Key {
    Key::plain(code)
}

fn candidate(text: &str, line: &str) -> ShellCandidate {
    ShellCandidate {
        text: text.to_string(),
        kind: "subcommand".to_string(),
        detail: String::new(),
        whole_line: true,
        line: line.to_string(),
    }
}

fn tick() -> TickContext {
    TickContext {
        enabled: true,
        menu_open: false,
        overlay_open: false,
        busy: false,
        now: 0,
        debounce: 0,
    }
}

fn prompts(pane: &Pane) -> Vec<String> {
    user_history(&pane.log.history)
}

/// ↑/↓ walks user turns, stashes the live draft, clamps at the oldest, and restores the
/// draft past the newest.
#[test]
fn history_walk_stashes_and_restores_draft() {
    let mut app = pane();
    app.log.push(Message::user("first"));
    app.log.push(Message::user("second"));
    app.composer.set_input("draft".to_string());
    let history = prompts(&app);

    app.composer.history_previous(&history);
    assert_eq!(app.composer.input, "second");
    app.composer.history_previous(&history);
    assert_eq!(app.composer.input, "first");
    app.composer.history_previous(&history);
    assert_eq!(app.composer.input, "first", "walk clamps at the oldest turn");
    app.composer.history_next(&history);
    assert_eq!(app.composer.input, "second");
    app.composer.history_next(&history);
    assert_eq!(app.composer.input, "draft");
    assert_eq!(app.composer.hist_depth, None);
    app.composer.history_next(&history);
    assert_eq!(app.composer.input, "draft", "no walk: ↓ is a no-op");
}

/// A real edit adopts the previewed turn as the draft; Esc restores the stashed draft and
/// ends the walk.
#[test]
fn history_walk_edit_adopts_and_esc_restores() {
    let mut app = pane();
    app.log.push(Message::user("sent"));
    app.composer.set_input("draft".to_string());
    let history = prompts(&app);

    app.composer.history_previous(&history);
    app.insert_text("x");
    assert_eq!(app.composer.input, "sentx");
    assert_eq!(app.composer.hist_depth, None);

    app.composer.set_input("draft".to_string());
    app.composer.history_previous(&history);
    app.composer.end_history_walk(false);
    assert_eq!(app.composer.input, "draft");
    assert_eq!(app.composer.hist_depth, None);
}

/// The tick asks for a continuation of a rested draft.
#[test]
fn ghost_tick_suggests_from_history() {
    let mut app = pane();
    app.composer.set_input("!git sta".to_string());
    assert!(app.composer.tick_ghost(&tick()));
    app.composer.offer(Some("tus".to_string()));
    assert_eq!(app.composer.ghost_text.as_deref(), Some("tus"));
}

/// A dismissal sticks until the next edit.
#[test]
fn ghost_dismiss_stays_dismissed() {
    let mut app = pane();
    app.composer.set_input("!git sta".to_string());
    assert!(app.composer.tick_ghost(&tick()));
    app.composer.offer(Some("tus".to_string()));
    assert_eq!(app.composer.ghost_text.as_deref(), Some("tus"));
    assert!(app.composer.dismiss_ghost());
    assert!(!app.composer.tick_ghost(&tick()));
    assert!(app.composer.ghost_text.is_none(), "dismiss must stick");
    app.composer.set_input("!git statu".to_string());
    assert!(app.composer.tick_ghost(&tick()));
    app.composer.offer(Some("s".to_string()));
    assert_eq!(app.composer.ghost_text.as_deref(), Some("s"));
}

/// Model ghosts land only for the live generation and never clobber a local ghost or a
/// dismissal.
#[test]
fn ai_ghost_applies_only_when_fresh() {
    let mut app = pane();
    let mut desk = desk();
    app.composer.set_input("docker ps".to_string());
    app.composer.ai_ghost_seq = 2;
    let ghost = |seq, input: &str, suffix: &str| UiEvent::AiGhost {
        seq,
        for_input: input.to_string(),
        suffix: Some(suffix.to_string()),
    };
    app.process_event(&mut desk, ghost(1, "docker ps", " -a"), event_facts());
    assert!(app.composer.ghost_text.is_none(), "stale generation dropped");
    app.process_event(&mut desk, ghost(2, "docker ps", " -a"), event_facts());
    assert_eq!(app.composer.ghost_text.as_deref(), Some(" -a"));
    // A dismissal owns the input until the next edit.
    assert!(app.composer.dismiss_ghost());
    app.process_event(&mut desk, ghost(2, "docker ps", " -a"), event_facts());
    assert!(app.composer.ghost_text.is_none());
    // A local ghost wins any race.
    app.composer.ai_ghost_seq = 3;
    app.composer.ghost_text = Some(" --all".to_string());
    app.process_event(&mut desk, ghost(3, "docker ps", " -a"), event_facts());
    assert_eq!(app.composer.ghost_text.as_deref(), Some(" --all"));
}

#[test]
fn right_accepts_ghost_ctrl_right_takes_word() {
    let mut app = pane();
    let mut desk = desk();
    // Plain → at the end takes the whole ghost.
    app.composer.set_input("!git sta".to_string());
    app.composer.ghost_text = Some("tus".to_string());
    let right = plain(KeyCode::Right);
    app.handle_key(&mut desk, &right, key_facts());
    assert_eq!(app.composer.input, "!git status");
    // Ctrl+→ takes one word; the rest stays offered.
    app.composer.set_input("!git check".to_string());
    app.composer.ghost_text = Some("out main".to_string());
    let ctrl_right = Key {
        ctrl: true,
        ..right
    };
    app.handle_key(&mut desk, &ctrl_right, key_facts());
    assert_eq!(app.composer.input, "!git checkout");
    // Mid-line → still moves the cursor, never eats the ghost.
    app.composer.cursor = 2;
    app.composer.ghost_text = Some("out".to_string());
    app.handle_key(&mut desk, &right, key_facts());
    assert_eq!(app.composer.cursor, 3);
    assert_eq!(app.composer.ghost_text.as_deref(), Some("out"));
}

#[test]
fn correction_applies_on_right_clears_on_edit() {
    let mut app = pane();
    let mut desk = desk();
    // The worker's offer lands as a one-keystroke hint.
    let offer = UiEvent::ShellCorrection {
        failed: "gti status".to_string(),
        fixed: "git status".to_string(),
        more: vec!["get status".to_string()],
    };
    app.process_event(&mut desk, offer, event_facts());
    assert!(app.pending_correction.is_some());
    assert!(
        app.log.status.contains("Did you mean"),
        "status: {}",
        app.log.status
    );
    // → takes it into an empty composer.
    app.handle_key(&mut desk, &plain(KeyCode::Right), key_facts());
    assert_eq!(app.composer.input, "!git status");
    assert!(app.pending_correction.is_none());
    // A fresh offer dies on the next edit instead of lingering.
    app.composer.clear();
    app.pending_correction = Some(Correction {
        failed: "gti status".to_string(),
        fixed: "git status".to_string(),
        more: Vec::new(),
    });
    app.insert_text("x");
    assert!(app.pending_correction.is_none());
}

#[test]
fn ghost_tab_accepts_esc_dismisses() {
    let mut app = pane();
    let mut desk = desk();
    // Certain Tab (one row, no ghost): applies at once.
    app.composer.set_input("!git statu".to_string());
    let facts = KeyFacts {
        candidates: vec![candidate("git status", "git status")],
        ..key_facts()
    };
    app.handle_key(&mut desk, &plain(KeyCode::Tab), facts);
    assert_eq!(app.composer.input, "!git status");
    // A fresh ghost dismisses on Esc without touching the request.
    app.composer.ghost_text = Some(" --help".to_string());
    app.run.busy = false;
    app.handle_key(&mut desk, &plain(KeyCode::Esc), key_facts());
    assert!(app.composer.ghost_text.is_none());
    assert!(!app.run.busy);
}

#[test]
fn shell_tab_opens_menu_when_ambiguous() {
    let mut app = pane();
    let mut desk = desk();
    app.composer.set_input("!git sta".to_string());
    let facts = || KeyFacts {
        candidates: vec![
            candidate("git status", "git status"),
            candidate("git stash", "git stash"),
        ],
        ..key_facts()
    };
    let tab = plain(KeyCode::Tab);
    // `status` and `stash` both match: first Tab opens, input stays.
    app.handle_key(&mut desk, &tab, facts());
    assert_eq!(app.composer.input, "!git sta");
    assert!(app.sh_menu.invoked);
    assert!(app.sh_menu.sh_menu_active(&app.composer));
    // Second Tab accepts the selected row.
    app.handle_key(&mut desk, &tab, facts());
    assert_eq!(app.composer.input, "!git status");
    assert!(!app.sh_menu.invoked);
    // Reopen, then Esc closes without accepting.
    app.composer.set_input("!git sta".to_string());
    app.handle_key(&mut desk, &tab, facts());
    assert!(app.sh_menu.invoked);
    app.handle_key(&mut desk, &plain(KeyCode::Esc), key_facts());
    assert!(!app.sh_menu.invoked);
    assert_eq!(app.composer.input, "!git sta");
}

/// No marker needed: a plain `git sta` line ghosts like `!git sta`, and Tab on a bare
/// command word opens its subcommand menu.
#[test]
fn marker_free_lines_ghost_and_menu_like_bang_lines() {
    let mut app = pane();
    app.composer.set_input("git sta".to_string());
    assert!(app.composer.tick_ghost(&tick()));
    assert_eq!(
        app.composer.shell_line(true),
        Some((0, "git sta".to_string()))
    );
    app.composer.offer(Some("tus".to_string()));
    assert_eq!(app.composer.ghost_text.as_deref(), Some("tus"));
    app.composer.set_input("git".to_string());
    let rows = vec![
        candidate("git status", "git status"),
        candidate("git stash", "git stash"),
    ];
    assert!(app.sh_tab(rows, true), "Tab on a bare command word opens the menu");
    let items = &app.sh_menu.items;
    assert!(
        items
            .iter()
            .any(|item| item.text == "git status" && item.whole_line),
        "whole-line subcommand row missing: {items:?}"
    );
    app.sh_menu.close_sh_menu();
    // Prose never starves the mode cycle: Tab stays Tab.
    app.composer.set_input("hello".to_string());
    assert!(!app.sh_tab(Vec::new(), false));
}

#[test]
fn paired_input_closes_and_steps_over() {
    let mut app = pane();
    app.insert_paired('(');
    assert_eq!(app.composer.input, "()");
    assert_eq!(app.composer.cursor, 1);
    app.insert_paired(')');
    assert_eq!(app.composer.input, "()");
    assert_eq!(app.composer.cursor, 2);
}

#[test]
fn delete_word_and_line_edits() {
    let mut app = pane();
    app.composer.set_input("git status".to_string());
    app.delete_prev_word();
    assert_eq!(app.composer.input, "git ");
    app.delete_to_start();
    assert_eq!(app.composer.input, "");
    app.composer.set_input("git status".to_string());
    app.composer.cursor = 3;
    app.delete_to_end();
    assert_eq!(app.composer.input, "git");
}

#[test]
fn ctrl_p_toggles_action_palette() {
    let mut app = pane();
    let mut desk = desk();
    app.handle_key(&mut desk, &Key::ctrl('p'), key_facts());
    assert_eq!(app.composer.input, "/");
    app.handle_key(&mut desk, &Key::ctrl('p'), key_facts());
    assert!(app.composer.input.is_empty());
}

/// Warp-style Enter: bare shell-looking lines run, prose still reaches the model.
#[test]
fn enter_runs_bare_shell_lines() {
    let mut app = pane();
    let mut desk = desk();
    app.composer.set_input("echo hi".to_string());
    let (rule, _) = app.draw_composer(true, 80);
    let rendered = rule.text();
    assert!(
        rendered.contains("Shell · Enter runs"),
        "shell affordance missing:\n{rendered}"
    );
    let facts = KeyFacts {
        reads_as_shell: true,
        ..key_facts()
    };
    app.submit(&mut desk, &facts);
    assert!(app.composer.input.is_empty());
    assert!(
        app.log.status.starts_with("Running:"),
        "status: {}",
        app.log.status
    );
    assert!(
        app.log.history.iter().any(|m| m.content == "echo hi"),
        "command not in transcript"
    );
    let learned = app
        .outbox
        .iter()
        .filter(|effect| matches!(effect, Effect::Learn { command } if command == "echo hi"))
        .count();
    assert_eq!(learned, 1, "history teaches the ghost");

    // Prose stays a prompt: the composer clears for a request.
    app.composer.set_input("explain this codebase".to_string());
    app.submit(&mut desk, &key_facts());
    assert!(app.run.busy, "prose must start a request");
}

/// Bare `cd` retargets the workspace like a terminal; a missing directory errors without
/// touching it.
#[test]
fn enter_cd_changes_workspace() {
    let mut app = pane();
    let mut desk = desk();
    let facts = KeyFacts {
        reads_as_shell: true,
        ..key_facts()
    };
    app.composer.set_input("cd sub".to_string());
    app.submit(&mut desk, &facts);
    assert!(matches!(
        app.outbox.last(),
        Some(Effect::ChangeDir { path }) if path == "sub"
    ));
    app.change_dir("sub", Some("/repo/sub".to_string()));
    assert_eq!(app.workspace, "/repo/sub");
    assert!(
        app.log.status.starts_with("Workspace:"),
        "status: {}",
        app.log.status
    );
    app.composer.set_input("cd nope".to_string());
    app.submit(&mut desk, &facts);
    app.change_dir("nope", None);
    assert_eq!(app.workspace, "/repo/sub");
    assert!(
        app.log.status.contains("no such directory"),
        "status: {}",
        app.log.status
    );
}

/// `#` is natural-language command search: the composer clears and a command draft is
/// requested; a bare `#` teaches the usage.
#[test]
fn hash_describes_a_command_draft() {
    let mut app = pane();
    let mut desk = desk();
    app.composer.set_input("#list large files".to_string());
    app.submit(&mut desk, &key_facts());
    assert!(app.composer.input.is_empty());
    assert!(
        app.log.status.contains("Drafting"),
        "status: {}",
        app.log.status
    );
    app.composer.set_input("#".to_string());
    app.submit(&mut desk, &key_facts());
    assert!(app.composer.input.is_empty());
    assert!(
        app.log.status.contains("describe what you want"),
        "status: {}",
        app.log.status
    );
}

fn write_call(id: &str) -> ToolCall {
    ToolCall {
        id: id.to_string(),
        type_: "function".to_string(),
        function: FunctionCall {
            name: "write_file".to_string(),
            arguments: r#"{"path":"notes.txt","content":"hi"}"#.to_string(),
        },
    }
}

fn ask() -> Vec<CallCheck> {
    vec![CallCheck {
        decision: Decision::Ask,
        summary: "write_file notes.txt".to_string(),
        preview: None,
    }]
}

/// Card keys resolve in order: deny delivers without running, approve-once runs the call
/// and merges back into call order.
#[test]
fn approval_card_keys_resolve() {
    let mut app = pane();
    let mut desk = desk();
    let limits = ToolLimits {
        network: true,
        code: true,
        mode: Mode::named("build"),
    };
    // The policy asks for writes: the call pauses on a card.
    app.precheck_tool_calls(&mut desk, vec![write_call("c1")], &ask(), limits);
    assert!(matches!(desk.overlay, Overlay::Approval));
    let (name, summary, _, remaining) = app.approval_card().unwrap();
    assert_eq!(name, "write_file");
    assert!(summary.contains("notes.txt"), "{summary}");
    assert_eq!(remaining, 0);
    app.resolve_approval(&mut desk, ApprovalVerdict::Deny);
    assert!(matches!(desk.overlay, Overlay::Closed));
    match app.outbox.pop().expect("denial delivered") {
        Effect::Deliver { results } => {
            assert_eq!(results.len(), 1);
            assert_eq!(results[0].call_id, "c1");
            assert!(
                results[0].content.contains("denied by user"),
                "{}",
                results[0].content
            );
        }
        other => panic!("unexpected event: {other:?}"),
    }
    // Approve-once runs the call and merges in order.
    app.precheck_tool_calls(&mut desk, vec![write_call("c2")], &ask(), limits);
    app.resolve_approval(&mut desk, ApprovalVerdict::Once);
    match app.outbox.pop().expect("tools done arrives") {
        Effect::RunTools {
            calls,
            order,
            slots,
            ..
        } => {
            let done = vec![ToolResult {
                name: "write_file".to_string(),
                call_id: "c2".to_string(),
                content: "wrote notes.txt".to_string(),
            }];
            let results = merge_results(slots, &calls, &order, &done);
            assert_eq!(results.len(), 1);
            assert!(
                results[0].content.contains("notes.txt"),
                "{}",
                results[0].content
            );
        }
        other => panic!("unexpected event: {other:?}"),
    }
}

/// Daemon round-trips land as cache values (or backoff marks); the keystroke path only
/// reads them.
#[test]
fn live_values_events_update_cache() {
    let mut app = pane();
    let mut desk = desk();
    let answer = UiEvent::LiveValues {
        key: "k8s-pods".to_string(),
        values: vec!["api-0".to_string()],
        ok: true,
    };
    app.process_event(&mut desk, answer, event_facts());
    assert_eq!(desk.live.pods, vec!["api-0".to_string()]);
    assert!(desk.live.at.get("k8s-pods").is_some());
    let failure = UiEvent::LiveValues {
        key: "docker-images".to_string(),
        values: Vec::new(),
        ok: false,
    };
    app.process_event(&mut desk, failure, event_facts());
    assert!(desk.live.failed_at.get("docker-images").is_some());
    assert!(desk.live.inflight.get("docker-images").is_none());
}
