//! What holds of the library as a whole, on chosen values.

use r105_ui::approvals::{
    fill_results, merge_results, sort_calls, ApprovalVerdict, CallCheck, Decision,
};
use r105_ui::areas::{body_areas, window_areas, BodyHeights};
use r105_ui::cards::render_picker;
use r105_ui::catalog::{extract_models, Json};
use r105_ui::commands::{CommandFacts, ConnectionText, ContextText};
use r105_ui::composer::Composer;
use r105_ui::desk::{Desk, Preset};
use r105_ui::effects::{Effect, ToolLimits};
use r105_ui::events::{BackendEvent, ChatResult, Overlay, StatusTone, UiEvent, Usage};
use r105_ui::files::complete_files;
use r105_ui::filters::select_lines;
use r105_ui::ghost::ai_ghost_suffix;
use r105_ui::idmap::IdMap;
use r105_ui::inbox::EventFacts;
use r105_ui::input::KeyFacts;
use r105_ui::keys::{action_key, count_invalid_bindings, Key, KeyCode};
use r105_ui::layout::{LayoutNode, SplitDirection};
use r105_ui::listing::live_rows;
use r105_ui::live::{Live, LiveKey};
use r105_ui::model::{FunctionCall, Message, ToolCall, ToolResult};
use r105_ui::mouse::{Mouse, MouseKind};
use r105_ui::numbers::compact_number;
use r105_ui::outcomes::{
    chat_ended, inquiry_ended, line_continued, models_listed, provider_connected, service_asked,
    summary_ended, tools_ended,
};
use r105_ui::outside::Endpoint;
use r105_ui::paint::{selection_style, Rect};
use r105_ui::palette::note_recent;
use r105_ui::pane::Pane;
use r105_ui::panels::{draw_picker_rows, ensure_visible};
use r105_ui::replies::{split_compact, split_repeat_suffix};
use r105_ui::reports::FileOutcome;
use r105_ui::search::{HistSearch, SearchStep};
use r105_ui::sessions::SessionRequest;
use r105_ui::settings::{reasoning_step_list, step_value, toggle_value, Mode, Settings};
use r105_ui::shell::{shell_failure, shell_notice};
use r105_ui::sidebar::{Place, SessionInfo, Sidebar, SidebarAction, SidebarRow};
use r105_ui::skills::{skill_name, SkillFile, SkillParams, Skills};
use r105_ui::syntax::{composer_spans, shell_pieces, ShellPiece};
use r105_ui::tabbing::PaneSource;
use r105_ui::tabs::{PaneStub, StubNeed, Tab, TabBar};
use r105_ui::transcript::Transcript;
use r105_ui::window::UiApp;

fn settings() -> Settings {
    Settings {
        theme: "midnight".to_string(),
        model: "local".to_string(),
        quality: None,
        profile: None,
        reasoning_effort: "auto".to_string(),
        permission_posture: "full-access".to_string(),
        auto_compact: true,
        cache_prompt: true,
        json_mode: false,
        show_thinking: true,
        thinking_default_expanded: false,
        max_tokens: None,
        keybindings: Vec::new(),
    }
}

fn pane() -> Pane {
    Pane::new(1, settings(), Mode::Build, "/repo".to_string(), 0, true, false)
}

fn preset(id: &str, asks_for_url: bool, api_key_required: bool) -> Preset {
    Preset {
        id: id.to_string(),
        label: id.to_uppercase(),
        description: "hosted".to_string(),
        base_url: None,
        asks_for_url,
        api_key_required,
        api_key_env: None,
        key_at_hand: false,
    }
}

fn desk() -> Desk {
    Desk::new(
        vec!["midnight".to_string(), "dracula".to_string()],
        vec![preset("local", false, false), preset("custom", true, true)],
        true,
        true,
    )
}

fn command_facts() -> CommandFacts {
    CommandFacts {
        builtin: true,
        help: "All commands".to_string(),
        topic: None,
        expansion: None,
        found: Vec::new(),
        suggestion: None,
        connection: ConnectionText {
            name: "local".to_string(),
            backend: "llama".to_string(),
            url: "http://127.0.0.1:9".to_string(),
        },
        sandbox: "none".to_string(),
        approvals: "ask".to_string(),
        context: ContextText {
            used: 10,
            total: 100,
            percent: "10.0".to_string(),
            source: "estimated".to_string(),
            cache_hit: None,
            cache_miss: None,
        },
        url_valid: false,
        provider: String::new(),
        editor_set: false,
        commands_dir: "/config/commands".to_string(),
        project_dir: "/repo/.r105/commands".to_string(),
        shadowed: Vec::new(),
        now: 0,
    }
}

fn key_facts() -> KeyFacts {
    KeyFacts {
        reads_as_shell: false,
        candidates: Vec::new(),
        pick_is_dir: false,
        palette: Vec::new(),
        builtin: false,
        parsed: None,
        found: Vec::new(),
        command: command_facts(),
        now: 0,
    }
}

fn event_facts() -> EventFacts {
    EventFacts {
        todos: Vec::new(),
        compact_due: false,
        now: 0,
    }
}

fn words(list: &[&str]) -> Vec<String> {
    list.iter().map(|word| word.to_string()).collect()
}

fn call(id: &str) -> ToolCall {
    ToolCall {
        id: id.to_string(),
        type_: "function".to_string(),
        function: FunctionCall {
            name: "run".to_string(),
            arguments: "{}".to_string(),
        },
    }
}

fn check(decision: Decision) -> CallCheck {
    CallCheck {
        decision,
        summary: "run it".to_string(),
        preview: None,
    }
}

fn limits() -> ToolLimits {
    ToolLimits {
        network: true,
        code: true,
        mode: Mode::Build,
    }
}

fn result(id: &str, content: &str) -> ToolResult {
    ToolResult {
        name: "run".to_string(),
        call_id: id.to_string(),
        content: content.to_string(),
    }
}

fn reply(content: &str, tool_calls: Vec<ToolCall>) -> ChatResult {
    ChatResult {
        content: content.to_string(),
        tool_calls,
        usage: Usage::none(),
        wall_text: "1.00".to_string(),
    }
}

fn contents(pane: &Pane) -> Vec<String> {
    pane.log
        .history
        .iter()
        .map(|message| message.content.clone())
        .collect()
}

fn exchange(pane: &mut Pane, prompt: &str, answer: &str) {
    pane.log.push(Message::user(prompt));
    pane.log.push(Message::assistant_with_tools(answer, vec![]));
}

fn sends(pane: &Pane) -> Vec<String> {
    pane.outbox
        .iter()
        .filter_map(|effect| match effect {
            Effect::Send { prompt } => Some(prompt.clone()),
            _ => None,
        })
        .collect()
}

fn busy(prompt: &str) -> Pane {
    let mut pane = pane();
    pane.start_prompt(prompt.to_string(), None, 0);
    pane
}

// Rounds of tool calls.

#[test]
fn each_call_of_a_round_goes_to_one_place() {
    let round = sort_calls(
        vec![call("a"), call("b"), call("c")],
        &vec![
            check(Decision::Allow),
            check(Decision::Deny("no".to_string())),
            check(Decision::Ask),
        ],
        limits(),
    );
    assert_eq!(round.results.len(), 3);
    assert_eq!(round.approved, vec![0]);
    assert!(round.results[0].is_none());
    assert!(round.results[1].as_ref().is_some_and(|r| r.content.contains("no")));
    assert!(round.results[2].is_none());
    assert_eq!(round.queue.len(), 1);
    assert_eq!(round.queue[0].index, 2);
}

#[test]
fn results_come_back_in_the_order_of_the_calls() {
    let slots = vec![None, Some(result("b", "early")), None];
    let ran = vec![call("a"), call("c")];
    let done = vec![result("c", "third"), result("a", "first")];
    let merged = merge_results(slots, &ran, &vec![0, 2], &done);
    let texts: Vec<&str> = merged.iter().map(|r| r.content.as_str()).collect();
    assert_eq!(texts, vec!["first", "early", "third"]);
}

#[test]
fn results_of_calls_that_vanish_are_marked() {
    let filled = fill_results(vec![None, Some(result("b", "kept"))]);
    assert_eq!(filled[0].content, "tool error: dropped");
    assert_eq!(filled[1].content, "kept");
}

#[test]
fn undecided_calls_hold_their_round() {
    let mut pane = pane();
    let mut desk = desk();
    let calls = vec![call("a"), call("b")];
    let checks = vec![check(Decision::Ask), check(Decision::Ask)];
    pane.precheck_tool_calls(&mut desk, calls, &checks, limits());
    assert!(pane.pending_tools.is_some());
    assert!(pane.outbox.is_empty());
    // The first decision shows the next card; the round still waits.
    pane.resolve_approval(&mut desk, ApprovalVerdict::Once);
    assert!(matches!(desk.overlay, Overlay::Approval));
    assert!(!pane
        .outbox
        .iter()
        .any(|effect| matches!(effect, Effect::RunTools { .. } | Effect::Deliver { .. })));
    // A denied call never runs.
    pane.resolve_approval(&mut desk, ApprovalVerdict::Deny);
    match pane.outbox.pop() {
        Some(Effect::RunTools { calls, order, .. }) => {
            assert_eq!(calls.len(), 1);
            assert_eq!(calls[0].id, "a");
            assert_eq!(order, vec![0]);
        }
        other => panic!("{other:?}"),
    }
}

#[test]
fn cards_take_no_other_keys() {
    let mut pane = pane();
    let mut desk = desk();
    pane.precheck_tool_calls(&mut desk, vec![call("a")], &vec![check(Decision::Ask)], limits());
    pane.handle_overlay_key(&mut desk, &Key::plain(KeyCode::Char('x')));
    assert!(matches!(desk.overlay, Overlay::Approval));
    assert!(pane.outbox.is_empty());
    pane.handle_overlay_key(&mut desk, &Key::plain(KeyCode::Char('n')));
    assert!(matches!(desk.overlay, Overlay::Closed));
}

#[test]
fn lasting_approval_is_passed_on() {
    let mut pane = pane();
    let mut desk = desk();
    pane.precheck_tool_calls(&mut desk, vec![call("a")], &vec![check(Decision::Ask)], limits());
    pane.resolve_approval(&mut desk, ApprovalVerdict::Always);
    assert!(pane
        .outbox
        .iter()
        .any(|effect| matches!(effect, Effect::Allow { .. })));
    assert!(pane
        .outbox
        .iter()
        .any(|effect| matches!(effect, Effect::AllowFiles { call } if call.id == "a")));
    // The call that was allowed for good runs in this round too.
    assert!(matches!(desk.overlay, Overlay::Closed));
    assert!(pane.pending_tools.is_none());
    match pane.outbox.pop() {
        Some(Effect::RunTools {
            calls,
            order,
            slots,
            granted,
            ..
        }) => {
            assert_eq!(calls.len(), 1);
            assert_eq!(calls[0].id, "a");
            assert_eq!(order, vec![0]);
            assert_eq!(slots, vec![None]);
            assert_eq!(granted.len(), 1);
        }
        other => panic!("{other:?}"),
    }
}

#[test]
fn one_approval_is_kept_to_its_round() {
    let mut pane = pane();
    let mut desk = desk();
    pane.precheck_tool_calls(&mut desk, vec![call("a")], &vec![check(Decision::Ask)], limits());
    pane.resolve_approval(&mut desk, ApprovalVerdict::Once);
    assert_eq!(pane.outbox.len(), 1);
    match pane.outbox.pop() {
        Some(Effect::RunTools { granted, .. }) => {
            assert_eq!(granted, vec![check(Decision::Ask).summary]);
        }
        other => panic!("{other:?}"),
    }
}

#[test]
fn denied_calls_allow_nothing() {
    let mut pane = pane();
    let mut desk = desk();
    pane.precheck_tool_calls(&mut desk, vec![call("a")], &vec![check(Decision::Ask)], limits());
    pane.resolve_approval(&mut desk, ApprovalVerdict::Deny);
    assert_eq!(pane.outbox.len(), 1);
    assert!(matches!(pane.outbox[0], Effect::Deliver { .. }));
}

#[test]
fn tools_run_in_the_order_of_the_calls() {
    let mut pane = pane();
    let mut desk = desk();
    let calls = vec![call("a"), call("b"), call("c"), call("d")];
    let checks = vec![
        check(Decision::Ask),
        check(Decision::Allow),
        check(Decision::Ask),
        check(Decision::Allow),
    ];
    pane.precheck_tool_calls(&mut desk, calls, &checks, limits());
    pane.resolve_approval(&mut desk, ApprovalVerdict::Once);
    pane.resolve_approval(&mut desk, ApprovalVerdict::Always);
    match pane.outbox.pop() {
        Some(Effect::RunTools { calls, order, .. }) => {
            assert_eq!(order, vec![0, 1, 2, 3]);
            let ids: Vec<&str> = calls.iter().map(|call| call.id.as_str()).collect();
            assert_eq!(ids, vec!["a", "b", "c", "d"]);
        }
        other => panic!("{other:?}"),
    }
}

// Requests.

#[test]
fn prompts_wait_while_a_request_runs() {
    let mut pane = busy("one");
    pane.start_prompt("two".to_string(), None, 5);
    pane.start_prompt("three".to_string(), None, 6);
    assert_eq!(sends(&pane), vec!["one"]);
    assert_eq!(pane.log.status, "Queued (2 waiting)");
    // Oldest first, one at a time.
    pane.chat_done(reply("done", vec![]), false, false, 7);
    assert_eq!(sends(&pane), vec!["one", "two"]);
    assert_eq!(pane.run.queue.len(), 1);
    assert_eq!(contents(&pane), vec!["one", "done"]);
}

#[test]
fn steering_stops_the_request_and_goes_first() {
    let mut pane = busy("one");
    pane.start_prompt("later".to_string(), None, 1);
    pane.submit_prompt("now".to_string(), &Vec::new(), 2);
    assert!(pane.outbox.iter().any(|effect| matches!(effect, Effect::Stop)));
    assert_eq!(pane.run.queue[0].prompt, "now");
    assert_eq!(pane.run.queue[1].prompt, "later");
    // The stopped prompt does not come back into the draft.
    pane.chat_failed("cancelled", false, 3);
    assert!(pane.composer.input.is_empty());
    assert_eq!(sends(&pane), vec!["one", "now"]);
}

#[test]
fn failed_prompts_are_kept() {
    let mut pane = busy("fragile");
    pane.chat_failed("offline", false, 1);
    assert_eq!(pane.composer.input, "fragile");
    assert!(!pane.run.busy);
    assert_eq!(
        pane.log.status,
        "Request failed: offline · /retry to try again"
    );
    assert_eq!(pane.log.status_tone, StatusTone::Error);
    pane.command_retry(2);
    assert_eq!(sends(&pane), vec!["fragile", "fragile"]);
    assert!(pane.composer.input.is_empty());
}

#[test]
fn rounds_of_tools_are_bounded() {
    let mut pane = busy("go");
    for round in 0..8 {
        pane.chat_done(reply("", vec![call("a")]), false, false, round);
        assert!(matches!(pane.outbox.pop(), Some(Effect::Check { .. })));
        assert_eq!(pane.run.tool_round, round as usize + 1);
    }
    pane.chat_done(reply("", vec![call("a")]), false, false, 9);
    assert!(!pane.outbox.iter().any(|effect| matches!(effect, Effect::Check { .. })));
    assert!(!pane.run.busy);
    assert!(pane
        .log
        .history
        .iter()
        .any(|message| message.content.contains("Tool-round limit (8) reached")));
}

#[test]
fn replies_only_add_to_the_conversation() {
    let mut pane = pane();
    exchange(&mut pane, "a", "b");
    pane.start_prompt("c".to_string(), Some("files".to_string()), 0);
    pane.chat_done(reply("d", vec![]), false, false, 1);
    assert_eq!(
        contents(&pane),
        vec!["a", "b", "c", "Attached context:\nfiles", "d"]
    );
    assert_eq!(pane.log.status, "Done in 1.00s");
    assert_eq!(pane.run.last_response, "d");
}

#[test]
fn stopping_a_waiting_round_frees_the_pane() {
    let mut pane = busy("go");
    let mut desk = desk();
    pane.precheck_tool_calls(&mut desk, vec![call("a")], &vec![check(Decision::Ask)], limits());
    assert!(pane.cancel_work("Stopped", 1));
    assert!(pane.pending_tools.is_none());
    assert!(!pane.run.busy);
}

#[test]
fn tool_results_join_the_conversation() {
    let mut pane = busy("go");
    let results = vec![result("a", "fine")];
    pane.tools_done(&results, Vec::new(), 1);
    let last = pane.log.history.last().unwrap();
    assert_eq!(last.role, "tool");
    assert_eq!(last.content, "[run]\nfine");
    assert_eq!(last.tool_call_id.as_deref(), Some("a"));
    assert!(matches!(pane.outbox.last(), Some(Effect::Continue)));
}

#[test]
fn pieces_of_a_reply_add_up() {
    let mut pane = busy("go");
    let mut desk = desk();
    for token in ["Hel", "lo"] {
        let event = UiEvent::Backend(BackendEvent::Token(token.to_string()));
        pane.process_event(&mut desk, event, event_facts());
    }
    assert_eq!(pane.run.streaming, "Hello");
    assert!(!pane.run.awaiting_first_token);
}

#[test]
fn slow_starts_are_noted_once() {
    let mut pane = busy("go");
    pane.maybe_note_slow_start(15_000);
    assert!(pane.run.slow_hint_shown);
    assert!(pane.log.status.starts_with("Still waiting for the first token (>15s)"));
    pane.set_status("other".to_string());
    pane.maybe_note_slow_start(30_000);
    assert_eq!(pane.log.status, "other");
}

#[test]
fn unknown_references_are_reported() {
    let mut pane = pane();
    let found = vec![None, Some("<file>".to_string())];
    pane.submit_prompt("see @gone and @here".to_string(), &found, 0);
    assert_eq!(pane.run.pending_context.as_deref(), Some("<file>"));
    assert_eq!(sends(&pane), vec!["see @gone and @here"]);
}

#[test]
fn usage_is_counted_up() {
    let mut pane = busy("go");
    let mut first = reply("a", vec![]);
    first.usage = Usage {
        prompt_tokens: Some(1_500),
        completion_tokens: Some(20),
        cached_tokens: None,
    };
    pane.chat_done(first, false, false, 1);
    assert_eq!((pane.run.session_in, pane.run.session_out), (1_500, 20));
}

// Drafts.

#[test]
fn backspace_and_delete_undo_an_insert() {
    let mut composer = Composer::new();
    composer.set_input("grün".to_string());
    composer.left();
    let before = (composer.input.clone(), composer.cursor);
    composer.insert_text("ß");
    assert_eq!(composer.input, "grüßn");
    composer.backspace();
    assert_eq!((composer.input.clone(), composer.cursor), before);
    composer.insert_text("ß");
    composer.left();
    composer.delete();
    assert_eq!((composer.input.clone(), composer.cursor), before);
}

#[test]
fn cursors_move_by_characters_and_words() {
    let mut composer = Composer::new();
    composer.set_input("héllo wörld".to_string());
    composer.home();
    composer.right();
    composer.right();
    assert_eq!(composer.cursor, 3);
    composer.word_right();
    assert_eq!(&composer.input[..composer.cursor], "héllo");
    composer.end();
    composer.word_left();
    assert_eq!(&composer.input[composer.cursor..], "wörld");
    assert!(!composer.at_end());
}

#[test]
fn dismissed_offers_stay_away() {
    let mut composer = Composer::new();
    composer.set_input("ls".to_string());
    composer.ai_ghost_seq = 4;
    composer.ghost_text = Some(" -la".to_string());
    assert!(composer.dismiss_ghost());
    composer.apply_ai_ghost(4, "ls", Some(" -l".to_string()));
    assert!(composer.ghost_text.is_none());
}

#[test]
fn offers_taken_by_words_make_the_whole() {
    let mut by_words = Composer::new();
    by_words.set_input("git".to_string());
    by_words.ghost_text = Some(" check out".to_string());
    assert!(by_words.accept_ghost_word());
    assert_eq!(by_words.input, "git check");
    by_words.ghost_text = Some(" out".to_string());
    assert!(by_words.accept_ghost_word());
    let mut at_once = Composer::new();
    at_once.set_input("git".to_string());
    at_once.ghost_text = Some(" check out".to_string());
    assert!(at_once.accept_ghost());
    assert_eq!(by_words.input, at_once.input);
}

#[test]
fn replies_continue_a_line_only_where_they_extend_it() {
    assert_eq!(
        ai_ghost_suffix("git ch", "```sh\ngit checkout main\n```").as_deref(),
        Some("eckout main")
    );
    assert_eq!(ai_ghost_suffix("git ch", "ls"), None);
    assert_eq!(ai_ghost_suffix("ls", "ls"), None);
}

#[test]
fn model_questions_wait_for_a_rest() {
    let mut composer = Composer::new();
    composer.set_input("docker".to_string());
    assert!(composer.kick_ai_ghost(true, "docker", false, 899).is_none());
    let question = composer.kick_ai_ghost(true, "docker", false, 900).unwrap();
    assert_eq!(question.for_input, "docker");
    assert!(question.prompt.contains("docker"));
    assert!(composer.kick_ai_ghost(true, "docker", false, 2_000).is_none());
    assert!(composer.kick_ai_ghost(false, "docker ps", false, 2_000).is_none());
}

#[test]
fn menus_do_not_share_a_draft() {
    let mut composer = Composer::new();
    composer.set_input("/th".to_string());
    assert!(composer.is_palette_query());
    assert!(composer.shell_line(true).is_none());
    composer.set_input("!cat @x".to_string());
    assert_eq!(composer.at_token().as_deref(), Some("x"));
    assert!(!composer.is_palette_query());
}

#[test]
fn empty_drafts_send_nothing() {
    let mut pane = pane();
    let mut desk = desk();
    pane.composer.set_input("   ".to_string());
    pane.submit(&mut desk, &key_facts());
    assert!(pane.outbox.is_empty());
    assert!(pane.log.history.is_empty());
    assert_eq!(pane.composer.input, "   ");
}

#[test]
fn cards_keep_keys_from_the_draft() {
    let mut pane = pane();
    let mut desk = desk();
    desk.overlay = Overlay::Settings { selected: 0 };
    pane.handle_key(&mut desk, &Key::plain(KeyCode::Char('x')), key_facts());
    assert!(pane.composer.input.is_empty());
}

#[test]
fn escape_ends_a_walk() {
    let mut pane = pane();
    let mut desk = desk();
    pane.log.push(Message::user("old"));
    pane.composer.set_input("draft".to_string());
    pane.handle_key(&mut desk, &Key::plain(KeyCode::Up), key_facts());
    assert_eq!(pane.composer.input, "old");
    pane.handle_key(&mut desk, &Key::plain(KeyCode::Esc), key_facts());
    assert_eq!(pane.composer.input, "draft");
    assert_eq!(pane.composer.hist_depth, None);
}

#[test]
fn proposals_keep_what_is_typed() {
    let mut pane = pane();
    let mut desk = desk();
    pane.composer.set_input("typing".to_string());
    let drafted = UiEvent::ShellDraft(Ok("rm -r x".to_string()));
    pane.process_event(&mut desk, drafted, event_facts());
    assert_eq!(pane.composer.input, "typing");
    assert!(contents(&pane)[0].contains("rm -r x"));
    let offer = UiEvent::ShellCorrection {
        failed: "gti".to_string(),
        fixed: "git".to_string(),
        more: Vec::new(),
    };
    pane.process_event(&mut desk, offer, event_facts());
    assert_eq!(pane.composer.input, "typing");
    assert!(pane.pending_correction.is_none());
}

#[test]
fn shell_lines_keep_their_text_in_colour() {
    let line = "ls -la \"a b\" | wc";
    let chars: Vec<char> = line.chars().collect();
    let drawn: String = composer_spans(&chars, 0, true)
        .iter()
        .map(|span| span.text.clone())
        .collect();
    assert_eq!(drawn, line);
    let ended: String = composer_spans(&chars, chars.len(), true)
        .iter()
        .map(|span| span.text.clone())
        .collect();
    assert_eq!(ended, format!("{line} "));
    assert!(shell_pieces(&chars)
        .iter()
        .any(|piece| piece.kind == ShellPiece::Flag));
}

#[test]
fn clicks_stay_within_the_draft() {
    let mut pane = pane();
    let mut desk = desk();
    pane.composer.set_input("short".to_string());
    pane.drawn.composer = Rect {
        x: 0,
        y: 10,
        width: 80,
        height: 2,
    };
    let click = Mouse {
        kind: MouseKind::Press,
        column: 79,
        row: 11,
        shift: false,
    };
    pane.handle_mouse(&mut desk, &click, &Vec::new());
    assert!(pane.composer.cursor <= 5);
}

#[test]
fn searches_restore_the_draft() {
    let mut pane = pane();
    pane.composer.set_input("draft".to_string());
    pane.composer.left();
    let before = pane.composer.cursor;
    let mut search = HistSearch::open(&pane.composer);
    let matches = vec!["git status".to_string(), "git push".to_string()];
    search.preview_hist_selection(&mut pane.composer, &matches);
    assert_eq!(pane.composer.input, "git status");
    search.hist_move(true, 2);
    search.hist_move(true, 2);
    assert_eq!(search.selected, 1);
    let step = pane.handle_hist_key(&mut search, &Key::plain(KeyCode::Esc), &matches, 0);
    assert_eq!(step, SearchStep::Closed);
    assert_eq!(pane.composer.input, "draft");
    assert_eq!(pane.composer.cursor, before);
}

// The conversation.

#[test]
fn redo_restores_what_was_undone() {
    let mut pane = pane();
    exchange(&mut pane, "a", "b");
    exchange(&mut pane, "c", "d");
    assert_eq!(pane.log.undo().as_deref(), Some("c"));
    assert_eq!(contents(&pane), vec!["a", "b"]);
    pane.log.redo();
    assert_eq!(contents(&pane), vec!["a", "b", "c", "d"]);
    assert!(pane.log.redo_stack.is_empty());
    pane.log.redo();
    assert_eq!(pane.log.status, "Nothing to redo");
}

#[test]
fn toggled_twice_a_section_is_as_it_was() {
    let mut log = Transcript::new();
    log.push(Message::tool("a", "fine"));
    let id = log.section_id(0);
    assert!(!log.section_expanded(&id, false));
    assert_eq!(log.toggle_section(&id, false, "Section 1"), Some(true));
    assert_eq!(log.toggle_section(&id, false, "Section 1"), Some(false));
    assert!(!log.section_expanded(&id, false));
}

#[test]
fn ids_are_new_after_a_load() {
    let mut log = Transcript::new();
    let mut loaded = Message::user("a");
    loaded.id = "m7".to_string();
    log.push(loaded);
    log.push(Message::user("b"));
    log.reseed_msg_ids();
    assert_eq!(log.section_id(0), "m7");
    assert_ne!(log.section_id(1), "m7");
}

#[test]
fn wider_contexts_hide_nothing_more() {
    let list: Vec<String> = (0..9).map(|n| n.to_string()).collect();
    let hits = vec![false, false, false, true, false, false, false, false, false];
    let narrow = select_lines(list.clone(), &hits, 1);
    let wide = select_lines(list.clone(), &hits, 2);
    assert_eq!(narrow.shown, vec!["2", "3", "4"]);
    assert_eq!(narrow.hidden, 6);
    assert!(narrow.shown.iter().all(|line| wide.shown.contains(line)));
    let all = select_lines(list.clone(), &vec![true; 9], 0);
    assert_eq!(all.shown, list);
}

#[test]
fn drawn_titles_toggle_their_section() {
    let mut pane = pane();
    let mut desk = desk();
    pane.log.push(Message::tool("a", "one\ntwo"));
    let rows = pane.draw_transcript(20);
    let at = rows.iter().position(|row| row.header.is_some()).unwrap();
    pane.drawn.transcript = Rect {
        x: 0,
        y: 0,
        width: 80,
        height: 20,
    };
    let click = |row: usize| Mouse {
        kind: MouseKind::Press,
        column: 3,
        row: row as u16,
        shift: false,
    };
    let id = rows[at].header.clone().unwrap();
    pane.handle_mouse(&mut desk, &click(at), &Vec::new());
    assert_eq!(pane.log.section_state.get(&id), Some(&true));
}

#[test]
fn compaction_keeps_the_end() {
    let history: Vec<Message> = (0..9).map(|n| Message::user(&n.to_string())).collect();
    let (older, recent) = split_compact(&history);
    assert!(recent.len() * 3 >= history.len());
    assert_eq!(recent.last().map(|m| m.content.as_str()), Some("8"));
    assert_eq!(older.len() + recent.len(), 9);
}

#[test]
fn marked_notes_read_back() {
    for count in [2_usize, 9, 10, 105] {
        let note = format!("tick (×{count})");
        assert_eq!(split_repeat_suffix(&note), ("tick".to_string(), count));
    }
}

#[test]
fn forks_end_before_the_next_turn() {
    let mut pane = pane();
    exchange(&mut pane, "a", "b");
    exchange(&mut pane, "c", "d");
    let ends = |pane: &mut Pane, turns: &str| match pane.command_session(&words(&[
        "fork", "copy", turns,
    ])) {
        Some(SessionRequest::Fork { end, .. }) => end,
        other => panic!("{other:?}"),
    };
    assert_eq!(ends(&mut pane, "1"), 2);
    assert_eq!(ends(&mut pane, "2"), 4);
    assert_eq!(ends(&mut pane, "9"), 4);
}

#[test]
fn failed_loads_keep_the_conversation() {
    let mut pane = pane();
    exchange(&mut pane, "a", "b");
    pane.load_session_named("gone", Err("missing".to_string()));
    assert_eq!(contents(&pane), vec!["a", "b"]);
    assert_eq!(pane.current_session, None);
    assert_eq!(pane.log.status, "Session load failed: missing");
    pane.current_session = Some("kept".to_string());
    pane.session_deleted("other", Ok(true));
    assert_eq!(contents(&pane), vec!["a", "b"]);
}

#[test]
fn previews_show_the_beginning() {
    let mut pane = pane();
    let content = "x".repeat(5_000);
    pane.preview_done("big.txt", FileOutcome::Done(content));
    assert_eq!(contents(&pane)[0].len(), "--- big.txt ---\n".len() + 2_000);
}

#[test]
fn outputs_are_bounded() {
    let long = shell_notice("yes", &"y".repeat(9_000), "");
    assert!(long.ends_with("\n⋯ output truncated"));
    assert!(long.chars().count() < 8_100);
    assert_eq!(shell_notice("true", "", ""), "$ true\n(no output)");
    assert_eq!(
        shell_notice("x", "out\n", "err\n"),
        "$ x\nout\nstderr:\nerr"
    );
    assert_eq!(shell_failure("x", "gone"), "$ x\nfailed: gone");
}

// Settings.

#[test]
fn modes_go_round_and_read_back() {
    for mode in [Mode::Build, Mode::Plan, Mode::Ask] {
        assert_eq!(mode.next().next().next(), mode);
        assert_eq!(Mode::named(mode.as_str()), mode);
    }
}

#[test]
fn switches_settle() {
    assert!(!toggle_value(None, toggle_value(None, false)));
    let on = "ON".to_string();
    assert!(toggle_value(Some(&on), false));
    assert!(toggle_value(Some(&on), true));
}

#[test]
fn steps_back_undo_steps_on() {
    let list = reasoning_step_list();
    let on = step_value(&list, "low", 0, true);
    assert_eq!(on, "medium");
    assert_eq!(step_value(&list, &on, 0, false), "low");
}

#[test]
fn permissions_off_runs_nothing() {
    let mut pane = pane();
    pane.settings.permission_posture = "off".to_string();
    assert!(!pane.settings.network_allowed());
    assert!(!pane.settings.code_allowed());
    pane.run_shell_command("ls".to_string());
    assert!(pane.outbox.is_empty());
    assert_eq!(pane.log.status, "Shell disabled (permissions off)");
}

#[test]
fn unknown_values_are_refused() {
    let mut pane = pane();
    pane.command_quality(&words(&["superb"]));
    assert_eq!(pane.settings.quality, None);
    assert!(pane.outbox.is_empty());
    pane.command_quality(&words(&["best"]));
    assert_eq!(pane.settings.quality.as_deref(), Some("best"));
}

#[test]
fn leaving_the_themes_restores_the_theme() {
    let mut pane = pane();
    let mut desk = desk();
    pane.command_theme(&mut desk, &Vec::new());
    assert!(matches!(desk.overlay, Overlay::Theme { .. }));
    pane.handle_overlay_key(&mut desk, &Key::plain(KeyCode::Down));
    assert_eq!(pane.settings.theme, "dracula");
    pane.handle_overlay_key(&mut desk, &Key::plain(KeyCode::Esc));
    assert_eq!(pane.settings.theme, "midnight");
    assert!(desk.overlay_closed());
}

#[test]
fn typed_keys_show_nowhere() {
    let mut pane = pane();
    let mut desk = desk();
    desk.overlay = Overlay::ApiKey {
        provider: "custom".to_string(),
    };
    for c in "hunter2".chars() {
        pane.handle_overlay_key(&mut desk, &Key::plain(KeyCode::Char(c)));
    }
    let screen = Rect {
        x: 0,
        y: 0,
        width: 80,
        height: 24,
    };
    let card = pane.draw_overlay(&mut desk, screen).unwrap();
    assert!(card
        .content
        .lines
        .iter()
        .all(|line| !line.text().contains("hunter2")));
    assert!(!pane.log.status.contains("hunter2"));
    assert!(pane.log.history.is_empty());
}

#[test]
fn typed_keys_go_nowhere_else() {
    let endpoint = |url: &str, key: Option<&str>| Endpoint {
        backend: "openai".to_string(),
        base_url: url.to_string(),
        provider_id: None,
        api_key: key.map(|key| key.to_string()),
    };
    let before = endpoint("https://a.example", Some("typed"));
    let (same, _) = endpoint("https://a.example", None).replacing(&before);
    assert_eq!(same.api_key.as_deref(), Some("typed"));
    let (other, _) = endpoint("https://b.example", None).replacing(&before);
    assert_eq!(other.api_key, None);
}

#[test]
fn selections_are_legible() {
    for theme in ["midnight", "dracula", "nord", "light", "unheard of"] {
        let style = selection_style(theme);
        assert_ne!(style.fg, style.bg);
    }
}

// Lists.

#[test]
fn recent_commands_are_few_and_newest_first() {
    let mut list = Vec::new();
    for n in 0..12 {
        note_recent(&mut list, &format!("/c{n}"), true);
    }
    note_recent(&mut list, "/c8", true);
    assert_eq!(list.len(), 8);
    assert_eq!(list[0], "/c8");
    assert_eq!(list.iter().filter(|name| *name == "/c8").count(), 1);
    let before = list.clone();
    note_recent(&mut list, "/cc8", false);
    assert_eq!(list, before);
}

#[test]
fn recent_workspaces_are_few_and_distinct() {
    let mut sidebar = Sidebar::new();
    for n in 0..12 {
        sidebar.note_workspace(Place::new(&format!("/w{}", n % 10)));
    }
    assert_eq!(sidebar.recent.len(), 8);
    assert_eq!(sidebar.recent[0].path, "/w1");
}

#[test]
fn selections_stay_within_the_rows() {
    let mut sidebar = Sidebar::new();
    let live = Place::new("/repo");
    sidebar.refresh_sidebar(
        vec![SessionInfo {
            name: "a".to_string(),
            message_count: 3,
        }],
        &live,
    );
    sidebar.toggle_sidebar();
    for _ in 0..9 {
        sidebar.handle_sidebar_key(&Key::plain(KeyCode::Down), &live);
    }
    assert_eq!(sidebar.selected, 2);
    assert_eq!(
        sidebar.sidebar_open_selected(&live),
        SidebarAction::Enter("/repo".to_string())
    );
}

#[test]
fn clicks_select_the_line_that_is_drawn() {
    let mut sidebar = Sidebar::new();
    let live = Place::new("/repo");
    let saved = |name: &str| SessionInfo {
        name: name.to_string(),
        message_count: 1,
    };
    sidebar.refresh_sidebar(vec![saved("a"), saved("b")], &live);
    sidebar.visible = true;
    sidebar.rect = Rect {
        x: 0,
        y: 0,
        width: 30,
        height: 20,
    };
    let rows = sidebar.sidebar_rows(&live);
    let here = live_rows(&rows, "/repo");
    let drawn = sidebar.sidebar_display(&rows, &None, &here, "midnight", 28);
    let line = drawn.iter().position(|line| line.row == Some(2)).unwrap();
    // The first click selects the row, the second one opens it.
    assert_eq!(
        sidebar.sidebar_click(&live, 3, line as u16 + 1),
        SidebarAction::Stay
    );
    assert_eq!(sidebar.selected, 2);
    assert_eq!(
        sidebar.sidebar_click(&live, 3, line as u16 + 1),
        SidebarAction::Load("b".to_string())
    );
}

#[test]
fn live_workspaces_are_marked() {
    let rows = vec![
        SidebarRow::New,
        SidebarRow::Workspace {
            path: "/repo/".to_string(),
            base: "repo".to_string(),
        },
        SidebarRow::Workspace {
            path: "/other".to_string(),
            base: "other".to_string(),
        },
    ];
    assert_eq!(live_rows(&rows, "/repo"), vec![false, true, false]);
}

#[test]
fn only_one_row_stands_out() {
    let items: Vec<String> = (0..12).map(|n| format!("row {n}")).collect();
    let drawn = draw_picker_rows(&items, 5, 3, 6, "midnight");
    let style = selection_style("midnight");
    let marked: Vec<usize> = drawn
        .iter()
        .enumerate()
        .filter(|(_, line)| line.spans.iter().any(|span| span.style == style))
        .map(|(at, _)| at)
        .collect();
    assert_eq!(marked, vec![2]);
}

#[test]
fn pickers_lie_on_small_screens() {
    let items: Vec<String> = (0..50).map(|n| format!("row {n}")).collect();
    for (width, height) in [(80, 24), (10, 4), (1, 1)] {
        let screen = Rect {
            x: 2,
            y: 1,
            width,
            height,
        };
        let (mut selected, mut scroll) = (0, 0);
        let card = render_picker(screen, "Pick", &items, &mut selected, &mut scroll, "midnight");
        assert!(card.rect.x >= 2 && card.rect.x + card.rect.width <= 2 + width);
        assert!(card.rect.y >= 1 && card.rect.y + card.rect.height <= 1 + height);
    }
}

#[test]
fn models_are_listed_once_in_order() {
    let model = |id: &str| Json::Object(vec![("id".to_string(), Json::Text(id.to_string()))]);
    let value = Json::Object(vec![(
        "data".to_string(),
        Json::List(vec![model("b"), model("a"), model("b"), model("B")]),
    )]);
    let ids: Vec<String> = extract_models(&value).into_iter().map(|m| m.id).collect();
    assert_eq!(ids, vec!["B", "a", "b"]);
}

#[test]
fn services_are_asked_once_at_a_time() {
    let mut live = Live::new();
    let asked = live.kick_live_refresh("kubectl", 1_000, 5_000, 0);
    assert_eq!(asked, vec![LiveKey::Namespaces, LiveKey::Pods]);
    assert!(live.kick_live_refresh("kubectl", 1_000, 5_000, 10).is_empty());
    live.take_answer("k8s-pods".to_string(), words(&["p"]), true, 20);
    live.take_answer("k8s-ns".to_string(), Vec::new(), false, 20);
    assert_eq!(live.pods, vec!["p"]);
    assert_eq!(
        live.kick_live_refresh("kubectl", 1_000, 5_000, 1_020),
        vec![LiveKey::Pods]
    );
    // A failure leaves the values alone.
    live.take_answer("k8s-pods".to_string(), Vec::new(), false, 1_030);
    assert_eq!(live.pods, vec!["p"]);
}

#[test]
fn service_values_are_capped() {
    let printed = (0..300).map(|n| format!("v{n}")).collect::<Vec<_>>().join(" ");
    let event = service_asked(1, LiveKey::Images, Some(printed));
    assert_eq!(event.pane, Some(1));
    match event.event {
        UiEvent::LiveValues { key, values, ok } => {
            assert_eq!(key, "docker-images");
            assert!(ok);
            assert_eq!(values.len(), 200);
            assert_eq!(values[199], "v199");
        }
        other => panic!("{other:?}"),
    }
}

#[test]
fn skills_are_named_without_paths() {
    assert_eq!(skill_name(" review.md ").as_deref(), Some("review"));
    assert_eq!(skill_name("review").as_deref(), Some("review"));
    assert_eq!(skill_name("../up"), None);
    assert_eq!(skill_name("a/b"), None);
    assert_eq!(skill_name(".hidden"), None);
    assert_eq!(skill_name(""), None);
}

#[test]
fn skills_turn_on_and_off() {
    let mut pane = pane();
    let file = SkillFile {
        path: "/skills/review.md".to_string(),
        exists: true,
        content: Ok("Review".to_string()),
    };
    let name = || Some("review".to_string());
    pane.command_skill(&words(&["use", "review"]), name(), &file);
    assert_eq!(pane.skills.active, vec!["review"]);
    pane.command_skill(&words(&["drop", "review"]), name(), &file);
    assert!(pane.skills.active.is_empty());
}

#[test]
fn file_menus_offer_eight_paths() {
    let paths: Vec<String> = (0..20).map(|n| format!("src/file{n:02}.rs")).collect();
    let found = complete_files(&paths, "file");
    assert_eq!(found.len(), 8);
    assert_eq!(found[0], "src/file00.rs");
}

#[test]
fn bindings_ignore_case_and_space() {
    let key = Key::ctrl('k');
    let bindings = vec![("redraw".to_string(), "  CTRL+K ".to_string())];
    assert!(action_key(&bindings, "redraw", &key));
    assert!(!action_key(&bindings, "redraw", &Key::ctrl('l')));
    assert!(action_key(&Vec::new(), "redraw", &Key::ctrl('l')));
    assert_eq!(
        count_invalid_bindings(&vec![("redraw".to_string(), "alt+k".to_string())]),
        1
    );
}

#[test]
fn rounding_follows_floating_point() {
    for value in [
        0, 1, 999, 1_000, 1_049, 1_050, 1_250, 1_350, 9_949, 9_950, 99_949, 99_950, 999_949,
        999_950, 999_999,
    ] {
        let expected = if value < 1_000 {
            value.to_string()
        } else {
            format!("{:.1}k", value as f64 / 1_000.0)
        };
        assert_eq!(compact_number(value), expected);
    }
    for value in [1_000_000, 1_049_999, 1_050_000, 1_150_000, 2_250_000, 123_456_789, u64::MAX] {
        let expected = format!("{:.1}M", value as f64 / 1_000_000.0);
        assert_eq!(compact_number(value), expected);
    }
}

// Panes, tabs and the window.

#[test]
fn removing_a_split_pane_restores_the_arrangement() {
    let mut layout = LayoutNode::flat(3).unwrap();
    let before = layout.copy();
    layout.reindex_insert(2);
    assert!(layout.split_leaf(1, 2, SplitDirection::Right));
    assert!(layout.valid_for(4));
    assert!(layout.remove_leaf(2));
    layout.reindex_remove(2);
    assert_eq!(layout, before);
    let mut order = Vec::new();
    LayoutNode::flat(5).unwrap().leaves(&mut order);
    assert_eq!(order, vec![0, 1, 2, 3, 4]);
}

#[test]
fn tabs_move_back_and_go_round() {
    let mut bar = TabBar::new();
    bar.open();
    bar.open();
    bar.tabs[0].panes[0].title = "first".to_string();
    bar.active_tab = 0;
    assert!(bar.tab_move(true));
    assert_eq!(bar.tabs[1].panes[0].title, "first");
    assert_eq!(bar.active_tab, 1);
    assert!(bar.tab_move(false));
    assert_eq!(bar.tabs[0].panes[0].title, "first");
    assert_eq!(bar.tab_next(false), 2);
    bar.active_tab = 2;
    assert_eq!(bar.tab_next(true), 0);
}

#[test]
fn closing_another_tab_keeps_the_shown_one() {
    let mut bar = TabBar::new();
    bar.open();
    bar.open();
    bar.tabs[1].panes[0].title = "shown".to_string();
    bar.active_tab = 1;
    bar.close(0);
    assert_eq!(bar.tabs[bar.active_tab].panes[0].title, "shown");
    bar.close(1);
    assert_eq!(bar.tabs[bar.active_tab].panes[0].title, "shown");
}

#[test]
fn chips_do_not_overlap() {
    let mut bar = TabBar::new();
    bar.open();
    bar.rect = Rect {
        x: 0,
        y: 0,
        width: 80,
        height: 1,
    };
    let regions = bar.tab_regions(&words(&["a"]));
    assert_eq!(regions.len(), 2);
    assert!(regions[0].end <= regions[1].start);
    assert!(regions[0].start < regions[0].end);
}

#[test]
fn kept_tabs_are_taken_over() {
    let mut bar = TabBar::new();
    assert!(!bar.restore(Vec::new(), 0));
    let mut tab = Tab::new("one");
    tab.panes.push(PaneStub {
        session: Some("saved".to_string()),
        title: "two".to_string(),
    });
    tab.panes.push(PaneStub {
        session: None,
        title: "three".to_string(),
    });
    assert!(bar.restore(vec![Tab::new("first"), tab], 9));
    assert_eq!(bar.active_tab, 1);
    assert_eq!(
        bar.needs(true),
        vec![
            StubNeed::Carried,
            StubNeed::Session("saved".to_string()),
            StubNeed::Fresh,
        ]
    );
    assert_eq!(bar.needs(false)[0], StubNeed::Fresh);
}

#[test]
fn tabs_stay_while_a_pane_works() {
    let mut app = UiApp::new(busy("go"), desk(), settings(), Mode::Build);
    assert!(!app.tab_new(&vec![None]));
    assert_eq!(app.bar.tabs.len(), 1);
    assert_eq!(app.panes[0].log.status, "Busy — finish or cancel first");
}

#[test]
fn events_reach_their_pane_only() {
    let mut app = UiApp::new(pane(), desk(), settings(), Mode::Build);
    app.pane_split();
    assert_eq!(app.panes.len(), 2);
    let first = app.panes[0].id;
    app.deliver(UiEvent::Notice("hi".to_string()).at(first), event_facts());
    assert_eq!(contents(&app.panes[0]), vec!["hi"]);
    assert!(app.panes[1].log.history.is_empty());
    app.deliver(UiEvent::Notice("lost".to_string()).at(9_999), event_facts());
    assert_eq!(contents(&app.panes[0]), vec!["hi"]);
    assert!(app.panes[1].log.history.is_empty());
    app.deliver(UiEvent::Notice("all".to_string()).global(), event_facts());
    assert_eq!(contents(&app.panes[app.focus]).last().unwrap(), "all");
}

#[test]
fn panes_are_few_and_the_last_one_stays() {
    let mut app = UiApp::new(pane(), desk(), settings(), Mode::Build);
    for _ in 0..6 {
        app.pane_split();
    }
    assert_eq!(app.panes.len(), 4);
    app.pane_next(true);
    assert_eq!(app.focus, 0);
    app.toggle_pane_zoom();
    assert!(app.bar.pane_zoomed());
    for _ in 0..3 {
        assert!(app.pane_close().is_some());
    }
    assert!(app.pane_close().is_none());
    assert_eq!(app.panes.len(), 1);
}

#[test]
fn clicks_do_not_pass_a_card() {
    let mut app = UiApp::new(pane(), desk(), settings(), Mode::Build);
    app.panes[0].composer.set_input("draft".to_string());
    app.panes[0].drawn.composer = Rect {
        x: 0,
        y: 10,
        width: 80,
        height: 2,
    };
    app.panes[0].drawn.frame = Rect {
        x: 0,
        y: 0,
        width: 80,
        height: 24,
    };
    app.desk.overlay = Overlay::Settings { selected: 0 };
    let click = Mouse {
        kind: MouseKind::Press,
        column: 1,
        row: 11,
        shift: false,
    };
    let live = Place::new("/repo");
    app.handle_mouse(&click, &Vec::new(), &live, &None, &Vec::new(), 0);
    assert_eq!(app.panes[0].composer.cursor, 5);
}

#[test]
fn heights_stay_within_bounds() {
    let mut pane = pane();
    let desk = desk();
    assert_eq!(pane.body_heights(&desk, 0, 0, 0, 0, 0).composer, 2);
    pane.composer.set_input("a\nb\nc\nd\ne\nf\ng\nh".to_string());
    let heights = pane.body_heights(&desk, 30, 30, 0, 0, 0);
    assert_eq!(heights.composer, 7);
    assert_eq!(heights.complete, 10);
    assert_eq!(heights.palette, 0);
}

#[test]
fn areas_share_the_screen() {
    let screen = Rect {
        x: 0,
        y: 0,
        width: 100,
        height: 30,
    };
    let alone = window_areas(screen, false, 1);
    assert_eq!(alone.sidebar, None);
    assert_eq!(alone.bar.height, 1);
    assert_eq!(alone.content.height, 29);
    let beside = window_areas(screen, true, 2);
    assert_eq!(beside.sidebar.map(|area| area.width), Some(30));
    assert_eq!(beside.screen.width, 70);
    assert_eq!(beside.panes.len(), 2);
    assert_eq!(beside.panes[0].width, 35);
    let heights = BodyHeights {
        palette: 0,
        complete: 5,
        composer: 2,
    };
    let parts = body_areas(alone.content, heights);
    let rows: Vec<u16> = parts.iter().map(|part| part.height).collect();
    assert_eq!(rows, vec![20, 0, 5, 2, 2]);
    assert!(window_areas(Rect { width: 40, ..screen }, true, 1).sidebar.is_none());
}

// What work beside the interface ends in.

#[test]
fn ended_work_is_reported() {
    let gone = || Err("down".to_string());
    match chat_ended(3, gone()).event {
        UiEvent::ChatError(error) => assert_eq!(error, "down"),
        other => panic!("{other:?}"),
    }
    match tools_ended(3, vec![None], &vec![call("a")], &vec![0], Err("down".to_string())).event {
        UiEvent::ChatError(error) => assert_eq!(error, "tool execution: down"),
        other => panic!("{other:?}"),
    }
    match tools_ended(
        3,
        vec![None],
        &vec![call("a")],
        &vec![0],
        Ok(vec![result("a", "fine")]),
    )
    .event
    {
        UiEvent::ToolsDone(results) => assert_eq!(results[0].content, "fine"),
        other => panic!("{other:?}"),
    }
    match summary_ended(3, Ok("short".to_string()), Vec::new()).event {
        UiEvent::Compacted { summary, .. } => assert_eq!(summary, "short"),
        other => panic!("{other:?}"),
    }
    match provider_connected(3, Err("down".to_string())).event {
        UiEvent::Notice(text) => assert_eq!(text, "connection failed: down"),
        other => panic!("{other:?}"),
    }
    match models_listed(3, Ok(Json::Null)).event {
        UiEvent::Notice(text) => assert_eq!(text, "Provider returned no models"),
        other => panic!("{other:?}"),
    }
    let listed = models_listed(3, Ok(Json::List(vec![Json::Text("m".to_string())])));
    match listed.event {
        UiEvent::ModelsLoaded { models } => assert_eq!(models[0].id, "m"),
        UiEvent::Notice(text) => assert_eq!(text, "Provider returned no models"),
        other => panic!("{other:?}"),
    }
    match inquiry_ended(3, "health", Err("down".to_string())).event {
        UiEvent::Notice(text) => assert_eq!(text, "health failed: down"),
        other => panic!("{other:?}"),
    }
    let mut composer = Composer::new();
    composer.set_input("git ch".to_string());
    let question = composer.kick_ai_ghost(true, "git ch", false, 900).unwrap();
    match line_continued(3, &question, Some("git checkout".to_string())).event {
        UiEvent::AiGhost { suffix, .. } => assert_eq!(suffix.as_deref(), Some("eckout")),
        other => panic!("{other:?}"),
    }
}

#[test]
fn ids_of_closed_panes_do_not_return() {
    let mut app = UiApp::new(pane(), desk(), settings(), Mode::Build);
    app.pane_split();
    let gone = app.panes[app.focus].id;
    assert!(app.pane_close().is_some());
    app.pane_split();
    assert!(app.panes.iter().all(|pane| pane.id != gone));
    let before: Vec<u64> = app.panes.iter().map(|pane| pane.id).collect();
    app.materialize_active(vec![PaneSource::Fresh, PaneSource::Fresh]);
    assert_eq!(app.panes.len(), 2);
    assert!(app.panes.iter().all(|pane| !before.contains(&pane.id)));
    assert_ne!(app.panes[0].id, app.panes[1].id);
}

#[test]
fn focused_panes_call_no_more() {
    let mut app = UiApp::new(pane(), desk(), settings(), Mode::Build);
    app.pane_split();
    app.panes[0].attention = true;
    app.pane_focus(0);
    assert_eq!(app.focus, 0);
    assert!(!app.panes[0].attention);
}

#[test]
fn new_prompts_end_redo() {
    let mut pane = pane();
    exchange(&mut pane, "a", "b");
    pane.log.undo();
    assert_eq!(pane.log.redo_stack.len(), 1);
    pane.submit_prompt("c".to_string(), &Vec::new(), 0);
    assert!(pane.log.redo_stack.is_empty());
}

#[test]
fn undone_sections_come_back_closed() {
    let mut log = Transcript::new();
    log.push(Message::user("a"));
    log.push(Message::tool("t", "fine"));
    let id = log.section_id(1);
    assert_eq!(log.toggle_section(&id, false, "Section 2"), Some(true));
    log.undo();
    log.redo();
    assert_eq!(log.history.len(), 2);
    assert_eq!(log.section_id(1), id);
    assert!(!log.section_expanded(&id, false));
}

#[test]
fn forks_leave_the_session_alone() {
    let mut pane = pane();
    exchange(&mut pane, "a", "b");
    pane.session_forked("child", None, 2, Ok("/sessions/child.json".to_string()));
    assert!(pane.current_session.is_none());
    assert_eq!(contents(&pane), vec!["a", "b"]);
}

#[test]
fn commands_rerun_only_when_sent_again() {
    let mut pane = pane();
    exchange(&mut pane, "/help", "listed");
    pane.command_rerun(&Vec::new());
    assert_eq!(pane.composer.input, "/help");
    assert!(pane.outbox.is_empty());
    exchange(&mut pane, "go on", "done");
    pane.command_rerun(&Vec::new());
    assert_eq!(pane.composer.input, "go on");
    assert!(matches!(pane.outbox.last(), Some(Effect::Submit)));
}

#[test]
fn escape_denies_the_call_on_the_card() {
    let mut pane = pane();
    let mut desk = desk();
    pane.precheck_tool_calls(&mut desk, vec![call("a")], &vec![check(Decision::Ask)], limits());
    assert!(pane.handle_first_key(&mut desk, &Key::plain(KeyCode::Esc), 0));
    assert!(matches!(desk.overlay, Overlay::Closed));
    assert!(!pane
        .outbox
        .iter()
        .any(|effect| matches!(effect, Effect::RunTools { .. })));
}

#[test]
fn areas_lie_on_small_screens() {
    let screen = Rect {
        x: 3,
        y: 2,
        width: 51,
        height: 4,
    };
    let lies = |r: &Rect| {
        r.x >= 3 && r.x + r.width <= 54 && r.y >= 2 && r.y + r.height <= 6
    };
    let areas = window_areas(screen, true, 4);
    assert!(areas.sidebar.as_ref().is_some_and(lies));
    assert!(lies(&areas.bar) && lies(&areas.content));
    assert_eq!(areas.panes.len(), 4);
    assert!(areas.panes.iter().all(lies));
    let heights = BodyHeights {
        palette: 10,
        complete: 10,
        composer: 7,
    };
    assert!(body_areas(screen, heights).iter().all(lies));
}

// Colours of a shell line.

fn pieces(line: &str) -> Vec<(String, ShellPiece)> {
    let chars: Vec<char> = line.chars().collect();
    shell_pieces(&chars)
        .into_iter()
        .map(|piece| (chars[piece.start..piece.end].iter().collect(), piece.kind))
        .collect()
}

fn commands_in(line: &str) -> Vec<String> {
    pieces(line)
        .into_iter()
        .filter(|(_, kind)| *kind == ShellPiece::Command)
        .map(|(text, _)| text)
        .collect()
}

#[test]
fn arguments_behind_wrappers_are_plain() {
    let expected = vec![
        ("sudo".to_string(), ShellPiece::Command),
        (" ".to_string(), ShellPiece::Plain),
        ("git".to_string(), ShellPiece::Command),
        (" ".to_string(), ShellPiece::Plain),
        ("status".to_string(), ShellPiece::Plain),
    ];
    assert_eq!(pieces("sudo git status"), expected);
    assert_eq!(commands_in("sudo env git status -s x"), vec!["sudo", "env", "git"]);
    assert_eq!(commands_in("git status | sudo tee out"), vec!["git", "sudo", "tee"]);
}

#[test]
fn files_of_redirects_are_no_commands() {
    assert_eq!(commands_in("ls > out"), vec!["ls"]);
    assert_eq!(commands_in("time > out"), vec!["time"]);
    assert_eq!(commands_in("sudo 'git' status"), vec!["sudo"]);
}

// Walking back further than there are prompts.

fn walked_past_the_prompts() -> Pane {
    let mut pane = pane();
    for n in 0..4 {
        exchange(&mut pane, &format!("p{n}"), "done");
    }
    pane.composer.set_input("draft".to_string());
    let prompts = words(&["p0", "p1", "p2", "p3"]);
    for _ in 0..4 {
        pane.composer.history_previous(&prompts);
    }
    assert_eq!(pane.composer.input, "p0");
    pane.log.history.drain(0..6);
    pane
}

#[test]
fn walks_go_on_where_prompts_went_away() {
    let mut desk = desk();
    let mut down = walked_past_the_prompts();
    down.handle_key(&mut desk, &Key::plain(KeyCode::Down), key_facts());
    assert_eq!(down.composer.input, "p3");
    down.handle_key(&mut desk, &Key::plain(KeyCode::Down), key_facts());
    assert_eq!(down.composer.input, "draft");
    let mut up = walked_past_the_prompts();
    up.handle_key(&mut desk, &Key::plain(KeyCode::Up), key_facts());
    assert_eq!(up.composer.input, "p3");
    let mut escape = walked_past_the_prompts();
    escape.handle_key(&mut desk, &Key::plain(KeyCode::Esc), key_facts());
    assert_eq!(escape.composer.input, "draft");
    let mut typed = walked_past_the_prompts();
    typed.handle_key(&mut desk, &Key::plain(KeyCode::Char('!')), key_facts());
    assert_eq!(typed.composer.input, "p0!");
    let mut none = walked_past_the_prompts();
    none.log.history.clear();
    none.handle_key(&mut desk, &Key::plain(KeyCode::Down), key_facts());
    assert_eq!(none.composer.input, "draft");
}

// What is in view of a list.

#[test]
fn selected_rows_are_brought_into_view() {
    assert_eq!(ensure_visible(0, 0, 5, 20), 0);
    assert_eq!(ensure_visible(4, 0, 5, 20), 0);
    assert_eq!(ensure_visible(5, 0, 5, 20), 1);
    assert_eq!(ensure_visible(2, 7, 5, 20), 2);
    assert_eq!(ensure_visible(9, 7, 5, 20), 7);
    assert_eq!(ensure_visible(19, 19, 5, 20), 15);
    assert_eq!(ensure_visible(30, 0, 5, 20), 15);
    assert_eq!(ensure_visible(3, 2, 5, 4), 0);
    assert_eq!(ensure_visible(3, 2, 0, 4), 0);
}

#[test]
fn lists_over_the_screen_scroll_with_the_selection() {
    let mut pane = pane();
    let presets = (0..20).map(|n| preset(&format!("p{n}"), false, false)).collect();
    let mut desk = Desk::new(vec!["midnight".to_string()], presets, true, true);
    desk.overlay = Overlay::Providers {
        selected: 0,
        scroll: 0,
    };
    for _ in 0..9 {
        pane.handle_overlay_key(&mut desk, &Key::plain(KeyCode::Down));
    }
    match &desk.overlay {
        Overlay::Providers { selected, scroll } => {
            assert_eq!((*selected, *scroll), (9, 2));
        }
        other => panic!("{other:?}"),
    }
    // A small screen has room for fewer rows, and the selected one is among them.
    let screen = Rect {
        x: 0,
        y: 0,
        width: 80,
        height: 12,
    };
    let card = pane.draw_overlay(&mut desk, screen).unwrap();
    let style = selection_style("midnight");
    assert!(card
        .content
        .lines
        .iter()
        .any(|line| line.text().contains('▶') && line.spans[0].style == style));
    match &desk.overlay {
        Overlay::Providers { selected, scroll } => {
            assert_eq!(*selected, 9);
            assert_eq!(*scroll, 6);
        }
        other => panic!("{other:?}"),
    }
}

#[test]
fn the_list_of_commands_scrolls_with_the_selection() {
    let mut desk = desk();
    desk.palette_selected = 30;
    desk.clamp_palette(12, 10);
    assert_eq!((desk.palette_selected, desk.palette_scroll), (11, 4));
    desk.clamp_palette(12, 5);
    assert_eq!(desk.palette_scroll, 9);
}

#[test]
fn docker_is_asked_for_containers_before_images() {
    let mut live = Live::new();
    assert_eq!(
        live.kick_live_refresh("docker", 1_000, 5_000, 0),
        vec![LiveKey::Containers, LiveKey::Images]
    );
    assert!(live.kick_live_refresh("git", 1_000, 5_000, 0).is_empty());
}

#[test]
fn windows_begin_bare() {
    let app = UiApp::new(pane(), desk(), settings(), Mode::Build);
    assert!(!app.sidebar.visible && !app.sidebar.focus);
    assert!(app.sidebar.sessions.is_empty() && app.sidebar.recent.is_empty());
    assert_eq!(app.sidebar.rect, Rect::none());
    assert_eq!(app.bar.rect, Rect::none());
    assert_eq!(app.bar.active_tab, 0);
    assert_eq!(app.bar.tabs.len(), 1);
}

#[test]
fn side_lists_scroll_to_the_selected_row() {
    let mut list = Sidebar::new();
    list.sessions = (0..20)
        .map(|n| SessionInfo {
            name: format!("s{n}"),
            message_count: 1,
        })
        .collect();
    list.visible = true;
    list.selected = 99;
    let live = Place::new("/repo");
    let rows = list.sidebar_rows(&live);
    let area = Rect {
        x: 0,
        y: 0,
        width: 30,
        height: 8,
    };
    list.place(area, rows.len());
    assert_eq!(list.selected, rows.len() - 1);
    list.selected = 10;
    let here = live_rows(&rows, "/repo");
    let lines = list.sidebar_display(&rows, &None, &here, "midnight", 28);
    list.bring_into_view(&lines);
    let at = lines.iter().position(|line| line.row == Some(10)).unwrap();
    assert_eq!(list.scroll, at + 1 - 6);
}

#[test]
fn parameters_of_a_skill_are_kept_once() {
    let mut skills = Skills::new();
    assert!(skills.is_sound());
    let twice = || SkillParams { pairs: IdMap::new() };
    skills.params.entries.push(("a".to_string(), twice()));
    assert!(skills.is_sound());
    skills.params.entries.push(("a".to_string(), twice()));
    assert!(!skills.is_sound());
}
