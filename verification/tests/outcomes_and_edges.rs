//! Edges, errors and what is said of them.

use r105_ui::catalog::{
    approval_preview, call_arguments, edit_asked, extract_contexts, patch_asked, read_arguments,
    Json,
};
use r105_ui::desk::{Desk, Preset};
use r105_ui::effects::BackupReason;
use r105_ui::effects::Effect;
use r105_ui::events::{Overlay, StatusTone};
use r105_ui::filters::parse_block_filter;
use r105_ui::model::Message;
use r105_ui::mouse::{item_at, Mouse, MouseKind};
use r105_ui::outside::{reload_due, EndpointOutcome, KeepError, ReadConfig};
use r105_ui::paint::Rect;
use r105_ui::pane::Pane;
use r105_ui::pattern::{check_pattern, match_all};
use r105_ui::replies::rerun_target;
use r105_ui::reports::{
    count_skills, git_branch, startup_status, workspace_diff, workspace_map, DiffOutcome,
    FileOutcome, MapEntry,
};
use r105_ui::search::HistSearch;
use r105_ui::sessions::{LoadedSession, SessionRequest};
use r105_ui::settings::{Mode, Settings};
use r105_ui::shell::{
    directory_block, directory_entries, editor_command, file_block, shell_draft_outcome,
};
use r105_ui::sidebar::workspace_basename;
use r105_ui::skills::{SkillFile, Skills};
use r105_ui::tabs::compact_tab_label;
use r105_ui::text::is_alnum;
use r105_ui::words::prev_word_boundary;

fn settings() -> Settings {
    Settings {
        theme: "midnight".to_string(),
        model: "local".to_string(),
        quality: None,
        profile: None,
        reasoning_effort: "auto".to_string(),
        permission_posture: "full-access".to_string(),
        auto_compact: true,
        cache_prompt: true,
        json_mode: false,
        show_thinking: true,
        thinking_default_expanded: false,
        max_tokens: None,
        keybindings: Vec::new(),
    }
}

fn pane() -> Pane {
    Pane::new(1, settings(), Mode::Build, "/repo".to_string(), 0, true, false)
}

fn preset(id: &str, asks_for_url: bool, api_key_required: bool) -> Preset {
    Preset {
        id: id.to_string(),
        label: id.to_uppercase(),
        description: "hosted".to_string(),
        base_url: None,
        asks_for_url,
        api_key_required,
        api_key_env: None,
        key_at_hand: false,
    }
}

fn desk() -> Desk {
    Desk::new(
        vec!["midnight".to_string(), "dracula".to_string()],
        vec![preset("local", false, false), preset("custom", true, true)],
        true,
        true,
    )
}

fn words(list: &[&str]) -> Vec<String> {
    list.iter().map(|word| word.to_string()).collect()
}

fn stored(history: Vec<Message>) -> LoadedSession {
    LoadedSession {
        settings: settings(),
        mode: "plan".to_string(),
        count: history.len(),
        history,
        todos: Vec::new(),
        skills: Skills::new(),
    }
}

fn config() -> ReadConfig {
    ReadConfig {
        theme: "dracula".to_string(),
        quality: Some("best".to_string()),
        profile: None,
        model: None,
        auto_compact: false,
        cache_prompt: false,
        reasoning_effort: "high".to_string(),
        show_thinking: false,
        thinking_default_expanded: true,
        permission_posture: "restricted".to_string(),
        keybindings: Vec::new(),
        attention_bell: false,
        mouse: false,
        shown: Ok("{}".to_string()),
    }
}

#[test]
fn filters_say_what_is_wrong() {
    let parse = |args: &[&str]| parse_block_filter(3, &words(args)).unwrap_err();
    assert!(parse(&["x", "y"]).starts_with("Usage: /filter"));
    assert!(parse(&["9", "x"]).contains("3"));
    let broken = parse(&["1", "(", "--regex"]);
    assert!(broken.contains("regex parse error"), "{broken}");
}

#[test]
fn patterns_are_those_of_the_regex_crate() {
    assert!(check_pattern("a+").is_none());
    assert!(check_pattern("a(").is_some_and(|error| error.contains("unclosed group")));
    let lines = words(&["aab", "b", "ba"]);
    assert_eq!(match_all("^a+b$", &lines), vec![true, false, false]);
    assert_eq!(match_all(r"\d", &words(&["x1", "x"])), vec![true, false]);
}

#[test]
fn letters_of_every_script_are_words() {
    assert_eq!(prev_word_boundary("größe über", 12), 8);
    assert!(is_alnum('ß') && is_alnum('七') && is_alnum('7'));
    assert!(!is_alnum('-') && !is_alnum('…'));
}

#[test]
fn reruns_say_what_is_wrong() {
    let history = vec![
        Message::user("a"),
        Message::assistant_with_tools("b", vec![]),
    ];
    assert!(rerun_target(&history, Some(2)).unwrap_err().contains("2"));
    assert!(rerun_target(&history, Some(5)).unwrap_err().contains("5"));
    assert!(!rerun_target(&Vec::new(), None).unwrap_err().is_empty());
}

#[test]
fn exports_are_planned() {
    let mut pane = pane();
    let plan = pane.command_export(&words(&["json"])).unwrap();
    assert_eq!(plan.format, "json");
    assert_eq!(plan.path, None);
    assert_eq!(plan.name, "r105-export.json");
    assert!(pane.command_export(&words(&["docx"])).is_none());
    assert_eq!(pane.log.status, "Unsupported export format: docx");
    pane.export_done(FileOutcome::Rejected("outside".to_string()));
    assert_eq!(pane.log.status, "Export path rejected: outside");
    pane.export_done(FileOutcome::Failed("full".to_string()));
    assert_eq!(pane.log.status, "Export failed: full");
    pane.export_done(FileOutcome::Done("/repo/x.md".to_string()));
    assert_eq!(pane.log.status, "Exported /repo/x.md");
}

#[test]
fn previews_say_what_is_wrong() {
    let mut pane = pane();
    assert!(pane.command_preview(&Vec::new()).is_none());
    assert_eq!(pane.log.status, "Usage: /preview <filename>");
    assert_eq!(
        pane.command_preview(&words(&["a.txt"])).as_deref(),
        Some("a.txt")
    );
    pane.preview_done("a.txt", FileOutcome::Rejected("outside".to_string()));
    assert_eq!(pane.log.status, "Preview path rejected: outside");
    pane.preview_done("a.txt", FileOutcome::Failed("gone".to_string()));
    assert_eq!(pane.log.status, "Preview failed: gone");
}

#[test]
fn settings_that_cannot_be_kept_are_reported() {
    let mut pane = pane();
    pane.keep_failed(false, KeepError::Unread("gone".to_string()));
    assert_eq!(
        pane.log.status,
        "Setting changed, but config read failed: gone"
    );
    pane.keep_failed(false, KeepError::Unsaved("full".to_string()));
    assert_eq!(
        pane.log.status,
        "Setting changed, but config save failed: full"
    );
    pane.keep_failed(true, KeepError::Unread("gone".to_string()));
    assert_eq!(
        pane.log.status,
        "connected, but could not read config to persist connection"
    );
    pane.keep_failed(true, KeepError::Unsaved("full".to_string()));
    assert_eq!(pane.log.status, "connected, but could not save config: full");
}

#[test]
fn configurations_are_reloaded_by_default() {
    let failed = || Err("gone".to_string());
    assert!(reload_due(&words(&[]), &Ok(config())));
    assert!(reload_due(&words(&["reload"]), &Ok(config())));
    assert!(!reload_due(&words(&["show"]), &Ok(config())));
    assert!(!reload_due(&words(&[]), &failed()));
    assert!(!reload_due(&words(&["reload"]), &failed()));
}

#[test]
fn configurations_are_taken_over_or_refused() {
    let mut pane = pane();
    let mut desk = desk();
    let reload = words(&["reload"]);
    let rejected = EndpointOutcome::Rejected("bad url".to_string());
    pane.command_config(&mut desk, &reload, Ok(config()), rejected);
    assert_eq!(pane.settings.theme, "midnight");
    assert_eq!(pane.log.status, "Config connection rejected: bad url");
    pane.command_config(&mut desk, &reload, Err("gone".to_string()), EndpointOutcome::Same);
    assert_eq!(pane.log.status, "Config read failed: gone");
    pane.command_config(&mut desk, &reload, Ok(config()), EndpointOutcome::Same);
    assert_eq!(pane.settings.theme, "dracula");
    assert_eq!(pane.settings.quality.as_deref(), Some("best"));
    assert!(!desk.mouse_enabled);
    pane.command_config(&mut desk, &words(&["what"]), Ok(config()), EndpointOutcome::Same);
    assert_eq!(pane.log.status, "Usage: /config show|reload");
}

#[test]
fn sessions_say_what_is_wrong() {
    let mut pane = pane();
    assert!(pane.command_session(&words(&["what"])).is_none());
    assert_eq!(
        pane.log.status,
        "Usage: /session save|load|list|search|delete|diff|fork|tree"
    );
    assert_eq!(
        pane.command_session(&words(&["save"])),
        Some(SessionRequest::Save {
            name: "default".to_string()
        })
    );
    assert_eq!(
        pane.command_session(&words(&["search", "x"])),
        Some(SessionRequest::Search {
            query: "x".to_string()
        })
    );
    assert!(pane.command_session(&words(&["fork"])).is_none());
    assert!(pane.command_session(&words(&["fork", "a", "many"])).is_none());
    pane.session_saved("a", Err("full".to_string()));
    assert_eq!(pane.log.status, "Session save failed: full");
    pane.session_saved("a", Ok("/s/a.json".to_string()));
    assert_eq!(pane.log.status, "Saved /s/a.json");
    assert_eq!(pane.current_session.as_deref(), Some("a"));
    pane.session_deleted("a", Ok(false));
    assert_eq!(pane.log.status, "Session not found: a");
    pane.session_deleted("a", Err("busy".to_string()));
    assert_eq!(pane.log.status, "Session delete failed: busy");
    pane.session_compared(Err("gone".to_string()));
    assert_eq!(pane.log.status, "Session diff failed: gone");
    pane.session_forked("b", None, 0, Err("full".to_string()));
    assert_eq!(pane.log.status, "Session fork failed: full");
}

#[test]
fn loaded_sessions_replace_the_conversation() {
    let mut pane = pane();
    pane.log.push(Message::user("old"));
    pane.load_session_named("work", Ok(stored(vec![Message::user("new")])));
    assert_eq!(pane.log.history.len(), 1);
    assert_eq!(pane.log.history[0].content, "new");
    assert_eq!(pane.mode, Mode::Plan);
    assert_eq!(pane.log.status, "Loaded work (1 messages)");
    assert!(!pane.other_session("work"));
    assert!(pane.other_session("else"));
}

#[test]
fn autosaves_are_named() {
    let mut pane = pane();
    assert_eq!(pane.autosave_name(Some(5)), None);
    pane.log.push(Message::user("a"));
    assert_eq!(pane.autosave_name(Some(5)).as_deref(), Some("autosave-5"));
    assert_eq!(pane.autosave_name(None).as_deref(), Some("autosave"));
    pane.current_session = Some("work".to_string());
    assert_eq!(pane.autosave_name(Some(5)).as_deref(), Some("work"));
}

#[test]
fn workspaces_are_entered() {
    let mut pane = pane();
    assert_eq!(pane.command_workspace(&Vec::new()), None);
    assert_eq!(pane.log.history[0].content, "Workspace: /repo");
    assert_eq!(
        pane.command_workspace(&words(&["/else"])).as_deref(),
        Some("/else")
    );
    pane.enter_workspace("/else".to_string(), Some("denied".to_string()));
    assert_eq!(pane.workspace, "/repo");
    assert_eq!(pane.log.status, "workspace error: denied");
    pane.enter_workspace("/else".to_string(), None);
    assert_eq!(pane.workspace, "/else");
    assert_eq!(pane.log.status, "Workspace: /else");
}

#[test]
fn skills_say_what_is_wrong() {
    let mut pane = pane();
    let missing = SkillFile {
        path: "/skills/gone.md".to_string(),
        exists: false,
        content: Err("no such file".to_string()),
    };
    pane.command_skill(&words(&["use", "gone"]), Some("gone".to_string()), &missing);
    assert!(pane.skills.active.is_empty());
    pane.command_skill(&words(&["show", "gone"]), Some("gone".to_string()), &missing);
    assert_eq!(pane.log.status, "Skill read failed: no such file");
    pane.command_skill(&words(&["use"]), None, &missing);
    assert_eq!(pane.log.status, "Usage: /skill use <name>");
    pane.command_skill(&words(&["what"]), None, &missing);
    assert_eq!(pane.log.status, "Usage: /skill use|show|drop|clear <name>");
}

#[test]
fn reports_cover_every_outcome() {
    assert_eq!(workspace_map(&Vec::new()), "Workspace is empty");
    let entry = |path: &str, is_dir| MapEntry {
        path: path.to_string(),
        is_dir,
    };
    assert_eq!(
        workspace_map(&vec![entry("src", true), entry("a.rs", false)]),
        "▸ src\n· a.rs"
    );
    assert_eq!(
        workspace_diff(&DiffOutcome::Done("\n".to_string())),
        "No Git changes"
    );
    assert_eq!(
        workspace_diff(&DiffOutcome::Done(" a | 1 +\n".to_string())),
        "a | 1 +"
    );
    assert_eq!(
        workspace_diff(&DiffOutcome::Refused("not a repo\n".to_string())),
        "not a repo"
    );
    assert_eq!(
        workspace_diff(&DiffOutcome::Unavailable("no git".to_string())),
        "git diff unavailable: no git"
    );
    assert_eq!(git_branch("main\n").as_deref(), Some("main"));
    assert_eq!(git_branch("HEAD\n"), None);
    assert_eq!(git_branch(""), None);
    assert_eq!(count_skills(&words(&["a.md", "b.txt", ".hidden"])), 2);
}

#[test]
fn startups_say_what_is_limited() {
    assert_eq!(startup_status("docker", &Vec::new(), 0, None), "Ready");
    let bindings = vec![("redraw".to_string(), "alt+x".to_string())];
    assert_eq!(
        startup_status("none", &bindings, 2, Some("bad rule".to_string())),
        "Ready · sandbox 'none' (limited) — /state for details · 1 invalid keybinding(s) ignored \
         (want ctrl+<letter>) · 2 custom commands (/commands) · approval policy invalid (bad \
         rule); tools locked down"
    );
}

#[test]
fn leaving_says_what_was_saved() {
    let mut pane = pane();
    assert_eq!(pane.exit_notice(None), None);
    pane.log.push(Message::user("a"));
    assert_eq!(
        pane.exit_notice(None).as_deref(),
        Some("Autosaved session '__autosave__' (1 messages)")
    );
    assert_eq!(
        pane.exit_notice(Some("full".to_string())).as_deref(),
        Some("warning: could not save autosession: full")
    );
}

#[test]
fn suggestions_are_switched() {
    let mut pane = pane();
    assert!(!pane.command_completion(&words(&["ai", "on"]), 0));
    assert!(pane.ai_suggest_on);
    assert!(pane.command_completion(&words(&["clear"]), 3));
    assert_eq!(pane.log.status, "Suggestions cleared");
    assert!(!pane.command_completion(&words(&["what"]), 3));
    assert_eq!(
        pane.log.status,
        "Usage: /completion [status|clear|ai on|ai off] (got what)"
    );
}

#[test]
fn drafted_commands_fail_in_words() {
    assert_eq!(
        shell_draft_outcome(Ok("$ ls".to_string())),
        Ok("ls".to_string())
    );
    assert_eq!(
        shell_draft_outcome(Ok("  ".to_string())),
        Err("The model returned no usable command".to_string())
    );
    assert_eq!(
        shell_draft_outcome(Err("down".to_string())),
        Err("Shell draft failed: down".to_string())
    );
}

#[test]
fn references_become_blocks() {
    assert_eq!(
        file_block("a.rs", "fn a() {}"),
        "<file path=\"a.rs\">\nfn a() {}\n</file>"
    );
    let long = file_block("a", &"x".repeat(12_001));
    assert!(long.contains("\n⋯ truncated\n</file>"));
    assert_eq!(
        directory_block(
            "src",
            &directory_entries(&vec![("b.rs".to_string(), false), ("a".to_string(), true)])
        ),
        "<directory path=\"src\">\na/\nb.rs\n</directory>"
    );
}

#[test]
fn approvals_preview_what_changes() {
    let field = |name: &str, value: &str| (name.to_string(), Json::Text(value.to_string()));
    let args = Json::Object(vec![field("path", "a.txt"), field("content", "x\ny")]);
    let shown = approval_preview("write_file", &args, "old", None, None).unwrap();
    assert!(shown.starts_with("a.txt"), "{shown}");
    let edit = approval_preview("edit_file", &args, "", Some("-a +b".to_string()), None);
    assert_eq!(edit.as_deref(), Some("a.txt: -a +b"));
    assert_eq!(approval_preview("edit_file", &args, "", None, None), None);
    let asked = Json::Object(vec![
        field("old_text", "a"),
        ("replace_all".to_string(), Json::Bool(true)),
        field("patch", "@@"),
    ]);
    let edit = edit_asked(&asked);
    assert_eq!((edit.old_text.as_str(), edit.new_text.as_str()), ("a", ""));
    assert!(edit.replace_all && !edit_asked(&args).replace_all);
    assert_eq!(patch_asked(&asked), "@@");
    assert!(matches!(call_arguments("{", None), Json::Text(raw) if raw == "{"));
    assert!(matches!(call_arguments("null", Some(Json::Null)), Json::Null));
    assert_eq!(approval_preview("bash", &args, "", None, None), None);
}

#[test]
fn directories_are_attached_up_to_a_limit() {
    let found: Vec<(String, bool)> = (0..50).map(|n| (format!("f{n}"), n % 2 == 0)).collect();
    let names = directory_entries(&found);
    assert_eq!(names.len(), 40);
    assert_eq!(names[38], "f38/");
    assert_eq!(names[39], "f39");
}

#[test]
fn editors_are_set_with_their_arguments() {
    let run = editor_command("  code --wait  -n ").unwrap();
    assert_eq!(run.0, "code");
    assert_eq!(run.1, words(&["--wait", "-n"]));
    assert_eq!(editor_command(" \t"), None);
}

#[test]
fn checkpoints_are_named_by_their_reason() {
    assert_eq!(BackupReason::Clear.checkpoint_name(17), "checkpoint-clear-17");
    let rewind = BackupReason::Rewind { index: 3 };
    assert_eq!(rewind.checkpoint_name(0), "checkpoint-rewind-0");
}

#[test]
fn arguments_are_read_from_their_text() {
    let raw = "{\"path\": \"a\\nb\", \"replace_all\": true, \"n\": [-1.5, null, 12]}";
    let args = read_arguments(raw);
    assert_eq!(args.get_str("path"), Some("a\nb".to_string()));
    assert!(edit_asked(&args).replace_all);
    match args.get("n") {
        Some(Json::List(items)) => {
            assert!(matches!(&items[0], Json::Number(digits) if digits == "-1.5"));
            assert!(matches!(&items[1], Json::Null));
            assert_eq!(items[2].positive_integer(), Some(12));
            assert_eq!(items[0].positive_integer(), None);
        }
        _ => panic!("no list"),
    }
    // What is no value stays the text that it is.
    assert!(matches!(read_arguments("{oops"), Json::Text(raw) if raw == "{oops"));
    assert!(matches!(read_arguments("\"x\""), Json::Text(text) if text == "x"));
    assert!(matches!(read_arguments("null"), Json::Null));
}

#[test]
fn contexts_are_read_from_model_lists() {
    let number = |n: u64| Json::Number(n.to_string());
    let model = Json::Object(vec![
        ("id".to_string(), Json::Text("m".to_string())),
        ("context_length".to_string(), number(4_096)),
    ]);
    let value = Json::Object(vec![("data".to_string(), Json::List(vec![model]))]);
    assert_eq!(extract_contexts(&value), vec![("m".to_string(), 4_096)]);
    assert_eq!(number(0).positive_integer(), None);
    assert_eq!(number(7).positive_integer(), Some(7));
}

#[test]
fn providers_ask_for_what_is_missing() {
    let mut pane = pane();
    let mut desk = desk();
    pane.start_provider(&mut desk, "nowhere", None, false, false);
    assert_eq!(pane.log.status, "Unknown provider 'nowhere'");
    pane.start_provider(&mut desk, "custom", None, false, false);
    assert!(matches!(desk.overlay, Overlay::ApiKey { .. }));
    desk.close_overlay();
    pane.start_provider(&mut desk, "local", None, false, false);
    assert!(matches!(
        pane.outbox.last(),
        Some(Effect::Connect { provider, .. }) if provider == "local"
    ));
    pane.provider_begun(&desk, "local", None);
    assert_eq!(pane.log.status, "Checking LOCAL and loading models…");
    pane.provider_begun(&desk, "local", Some("refused".to_string()));
    assert_eq!(pane.log.status, "connection failed: refused");
    pane.url_checked(&mut desk, "custom".to_string(), "ftp://x".to_string(), false);
    assert!(matches!(desk.overlay, Overlay::CustomUrl { .. }));
    assert_eq!(
        pane.log.status,
        "Enter an http:// or https:// URL without credentials"
    );
}

#[test]
fn headers_and_labels_are_drawn() {
    let mut pane = pane();
    let (first, second) = pane.draw_header("local", "none", 3);
    assert!(first.text().contains("local"));
    assert!(second.text().contains("3"));
    pane.run.busy = true;
    assert_eq!(pane.frame_title(0, true), " 1 session 1 … ");
    assert_eq!(compact_tab_label("a long label", 6), "a lon…");
    assert_eq!(compact_tab_label("short", 6), "short");
    assert_eq!(workspace_basename("/home/me/repo"), "repo");
    assert_eq!(workspace_basename("/"), "/");
}

#[test]
fn wheels_scroll_the_conversation() {
    let mut pane = pane();
    let mut desk = desk();
    pane.log.transcript_scroll = 20;
    let wheel = |kind, shift| Mouse {
        kind,
        column: 0,
        row: 0,
        shift,
    };
    pane.handle_mouse(&mut desk, &wheel(MouseKind::WheelUp, false), &Vec::new());
    assert_eq!(pane.log.transcript_scroll, 16);
    pane.handle_mouse(&mut desk, &wheel(MouseKind::WheelDown, true), &Vec::new());
    assert_eq!(pane.log.transcript_scroll, 28);
    assert!(!pane.log.follow_transcript);
    assert_eq!(
        item_at(
            Rect {
                x: 0,
                y: 5,
                width: 10,
                height: 6
            },
            1,
            7,
            2,
            9
        ),
        Some(3)
    );
}

#[test]
fn searches_take_clicks_and_wheels() {
    let mut pane = pane();
    let matches = words(&["one", "two", "three", "four", "five"]);
    let mut search = HistSearch::open(&pane.composer);
    search.hist_wheel(&mut pane.composer, true, &matches);
    assert_eq!(search.selected, 3);
    assert_eq!(pane.composer.input, "four");
    assert_eq!(search.hist_rows(&matches)[3], ("four".to_string(), true));
    let panel = Rect {
        x: 0,
        y: 10,
        width: 20,
        height: 8,
    };
    let (open, taken) = pane.click_hist_search(search, panel, 2, 11, &matches, 0);
    assert!(taken);
    let open = open.unwrap();
    assert_eq!(open.selected, 0);
    let (closed, _) = pane.click_hist_search(open, panel, 2, 11, &matches, 0);
    assert!(closed.is_none());
    assert_eq!(pane.composer.input, "one");
}

#[test]
fn edited_drafts_come_back() {
    let mut pane = pane();
    pane.take_edited("nvim", "hello\nworld\n\n");
    assert_eq!(pane.composer.input, "hello\nworld");
    assert_eq!(pane.log.status, "Draft from nvim (11 chars)");
}

#[test]
fn clipboards_report_what_was_copied() {
    let mut pane = pane();
    pane.run.last_response = "text\n```\ncode\n```\n".to_string();
    pane.command_copy(&words(&["1"]));
    match pane.outbox.pop() {
        Some(Effect::Copy { text, what }) => {
            assert_eq!(text, "code");
            pane.copy_done(what, 4, false);
            assert!(pane.log.status.starts_with("Clipboard unavailable"));
            pane.copy_done(what, 4, true);
            assert_eq!(pane.log.status_tone, StatusTone::Success);
        }
        other => panic!("{other:?}"),
    }
    pane.command_copy(&words(&["7"]));
    assert!(pane.outbox.is_empty());
}
