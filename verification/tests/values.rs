//! Values that depend on nothing but their arguments.

use r105_ui::catalog::{extract_models, Json};
use r105_ui::events::ModelInfo;
use r105_ui::files::{extract_file_refs, score_file_candidate};
use r105_ui::keys::{is_known_key_action, match_ctrl_spec, valid_ctrl_spec, Key};
use r105_ui::numbers::compact_number;
use r105_ui::replies::{
    clean_shell_draft, code_blocks, slow_start_due, split_repeat_suffix, thinking_body,
};
use r105_ui::words::{next_word_boundary, page_step, prev_word_boundary};

fn ctrl(letter: char) -> Key {
    Key::ctrl(letter)
}

fn text(value: &str) -> Json {
    Json::Text(value.to_string())
}

fn object(fields: Vec<(&str, Json)>) -> Json {
    Json::Object(
        fields
            .into_iter()
            .map(|(name, value)| (name.to_string(), value))
            .collect(),
    )
}

#[test]
fn ui_file_refs_extract_in_order_without_duplicates() {
    assert_eq!(
        extract_file_refs("see @src/main.rs and @Cargo.toml, also @src/main.rs"),
        vec!["src/main.rs".to_string(), "Cargo.toml".to_string()]
    );
}

#[test]
fn ui_file_refs_ignore_emails_and_bare_at() {
    assert!(extract_file_refs("mail user@host.com").is_empty());
    assert!(extract_file_refs("@").is_empty());
    assert!(extract_file_refs("a@b").is_empty());
}

#[test]
fn ui_file_candidates_rank_prefix_first() {
    let exact = score_file_candidate("src/main.rs", "src/main.rs").unwrap();
    let prefix = score_file_candidate("src/main.rs", "src/ma").unwrap();
    let filename = score_file_candidate("src/main.rs", "main").unwrap();
    let substring = score_file_candidate("src/main.rs", "rc/mai").unwrap();
    let fuzzy = score_file_candidate("src/main.rs", "mrs").unwrap();
    assert!(exact > prefix && prefix > filename);
    assert!(filename > substring && substring > fuzzy);
    assert!(score_file_candidate("src/main.rs", "zzz").is_none());
    assert!(score_file_candidate("anything", "").is_some());
}

#[test]
fn ui_shell_draft_cleaner_reduces_to_one_line() {
    assert_eq!(
        clean_shell_draft("```sh\nrg -n TODO src\n```\n"),
        Some("rg -n TODO src".to_string())
    );
    assert_eq!(clean_shell_draft("$ ls -la"), Some("ls -la".to_string()));
    assert_eq!(clean_shell_draft("```\n```"), None);
    assert_eq!(clean_shell_draft("   \n  "), None);
}

#[test]
fn ui_thinking_body_only_matches_whole_message_wrappers() {
    assert_eq!(
        thinking_body("<thinking>\n  weigh options\n</thinking>").as_deref(),
        Some("weigh options")
    );
    assert_eq!(thinking_body("plain reply"), None);
    // Mixed content is ordinary model text, never a thinking block.
    assert_eq!(thinking_body("intro\n<thinking>\nweigh\n</thinking>"), None);
    assert_eq!(thinking_body("<thinking>unclosed"), None);
}

#[test]
fn ui_code_blocks_extract_fenced_sections() {
    let text = "intro\n```rust\nlet x = 1;\n```\nmid\n```\nplain\n```\ntail";
    assert_eq!(
        code_blocks(text),
        vec!["let x = 1;".to_string(), "plain".to_string()]
    );
    assert!(code_blocks("no fences").is_empty());
    assert!(code_blocks("```\nunclosed").is_empty());
}

#[test]
fn ui_compact_numbers_use_k_and_m_suffixes() {
    assert_eq!(compact_number(999), "999");
    assert_eq!(compact_number(1_500), "1.5k");
    assert_eq!(compact_number(2_500_000), "2.5M");
}

#[test]
fn ui_ctrl_specs_match_exact_modifiers_case_insensitively() {
    assert!(match_ctrl_spec("ctrl+x", &ctrl('x')));
    assert!(match_ctrl_spec("ctrl+x", &ctrl('X')));
    assert!(match_ctrl_spec(" ctrl+o ", &ctrl('o')));
    let shifted = Key {
        shift: true,
        ..ctrl('x')
    };
    assert!(!match_ctrl_spec("ctrl+x", &shifted));
    assert!(!match_ctrl_spec("ctrl+x", &ctrl('y')));
    assert!(!valid_ctrl_spec("alt+x"));
    assert!(!valid_ctrl_spec("ctrl+"));
    assert!(!valid_ctrl_spec("ctrl+xy"));
    assert!(!valid_ctrl_spec("ctrl+1"));
}

#[test]
fn ui_known_key_actions_cover_the_remappable_set() {
    for action in ["cancel", "details", "tasks", "history", "redraw"] {
        assert!(is_known_key_action(action));
    }
    assert!(!is_known_key_action("quit"));
}

#[test]
fn ui_model_list_keeps_router_load_status() {
    let value = object(vec![(
        "data",
        Json::List(vec![
            object(vec![
                ("id", text("b-model")),
                (
                    "status",
                    object(vec![
                        ("value", text("unloaded")),
                        ("args", Json::List(vec![text("x")])),
                    ]),
                ),
            ]),
            object(vec![
                ("id", text("a-model")),
                ("status", object(vec![("value", text("loaded"))])),
            ]),
            object(vec![("id", text("c-model")), ("status", text("loading"))]),
            object(vec![("id", text("plain"))]),
            text("legacy-string"),
            object(vec![
                ("id", text("b-model")),
                ("status", object(vec![("value", text("loaded"))])),
            ]),
        ]),
    )]);
    let models = extract_models(&value);
    let ids: Vec<&str> = models.iter().map(|model| model.id.as_str()).collect();
    assert_eq!(
        ids,
        vec!["a-model", "b-model", "c-model", "legacy-string", "plain"]
    );
    let status = |id: &str| {
        models
            .iter()
            .find(|model| model.id == id)
            .and_then(|model| model.status.clone())
    };
    assert_eq!(status("a-model").as_deref(), Some("loaded"));
    // First occurrence wins on duplicates.
    assert_eq!(status("b-model").as_deref(), Some("unloaded"));
    assert_eq!(status("c-model").as_deref(), Some("loading"));
    assert_eq!(status("plain"), None);
}

#[test]
fn ui_model_display_marks_active_and_status() {
    let loaded = ModelInfo {
        id: "a".into(),
        status: Some("loaded".into()),
    };
    assert_eq!(loaded.display("a"), "● a (active) · loaded");
    assert_eq!(loaded.display("b"), "  a · loaded");
    let unknown = ModelInfo {
        id: "a".into(),
        status: None,
    };
    assert_eq!(unknown.display("b"), "  a");
}

#[test]
fn ui_slow_start_hint_fires_once_after_fifteen_silent_seconds() {
    let now: u64 = 100_000;
    let silent_long = Some(now - 20 * 1000);
    // Fires while busy, awaiting, unshown, and slow.
    assert!(slow_start_due(true, true, false, silent_long, now));
    // Not before the threshold.
    assert!(!slow_start_due(true, true, false, Some(now - 5 * 1000), now));
    // Never twice, never idle, never after the first token, never dateless.
    assert!(!slow_start_due(true, true, true, silent_long, now));
    assert!(!slow_start_due(false, true, false, silent_long, now));
    assert!(!slow_start_due(true, false, false, silent_long, now));
    assert!(!slow_start_due(true, true, false, None, now));
}

#[test]
fn mod_file_refs_extract_in_order_without_duplicates() {
    assert_eq!(
        extract_file_refs("see @src/main.rs and @Cargo.toml, also @src/main.rs"),
        vec!["src/main.rs".to_string(), "Cargo.toml".to_string()]
    );
}

#[test]
fn mod_file_refs_ignore_emails_and_bare_at() {
    assert!(extract_file_refs("mail user@host.com").is_empty());
    assert!(extract_file_refs("@").is_empty());
    assert!(extract_file_refs("a@b").is_empty());
}

#[test]
fn mod_file_candidates_rank_prefix_first() {
    let exact = score_file_candidate("src/main.rs", "src/main.rs").unwrap();
    let prefix = score_file_candidate("src/main.rs", "src/ma").unwrap();
    let filename = score_file_candidate("src/main.rs", "main").unwrap();
    let substring = score_file_candidate("src/main.rs", "rc/mai").unwrap();
    let fuzzy = score_file_candidate("src/main.rs", "mrs").unwrap();
    assert!(exact > prefix && prefix > filename);
    assert!(filename > substring && substring > fuzzy);
    assert!(score_file_candidate("src/main.rs", "zzz").is_none());
    assert!(score_file_candidate("anything", "").is_some());
}

#[test]
fn mod_shell_draft_cleaner_reduces_to_one_line() {
    assert_eq!(
        clean_shell_draft("```sh\nrg -n TODO src\n```\n"),
        Some("rg -n TODO src".to_string())
    );
    assert_eq!(clean_shell_draft("$ ls -la"), Some("ls -la".to_string()));
    assert_eq!(clean_shell_draft("```\n```"), None);
    assert_eq!(clean_shell_draft("   \n  "), None);
}

#[test]
fn mod_thinking_body_only_matches_whole_message_wrappers() {
    assert_eq!(
        thinking_body("<thinking>\n  weigh options\n</thinking>").as_deref(),
        Some("weigh options")
    );
    assert_eq!(thinking_body("plain reply"), None);
    // Mixed content is ordinary model text, never a thinking block.
    assert_eq!(thinking_body("intro\n<thinking>\nweigh\n</thinking>"), None);
    assert_eq!(thinking_body("<thinking>unclosed"), None);
}

#[test]
fn mod_code_blocks_extract_fenced_sections() {
    let text = "intro\n```rust\nlet x = 1;\n```\nmid\n```\nplain\n```\ntail";
    assert_eq!(
        code_blocks(text),
        vec!["let x = 1;".to_string(), "plain".to_string()]
    );
    assert!(code_blocks("no fences").is_empty());
    assert!(code_blocks("```\nunclosed").is_empty());
}

#[test]
fn mod_compact_numbers_use_k_and_m_suffixes() {
    assert_eq!(compact_number(999), "999");
    assert_eq!(compact_number(1_500), "1.5k");
    assert_eq!(compact_number(2_500_000), "2.5M");
}

#[test]
fn mod_ctrl_specs_match_exact_modifiers_case_insensitively() {
    assert!(match_ctrl_spec("ctrl+x", &ctrl('x')));
    assert!(match_ctrl_spec("ctrl+x", &ctrl('X')));
    assert!(match_ctrl_spec(" ctrl+o ", &ctrl('o')));
    let shifted = Key {
        shift: true,
        ..ctrl('x')
    };
    assert!(!match_ctrl_spec("ctrl+x", &shifted));
    assert!(!match_ctrl_spec("ctrl+x", &ctrl('y')));
    assert!(!valid_ctrl_spec("alt+x"));
    assert!(!valid_ctrl_spec("ctrl+"));
    assert!(!valid_ctrl_spec("ctrl+xy"));
    assert!(!valid_ctrl_spec("ctrl+1"));
}

#[test]
fn mod_known_key_actions_cover_the_remappable_set() {
    for action in ["cancel", "details", "tasks", "history", "redraw", "sidebar"] {
        assert!(is_known_key_action(action));
    }
    assert!(!is_known_key_action("quit"));
}

#[test]
fn mod_model_list_keeps_router_load_status() {
    let value = object(vec![(
        "data",
        Json::List(vec![
            object(vec![
                ("id", text("b-model")),
                (
                    "status",
                    object(vec![
                        ("value", text("unloaded")),
                        ("args", Json::List(vec![text("x")])),
                    ]),
                ),
            ]),
            object(vec![
                ("id", text("a-model")),
                ("status", object(vec![("value", text("loaded"))])),
            ]),
            object(vec![("id", text("c-model")), ("status", text("loading"))]),
            object(vec![("id", text("plain"))]),
            text("legacy-string"),
            object(vec![
                ("id", text("b-model")),
                ("status", object(vec![("value", text("loaded"))])),
            ]),
        ]),
    )]);
    let models = extract_models(&value);
    let ids: Vec<&str> = models.iter().map(|model| model.id.as_str()).collect();
    assert_eq!(
        ids,
        vec!["a-model", "b-model", "c-model", "legacy-string", "plain"]
    );
    let status = |id: &str| {
        models
            .iter()
            .find(|model| model.id == id)
            .and_then(|model| model.status.clone())
    };
    assert_eq!(status("a-model").as_deref(), Some("loaded"));
    // First occurrence wins on duplicates.
    assert_eq!(status("b-model").as_deref(), Some("unloaded"));
    assert_eq!(status("c-model").as_deref(), Some("loading"));
    assert_eq!(status("plain"), None);
}

#[test]
fn mod_model_display_marks_active_and_status() {
    let loaded = ModelInfo {
        id: "a".into(),
        status: Some("loaded".into()),
    };
    assert_eq!(loaded.display("a"), "● a (active) · loaded");
    assert_eq!(loaded.display("b"), "  a · loaded");
    let unknown = ModelInfo {
        id: "a".into(),
        status: None,
    };
    assert_eq!(unknown.display("b"), "  a");
}

#[test]
fn mod_slow_start_hint_fires_once_after_fifteen_silent_seconds() {
    let now: u64 = 100_000;
    let silent_long = Some(now - 20 * 1000);
    // Fires while busy, awaiting, unshown, and slow.
    assert!(slow_start_due(true, true, false, silent_long, now));
    // Not before the threshold.
    assert!(!slow_start_due(true, true, false, Some(now - 5 * 1000), now));
    // Never twice, never idle, never after the first token, never dateless.
    assert!(!slow_start_due(true, true, true, silent_long, now));
    assert!(!slow_start_due(false, true, false, silent_long, now));
    assert!(!slow_start_due(true, false, false, silent_long, now));
    assert!(!slow_start_due(true, true, false, None, now));
}

#[test]
fn split_repeat_suffix_parses_counts() {
    assert_eq!(split_repeat_suffix("plain"), ("plain".to_string(), 1));
    assert_eq!(split_repeat_suffix("note (×2)"), ("note".to_string(), 2));
    assert_eq!(split_repeat_suffix("note (×12)"), ("note".to_string(), 12));
    // Malformed tails are left alone rather than mis-folded.
    assert_eq!(split_repeat_suffix("note (×)"), ("note (×)".to_string(), 1));
    assert_eq!(split_repeat_suffix("note (×x)"), ("note (×x)".to_string(), 1));
}

#[test]
fn word_boundaries_skip_whitespace_and_words() {
    assert_eq!(prev_word_boundary("git status", 10), 4);
    assert_eq!(prev_word_boundary("git status", 4), 0);
    assert_eq!(prev_word_boundary("git status", 3), 0);
    assert_eq!(next_word_boundary("git status", 0), 3);
    assert_eq!(next_word_boundary("git status", 3), 10);
    assert_eq!(page_step(24), 22);
    assert_eq!(page_step(2), 3);
}
