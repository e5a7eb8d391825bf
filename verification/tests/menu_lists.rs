//! Menus, the list of commands, and commands.

use r105_ui::commands::{CommandFacts, ConnectionText, ContextText, ParsedCommand};
use r105_ui::desk::{Desk, Preset};
use r105_ui::menus::{accept_arg_complete, arg_candidates, narrow_args, ArgSource, Lookup};
use r105_ui::palette::{note_recent, palette_items, CustomCommand, PaletteItem};
use r105_ui::pane::Pane;
use r105_ui::panels::draw_palette;
use r105_ui::settings::{reasoning_step_list, Mode, Settings};
use r105_ui::skills::skill_names;

fn settings() -> Settings {
    Settings {
        theme: "midnight".to_string(),
        model: "local".to_string(),
        quality: None,
        profile: None,
        reasoning_effort: "auto".to_string(),
        permission_posture: "full-access".to_string(),
        auto_compact: true,
        cache_prompt: true,
        json_mode: false,
        show_thinking: true,
        thinking_default_expanded: false,
        max_tokens: None,
        keybindings: Vec::new(),
    }
}

fn pane() -> Pane {
    Pane::new(1, settings(), Mode::Build, "/repo".to_string(), 0, true, false)
}

fn preset(id: &str, asks_for_url: bool, api_key_required: bool) -> Preset {
    Preset {
        id: id.to_string(),
        label: id.to_uppercase(),
        description: "hosted".to_string(),
        base_url: None,
        asks_for_url,
        api_key_required,
        api_key_env: None,
        key_at_hand: false,
    }
}

fn desk() -> Desk {
    Desk::new(
        vec!["midnight".to_string(), "dracula".to_string()],
        vec![preset("local", false, false), preset("custom", true, true)],
        true,
        true,
    )
}

fn command_facts() -> CommandFacts {
    CommandFacts {
        builtin: true,
        help: "All commands".to_string(),
        topic: None,
        expansion: None,
        found: Vec::new(),
        suggestion: None,
        connection: ConnectionText {
            name: "local".to_string(),
            backend: "llama".to_string(),
            url: "http://127.0.0.1:9".to_string(),
        },
        sandbox: "none".to_string(),
        approvals: "ask".to_string(),
        context: ContextText {
            used: 10,
            total: 100,
            percent: "10.0".to_string(),
            source: "estimated".to_string(),
            cache_hit: None,
            cache_miss: None,
        },
        url_valid: false,
        provider: String::new(),
        editor_set: false,
        commands_dir: "/config/commands".to_string(),
        project_dir: "/repo/.r105/commands".to_string(),
        shadowed: Vec::new(),
        now: 0,
    }
}

fn words(list: &[&str]) -> Vec<String> {
    list.iter().map(|word| word.to_string()).collect()
}

fn row(name: &str, description: &str) -> PaletteItem {
    PaletteItem {
        name: name.to_string(),
        description: description.to_string(),
        custom: false,
    }
}

fn test_custom(name: &str) -> CustomCommand {
    CustomCommand {
        name: name.to_string(),
        description: "Test command".to_string(),
        argument_hint: None,
        content: "Do $1".to_string(),
        source: "user".to_string(),
        path: "/tmp/test.md".to_string(),
    }
}

fn parsed(name: &str, args: &[&str]) -> ParsedCommand {
    ParsedCommand {
        name: name.to_string(),
        args: words(args),
    }
}

/// The entries of the argument menu where the argument takes these values.
fn arg_menu_items(app: &mut Pane, values: &[String]) -> Vec<String> {
    match app.arg_menu.arg_lookup(&app.composer, false) {
        Lookup::Closed => Vec::new(),
        Lookup::Kept => app.arg_menu.items.clone(),
        Lookup::Search(token) => {
            let items = narrow_args(&values.to_vec(), &token);
            app.arg_menu.store(&app.composer, items.clone());
            items
        }
    }
}

fn names(items: &[PaletteItem]) -> Vec<String> {
    items.iter().map(|item| item.name.clone()).collect()
}

#[test]
fn ui_arg_menu_completes_static_values_and_accepts() {
    let mut app = pane();
    app.composer.set_input("/theme dr".to_string());
    assert_eq!(
        arg_candidates(&app.composer.argument_words()),
        ArgSource::Fixed("/theme".to_string())
    );
    assert_eq!(
        arg_menu_items(&mut app, &desk().themes),
        vec!["dracula".to_string()]
    );
    assert!(accept_arg_complete(&mut app.composer, &mut app.arg_menu));
    assert_eq!(app.composer.input, "/theme dracula ");
}

#[test]
fn ui_arg_menu_lists_all_values_on_empty_token() {
    let mut app = pane();
    app.composer.set_input("/reasoning ".to_string());
    let items = arg_menu_items(&mut app, &reasoning_step_list());
    assert_eq!(items.len(), 5);
    assert!(items.contains(&"low".to_string()));
}

#[test]
fn ui_arg_menu_completes_skill_names_in_second_position() {
    let mut app = pane();
    app.composer.set_input("/skill use ".to_string());
    assert_eq!(
        arg_candidates(&app.composer.argument_words()),
        ArgSource::Skills
    );
    let skills = skill_names(&words(&["review.md"]));
    assert_eq!(
        arg_menu_items(&mut app, &skills),
        vec!["review".to_string()]
    );
}

#[test]
fn ui_arg_menu_stays_shut_for_plain_text() {
    let mut app = pane();
    app.composer.set_input("just typing".to_string());
    assert!(arg_menu_items(&mut app, &desk().themes).is_empty());
}

#[test]
fn ui_palette_lists_custom_commands_with_marker() {
    let mut app = pane();
    app.composer.set_input("/rev".to_string());
    assert!(app.composer.is_palette_query());
    let found_rows = vec![PaletteItem {
        custom: true,
        ..row("/review", "Test command")
    }];
    let items = palette_items(&found_rows, &desk().recent_commands, &app.settings, app.mode);
    let found = items
        .iter()
        .find(|item| item.name == "/review")
        .expect("custom row");
    assert!(found.custom);
}

#[test]
fn ui_custom_command_dispatch_expands_and_submits() {
    let mut app = pane();
    let mut desk = desk();
    desk.custom_commands = vec![test_custom("review")];
    // `/review scope`
    let facts = CommandFacts {
        builtin: false,
        expansion: Some("Do scope".to_string()),
        shadowed: vec![false],
        ..command_facts()
    };
    app.handle_command(&mut desk, &parsed("/review", &["scope"]), &facts);
    assert_eq!(app.run.active_user.as_deref(), Some("Do scope"));
    assert_eq!(
        app.log.status,
        "Expanded /review (user) · Sending in build mode…"
    );
}

#[test]
fn ui_unknown_command_suggests_closest_match() {
    let mut app = pane();
    let mut desk = desk();
    let facts = CommandFacts {
        builtin: false,
        suggestion: Some("/model".to_string()),
        ..command_facts()
    };
    app.handle_command(&mut desk, &parsed("/modell", &[]), &facts);
    assert_eq!(
        app.log.status,
        "Unknown command /modell; did you mean /model?"
    );
}

#[test]
fn mod_arg_menu_completes_static_values_and_accepts() {
    let mut app = pane();
    app.composer.set_input("/theme dr".to_string());
    assert_eq!(
        arg_candidates(&app.composer.argument_words()),
        ArgSource::Fixed("/theme".to_string())
    );
    assert_eq!(
        arg_menu_items(&mut app, &desk().themes),
        vec!["dracula".to_string()]
    );
    assert!(accept_arg_complete(&mut app.composer, &mut app.arg_menu));
    assert_eq!(app.composer.input, "/theme dracula ");
}

#[test]
fn mod_arg_menu_lists_all_values_on_empty_token() {
    let mut app = pane();
    app.composer.set_input("/reasoning ".to_string());
    let items = arg_menu_items(&mut app, &reasoning_step_list());
    assert_eq!(items.len(), 5);
    assert!(items.contains(&"low".to_string()));
}

#[test]
fn mod_arg_menu_completes_skill_names_in_second_position() {
    let mut app = pane();
    app.composer.set_input("/skill use ".to_string());
    assert_eq!(
        arg_candidates(&app.composer.argument_words()),
        ArgSource::Skills
    );
    let skills = skill_names(&words(&["review.md"]));
    assert_eq!(
        arg_menu_items(&mut app, &skills),
        vec!["review".to_string()]
    );
}

#[test]
fn mod_arg_menu_stays_shut_for_plain_text() {
    let mut app = pane();
    app.composer.set_input("just typing".to_string());
    assert!(arg_menu_items(&mut app, &desk().themes).is_empty());
}

#[test]
fn mod_palette_lists_custom_commands_with_marker() {
    let mut app = pane();
    app.composer.set_input("/rev".to_string());
    assert!(app.composer.is_palette_query());
    let found_rows = vec![PaletteItem {
        custom: true,
        ..row("/review", "Test command")
    }];
    let items = palette_items(&found_rows, &desk().recent_commands, &app.settings, app.mode);
    let found = items
        .iter()
        .find(|item| item.name == "/review")
        .expect("custom row");
    assert!(found.custom);
}

#[test]
fn mod_custom_command_dispatch_expands_and_submits() {
    let mut app = pane();
    let mut desk = desk();
    desk.custom_commands = vec![test_custom("review")];
    // `/review scope`
    let facts = CommandFacts {
        builtin: false,
        expansion: Some("Do scope".to_string()),
        shadowed: vec![false],
        ..command_facts()
    };
    app.handle_command(&mut desk, &parsed("/review", &["scope"]), &facts);
    assert_eq!(app.run.active_user.as_deref(), Some("Do scope"));
    assert_eq!(
        app.log.status,
        "Expanded /review (user) · Sending in build mode…"
    );
}

#[test]
fn mod_unknown_command_suggests_closest_match() {
    let mut app = pane();
    let mut desk = desk();
    let facts = CommandFacts {
        builtin: false,
        suggestion: Some("/model".to_string()),
        ..command_facts()
    };
    app.handle_command(&mut desk, &parsed("/modell", &[]), &facts);
    assert_eq!(
        app.log.status,
        "Unknown command /modell; did you mean /model?"
    );
}

#[test]
fn palette_recency_boosts_repeated_command() {
    let mut app = pane();
    let mut desk = desk();
    app.composer.set_input("/".to_string());
    let found = vec![row("/help", "Help"), row("/tokens", "Tokens")];
    let before = names(&palette_items(&found, &desk.recent_commands, &app.settings, app.mode));
    assert!(before.iter().any(|name| name == "/tokens"));
    assert_eq!(before[0], "/help");
    let known = |name: &str| found.iter().any(|row| row.name == name);
    note_recent(&mut desk.recent_commands, "/tokens", known("/tokens"));
    // A typo is never recorded, so it cannot pollute the boost.
    note_recent(&mut desk.recent_commands, "/tokns", known("/tokns"));
    let after = names(&palette_items(&found, &desk.recent_commands, &app.settings, app.mode));
    assert_eq!(after[0], "/tokens");
    assert_eq!(desk.recent_commands, vec!["/tokens"]);
    assert!(!after.contains(&"/tokns".to_string()));
}

#[test]
fn dispatched_commands_are_remembered() {
    let mut app = pane();
    let mut desk = desk();
    app.handle_command(&mut desk, &parsed("/tokens", &[]), &command_facts());
    let typo = CommandFacts {
        builtin: false,
        ..command_facts()
    };
    app.handle_command(&mut desk, &parsed("/tokns", &[]), &typo);
    assert_eq!(desk.recent_commands, vec!["/tokens"]);
}

#[test]
fn palette_shows_live_theme_badge() {
    let mut app = pane();
    app.settings.theme = "dracula".to_string();
    app.composer.set_input("/the".to_string());
    let found = vec![row("/theme", "Pick a theme"), row("/build", "Build mode")];
    let items = palette_items(&found, &Vec::new(), &app.settings, app.mode);
    let theme = items
        .iter()
        .find(|item| item.name == "/theme")
        .expect("theme row");
    assert!(
        theme.description.contains("now dracula"),
        "badge missing: {}",
        theme.description
    );
    // The `/build` row carries `· active` in the default build mode.
    let build = items
        .iter()
        .find(|item| item.name == "/build")
        .expect("build row");
    assert!(
        build.description.contains("active"),
        "mode badge missing: {}",
        build.description
    );
}

#[test]
fn harness_renders_palette_rows_for_slash_query() {
    let mut app = pane();
    app.composer.set_input("/the".to_string());
    let items = palette_items(
        &vec![row("/theme", "Pick a theme")],
        &Vec::new(),
        &app.settings,
        app.mode,
    );
    let drawn = draw_palette(&items, 0, 0, 24, &app.settings.theme);
    let joined = format!(
        "{}\n{}",
        drawn.title,
        drawn
            .lines
            .iter()
            .map(|line| line.text())
            .collect::<Vec<_>>()
            .join("\n")
    );
    assert!(joined.contains("/theme"), "palette row missing:\n{joined}");
    assert!(
        joined.contains("commands ·"),
        "palette frame missing:\n{joined}"
    );
}

#[test]
fn mouse_command_toggles_capture() {
    let mut app = pane();
    let mut desk = desk();
    assert!(desk.mouse_enabled);
    // `/mouse off`
    app.handle_command(&mut desk, &parsed("/mouse", &["off"]), &command_facts());
    assert!(!desk.mouse_enabled);
    assert_eq!(app.log.status, "Mouse off");
}

#[test]
fn workflows_lists_saved_items() {
    let mut app = pane();
    let mut desk = desk();
    desk.custom_commands = vec![test_custom("review")];
    let facts = CommandFacts {
        shadowed: vec![false],
        ..command_facts()
    };
    app.handle_command(&mut desk, &parsed("/workflows", &[]), &facts);
    let content = app
        .log
        .history
        .last()
        .expect("workflows note")
        .content
        .clone();
    assert!(content.contains("Saved workflows"), "{content}");
    assert!(content.contains("/review"), "{content}");
}

/// `/state` renders short labeled lines, never a raw dump.
#[test]
fn state_renders_labeled_lines() {
    let mut app = pane();
    let mut desk = desk();
    app.handle_command(&mut desk, &parsed("/state", &[]), &command_facts());
    let content = app
        .log
        .history
        .last()
        .expect("state note")
        .content
        .clone();
    assert!(content.starts_with("Mode: "), "{content}");
    assert!(content.contains("Approvals: "), "{content}");
    assert!(!content.contains("mode="), "{content}");
    assert!(content.lines().count() <= 6, "{content}");
}
