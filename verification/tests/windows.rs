//! The window: its panes, its tabs and the list beside them.

use r105_ui::areas::window_areas;
use r105_ui::commands::{CommandFacts, ConnectionText, ContextText};
use r105_ui::desk::{Desk, Preset};
use r105_ui::ghost::TickContext;
use r105_ui::input::KeyFacts;
use r105_ui::keys::{Key, KeyCode};
use r105_ui::layout::{LayoutNode, SplitDirection};
use r105_ui::listing::live_rows;
use r105_ui::menus::{narrow_args, Lookup};
use r105_ui::model::Message;
use r105_ui::mouse::{Mouse, MouseKind};
use r105_ui::paint::{accent_color, Color, Rect};
use r105_ui::pane::Pane;
use r105_ui::search::HistSearch;
use r105_ui::sessions::LoadedSession;
use r105_ui::settings::{Mode, Settings};
use r105_ui::sidebar::{read_recent, Place, SessionInfo, Sidebar, SidebarAction, SidebarRow};
use r105_ui::skills::Skills;
use r105_ui::tabbing::PaneSource;
use r105_ui::tabs::{PaneStub, Tab};
use r105_ui::window::{UiApp, WindowAsk};

fn settings() -> Settings {
    Settings {
        theme: "midnight".to_string(),
        model: "local".to_string(),
        quality: None,
        profile: None,
        reasoning_effort: "auto".to_string(),
        permission_posture: "full-access".to_string(),
        auto_compact: true,
        cache_prompt: true,
        json_mode: false,
        show_thinking: true,
        thinking_default_expanded: false,
        max_tokens: None,
        keybindings: Vec::new(),
    }
}

fn pane() -> Pane {
    Pane::new(1, settings(), Mode::Build, "/repo".to_string(), 0, true, false)
}

fn preset(id: &str, asks_for_url: bool, api_key_required: bool) -> Preset {
    Preset {
        id: id.to_string(),
        label: id.to_uppercase(),
        description: "hosted".to_string(),
        base_url: None,
        asks_for_url,
        api_key_required,
        api_key_env: None,
        key_at_hand: false,
    }
}

fn desk() -> Desk {
    Desk::new(
        vec!["midnight".to_string(), "dracula".to_string()],
        vec![preset("local", false, false), preset("custom", true, true)],
        true,
        true,
    )
}

fn command_facts() -> CommandFacts {
    CommandFacts {
        builtin: true,
        help: "All commands".to_string(),
        topic: None,
        expansion: None,
        found: Vec::new(),
        suggestion: None,
        connection: ConnectionText {
            name: "local".to_string(),
            backend: "llama".to_string(),
            url: "http://127.0.0.1:9".to_string(),
        },
        sandbox: "none".to_string(),
        approvals: "ask".to_string(),
        context: ContextText {
            used: 10,
            total: 100,
            percent: "10.0".to_string(),
            source: "estimated".to_string(),
            cache_hit: None,
            cache_miss: None,
        },
        url_valid: false,
        provider: String::new(),
        editor_set: false,
        commands_dir: "/config/commands".to_string(),
        project_dir: "/repo/.r105/commands".to_string(),
        shadowed: Vec::new(),
        now: 0,
    }
}

fn key_facts() -> KeyFacts {
    KeyFacts {
        reads_as_shell: false,
        candidates: Vec::new(),
        pick_is_dir: false,
        palette: Vec::new(),
        builtin: false,
        parsed: None,
        found: Vec::new(),
        command: command_facts(),
        now: 0,
    }
}

fn app() -> UiApp {
    UiApp::new(pane(), desk(), settings(), Mode::Build)
}

fn live() -> Place {
    Place::new("/repo")
}

fn press(app: &mut UiApp, key: Key) {
    app.handle_key(&key, key_facts(), &live(), &Vec::new());
}

fn ctrl_shift(letter: char) -> Key {
    Key {
        shift: true,
        ..Key::ctrl(letter)
    }
}

fn listed(name: &str) -> SessionInfo {
    SessionInfo {
        name: name.to_string(),
        message_count: 0,
    }
}

/// A session with these messages.
fn stored(history: Vec<Message>) -> LoadedSession {
    LoadedSession {
        settings: settings(),
        mode: "build".to_string(),
        count: history.len(),
        history,
        todos: Vec::new(),
        skills: Skills::new(),
    }
}

/// Saved sessions: each with the prompt that it holds.
fn find(store: &[(&str, &str)], name: &str) -> Result<LoadedSession, String> {
    store
        .iter()
        .find(|(saved, _)| *saved == name)
        .map(|(_, prompt)| stored(vec![Message::user(prompt)]))
        .ok_or("missing".to_string())
}

/// Makes the panes of the tab that is shown from the saved sessions.
fn materialize(app: &mut UiApp, store: &[(&str, &str)]) {
    let at = app.bar.active_tab;
    let sources = app.bar.tabs[at]
        .panes
        .iter()
        .map(|stub| match &stub.session {
            Some(name) => PaneSource::Session(find(store, name)),
            None => PaneSource::Fresh,
        })
        .collect();
    app.materialize_active(sources);
}

/// Does what the window asks for, as the surroundings would.
fn settle(app: &mut UiApp, store: &[(&str, &str)]) {
    while !app.asks.is_empty() {
        let ask = app.asks.remove(0);
        let saved: Vec<Option<String>> = app.panes.iter().map(|_| None).collect();
        match ask {
            WindowAsk::NewTab => {
                if app.tab_new(&saved) {
                    materialize(app, store);
                    app.tab_shown(true);
                }
            }
            WindowAsk::SwitchTab(index) => {
                if app.tab_switch(index, &saved) {
                    materialize(app, store);
                }
            }
            WindowAsk::CloseTab => {
                if app.tab_close() {
                    materialize(app, store);
                    app.tab_shown(false);
                }
            }
            WindowAsk::ClosePane => {
                app.pane_close();
            }
            _ => {}
        }
    }
}

#[test]
fn ctrl_b_toggles_sidebar_esc_unfocuses() {
    let mut app = app();
    let toggle = Key::ctrl('b');
    press(&mut app, toggle);
    assert!(app.sidebar.visible && app.sidebar.focus);
    // Focused toggle hides outright.
    press(&mut app, toggle);
    assert!(!app.sidebar.visible && !app.sidebar.focus);
    // Visible-but-idle toggle refocuses instead of hiding.
    press(&mut app, toggle);
    app.sidebar.unfocus_sidebar();
    assert!(app.sidebar.visible && !app.sidebar.focus);
    press(&mut app, toggle);
    assert!(app.sidebar.visible && app.sidebar.focus);
    // Esc leaves the pane visible but returns keys to the composer.
    press(&mut app, Key::plain(KeyCode::Esc));
    assert!(app.sidebar.visible && !app.sidebar.focus);
    assert!(app.sidebar.filter.is_empty());
}

#[test]
fn sidebar_rows_filter_sessions_and_workspaces() {
    let mut sidebar = Sidebar::new();
    sidebar.refresh_sidebar(vec![listed("alpha"), listed("beta")], &live());
    let rows = sidebar.sidebar_rows(&live());
    // New first, the live workspace last, both saves between.
    assert_eq!(rows.first(), Some(&SidebarRow::New));
    assert_eq!(
        rows.last(),
        Some(&SidebarRow::Workspace {
            path: "/repo".to_string(),
            base: "repo".to_string(),
        })
    );
    let mut saved: Vec<String> = rows
        .iter()
        .filter_map(|row| match row {
            SidebarRow::Session { name, .. } => Some(name.clone()),
            _ => None,
        })
        .collect();
    saved.sort();
    assert_eq!(saved, vec!["alpha".to_string(), "beta".to_string()]);
    // A filter hides `+ New` and non-matching rows alike.
    sidebar.filter = "alpha".into();
    assert_eq!(
        sidebar.sidebar_rows(&live()),
        vec![SidebarRow::Session {
            name: "alpha".into(),
            messages: 0,
        }]
    );
    sidebar.filter = "zzz-no-match".into();
    assert!(sidebar.sidebar_rows(&live()).is_empty());
}

#[test]
fn sidebar_new_load_delete_roundtrip() {
    let mut app = app();
    app.panes[0].log.push(Message::user("hello"));
    let name = app.panes[0].autosave_name(Some(12));
    assert!(
        name.as_ref().is_some_and(|name| name.starts_with("autosave-")),
        "previous transcript autosaved"
    );
    app.panes[0].sidebar_new(name);
    assert!(app.panes[0].log.history.is_empty());
    // Fresh sessions are unnamed, but the previous work autosaved.
    assert!(app.panes[0].current_session.is_none());
    // Named save, wipe, reload through the pane.
    app.panes[0].log.history.clear();
    app.panes[0].load_session_named("proj", Ok(stored(vec![Message::user("work")])));
    assert_eq!(app.panes[0].log.history.len(), 1);
    assert_eq!(app.panes[0].current_session.as_deref(), Some("proj"));
    // Deleting the loaded session removes the file but keeps the live transcript, unnamed.
    app.sidebar.refresh_sidebar(vec![listed("proj")], &live());
    let index = app
        .sidebar
        .sidebar_rows(&live())
        .iter()
        .position(|row| matches!(row, SidebarRow::Session { name, .. } if name == "proj"))
        .expect("proj row");
    app.sidebar.selected = index;
    assert_eq!(
        app.sidebar.sidebar_delete_selected(&live()),
        SidebarAction::Delete("proj".to_string())
    );
    app.panes[0].listed_session_deleted("proj", Ok(true));
    app.sidebar.refresh_sidebar(Vec::new(), &live());
    assert!(!app
        .sidebar
        .sidebar_rows(&live())
        .iter()
        .any(|row| matches!(row, SidebarRow::Session { name, .. } if name == "proj")));
    assert_eq!(app.panes[0].log.history.len(), 1);
    assert!(app.panes[0].current_session.is_none());
}

/// Tabs are session-backed: new stashes the live session, switching reloads each tab's
/// transcript, closing falls back to its neighbor.
#[test]
fn tabs_new_switch_close_roundtrip() {
    let store = [("alpha", "first"), ("beta", "second")];
    let mut app = app();
    app.panes[0].log.push(Message::user("first"));
    app.panes[0].current_session = Some("alpha".into());
    assert!(app.tab_new(&vec![None]));
    materialize(&mut app, &store);
    assert_eq!(app.bar.tabs.len(), 2);
    assert_eq!(app.bar.active_tab, 1);
    assert!(app.panes[0].log.history.is_empty(), "new tab starts fresh");
    assert_eq!(app.bar.tabs[0].panes[0].session.as_deref(), Some("alpha"));
    app.panes[0].log.push(Message::user("second"));
    app.panes[0].current_session = Some("beta".into());
    // Switching back reloads the first tab's transcript.
    assert!(app.tab_switch(0, &vec![None]));
    materialize(&mut app, &store);
    assert_eq!(app.bar.active_tab, 0);
    assert_eq!(app.panes[0].current_session.as_deref(), Some("alpha"));
    assert_eq!(app.panes[0].log.history.len(), 1);
    assert_eq!(app.panes[0].log.history[0].content, "first");
    // Cycle forward and close the second tab.
    let next = app.bar.tab_next(true);
    assert!(app.tab_switch(next, &vec![None]));
    materialize(&mut app, &store);
    assert_eq!(app.bar.active_tab, 1);
    assert_eq!(app.panes[0].current_session.as_deref(), Some("beta"));
    assert!(app.tab_close());
    materialize(&mut app, &store);
    assert_eq!(app.bar.tabs.len(), 1);
    assert_eq!(app.bar.active_tab, 0);
    assert_eq!(app.panes[0].current_session.as_deref(), Some("alpha"));
    assert_eq!(app.panes[0].log.history[0].content, "first");
    // The last tab never closes.
    assert!(!app.tab_close());
    assert_eq!(app.bar.tabs.len(), 1);
}

/// Tab keys: Ctrl+Shift+T/W, Ctrl+Tab, Alt+1..9; clicks resolve against the drawn bar.
#[test]
fn tab_keys_and_click_map_to_tabs() {
    let mut app = app();
    press(&mut app, ctrl_shift('T'));
    settle(&mut app, &[]);
    assert_eq!(app.bar.tabs.len(), 2);
    let ctrl_tab = Key {
        ctrl: true,
        ..Key::plain(KeyCode::Tab)
    };
    press(&mut app, ctrl_tab);
    settle(&mut app, &[]);
    assert_eq!(app.bar.active_tab, 0);
    press(&mut app, ctrl_tab);
    settle(&mut app, &[]);
    assert_eq!(app.bar.active_tab, 1);
    let alt_one = Key {
        alt: true,
        ..Key::plain(KeyCode::Char('1'))
    };
    press(&mut app, alt_one);
    settle(&mut app, &[]);
    assert_eq!(app.bar.active_tab, 0);
    // Bar geometry: ` r105 ` (6 cells), then ` 1 label ` chips.
    app.panes[0].current_session = Some("alpha".into());
    app.bar.rect = Rect {
        x: 0,
        y: 0,
        width: 80,
        height: 1,
    };
    let sessions = app.pane_sessions();
    assert_eq!(app.bar.tab_hit(&sessions, 8, 0), Some(0));
    assert_eq!(app.bar.tab_hit(&sessions, 18, 0), Some(1));
    assert_eq!(app.bar.tab_hit(&sessions, 2, 0), None);
    // The `+` chip opens a tab on click.
    let plus_col = (0..60)
        .find(|column| app.bar.tab_plus_hit(&sessions, *column, 0))
        .expect("plus cell");
    let click = Mouse {
        kind: MouseKind::Press,
        column: plus_col,
        row: 0,
        shift: false,
    };
    app.handle_mouse(&click, &Vec::new(), &live(), &None, &Vec::new(), 0);
    settle(&mut app, &[]);
    assert_eq!(app.bar.tabs.len(), 3, "click on + opens a tab");
    press(&mut app, ctrl_shift('W'));
    settle(&mut app, &[]);
    press(&mut app, ctrl_shift('W'));
    settle(&mut app, &[]);
    assert_eq!(app.bar.tabs.len(), 1);
    // Plain Ctrl+W still deletes a word.
    app.panes[0].composer.set_input("one two".to_string());
    press(&mut app, Key::ctrl('w'));
    assert_eq!(app.panes[0].composer.input, "one ");
}

#[test]
fn recent_workspaces_pin_live_and_persist() {
    let mut sidebar = Sidebar::new();
    let other = Place::new("/other workspace");
    sidebar.note_workspace(other.copy());
    // Live first, recents after, no duplicates.
    assert_eq!(
        sidebar.sidebar_rows(&live()),
        vec![
            SidebarRow::New,
            SidebarRow::Workspace {
                path: "/repo".to_string(),
                base: "repo".to_string(),
            },
            SidebarRow::Workspace {
                path: "/other workspace".to_string(),
                base: "other workspace".to_string(),
            },
        ]
    );
    sidebar.note_workspace(other.copy());
    assert_eq!(sidebar.recent.len(), 1, "re-switch dedupes");
    // A fresh load restores the persisted recents.
    let kept = Some(sidebar.recent_text());
    sidebar.recent.clear();
    assert_eq!(read_recent(&kept), vec!["/other workspace".to_string()]);
    sidebar.load_recent_workspaces(&kept, &vec![true]);
    assert_eq!(sidebar.recent, vec![other]);
    // Those that are gone do not come back.
    sidebar.load_recent_workspaces(&kept, &vec![false]);
    assert_eq!(sidebar.recent, vec![]);
}

#[test]
fn sidebar_draws_pane_beside_transcript() {
    let mut app = app();
    app.toggle_sidebar();
    let screen = Rect {
        x: 0,
        y: 0,
        width: 100,
        height: 30,
    };
    let areas = window_areas(screen, app.sidebar.visible, 1);
    let area = areas.sidebar.expect("click rect untracked");
    app.sidebar.rect = area;
    let rows = app.sidebar.sidebar_rows(&live());
    let here = live_rows(&rows, "/repo");
    let (title, _) = app.sidebar.draw_frame();
    let mut text = title;
    for line in app.sidebar.sidebar_display(&rows, &None, &here, "midnight", 28) {
        text.push('\n');
        text.push_str(&line.line.text());
    }
    assert!(text.contains("SESSIONS"), "pane header missing");
    assert!(text.contains("New session"), "new row missing");
    assert!(text.contains("WORKSPACES"), "workspace group missing");
    assert!(
        app.sidebar.rect.width > 0 && app.sidebar.rect.height > 0,
        "click rect untracked"
    );
}

#[test]
fn wheels_over_the_search_panel_move_its_highlight() {
    let mut app = app();
    app.panes[0].log.transcript_scroll = 40;
    app.hist_search = Some(HistSearch::open(&app.panes[0].composer));
    let matches: Vec<String> = ["one", "two", "three", "four", "five"]
        .iter()
        .map(|text| text.to_string())
        .collect();
    let panel = Some(Rect {
        x: 0,
        y: 10,
        width: 20,
        height: 8,
    });
    let mut wheel = Mouse {
        kind: MouseKind::WheelDown,
        column: 3,
        row: 12,
        shift: false,
    };
    app.handle_mouse(&wheel, &Vec::new(), &live(), &panel, &matches, 0);
    assert_eq!(app.hist_search.as_ref().unwrap().selected, 3);
    assert_eq!(app.panes[0].composer.input, "four");
    assert_eq!(app.panes[0].log.transcript_scroll, 40);
    wheel.kind = MouseKind::WheelUp;
    app.handle_mouse(&wheel, &Vec::new(), &live(), &panel, &matches, 0);
    assert_eq!(app.hist_search.as_ref().unwrap().selected, 0);
    assert_eq!(app.panes[0].composer.input, "one");
    // Beside the panel the transcript moves.
    wheel.row = 2;
    app.handle_mouse(&wheel, &Vec::new(), &live(), &panel, &matches, 0);
    assert_eq!(app.hist_search.as_ref().unwrap().selected, 0);
    assert_eq!(app.panes[0].log.transcript_scroll, 36);
}

#[test]
fn lists_show_in_the_pane_with_the_focus() {
    let mut app = app();
    app.pane_split();
    settle(&mut app, &[]);
    assert_eq!(app.panes.len(), 2);
    let at = app.focus;
    assert_eq!(app.drawn_panes(), vec![0, 1]);
    app.bar.tabs[app.bar.active_tab].zoomed = true;
    assert_eq!(app.drawn_panes(), vec![at]);
    assert_eq!(app.panes[at].frame_color(false), Color::DarkGray);
    assert_eq!(app.panes[at].frame_color(true), accent_color("midnight"));
    for pane in app.panes.iter_mut() {
        pane.at_menu.items = vec!["a".to_string()];
        pane.arg_menu.items = vec!["a".to_string(), "b".to_string()];
        pane.sh_menu.invoked = false;
    }
    let counts = app.list_counts(at, 4, 5);
    assert_eq!((counts.commands, counts.files, counts.values), (4, 1, 2));
    assert_eq!((counts.candidates, counts.matches), (0, 0));
    app.hist_search = Some(HistSearch::open(&app.panes[at].composer));
    assert_eq!(app.list_counts(at, 4, 5).matches, 5);
    let other = app.list_counts(1 - at, 4, 5);
    assert_eq!((other.commands, other.files, other.values), (0, 0, 0));
    assert_eq!((other.candidates, other.matches), (0, 0));
}

#[test]
fn tabs_are_left_only_when_they_can_be() {
    let mut app = app();
    assert!(!app.can_close(), "last tab");
    assert!(!app.can_switch(0), "shown already");
    assert!(!app.can_switch(1), "no such tab");
    press(&mut app, ctrl_shift('T'));
    settle(&mut app, &[]);
    assert_eq!(app.bar.tabs.len(), 2);
    assert!(app.can_close());
    let other = 1 - app.bar.active_tab;
    assert!(app.can_switch(other));
    app.panes[0].run.busy = true;
    assert!(!app.can_close());
    assert!(!app.can_switch(other));
}

/// Single-owner rule: palette, `@` token, and argument menus all clear and suppress the
/// ghost.
#[test]
fn menus_suppress_ghost() {
    let mut app = app();
    let tick = |app: &UiApp| TickContext {
        enabled: app.panes[0].completion_on,
        menu_open: app.menu_wants_input(),
        overlay_open: !app.desk.overlay_closed(),
        busy: app.panes[0].run.busy,
        now: 0,
        debounce: 0,
    };

    // `git status`, run earlier in `/repo`, continues the line.
    app.panes[0].composer.set_input("!gi".to_string());
    let context = tick(&app);
    assert!(app.panes[0].composer.tick_ghost(&context));
    app.panes[0].composer.offer(Some("t status".to_string()));
    assert_eq!(
        app.panes[0].composer.ghost_text.as_deref(),
        Some("t status")
    );

    // Slash palette open (`/th`): ghost cleared, nothing resolved.
    app.panes[0].composer.set_input("/th".to_string());
    let context = tick(&app);
    assert!(!app.panes[0].composer.tick_ghost(&context));
    assert!(app.panes[0].composer.ghost_text.is_none());
    assert!(app.menu_wants_input());

    // Live `@token` suppresses.
    app.panes[0].composer.set_input("see @Cargo".to_string());
    assert!(app.menu_wants_input());

    // Argument position with candidates suppresses (`/theme d`).
    app.panes[0].composer.set_input("/theme d".to_string());
    let themes = app.desk.themes.clone();
    let shown = &mut app.panes[0];
    match shown.arg_menu.arg_lookup(&shown.composer, false) {
        Lookup::Search(token) => {
            let items = narrow_args(&themes, &token);
            shown.arg_menu.store(&shown.composer, items);
        }
        other => panic!("{other:?}"),
    }
    assert!(app.menu_wants_input());

    // Plain `!` argument territory does not.
    app.panes[0].composer.set_input("!git sta".to_string());
    assert!(!app.menu_wants_input());
}

/// Tabs that were kept before panes existed come back as one pane each.
#[test]
fn legacy_tabs_file_migrates_to_pane_stubs() {
    let kept = Tab {
        panes: Vec::new(),
        focus: 0,
        layout: None,
        zoomed: false,
        session: Some("alpha".to_string()),
        title: "alpha".to_string(),
    };
    let tab = kept.normalize();
    assert_eq!(tab.panes.len(), 1);
    assert_eq!(tab.panes[0].session.as_deref(), Some("alpha"));
    assert_eq!(tab.panes[0].title, "alpha");
    // What is kept next has the panes; the older fields are gone.
    assert!(tab.session.is_none());
    assert!(tab.title.is_empty());
}

#[test]
fn legacy_untitled_tab_defaults_to_session() {
    let kept = Tab {
        panes: Vec::new(),
        focus: 0,
        layout: None,
        zoomed: false,
        session: None,
        title: String::new(),
    };
    let tab = kept.normalize();
    assert_eq!(tab.panes.len(), 1);
    assert_eq!(tab.panes[0].title, "session");
    assert!(tab.panes[0].session.is_none());
}

#[test]
fn layout_tree_inserts_and_removes_without_losing_order() {
    let mut layout = LayoutNode::flat(2).expect("two leaves");
    layout.reindex_insert(1);
    assert!(layout.split_leaf(0, 1, SplitDirection::Down));
    assert!(layout.valid_for(3));
    assert!(layout.remove_leaf(1));
    layout.reindex_remove(1);
    assert!(layout.valid_for(2));
}

#[test]
fn invalid_layout_repairs_to_flat() {
    let mut tab = Tab::new("session");
    tab.panes.push(PaneStub {
        session: None,
        title: "session 2".into(),
    });
    tab.layout = Some(LayoutNode::Pane(99));
    let tab = tab.normalize();
    assert!(tab
        .layout
        .as_ref()
        .is_some_and(|layout| layout.valid_for(2)));
}
