//! Paths, the skills in their directory, and the values that menus offer.

use r105_ui::areas::{body_areas, window_areas, BodyHeights};
use r105_ui::files::complete_files;
use r105_ui::json::{read_texts, write_texts};
use r105_ui::layout::LayoutNode;
use r105_ui::listing::live_rows;
use r105_ui::menus::connect_values;
use r105_ui::paint::Rect;
use r105_ui::pane::Pane;
use r105_ui::paths::expanduser;
use r105_ui::settings::{Mode, Settings};
use r105_ui::sidebar::{read_recent, workspace_basename, Place, Sidebar, SidebarRow};
use r105_ui::skills::asked_skill;

fn pane() -> Pane {
    let settings = Settings {
        theme: "midnight".to_string(),
        model: "local".to_string(),
        quality: None,
        profile: None,
        reasoning_effort: "auto".to_string(),
        permission_posture: "full-access".to_string(),
        auto_compact: true,
        cache_prompt: true,
        json_mode: false,
        show_thinking: true,
        thinking_default_expanded: false,
        max_tokens: None,
        keybindings: Vec::new(),
    };
    Pane::new(1, settings, Mode::Build, "/repo".to_string(), 0, true, false)
}

fn words(list: &[&str]) -> Vec<String> {
    list.iter().map(|text| text.to_string()).collect()
}

/// Whether a workspace is marked as the live one.
fn marked(path: &str, workspace: &str) -> bool {
    let rows = vec![
        SidebarRow::New,
        SidebarRow::Workspace {
            path: path.to_string(),
            base: workspace_basename(path),
        },
    ];
    let here = live_rows(&rows, workspace);
    assert!(!here[0]);
    here[1]
}

#[test]
fn live_workspaces_are_compared_by_parts() {
    assert!(marked("/repo", "/repo"));
    assert!(marked("/repo/", "/repo"));
    assert!(marked("/repo/./", "/repo"));
    assert!(marked("/a//b", "/a/b"));
    assert!(marked("/a/./b", "/a/b"));
    assert!(marked("/", "/."));
    assert!(!marked("/home/u/a/src", "/home/u/b/src"));
    assert!(!marked("repo", "/repo"));
    assert!(!marked("./repo", "repo"));
    assert!(!marked("/repo/..", "/"));
    assert!(!marked("/repo", "/"));
    assert!(marked("", ""));
    assert!(!marked("", "/"));
    assert!(!marked("", "."));
}

#[test]
fn workspaces_are_shown_under_their_last_part() {
    assert_eq!(workspace_basename("/home/u/.config"), ".config");
    assert_eq!(workspace_basename("/a/b/"), "b");
    assert_eq!(workspace_basename("/a/b/."), "b");
    assert_eq!(workspace_basename("a//b//"), "b");
    assert_eq!(workspace_basename("./src"), "src");
    assert_eq!(workspace_basename("/a/.."), "/a/..");
    assert_eq!(workspace_basename(".."), "..");
    assert_eq!(workspace_basename("."), ".");
    assert_eq!(workspace_basename(""), "");
    assert_eq!(workspace_basename("/"), "/");
    let place = Place::new("/home/me/repo/");
    assert_eq!(place.path, "/home/me/repo/");
    assert_eq!(place.base, "repo");
}

#[test]
fn only_markdown_files_are_listed_as_skills() {
    let mut pane = pane();
    pane.command_skills("/skills", &words(&["b.md", "notes.txt", "a.md", "README"]));
    let listed = pane.log.history.last().unwrap().content.clone();
    assert_eq!(listed, "Skills in /skills:\na.md\nb.md");
    pane.command_skills("/skills", &words(&["notes.txt"]));
    let told = pane.log.history.last().unwrap().content.clone();
    assert_eq!(told, "No Markdown skills found");
}

#[test]
fn completion_does_not_offer_the_workspace_itself() {
    let paths = words(&["", "src/main.rs", ".git/config"]);
    assert_eq!(complete_files(&paths, ""), words(&["src/main.rs"]));
}

#[test]
fn providers_to_connect_are_sorted_and_offered_once() {
    let fixed = words(&["list", "custom"]);
    let ids = words(&["openai", "custom", "anthropic", "list"]);
    assert_eq!(
        connect_values(&fixed, &ids),
        words(&["anthropic", "custom", "list", "openai"])
    );
    assert_eq!(connect_values(&Vec::new(), &Vec::new()), Vec::<String>::new());
}

#[test]
fn remembered_workspaces_survive_their_text() {
    let mut sidebar = Sidebar::new();
    for path in ["/a", "/b \"c\"", "/d\\e", "/f\ng", "/é"] {
        sidebar.note_workspace(Place::new(path));
    }
    let text = sidebar.recent_text();
    let before: Vec<Place> = sidebar.recent.iter().map(|place| place.copy()).collect();
    let kept = Some(text);
    sidebar.recent.clear();
    sidebar.load_recent_workspaces(&kept, &vec![true; 5]);
    assert_eq!(sidebar.recent, before);
    sidebar.load_recent_workspaces(&kept, &vec![false, true, false, false, true]);
    let paths: Vec<String> = sidebar.recent.iter().map(|place| place.path.clone()).collect();
    assert_eq!(paths, words(&["/f\ng", "/a"]));
    // What was kept badly, or not at all, is no list.
    assert_eq!(read_recent(&Some("{}".to_string())), Vec::<String>::new());
    assert_eq!(read_recent(&Some("[1]".to_string())), Vec::<String>::new());
    assert_eq!(read_recent(&None), Vec::<String>::new());
    sidebar.load_recent_workspaces(&None, &vec![true]);
    assert_eq!(sidebar.recent.len(), 0);
}

#[test]
fn remembered_workspaces_are_cut() {
    let many: Vec<String> = (0..12).map(|n| format!("/w{n}")).collect();
    let kept = Some(write_texts(&many));
    let mut exist = vec![true; 12];
    exist[0] = false;
    let mut sidebar = Sidebar::new();
    sidebar.load_recent_workspaces(&kept, &exist);
    let paths: Vec<String> = sidebar.recent.iter().map(|place| place.path.clone()).collect();
    assert_eq!(paths, many[1..9].to_vec());
    assert_eq!(sidebar.recent[0].base, "w1");
}

#[test]
fn lists_of_texts_are_read_and_written() {
    assert_eq!(read_texts("[\"a\", \"b\\u00e9\"]"), words(&["a", "bé"]));
    assert_eq!(write_texts(&words(&["a", "\""])), "[\"a\",\"\\\"\"]");
    assert_eq!(read_texts("[\"a\""), Vec::<String>::new());
}

#[test]
fn home_stands_for_a_tilde() {
    let home = Some("/home/u".to_string());
    assert_eq!(expanduser("~", &home), "/home/u");
    assert_eq!(expanduser("~/", &home), "/home/u");
    assert_eq!(expanduser("~/src/x", &home), "/home/u/src/x");
    assert_eq!(expanduser("~user/x", &home), "~user/x");
    assert_eq!(expanduser("/etc", &home), "/etc");
    assert_eq!(expanduser("a/~", &home), "a/~");
    assert_eq!(expanduser("", &home), "");
    assert_eq!(expanduser("~", &None), "~");
    assert_eq!(expanduser("~/x", &None), "~/x");
    assert_eq!(expanduser("~/x", &Some("/".to_string())), "/x");
}

#[test]
fn skills_are_asked_for_by_the_second_word() {
    assert_eq!(asked_skill(&words(&["use"])), None);
    assert_eq!(asked_skill(&words(&["use", "review.md"])), Some("review".to_string()));
    assert_eq!(asked_skill(&words(&["use", "../x"])), None);
}

/// Whether a part fills a run of cells.
fn run(start: u16, size: u16, want_start: u16, want_size: u16) -> bool {
    start == want_start && size == want_size
}

#[test]
fn bodies_are_laid_out_where_there_is_room() {
    for height in 0..60u16 {
        for palette in [0u16, 3, 7, 10] {
            for complete in [0u16, 4, 10] {
                for composer in 2..8u16 {
                    let area = Rect {
                        x: 3,
                        y: 5,
                        width: 40,
                        height,
                    };
                    let needs = 3 + palette + complete + composer + 2;
                    if needs > height {
                        continue;
                    }
                    let heights = BodyHeights {
                        palette,
                        complete,
                        composer,
                    };
                    let parts = body_areas(area, heights);
                    let mut at = 5;
                    for (part, size) in parts
                        .iter()
                        .zip([height - (needs - 3), palette, complete, composer, 2])
                    {
                        assert!(run(part.y, part.height, at, size), "{area:?} {heights:?}");
                        at += size;
                    }
                }
            }
        }
    }
    let tall = Rect {
        x: 0,
        y: 35,
        width: 1,
        height: 65_500,
    };
    let heights = BodyHeights {
        palette: 40_000,
        complete: 10,
        composer: 7,
    };
    let parts = body_areas(tall, heights);
    assert!(run(parts[0].y, parts[0].height, 35, 25_481));
    assert!(run(parts[1].y, parts[1].height, 25_516, 40_000));
}

#[test]
fn windows_are_laid_out_where_there_is_room() {
    for width in (50..400u16).chain([9_999, 65_000, 65_535]) {
        let area = Rect {
            x: 0,
            y: 0,
            width,
            height: 4 + width % 60,
        };
        let areas = window_areas(area, true, 1);
        let side = areas.sidebar.unwrap();
        let wide = (width as u32 * 40 / 100).clamp(20, 30) as u16;
        assert!(run(side.x, side.width, 0, wide), "{width}");
        assert!(run(areas.screen.x, areas.screen.width, side.width, width - side.width));
        assert!(run(areas.bar.y, areas.bar.height, 0, 1));
        assert!(run(areas.content.y, areas.content.height, 1, area.height - 1));
    }
}

fn ratios_hold(node: &LayoutNode) -> usize {
    match node {
        LayoutNode::Pane(_) => 1,
        LayoutNode::Split {
            ratio,
            first,
            second,
            ..
        } => {
            assert!((100..=900).contains(ratio));
            let (a, b) = (ratios_hold(first), ratios_hold(second));
            assert!(a <= b && b <= a + 1);
            a + b
        }
    }
}

#[test]
fn flat_arrangements_are_balanced() {
    for count in 1..40 {
        assert_eq!(ratios_hold(&LayoutNode::flat(count).unwrap()), count);
    }
}
