//! What holds of commands.

use crate::commands::CommandFacts;
use crate::desk::SceneView;
use crate::dispatch;
use crate::effects::{BackupReason, CopiedPart, EffectView, SavedView};
use crate::filters;
use crate::model::MessageView;
use crate::palette;
use crate::pane::PaneView;
use crate::replies;
use crate::scan;
use crate::settings::{Mode, SettingsView};
use crate::settings;
use crate::shell;
use crate::text;
use crate::transcript::TranscriptView;
use crate::transcript;
use vstd::prelude::*;

verus! {

// ---------------------------------------------------------------------------
// Names
// ---------------------------------------------------------------------------

/// A number that tells the names of commands apart.
spec fn mark_of(s: Seq<char>) -> int {
    s.len() * 10_000_000_000 + s.last() as int * 10_000_000 + (if s.len() > 1 {
        s[1] as int * 40_000
    } else {
        0
    }) + (if s.len() > 2 {
        s[2] as int * 200
    } else {
        0
    }) + (if s.len() > 3 {
        s[3] as int
    } else {
        0
    })
}

proof fn names_have_marks()
    ensures
        mark_of("/model"@) == 61084382300,
        mark_of("/models"@) == 71154382300,
        mark_of("/plan"@) == 51104501697,
        mark_of("/build"@) == 61003943505,
        mark_of("/ask"@) == 41073903107,
        mark_of("/quality"@) == 81214543497,
        mark_of("/profile"@) == 81014502911,
        mark_of("/json"@) == 51104263111,
        mark_of("/max"@) == 41204379520,
        mark_of("/cache-prompt"@) == 131163979499,
        mark_of("/theme"@) == 61014660901,
        mark_of("/autocompact"@) == 121163903516,
        mark_of("/reasoning"@) == 101034580297,
        mark_of("/permissions"@) == 121154500314,
        mark_of("/thinking"@) == 91034660905,
        mark_of("/attention"@) == 101103903316,
        mark_of("/mouse"@) == 61014382317,
        mark_of("/settings"@) == 91154620316,
        mark_of("/"@) == 10470000000,
        mark_of("/help"@) == 51124180308,
        mark_of("/state"@) == 61014623297,
        mark_of("/tokens"@) == 71154662307,
        mark_of("/tasks"@) == 61154659515,
        mark_of("/commands"@) == 91153982309,
        mark_of("/workflows"@) == 101154782314,
        mark_of("/connect"@) == 81163982310,
        mark_of("/provider"@) == 91144502911,
        mark_of("/history"@) == 81214181115,
        mark_of("/filter"@) == 71144101108,
        mark_of("/block"@) == 61073941711,
        mark_of("/expand"@) == 71004064112,
        mark_of("/copy"@) == 51213982312,
        mark_of("/compact"@) == 81163982309,
        mark_of("/retry"@) == 61214580316,
        mark_of("/undo"@) == 51114702100,
        mark_of("/redo"@) == 51114580300,
        mark_of("/rewind"@) == 71004580319,
        mark_of("/rerun"@) == 61104580314,
        mark_of("/clear"@) == 61143981701,
        mark_of("/exit"@) == 51164064105,
        mark_of("/editor"@) == 71144060105,
        mark_of("/health"@) == 71044180297,
        mark_of("/profiles"@) == 91154502911,
        mark_of("/mcp"@) == 41124379912,
        mark_of("/completion"@) == 111103982309,
        mark_of("/skills"@) == 71154621505,
        mark_of("/skill"@) == 61084621505,
        mark_of("/config"@) == 71033982310,
        mark_of("/workspace"@) == 101014782314,
        mark_of("/session"@) == 81104620315,
        mark_of("/export"@) == 71164064112,
        mark_of("/plugin"@) == 71104501717,
        mark_of("/preview"@) == 81194502901,
        mark_of("/map"@) == 41124379512,
        mark_of("/diff"@) == 51024021102,
{
    reveal_strlit("/model");
    reveal_strlit("/models");
    reveal_strlit("/plan");
    reveal_strlit("/build");
    reveal_strlit("/ask");
    reveal_strlit("/quality");
    reveal_strlit("/profile");
    reveal_strlit("/json");
    reveal_strlit("/max");
    reveal_strlit("/cache-prompt");
    reveal_strlit("/theme");
    reveal_strlit("/autocompact");
    reveal_strlit("/reasoning");
    reveal_strlit("/permissions");
    reveal_strlit("/thinking");
    reveal_strlit("/attention");
    reveal_strlit("/mouse");
    reveal_strlit("/settings");
    reveal_strlit("/");
    reveal_strlit("/help");
    reveal_strlit("/state");
    reveal_strlit("/tokens");
    reveal_strlit("/tasks");
    reveal_strlit("/commands");
    reveal_strlit("/workflows");
    reveal_strlit("/connect");
    reveal_strlit("/provider");
    reveal_strlit("/history");
    reveal_strlit("/filter");
    reveal_strlit("/block");
    reveal_strlit("/expand");
    reveal_strlit("/copy");
    reveal_strlit("/compact");
    reveal_strlit("/retry");
    reveal_strlit("/undo");
    reveal_strlit("/redo");
    reveal_strlit("/rewind");
    reveal_strlit("/rerun");
    reveal_strlit("/clear");
    reveal_strlit("/exit");
    reveal_strlit("/editor");
    reveal_strlit("/health");
    reveal_strlit("/profiles");
    reveal_strlit("/mcp");
    reveal_strlit("/completion");
    reveal_strlit("/skills");
    reveal_strlit("/skill");
    reveal_strlit("/config");
    reveal_strlit("/workspace");
    reveal_strlit("/session");
    reveal_strlit("/export");
    reveal_strlit("/plugin");
    reveal_strlit("/preview");
    reveal_strlit("/map");
    reveal_strlit("/diff");
}

/// The names of the commands that choose a model, a mode or how to reply.
spec fn is_model_name(name: Seq<char>) -> bool {
    ||| name == "/model"@
    ||| name == "/models"@
    ||| name == "/plan"@
    ||| name == "/build"@
    ||| name == "/ask"@
    ||| name == "/quality"@
    ||| name == "/profile"@
    ||| name == "/json"@
    ||| name == "/max"@
    ||| name == "/cache-prompt"@
}

/// The names of the commands that change other settings.
spec fn is_setting_name(name: Seq<char>) -> bool {
    ||| name == "/theme"@
    ||| name == "/autocompact"@
    ||| name == "/reasoning"@
    ||| name == "/permissions"@
    ||| name == "/thinking"@
    ||| name == "/attention"@
    ||| name == "/mouse"@
    ||| name == "/settings"@
}

/// The names of the commands that show something.
spec fn is_show_name(name: Seq<char>) -> bool {
    ||| name == "/"@
    ||| name == "/help"@
    ||| name == "/state"@
    ||| name == "/tokens"@
    ||| name == "/tasks"@
    ||| name == "/commands"@
    ||| name == "/workflows"@
    ||| name == "/connect"@
    ||| name == "/provider"@
}

/// The names of the commands on the transcript.
spec fn is_block_name(name: Seq<char>) -> bool {
    ||| name == "/history"@
    ||| name == "/filter"@
    ||| name == "/block"@
    ||| name == "/expand"@
    ||| name == "/copy"@
}

/// The names of the commands on the conversation.
spec fn is_flow_name(name: Seq<char>) -> bool {
    ||| name == "/compact"@
    ||| name == "/retry"@
    ||| name == "/undo"@
    ||| name == "/redo"@
    ||| name == "/rewind"@
    ||| name == "/rerun"@
    ||| name == "/clear"@
    ||| name == "/exit"@
    ||| name == "/editor"@
}

proof fn settings_differ()
    ensures
        !is_model_name("/theme"@),
        !is_model_name("/autocompact"@),
        !is_model_name("/reasoning"@),
        !is_model_name("/permissions"@),
        !is_model_name("/thinking"@),
        !is_model_name("/attention"@),
        !is_model_name("/mouse"@),
        !is_model_name("/settings"@),
{
    names_have_marks();
}

proof fn shows_differ()
    ensures
        !is_model_name("/"@) && !is_setting_name("/"@),
        !is_model_name("/help"@) && !is_setting_name("/help"@),
        !is_model_name("/state"@) && !is_setting_name("/state"@),
        !is_model_name("/tokens"@) && !is_setting_name("/tokens"@),
        !is_model_name("/tasks"@) && !is_setting_name("/tasks"@),
        !is_model_name("/commands"@) && !is_setting_name("/commands"@),
        !is_model_name("/workflows"@) && !is_setting_name("/workflows"@),
        !is_model_name("/connect"@) && !is_setting_name("/connect"@),
        !is_model_name("/provider"@) && !is_setting_name("/provider"@),
{
    names_have_marks();
}

proof fn blocks_differ()
    ensures
        !is_model_name("/history"@) && !is_setting_name("/history"@) && !is_show_name("/history"@),
        !is_model_name("/filter"@) && !is_setting_name("/filter"@) && !is_show_name("/filter"@),
        !is_model_name("/block"@) && !is_setting_name("/block"@) && !is_show_name("/block"@),
        !is_model_name("/expand"@) && !is_setting_name("/expand"@) && !is_show_name("/expand"@),
        !is_model_name("/copy"@) && !is_setting_name("/copy"@) && !is_show_name("/copy"@),
{
    names_have_marks();
}

proof fn flows_differ()
    ensures
        !is_model_name("/compact"@) && !is_setting_name("/compact"@) && !is_show_name("/compact"@) && !is_block_name("/compact"@),
        !is_model_name("/retry"@) && !is_setting_name("/retry"@) && !is_show_name("/retry"@) && !is_block_name("/retry"@),
        !is_model_name("/undo"@) && !is_setting_name("/undo"@) && !is_show_name("/undo"@) && !is_block_name("/undo"@),
        !is_model_name("/redo"@) && !is_setting_name("/redo"@) && !is_show_name("/redo"@) && !is_block_name("/redo"@),
        !is_model_name("/rewind"@) && !is_setting_name("/rewind"@) && !is_show_name("/rewind"@) && !is_block_name("/rewind"@),
        !is_model_name("/rerun"@) && !is_setting_name("/rerun"@) && !is_show_name("/rerun"@) && !is_block_name("/rerun"@),
        !is_model_name("/clear"@) && !is_setting_name("/clear"@) && !is_show_name("/clear"@) && !is_block_name("/clear"@),
        !is_model_name("/exit"@) && !is_setting_name("/exit"@) && !is_show_name("/exit"@) && !is_block_name("/exit"@),
        !is_model_name("/editor"@) && !is_setting_name("/editor"@) && !is_show_name("/editor"@) && !is_block_name("/editor"@),
{
    names_have_marks();
}

proof fn outsides_differ()
    ensures
        !is_model_name("/session"@) && !is_setting_name("/session"@) && !is_show_name("/session"@) && !is_block_name("/session"@) && !is_flow_name("/session"@),
        !is_model_name("/export"@) && !is_setting_name("/export"@) && !is_show_name("/export"@) && !is_block_name("/export"@) && !is_flow_name("/export"@),
        !is_model_name("/skill"@) && !is_setting_name("/skill"@) && !is_show_name("/skill"@) && !is_block_name("/skill"@) && !is_flow_name("/skill"@),
        !is_model_name("/skills"@) && !is_setting_name("/skills"@) && !is_show_name("/skills"@) && !is_block_name("/skills"@) && !is_flow_name("/skills"@),
        !is_model_name("/config"@) && !is_setting_name("/config"@) && !is_show_name("/config"@) && !is_block_name("/config"@) && !is_flow_name("/config"@),
        !is_model_name("/workspace"@) && !is_setting_name("/workspace"@) && !is_show_name("/workspace"@) && !is_block_name("/workspace"@) && !is_flow_name("/workspace"@),
        !is_model_name("/preview"@) && !is_setting_name("/preview"@) && !is_show_name("/preview"@) && !is_block_name("/preview"@) && !is_flow_name("/preview"@),
        !is_model_name("/map"@) && !is_setting_name("/map"@) && !is_show_name("/map"@) && !is_block_name("/map"@) && !is_flow_name("/map"@),
        !is_model_name("/diff"@) && !is_setting_name("/diff"@) && !is_show_name("/diff"@) && !is_block_name("/diff"@) && !is_flow_name("/diff"@),
        !is_model_name("/completion"@) && !is_setting_name("/completion"@) && !is_show_name("/completion"@) && !is_block_name("/completion"@) && !is_flow_name("/completion"@),
        !is_model_name("/plugin"@) && !is_setting_name("/plugin"@) && !is_show_name("/plugin"@) && !is_block_name("/plugin"@) && !is_flow_name("/plugin"@),
{
    names_have_marks();
}

proof fn other_names_pass(s: SceneView, name: Seq<char>, args: Seq<Seq<char>>, f: CommandFacts)
    ensures
        !is_model_name(name) ==> s.model_command(name, args) is None,
        !is_setting_name(name) ==> s.setting_command(name, args) is None,
        !is_show_name(name) ==> s.show_command(name, args, f) is None,
        !is_block_name(name) ==> s.block_command(name, args) is None,
        !is_flow_name(name) ==> s.flow_command(name, args, f.editor_set, f.now) is None,
{
    reveal(SceneView::model_command);
    reveal(SceneView::setting_command);
    reveal(SceneView::show_command);
    reveal(SceneView::block_command);
    reveal(SceneView::flow_command);
}

/// Commands that name a mode change to it.
pub proof fn modes_are_entered(s: SceneView, args: Seq<Seq<char>>, f: CommandFacts)
    ensures
        s.commanded("/plan"@, args, f).pane.mode == Mode::Plan,
        s.commanded("/build"@, args, f).pane.mode == Mode::Build,
        s.commanded("/ask"@, args, f).pane.mode == Mode::Ask,
{
    names_have_marks();
    reveal(SceneView::model_command);
}

/// A model that is named is taken over and kept, and every other setting stays; without a
/// name the models are listed.
pub proof fn models_are_taken_over(s: SceneView, args: Seq<Seq<char>>, f: CommandFacts)
    ensures
        args.len() > 0 ==> s.commanded("/model"@, args, f).pane.settings == (SettingsView {
            model: args[0],
            ..s.pane.settings
        }),
        args.len() > 0 ==> s.commanded("/model"@, args, f).pane.out == s.pane.out.push(
            EffectView::Keep { setting: SavedView::Connection(Some(args[0])), report: false },
        ),
        args.len() == 0 ==> s.commanded("/model"@, args, f).pane.out == s.pane.out.push(
            EffectView::ListModels,
        ),
        s.commanded("/models"@, args, f).pane.out == s.pane.out.push(EffectView::ListModels),
{
    names_have_marks();
    reveal(SceneView::model_command);
}

/// A quality and a profile that there is are taken over, and every other setting stays.
pub proof fn qualities_are_taken_over(v: PaneView, args: Seq<Seq<char>>)
    ensures
        args.len() > 0 && settings::quality_values().contains(text::lower(args[0])) ==> v.quality_asked(
            args,
        ).settings == (SettingsView { quality: Some(text::lower(args[0])), ..v.settings }),
        args.len() > 0 && !settings::quality_values().contains(text::lower(args[0])) ==> v.quality_asked(
            args,
        ).settings == v.settings,
        args.len() > 0 && settings::profile_values().contains(text::lower(args[0])) && text::lower(args[0])
            != "auto"@ ==> v.profile_asked(args).settings == (SettingsView {
            profile: Some(text::lower(args[0])),
            ..v.settings
        }),
        args.len() == 0 ==> v.profile_asked(args).settings == (SettingsView { profile: None, ..v.settings }),
        settings::quality_values() == seq!["fast"@, "balanced"@, "best"@],
{
}

/// The way to reply that is asked for is taken over, and every other setting stays.
pub proof fn reply_settings_are_taken_over(v: PaneView, args: Seq<Seq<char>>)
    ensures
        args.len() == 0 ==> v.json_asked(args).settings == (SettingsView {
            json_mode: !v.settings.json_mode,
            ..v.settings
        }),
        args.len() == 0 ==> v.max_asked(args).settings == (SettingsView { max_tokens: None, ..v.settings }),
        args.len() > 0 ==> (scan::parse_up_to(args[0], u32::MAX as nat) matches Some(n) ==> (n > 0
            ==> v.max_asked(args).settings == (SettingsView { max_tokens: Some(n as u32), ..v.settings }))),
        args.len() > 0 ==> (scan::parse_up_to(args[0], u32::MAX as nat) is None ==> v.max_asked(
            args,
        ).settings == v.settings),
        args.len() > 0 ==> v.cache_asked(args).settings == (SettingsView {
            cache_prompt: args[0] != "off"@,
            ..v.settings
        }),
        args.len() == 0 ==> v.cache_asked(args).settings == (SettingsView {
            cache_prompt: !v.settings.cache_prompt,
            ..v.settings
        }),
{
}

/// A theme that there is is taken over and kept, and any other changes nothing.
pub proof fn themes_are_taken_over(s: SceneView, args: Seq<Seq<char>>, f: CommandFacts)
    requires
        args.len() > 0,
    ensures
        s.desk.themes.contains(args[0]) ==> {
            let w = s.commanded("/theme"@, args, f).pane;
            &&& w.settings == (SettingsView { theme: args[0], ..s.pane.settings })
            &&& w.out == s.pane.out.push(
                EffectView::Keep { setting: SavedView::Theme(args[0]), report: false },
            )
        },
        !s.desk.themes.contains(args[0]) ==> s.commanded("/theme"@, args, f).pane.settings
            == s.pane.settings,
{
    settings_differ();
    other_names_pass(s.remembered("/theme"@, f.builtin), "/theme"@, args, f);
    reveal(SceneView::setting_command);
}

/// A reasoning effort and a posture that there is are taken over and kept, and any other
/// changes nothing.
pub proof fn permissions_are_taken_over(v: PaneView, args: Seq<Seq<char>>)
    requires
        args.len() > 0,
    ensures
        settings::reasoning_values().contains(text::lower(args[0])) ==> {
            let w = v.reasoning_asked(args);
            &&& w.settings == (SettingsView { reasoning: text::lower(args[0]), ..v.settings })
            &&& w.out == v.out.push(
                EffectView::Keep { setting: SavedView::Reasoning(text::lower(args[0])), report: false },
            )
        },
        settings::posture_values().contains(text::lower(args[0])) ==> {
            let w = v.permissions_asked(args);
            &&& w.settings == (SettingsView { posture: text::lower(args[0]), ..v.settings })
            &&& w.out == v.out.push(
                EffectView::Keep {
                    setting: SavedView::Permissions(text::lower(args[0])),
                    report: false,
                },
            )
        },
        !settings::posture_values().contains(text::lower(args[0])) ==> v.permissions_asked(args).settings
            == v.settings,
{
}

/// The commands on permissions and reasoning are those of these names.
#[verifier::spinoff_prover]
#[verifier::rlimit(40)]
pub proof fn permission_commands_have_their_names(s: SceneView, args: Seq<Seq<char>>, f: CommandFacts)
    ensures
        s.commanded("/permissions"@, args, f).pane == s.pane.permissions_asked(args),
        s.commanded("/reasoning"@, args, f).pane == s.pane.reasoning_asked(args),
        s.commanded("/autocompact"@, args, f).pane == s.pane.autocompact_asked(args),
        s.commanded("/thinking"@, args, f).pane == s.pane.thinking_asked(args),
{
    settings_differ();
    names_have_marks();
    other_names_pass(s.remembered("/permissions"@, f.builtin), "/permissions"@, args, f);
    other_names_pass(s.remembered("/reasoning"@, f.builtin), "/reasoning"@, args, f);
    other_names_pass(s.remembered("/autocompact"@, f.builtin), "/autocompact"@, args, f);
    other_names_pass(s.remembered("/thinking"@, f.builtin), "/thinking"@, args, f);
    reveal(SceneView::setting_command);
}

/// A switch without a word is turned over, `on` turns it on and `off` turns it off.
pub proof fn switches_do_as_they_are_told(word: Seq<char>, current: bool)
    ensures
        settings::toggled_to(None, current) == !current,
        text::lower(word) == "on"@ ==> settings::toggled_to(Some(word), current),
        text::lower(word) == "off"@ ==> !settings::toggled_to(Some(word), current),
        text::lower(word) == "true"@ ==> settings::toggled_to(Some(word), current),
        text::lower(word) == "false"@ ==> !settings::toggled_to(Some(word), current),
{
    reveal_strlit("on");
    reveal_strlit("off");
    reveal_strlit("true");
    reveal_strlit("false");
    reveal_strlit("yes");
    reveal_strlit("no");
    reveal_strlit("1");
    reveal_strlit("0");
    assert("on"@[0] == 'o' && "on"@[1] == 'n' && "no"@[0] == 'n' && "off"@[0] == 'o' && "yes"@[0] == 'y');
    assert("true"@[0] == 't' && "false"@[0] == 'f' && "1"@[0] == '1' && "0"@[0] == '0');
}

/// What a switch became is kept, and every other setting stays.
pub proof fn switches_are_kept(v: PaneView, args: Seq<Seq<char>>, on: bool)
    requires
        on == settings::toggled_to(settings::first_of(args), v.settings.auto_compact),
    ensures
        v.autocompact_asked(args).settings == (SettingsView { auto_compact: on, ..v.settings }),
        v.autocompact_asked(args).out == v.out.push(
            EffectView::Keep { setting: SavedView::AutoCompact(on), report: false },
        ),
        v.thinking_set(on).settings == (SettingsView { show_thinking: on, ..v.settings }),
        v.thinking_set(on).out == v.out.push(
            EffectView::Keep { setting: SavedView::ShowThinking(on), report: false },
        ),
{
}

/// The bell and the mouse are turned on and off for the whole desk, and kept.
pub proof fn desk_switches_are_kept(s: SceneView, on: bool)
    ensures
        s.bell_set(on).desk.bell == on,
        s.bell_set(on).desk.mouse == s.desk.mouse,
        s.bell_set(on).pane.out == s.pane.out.push(
            EffectView::Keep { setting: SavedView::Bell(on), report: false },
        ),
        s.mouse_set(on).desk.mouse == on,
        s.mouse_set(on).desk.bell == s.desk.bell,
        s.mouse_set(on).pane.out == s.pane.out.push(
            EffectView::Keep { setting: SavedView::Mouse(on), report: false },
        ).push(EffectView::Mouse { on }),
{
}

/// The rows of the settings list change the settings that they show: a switch is turned over,
/// and nothing that is not named in the row changes.
pub proof fn rows_change_what_they_show(s: SceneView, on: bool)
    ensures
        s.setting_rows()[3] == ("Autocompact"@, settings::on_off(s.pane.settings.auto_compact)),
        s.setting_cycled(3, on).pane.settings == (SettingsView {
            auto_compact: !s.pane.settings.auto_compact,
            ..s.pane.settings
        }),
        s.setting_rows()[4] == ("Show thinking"@, settings::on_off(s.pane.settings.show_thinking)),
        s.setting_cycled(4, on).pane.settings == (SettingsView {
            show_thinking: !s.pane.settings.show_thinking,
            ..s.pane.settings
        }),
        s.setting_rows()[5] == ("Bell"@, settings::on_off(s.desk.bell)),
        s.setting_cycled(5, on).desk.bell == !s.desk.bell,
        s.setting_rows()[6] == ("Mouse"@, settings::on_off(s.desk.mouse)),
        s.setting_cycled(6, on).desk.mouse == !s.desk.mouse,
        s.setting_rows()[0] == ("Theme"@, s.pane.settings.theme),
        s.setting_cycled(0, on).pane.settings == (SettingsView {
            theme: s.setting_cycled(0, on).pane.settings.theme,
            ..s.pane.settings
        }),
        s.setting_rows()[1] == ("Permissions"@, s.pane.settings.posture),
        s.setting_cycled(1, on).pane.settings == (SettingsView {
            posture: s.setting_cycled(1, on).pane.settings.posture,
            ..s.pane.settings
        }),
        s.setting_rows()[2] == ("Reasoning"@, s.pane.settings.reasoning),
        s.setting_cycled(2, on).pane.settings == (SettingsView {
            reasoning: s.setting_cycled(2, on).pane.settings.reasoning,
            ..s.pane.settings
        }),
        s.setting_rows().len() == 7,
{
}

/// A step takes the neighbour of a value in its list, and stays at the ends.
pub proof fn steps_take_the_neighbour(list: Seq<Seq<char>>, k: int, otherwise: int)
    requires
        0 <= k < list.len(),
        list.no_duplicates(),
    ensures
        settings::stepped_value(list, list[k], otherwise, true) == list[if k + 1 < list.len() {
            k + 1
        } else {
            k
        }],
        settings::stepped_value(list, list[k], otherwise, false) == list[if k > 0 {
            k - 1
        } else {
            0
        }],
{
    place_is(list, 0, k);
}

proof fn place_is(list: Seq<Seq<char>>, i: int, k: int)
    requires
        0 <= i <= k < list.len(),
        list.no_duplicates(),
    ensures
        settings::place_from(list, list[k], i) == Some(k),
    decreases k - i,
{
    if i < k {
        assert(list[i] != list[k]);
        place_is(list, i + 1, k);
    }
}

/// What a posture allows: only `off` forbids code, and `restricted` and `off` forbid the
/// network.
pub proof fn postures_allow_what_they_say(posture: Seq<char>)
    requires
        settings::posture_values().contains(posture),
    ensures
        settings::allows_code(posture) == (posture != "off"@),
        settings::allows_network(posture) == (posture == "full-access"@ || posture == "sandboxed"@),
        settings::posture_values() == seq!["full-access"@, "restricted"@, "sandboxed"@, "off"@],
{
    reveal_strlit("full-access");
    reveal_strlit("restricted");
    reveal_strlit("sandboxed");
    reveal_strlit("off");
    assert("full-access"@[0] == 'f' && "restricted"@[0] == 'r' && "sandboxed"@[0] == 's' && "off"@[0]
        == 'o');
    let values = settings::posture_values();
    let k = values.index_of(posture);
    assert(values[k] == posture);
}

/// The name of a mode reads back as the mode.
pub proof fn mode_names_read_back(mode: Mode)
    ensures
        settings::mode_of(settings::mode_name(mode)) == mode,
{
    reveal_strlit("build");
    reveal_strlit("plan");
    reveal_strlit("ask");
    assert("build"@[0] == 'b' && "plan"@[0] == 'p' && "ask"@[0] == 'a');
}

/// Commands on the conversation are those of these names.
#[verifier::spinoff_prover]
#[verifier::rlimit(40)]
pub proof fn conversation_commands_have_their_names(s: SceneView, args: Seq<Seq<char>>, f: CommandFacts)
    ensures
        s.commanded("/compact"@, args, f).pane == s.pane.compaction_asked(),
        s.commanded("/undo"@, args, f).pane == s.pane.undo_asked(),
        s.commanded("/redo"@, args, f).pane == s.pane.redo_asked(),
        s.commanded("/rewind"@, args, f).pane == s.pane.rewind_asked(args),
        s.commanded("/rerun"@, args, f).pane == s.pane.rerun_asked(args),
        s.commanded("/retry"@, args, f).pane == s.pane.retried(f.now),
        s.commanded("/clear"@, args, f).pane == s.pane.clear_asked(),
{
    flows_differ();
    names_have_marks();
    other_names_pass(s.remembered("/compact"@, f.builtin), "/compact"@, args, f);
    other_names_pass(s.remembered("/undo"@, f.builtin), "/undo"@, args, f);
    other_names_pass(s.remembered("/redo"@, f.builtin), "/redo"@, args, f);
    other_names_pass(s.remembered("/rewind"@, f.builtin), "/rewind"@, args, f);
    other_names_pass(s.remembered("/rerun"@, f.builtin), "/rerun"@, args, f);
    other_names_pass(s.remembered("/retry"@, f.builtin), "/retry"@, args, f);
    other_names_pass(s.remembered("/clear"@, f.builtin), "/clear"@, args, f);
    reveal(SceneView::flow_command);
}

/// `/exit` ends the interface and changes nothing else; `/editor` opens the editor where
/// there is one.
pub proof fn exit_and_editor_do_as_named(s: SceneView, args: Seq<Seq<char>>, f: CommandFacts)
    ensures
        s.commanded("/exit"@, args, f).desk.quit,
        s.commanded("/exit"@, args, f).pane == s.pane,
        f.editor_set ==> s.commanded("/editor"@, args, f).desk.editor,
        !f.editor_set ==> s.commanded("/editor"@, args, f).desk.editor == s.desk.editor,
{
    flows_differ();
    names_have_marks();
    other_names_pass(s.remembered("/exit"@, f.builtin), "/exit"@, args, f);
    other_names_pass(s.remembered("/editor"@, f.builtin), "/editor"@, args, f);
    reveal(SceneView::flow_command);
}

/// Commands on the transcript are those of these names.
#[verifier::spinoff_prover]
#[verifier::rlimit(40)]
pub proof fn transcript_commands_have_their_names(s: SceneView, args: Seq<Seq<char>>, f: CommandFacts)
    ensures
        s.commanded("/filter"@, args, f).pane.log == s.pane.log.filtered_by(args),
        s.commanded("/expand"@, args, f).pane.log == s.pane.log.expanded(args),
        s.commanded("/block"@, args, f).pane.log == s.pane.log.block_shown(args),
        s.commanded("/history"@, args, f).pane.log == s.pane.log.history_shown(),
        s.commanded("/copy"@, args, f).pane == s.pane.copy_asked(args),
{
    blocks_differ();
    names_have_marks();
    other_names_pass(s.remembered("/filter"@, f.builtin), "/filter"@, args, f);
    other_names_pass(s.remembered("/expand"@, f.builtin), "/expand"@, args, f);
    other_names_pass(s.remembered("/block"@, f.builtin), "/block"@, args, f);
    other_names_pass(s.remembered("/history"@, f.builtin), "/history"@, args, f);
    other_names_pass(s.remembered("/copy"@, f.builtin), "/copy"@, args, f);
    reveal(SceneView::block_command);
}

/// What can be taken back only from a copy is begun by keeping one.
pub proof fn clearing_begins_with_a_copy(v: PaneView)
    requires
        v.log.history.len() > 0,
    ensures
        v.clear_asked().out == v.out.push(EffectView::Backup { reason: BackupReason::Clear }),
        v.clear_asked().log == v.log,
{
}

/// A command whose work is outside goes out under its name, with its arguments as they were
/// typed, and changes nothing of the conversation.
#[verifier::spinoff_prover]
#[verifier::rlimit(40)]
pub proof fn outside_commands_go_out_as_typed(
    s: SceneView,
    name: Seq<char>,
    args: Seq<Seq<char>>,
    f: CommandFacts,
)
    requires
        name == "/session"@ || name == "/export"@ || name == "/skill"@ || name == "/skills"@ || name
            == "/config"@ || name == "/workspace"@ || name == "/preview"@ || name == "/map"@ || name
            == "/diff"@ || name == "/completion"@ || name == "/plugin"@,
    ensures
        s.commanded(name, args, f).pane.out == s.pane.out.push(EffectView::Command { name, args }),
        s.commanded(name, args, f).pane.log == s.pane.log,
        s.commanded(name, args, f).pane.composer == s.pane.composer,
{
    outsides_differ();
    other_names_pass(s.remembered(name, f.builtin), name, args, f);
    outside_goes_out(s.remembered(name, f.builtin), name, args);
}

proof fn outside_goes_out(s: SceneView, name: Seq<char>, args: Seq<Seq<char>>)
    requires
        name == "/session"@ || name == "/export"@ || name == "/skill"@ || name == "/skills"@ || name
            == "/config"@ || name == "/workspace"@ || name == "/preview"@ || name == "/map"@ || name
            == "/diff"@ || name == "/completion"@ || name == "/plugin"@,
    ensures
        s.outside_command(name, args) == Some(s.with(s.pane.passed_on(name, args))),
{
    names_have_marks();
    reveal(SceneView::outside_command);
    let list = dispatch::outside_names();
    assert(list[0] == "/completion"@ && list[1] == "/skills"@ && list[2] == "/skill"@ && list[3]
        == "/config"@ && list[4] == "/workspace"@ && list[5] == "/session"@ && list[6] == "/export"@
        && list[7] == "/plugin"@ && list[8] == "/preview"@ && list[9] == "/map"@ && list[10] == "/diff"@);
    assert(list.contains(name));
}

/// A command of the user's own sends what it stands for as a prompt.
pub proof fn own_commands_send_their_prompt(
    s: SceneView,
    name: Seq<char>,
    prompt: Seq<char>,
    found: Seq<Option<Seq<char>>>,
    suggestion: Option<Seq<char>>,
    now: u64,
)
    requires
        palette::custom_at(s.desk.customs, name) is Some,
        !s.pane.run.busy,
    ensures
        s.other_asked(name, Some(prompt), found, suggestion, now).pane.out == s.pane.out.push(
            EffectView::Send { prompt },
        ),
        s.other_asked(name, Some(prompt), found, suggestion, now).pane.run.prompt == Some(prompt),
{
    reveal(PaneView::prompted);
}

// ---------------------------------------------------------------------------
// The conversation
// ---------------------------------------------------------------------------

/// A note stands in the conversation as the last message of the system, word for word, unless
/// it only repeats the one before.
pub proof fn notes_are_told_in_full(v: PaneView, note: Seq<char>)
    ensures
        !v.log.repeats(note) ==> v.told(note).log.history.len() == v.log.history.len() + 1,
        !v.log.repeats(note) ==> v.told(note).log.history.last().content == note,
        v.told(note).log.history.last().role == "system"@,
        v.told(note).log.history.last().content.len() >= note.len(),
        v.told(note).log.history.last().content.take(note.len() as int) == note,
        v.told(note).log.history.drop_last() == (if v.log.repeats(note) {
            v.log.history.drop_last()
        } else {
            v.log.history
        }),
{
    let last = v.told(note).log.history.last().content;
    assert(last.take(note.len() as int) =~= note);
    assert(v.told(note).log.history.drop_last() =~= (if v.log.repeats(note) {
        v.log.history.drop_last()
    } else {
        v.log.history
    }));
}

/// Undoing puts the prompt that was taken out back into the draft, word for word.
pub proof fn undoing_brings_the_prompt_back(v: PaneView, k: int)
    requires
        !v.run.busy,
        0 <= k < v.log.history.len(),
        v.log.history[k].role == "user"@,
        forall|j: int| k < j < v.log.history.len() ==> (#[trigger] v.log.history[j]).role != "user"@,
    ensures
        v.undo_asked().composer.text == v.log.history[k].content,
        v.undo_asked().log.history == v.log.history.take(k),
        v.undo_asked().log.redo == v.log.redo.push(v.log.history.skip(k)),
        v.undo_asked().redo_asked().log.history == v.log.history,
{
    last_user(v.log.history, v.log.history.len() as int, k);
    assert(v.log.history.take(k) + v.log.history.skip(k) =~= v.log.history);
}

proof fn last_user(history: Seq<MessageView>, i: int, k: int)
    requires
        0 <= k < i <= history.len(),
        history[k].role == "user"@,
        forall|j: int| k < j < i ==> (#[trigger] history[j]).role != "user"@,
    ensures
        transcript::user_back(history, i, 1) == Some(k),
    decreases i,
{
    if i - 1 > k {
        assert(history[i - 1].role != "user"@);
        last_user(history, i - 1, k);
    }
}

/// Clearing and rewinding change nothing where no copy could be kept, and say why; with one
/// they name it. Rewinding keeps the messages before the turn, and clearing keeps none.
pub proof fn nothing_is_dropped_without_a_copy(
    v: PaneView,
    index: usize,
    name: Seq<char>,
    error: Seq<char>,
    now: u64,
)
    requires
        index <= v.log.history.len(),
    ensures
        ({
            let cleared = v.backed_up(BackupReason::Clear, Err(error), now);
            let rewound = v.backed_up(BackupReason::Rewind { index }, Err(error), now);
            &&& cleared.log.history == v.log.history && cleared.log.redo == v.log.redo
            &&& rewound.log.history == v.log.history && rewound.log.redo == v.log.redo
            &&& scan::contains_text(cleared.log.status, error)
            &&& scan::contains_text(rewound.log.status, error)
        }),
        ({
            let cleared = v.backed_up(BackupReason::Clear, Ok(name), now);
            let rewound = v.backed_up(BackupReason::Rewind { index }, Ok(name), now);
            &&& cleared.log.history.len() == 0 && cleared.log.redo.len() == 0
            &&& scan::contains_text(cleared.log.status, name)
            &&& rewound.log.history.len() >= index
            &&& rewound.log.redo == v.log.redo.push(v.log.history.skip(index as int))
            &&& scan::contains_text(rewound.log.status, name)
            &&& cleared.composer == v.composer && rewound.composer == v.composer
        }),
{
    piece("Clear backup failed, session kept: "@, error, Seq::empty());
    piece("Rewind backup failed, session kept: "@, error, Seq::empty());
    piece("Cleared · backup "@, name, Seq::empty());
    let count = scan::decimal((v.log.history.len() - index) as nat);
    piece("Rewound "@ + count + " message(s); backup "@, name, Seq::empty());
    assert("Clear backup failed, session kept: "@ + error + Seq::<char>::empty()
        =~= "Clear backup failed, session kept: "@ + error);
    assert("Rewind backup failed, session kept: "@ + error + Seq::<char>::empty()
        =~= "Rewind backup failed, session kept: "@ + error);
    assert("Cleared · backup "@ + name + Seq::<char>::empty() =~= "Cleared · backup "@ + name);
    assert("Rewound "@ + count + " message(s); backup "@ + name + Seq::<char>::empty() =~= "Rewound "@ + count
        + " message(s); backup "@ + name);
}

/// A text holds what stands between two others.
pub proof fn piece(a: Seq<char>, b: Seq<char>, c: Seq<char>)
    ensures
        scan::contains_text(a + b + c, b),
{
    let s = a + b + c;
    assert(s.subrange(a.len() as int, (a.len() + b.len()) as int) =~= b);
    assert(scan::occurs_at(s, b, a.len() as int));
}

/// A text holds what a part of it holds.
pub proof fn piece_of_a_part(a: Seq<char>, b: Seq<char>, c: Seq<char>, p: Seq<char>)
    requires
        scan::contains_text(b, p),
    ensures
        scan::contains_text(a + b + c, p),
{
    let i = choose|i: int| #[trigger] scan::occurs_at(b, p, i);
    let s = a + b + c;
    assert(s.subrange(a.len() + i, a.len() + i + p.len()) =~= b.subrange(i, i + p.len()));
    assert(scan::occurs_at(s, p, a.len() + i));
}

/// A prompt that is sent again is the draft first, so that it goes out like any other; a
/// command only becomes the draft.
pub proof fn reruns_go_through_the_draft(v: PaneView, k: int)
    requires
        !v.run.busy,
        0 <= k < v.log.history.len(),
        v.log.history[k].role == "user"@,
        forall|j: int| k < j < v.log.history.len() ==> (#[trigger] v.log.history[j]).role != "user"@,
    ensures
        ({
            let w = v.rerun_asked(Seq::empty());
            let prompt = v.log.history[k].content;
            &&& w.composer.text == prompt
            &&& w.composer.at == prompt.len()
            &&& w.log.history == v.log.history
            &&& !scan::begins(prompt, "/"@) ==> w.out == v.out.push(EffectView::Submit)
            &&& scan::begins(prompt, "/"@) ==> w.out == v.out
        }),
{
    latest(v.log.history, v.log.history.len() as int, k);
}

proof fn latest(history: Seq<MessageView>, i: int, k: int)
    requires
        0 <= k < i <= history.len(),
        history[k].role == "user"@,
        forall|j: int| k < j < i ==> (#[trigger] history[j]).role != "user"@,
    ensures
        replies::last_prompt(history, i) == Some(history[k].content),
    decreases i,
{
    if i - 1 > k {
        assert(history[i - 1].role != "user"@);
        latest(history, i - 1, k);
    }
}

/// What is copied is what was asked for: the last reply as it is, or the message of a block as
/// it is where it has no filter, by default of the last block.
pub proof fn copies_are_what_was_asked_for(v: PaneView, n: nat, arg: Seq<char>)
    ensures
        v.run.last.len() > 0 ==> v.copy_asked(Seq::empty()).out == v.out.push(
            EffectView::Copy { text: v.run.last, what: CopiedPart::Reply },
        ),
        filters::block_number(arg) == Some(n) && 1 <= n <= v.log.history.len()
            && !v.log.filters.contains_key(v.log.id_of(n - 1)) ==> v.copy_asked(seq!["out"@, arg]).out
            == v.out.push(
            EffectView::Copy {
                text: v.log.history[n - 1].content,
                what: CopiedPart::Block { number: n as usize },
            },
        ),
        v.log.history.len() > 0 && !v.log.filters.contains_key(v.log.id_of(v.log.history.len() - 1))
            ==> v.copy_asked(seq!["out"@]).out == v.out.push(
            EffectView::Copy {
                text: v.log.history.last().content,
                what: CopiedPart::Block { number: v.log.history.len() as usize },
            },
        ),
        v.copy_asked(seq!["out"@, arg]).log.history.len() == v.log.history.len(),
{
    reveal(PaneView::block_copied);
}

/// A number names a block with or without `#` before it.
pub proof fn block_numbers_read_back(n: nat)
    requires
        n <= usize::MAX,
    ensures
        filters::block_number(scan::decimal(n)) == Some(n),
        filters::block_number(seq!['#'] + scan::decimal(n)) == Some(n),
{
    replies::decimal_reads_back(n);
    let s = scan::decimal(n);
    assert((seq!['#'] + s).skip(1) =~= s);
    digits_only(n);
}

proof fn digits_only(n: nat)
    ensures
        scan::decimal(n).len() > 0,
        scan::decimal(n)[0] != '#',
    decreases n,
{
    if n >= 10 {
        digits_only(n / 10);
    }
}

// ---------------------------------------------------------------------------
// What is attached and noted
// ---------------------------------------------------------------------------

/// A file is attached with its path and all of its content, up to a limit, and with a note
/// where something was left out.
pub proof fn attached_files_hold_their_content(path: Seq<char>, content: Seq<char>)
    ensures
        scan::contains_text(shell::file_text(path, content), path),
        content.len() <= 12_000 ==> scan::contains_text(shell::file_text(path, content), content),
        content.len() > 12_000 ==> scan::contains_text(
            shell::file_text(path, content),
            content.take(12_000) + "\n⋯ truncated"@,
        ),
{
    let a = "<file path=\""@;
    let b = "\">\n"@;
    let c = "\n</file>"@;
    let body = shell::bounded(content, 12_000, "\n⋯ truncated"@);
    let all = shell::file_text(path, content);
    piece(a, path, b + body + c);
    assert(all =~= a + path + (b + body + c));
    piece(a + path + b, body, c);
    if content.len() <= 12_000 {
        assert(body =~= content);
    } else {
        assert(scan::first_chars(content, 12_000) =~= content.take(12_000));
        assert(body =~= content.take(12_000) + "\n⋯ truncated"@);
    }
}

/// What a command printed is noted behind the command, with what it printed as errors behind
/// that, up to a limit.
pub proof fn outputs_are_noted(command: Seq<char>, stdout: Seq<char>, stderr: Seq<char>)
    requires
        scan::trim_end(stdout).len() + scan::trim_end(stderr).len() + 9 <= 8_000,
    ensures
        ({
            let note = shell::run_note(command, stdout, stderr);
            let out = scan::trim_end(stdout);
            let err = scan::trim_end(stderr);
            &&& scan::contains_text(note, command)
            &&& scan::contains_text(note, out)
            &&& scan::contains_text(note, err)
            &&& out.len() > 0 && err.len() > 0 ==> note == "$ "@ + command + "\n"@ + (out
                + "\nstderr:\n"@ + err)
        }),
{
    let note = shell::run_note(command, stdout, stderr);
    let out = scan::trim_end(stdout);
    let err = scan::trim_end(stderr);
    let body = shell::output_body(stdout, stderr);
    reveal_strlit("\nstderr:\n");
    reveal_strlit("stderr:\n");
    reveal_strlit("(no output)");
    shell::output_is_bounded(body, 8_000, "\n⋯ output truncated"@);
    let head = "$ "@ + command + "\n"@;
    assert(note == head + body);
    piece("$ "@, command, "\n"@ + body);
    assert(note =~= "$ "@ + command + ("\n"@ + body));
    if out.len() > 0 && err.len() > 0 {
        piece(head, out, "\nstderr:\n"@ + err);
        assert(note =~= head + out + ("\nstderr:\n"@ + err));
        piece(head + out + "\nstderr:\n"@, err, Seq::empty());
        assert(note =~= head + out + "\nstderr:\n"@ + err + Seq::<char>::empty());
    } else if out.len() > 0 {
        piece(head, out, Seq::empty());
        assert(note =~= head + out + Seq::<char>::empty());
        piece(note, err, Seq::empty());
        assert(err =~= Seq::empty());
        assert(note =~= note + err + Seq::<char>::empty());
    } else if err.len() > 0 {
        piece(head + "stderr:\n"@, err, Seq::empty());
        assert(note =~= head + "stderr:\n"@ + err + Seq::<char>::empty());
        piece(note, out, Seq::empty());
        assert(note =~= note + out + Seq::<char>::empty());
    } else {
        piece(note, out, Seq::empty());
        assert(note =~= note + out + Seq::<char>::empty());
        piece(note, err, Seq::empty());
        assert(note =~= note + err + Seq::<char>::empty());
    }
}

/// A shell line is run as it is, with the network only where the posture allows it.
pub proof fn shell_lines_are_run_as_they_are(v: PaneView, command: Seq<char>)
    requires
        v.settings.posture != "off"@,
    ensures
        v.shell_run(command).out == v.out.push(
            EffectView::Shell { command, network: settings::allows_network(v.settings.posture) },
        ),
        v.shell_run(command).log.history == v.log.history,
{
}

/// A change of directory enters the one that was found, and no other.
pub proof fn directories_are_entered(v: PaneView, asked: Seq<char>, path: Seq<char>)
    ensures
        v.dir_changed(asked, Some(path)).workspace == path,
        v.dir_changed(asked, None).workspace == v.workspace,
        scan::contains_text(v.dir_changed(asked, None).log.status, asked),
        v.workspace_entered(path, None).workspace == path,
        v.workspace_entered(path, Some(asked)).workspace == v.workspace,
{
    let head = "cd: no such directory: "@;
    piece(head, asked, Seq::empty());
    assert(head + asked + Seq::<char>::empty() =~= head + asked);
}

/// What is asked of the model to draft a command ends in the request as it was typed.
pub proof fn drafts_ask_for_the_request(windows: bool, os: Seq<char>, request: Seq<char>)
    ensures
        ({
            let s = shell::draft_request(windows, os, request);
            &&& s.len() >= request.len()
            &&& s.skip(s.len() - request.len()) == request
            &&& scan::contains_text(s, os)
        }),
{
    let s = shell::draft_request(windows, os, request);
    let tail =
        ".\nOutput ONLY the command: no fences, no surrounding quotes, no explanation, single line.\nRequest: "@;
    let head = s.take(s.len() - request.len() - tail.len() - os.len());
    assert(s.skip(s.len() - request.len()) =~= request);
    piece(head, os, tail + request);
    assert(s =~= head + os + (tail + request));
}

// ---------------------------------------------------------------------------
// Filters and sections
// ---------------------------------------------------------------------------

/// A filter is set on the block that it names, with the words that follow as what it looks
/// for, and takes effect on no other block.
pub proof fn filters_are_set_on_their_block(v: TranscriptView, arg: Seq<char>, word: Seq<char>, n: nat, id: Seq<char>)
    requires
        filters::block_number(arg) == Some(n),
        1 <= n <= v.history.len(),
        word.len() == 0 || word[0] != '-',
    ensures
        ({
            let w = v.filtered_by(seq![arg, word]);
            &&& w.filters.contains_key(v.id_of(n - 1))
            &&& w.filters[v.id_of(n - 1)].pattern == word
            &&& !w.filters[v.id_of(n - 1)].regex && !w.filters[v.id_of(n - 1)].case
                && !w.filters[v.id_of(n - 1)].invert && w.filters[v.id_of(n - 1)].context == 0
            &&& id != v.id_of(n - 1) ==> w.filters.contains_key(id) == v.filters.contains_key(id) && (
            v.filters.contains_key(id) ==> w.filters[id] == v.filters[id])
            &&& w.history.len() == v.history.len()
        }),
        !v.filtered_by(seq![arg]).filters.contains_key(v.id_of(n - 1)),
{
    reveal_strlit("--regex");
    reveal_strlit("--case");
    reveal_strlit("--invert");
    reveal_strlit("--clear");
    reveal_strlit("--context");
    reveal_strlit("--");
    assert("--regex"@[0] == '-' && "--case"@[0] == '-' && "--invert"@[0] == '-' && "--clear"@[0] == '-'
        && "--context"@[0] == '-' && "--"@[0] == '-');
    let args = seq![arg, word];
    reveal_with_fuel(filters::read_flags, 3);
    if scan::begins(word, "--"@) {
        assert(word.subrange(0, 2)[0] == '-');
    }
    let words = filters::no_flags().words.push(word);
    assert(words =~= seq![word]);
    assert(filters::read_flags(args, 1, filters::no_flags()) == Ok::<filters::FilterFlags, Seq<char>>(
        filters::FilterFlags { words, ..filters::no_flags() },
    ));
    assert(scan::join(words, " "@) == word);
    let one = seq![arg];
    assert(filters::read_flags(one, 1, filters::no_flags()) == Ok::<filters::FilterFlags, Seq<char>>(
        filters::no_flags(),
    ));
}

/// A number opens a closed section and closes an open one, and leaves every other section as
/// it is.
pub proof fn sections_open_by_number(v: TranscriptView, arg: Seq<char>, n: nat, id: Seq<char>)
    requires
        scan::parse_up_to(arg, usize::MAX as nat) == Some(n),
        1 <= n <= v.order.len(),
        arg.len() > 0 && arg[0] != '#' && arg != "all"@ && arg != "none"@,
        !v.failed(v.order[n - 1].0),
    ensures
        ({
            let w = v.expanded(seq![arg]);
            let one = v.order[n - 1];
            &&& w.open(one.0, one.1) == !v.open(one.0, one.1)
            &&& id != one.0 ==> w.open(id, true) == v.open(id, true) && w.open(id, false) == v.open(id, false)
            &&& w.history == v.history
        }),
{
}

} // verus!
