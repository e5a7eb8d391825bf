//! What holds of saved sessions.

use crate::pane::PaneView;
use crate::scan;
use crate::sessions::{LoadedView, SessionRequestView};
use crate::sessions;
use crate::settings;
use crate::transcript;
use vstd::prelude::*;

verus! {

proof fn words_differ()
    ensures
        "save"@ != "load"@ && "save"@ != "list"@ && "save"@ != "search"@ && "save"@ != "delete"@ && "save"@
            != "diff"@ && "save"@ != "fork"@ && "save"@ != "tree"@,
        "load"@ != "list"@ && "load"@ != "search"@ && "load"@ != "delete"@ && "load"@ != "diff"@ && "load"@
            != "fork"@ && "load"@ != "tree"@,
        "list"@ != "search"@ && "list"@ != "delete"@ && "list"@ != "diff"@ && "list"@ != "fork"@ && "list"@
            != "tree"@,
        "search"@ != "delete"@ && "search"@ != "diff"@ && "search"@ != "fork"@ && "search"@ != "tree"@,
        "delete"@ != "diff"@ && "delete"@ != "fork"@ && "delete"@ != "tree"@,
        "diff"@ != "fork"@ && "diff"@ != "tree"@ && "fork"@ != "tree"@,
{
    reveal_strlit("save");
    reveal_strlit("load");
    reveal_strlit("list");
    reveal_strlit("search");
    reveal_strlit("delete");
    reveal_strlit("diff");
    reveal_strlit("fork");
    reveal_strlit("tree");
    assert("save"@[0] == 's' && "save"@.len() == 4);
    assert("load"@[0] == 'l' && "load"@[1] == 'o');
    assert("list"@[0] == 'l' && "list"@[1] == 'i');
    assert("search"@[0] == 's' && "search"@.len() == 6);
    assert("delete"@[0] == 'd' && "delete"@[1] == 'e');
    assert("diff"@[0] == 'd' && "diff"@[1] == 'i');
    assert("fork"@[0] == 'f' && "tree"@[0] == 't');
}

/// A command on sessions acts on the session that it names, and changes nothing of the one
/// that is shown before it was carried out.
pub proof fn commands_act_on_the_named_session(v: PaneView, args: Seq<Seq<char>>)
    requires
        args.len() >= 2,
    ensures
        args[0] == "save"@ ==> v.session_asked(args) == (v, Some(SessionRequestView::Save { name: args[1] })),
        args[0] == "load"@ ==> v.session_asked(args) == (v, Some(SessionRequestView::Load { name: args[1] })),
        args[0] == "delete"@ ==> v.session_asked(args) == (
            v,
            Some(SessionRequestView::Delete { name: args[1] }),
        ),
        args[0] == "diff"@ ==> v.session_asked(args) == (v, Some(SessionRequestView::Diff { name: args[1] })),
        args[0] == "search"@ ==> v.session_asked(args) == (
            v,
            Some(SessionRequestView::Search { query: args[1] }),
        ),
        args[0] == "fork"@ && args.len() == 2 ==> v.session_asked(args) == (
            v,
            Some(
                SessionRequestView::Fork {
                    name: args[1],
                    turns: None,
                    end: v.log.history.len() as int,
                    parent: v.session,
                },
            ),
        ),
        args[0] == "list"@ ==> v.session_asked(args) == (v, Some(SessionRequestView::List)),
        args[0] == "tree"@ ==> v.session_asked(args) == (v, Some(SessionRequestView::Tree)),
{
    words_differ();
}

/// What is saved without a name is what is loaded and compared without one.
pub proof fn unnamed_commands_agree(v: PaneView)
    ensures
        ({
            let saved = v.session_asked(seq!["save"@]).1;
            let loaded = v.session_asked(seq!["load"@]).1;
            let compared = v.session_asked(seq!["diff"@]).1;
            &&& saved is Some && saved->0 is Save
            &&& loaded is Some && loaded->0 is Load
            &&& compared is Some && compared->0 is Diff
            &&& saved->0->Save_name == loaded->0->Load_name
            &&& saved->0->Save_name == compared->0->Diff_name
        }),
{
    words_differ();
}

/// A fork with a number of turns keeps the messages up to the end of that turn of the user,
/// under the given name and as a child of the session that is shown.
pub proof fn forks_keep_their_turns(v: PaneView, args: Seq<Seq<char>>, turns: nat)
    requires
        args.len() == 3,
        args[0] == "fork"@,
        scan::parse_up_to(args[2], usize::MAX as nat) == Some(turns),
        turns > 0,
    ensures
        ({
            let r = v.session_asked(args);
            let h = v.log.history;
            &&& r.0 == v
            &&& r.1 matches Some(SessionRequestView::Fork { name, turns: n, end, parent }) && name == args[1]
                && n == Some(turns as usize) && parent == v.session && 0 <= end <= h.len() && (end < h.len()
                ==> h[end].role == "user"@ && transcript::users_in(h, end) == turns)
        }),
{
    words_differ();
    sessions::forks_end_at_a_turn(v.log.history, turns);
    scan_fits(args[2], turns);
}

proof fn scan_fits(s: Seq<char>, n: nat)
    requires
        scan::parse_up_to(s, usize::MAX as nat) == Some(n),
    ensures
        n <= usize::MAX,
{
}

/// A loaded session is shown as it was kept, under its name; a failed load says why.
pub proof fn loaded_sessions_are_shown(v: PaneView, name: Seq<char>, l: LoadedView, e: Seq<char>)
    ensures
        ({
            let w = v.session_loaded(name, Ok(l));
            &&& w.log.history == l.history
            &&& w.settings == l.settings
            &&& w.mode == settings::mode_of(l.mode)
            &&& w.todos == l.todos
            &&& w.skills == l.skills
            &&& w.session == Some(name)
            &&& w.log.redo.len() == 0
            &&& w.composer == v.composer
            &&& w.workspace == v.workspace
        }),
        scan::contains_text(v.session_loaded(name, Err(e)).log.status, e),
{
    let status = v.session_loaded(name, Err(e)).log.status;
    let head = "Session load failed: "@;
    assert(status.subrange(head.len() as int, (head.len() + e.len()) as int) =~= e);
    assert(scan::occurs_at(status, e, head.len() as int));
}

/// A saved session goes on under its name, and nothing else changes; a failed save keeps the
/// name that it had.
pub proof fn saved_sessions_go_on(v: PaneView, name: Seq<char>, path: Seq<char>, e: Seq<char>)
    ensures
        v.session_saved(name, Ok(path)).session == Some(name),
        v.session_saved(name, Ok(path)).log.history == v.log.history,
        v.session_saved(name, Err(e)).session == v.session,
        v.session_saved(name, Err(e)).log.history == v.log.history,
{
}

/// A conversation is saved by itself under its own name, and under a name with the time
/// where it has none; an empty one is not saved.
pub proof fn conversations_are_saved_under_their_name(v: PaneView, seconds: u64)
    ensures
        v.log.history.len() == 0 ==> v.autosave_name(Some(seconds)) is None,
        v.log.history.len() > 0 && v.session is Some ==> v.autosave_name(Some(seconds)) == v.session,
        v.log.history.len() > 0 && v.session is None ==> v.autosave_name(Some(seconds)) == Some(
            "autosave-"@ + scan::decimal(seconds as nat),
        ),
{
}

/// A new session is empty and has no name; what was shown before is told by its name.
pub proof fn new_sessions_are_empty(v: PaneView, saved: Option<Seq<char>>)
    ensures
        v.session_begun(saved).log.history.len() == 0,
        v.session_begun(saved).log.redo.len() == 0,
        v.session_begun(saved).session is None,
        v.session_begun(saved).settings == v.settings,
        saved matches Some(name) ==> scan::contains_text(v.session_begun(saved).log.status, name),
{
    if let Some(name) = saved {
        let status = v.session_begun(saved).log.status;
        let head = "New session · previous saved as "@;
        assert(status.subrange(head.len() as int, (head.len() + name.len()) as int) =~= name);
        assert(scan::occurs_at(status, name, head.len() as int));
    }
}

} // verus!
