//! Settings of a pane and the values that they can take.

use crate::composer;
use crate::paint;
use crate::text;
use vstd::prelude::*;

verus! {

/// What the model may do with a prompt.
#[derive(Debug, Clone, Copy, PartialEq, Eq, Structural)]
pub enum Mode {
    Build,
    Plan,
    Ask,
}

/// The name of a mode.
pub open spec fn mode_name(mode: Mode) -> Seq<char> {
    match mode {
        Mode::Build => "build"@,
        Mode::Plan => "plan"@,
        Mode::Ask => "ask"@,
    }
}

/// The mode of a name; any other name means build.
pub open spec fn mode_of(name: Seq<char>) -> Mode {
    if name == "plan"@ {
        Mode::Plan
    } else if name == "ask"@ {
        Mode::Ask
    } else {
        Mode::Build
    }
}

/// The mode after another one, in a circle.
pub open spec fn mode_after(mode: Mode) -> Mode {
    match mode {
        Mode::Build => Mode::Plan,
        Mode::Plan => Mode::Ask,
        Mode::Ask => Mode::Build,
    }
}

impl Mode {
    /// The name of the mode.
    pub fn as_str(self) -> (r: &'static str)
        ensures
            r@ == mode_name(self),
    {
        match self {
            Mode::Build => "build",
            Mode::Plan => "plan",
            Mode::Ask => "ask",
        }
    }

    /// The mode of a name.
    pub fn named(name: &str) -> (r: Mode)
        ensures
            r == mode_of(name@),
    {
        if text::same_text(name, "plan") {
            Mode::Plan
        } else if text::same_text(name, "ask") {
            Mode::Ask
        } else {
            Mode::Build
        }
    }

    /// The mode after this one.
    pub fn next(self) -> (r: Mode)
        ensures
            r == mode_after(self),
    {
        match self {
            Mode::Build => Mode::Plan,
            Mode::Plan => Mode::Ask,
            Mode::Ask => Mode::Build,
        }
    }
}

/// Settings of a pane.
pub struct Settings {
    pub theme: String,
    pub model: String,
    pub quality: Option<String>,
    pub profile: Option<String>,
    pub reasoning_effort: String,
    pub permission_posture: String,
    pub auto_compact: bool,
    pub cache_prompt: bool,
    pub json_mode: bool,
    pub show_thinking: bool,
    pub thinking_default_expanded: bool,
    pub max_tokens: Option<u32>,
    pub keybindings: Vec<(String, String)>,
}

/// What settings hold.
#[verifier::ext_equal]
pub struct SettingsView {
    pub theme: Seq<char>,
    pub model: Seq<char>,
    pub quality: Option<Seq<char>>,
    pub profile: Option<Seq<char>>,
    pub reasoning: Seq<char>,
    pub posture: Seq<char>,
    pub auto_compact: bool,
    pub cache_prompt: bool,
    pub json_mode: bool,
    pub show_thinking: bool,
    pub thinking_open: bool,
    pub max_tokens: Option<u32>,
    pub bindings: Seq<(String, String)>,
}

fn copy_bindings(list: &Vec<(String, String)>) -> (r: Vec<(String, String)>)
    ensures
        r@ == list@,
{
    let mut r: Vec<(String, String)> = Vec::new();
    for i in 0..list.len()
        invariant
            r@.len() == i,
            forall|j: int| 0 <= j < i ==> #[trigger] r@[j] == list@[j],
    {
        r.push((list[i].0.clone(), list[i].1.clone()));
    }
    assert(r@ =~= list@);
    r
}

impl Settings {
    /// A copy.
    pub fn copy(&self) -> (r: Settings)
        ensures
            r@ == self@,
    {
        Settings {
            theme: text::copy_text(self.theme.as_str()),
            model: text::copy_text(self.model.as_str()),
            quality: composer::copy_opt(&self.quality),
            profile: composer::copy_opt(&self.profile),
            reasoning_effort: text::copy_text(self.reasoning_effort.as_str()),
            permission_posture: text::copy_text(self.permission_posture.as_str()),
            auto_compact: self.auto_compact,
            cache_prompt: self.cache_prompt,
            json_mode: self.json_mode,
            show_thinking: self.show_thinking,
            thinking_default_expanded: self.thinking_default_expanded,
            max_tokens: self.max_tokens,
            keybindings: copy_bindings(&self.keybindings),
        }
    }
}

impl View for Settings {
    type V = SettingsView;

    open spec fn view(&self) -> SettingsView {
        SettingsView {
            theme: self.theme@,
            model: self.model@,
            quality: composer::opt_text(self.quality),
            profile: composer::opt_text(self.profile),
            reasoning: self.reasoning_effort@,
            posture: self.permission_posture@,
            auto_compact: self.auto_compact,
            cache_prompt: self.cache_prompt,
            json_mode: self.json_mode,
            show_thinking: self.show_thinking,
            thinking_open: self.thinking_default_expanded,
            max_tokens: self.max_tokens,
            bindings: self.keybindings@,
        }
    }
}

/// Tools may use the network unless permissions are restricted or off.
pub open spec fn allows_network(posture: Seq<char>) -> bool {
    posture != "restricted"@ && posture != "off"@
}

/// Tools may run code unless permissions are off.
pub open spec fn allows_code(posture: Seq<char>) -> bool {
    posture != "off"@
}

impl Settings {
    /// Whether tools may use the network.
    pub fn network_allowed(&self) -> (r: bool)
        ensures
            r == allows_network(self@.posture),
    {
        !text::same_text(self.permission_posture.as_str(), "restricted") && !text::same_text(
            self.permission_posture.as_str(),
            "off",
        )
    }

    /// Whether tools may run code.
    pub fn code_allowed(&self) -> (r: bool)
        ensures
            r == allows_code(self@.posture),
    {
        !text::same_text(self.permission_posture.as_str(), "off")
    }
}

// ---------------------------------------------------------------------------
// Values
// ---------------------------------------------------------------------------

/// The texts of a list of literals.
pub open spec fn strs(list: Seq<&'static str>) -> Seq<Seq<char>> {
    list.map_values(|s: &'static str| s@)
}

/// The texts of a list of literals, as owned text.
pub fn own_strs(list: &Vec<&'static str>) -> (r: Vec<String>)
    ensures
        text::texts(r@) == strs(list@),
{
    let mut r: Vec<String> = Vec::new();
    for i in 0..list.len()
        invariant
            r@.len() == i,
            forall|j: int| 0 <= j < i ==> (#[trigger] r@[j])@ == list@[j]@,
    {
        r.push(text::copy_text(list[i]));
    }
    assert(text::texts(r@) =~= strs(list@));
    r
}

/// The qualities that can be chosen.
pub open spec fn quality_values() -> Seq<Seq<char>> {
    seq!["fast"@, "balanced"@, "best"@]
}

/// The router profiles that can be chosen.
pub open spec fn profile_values() -> Seq<Seq<char>> {
    seq![
        "simple"@,
        "strict_json"@,
        "coding"@,
        "complex_reasoning"@,
        "long_context_qa"@,
        "tool_agent"@,
        "creative"@,
    ]
}

/// The reasoning efforts that can be chosen.
pub open spec fn reasoning_values() -> Seq<Seq<char>> {
    seq![
        "auto"@,
        "off"@,
        "none"@,
        "disabled"@,
        "low"@,
        "medium"@,
        "high"@,
        "max"@,
        "xhigh"@,
    ]
}

/// The reasoning efforts that the settings list steps through.
pub open spec fn reasoning_steps() -> Seq<Seq<char>> {
    seq!["auto"@, "off"@, "low"@, "medium"@, "high"@]
}

/// The permission postures.
pub open spec fn posture_values() -> Seq<Seq<char>> {
    seq!["full-access"@, "restricted"@, "sandboxed"@, "off"@]
}

/// The qualities that can be chosen.
pub fn quality_list() -> (r: Vec<String>)
    ensures
        text::texts(r@) == quality_values(),
{
    let r = own_strs(&vec!["fast", "balanced", "best"]);
    assert(text::texts(r@) =~= quality_values());
    r
}

/// The router profiles that can be chosen.
pub fn profile_list() -> (r: Vec<String>)
    ensures
        text::texts(r@) == profile_values(),
{
    let r = own_strs(
        &vec![
            "simple",
            "strict_json",
            "coding",
            "complex_reasoning",
            "long_context_qa",
            "tool_agent",
            "creative",
        ],
    );
    assert(text::texts(r@) =~= profile_values());
    r
}

/// The reasoning efforts that can be chosen.
pub fn reasoning_list() -> (r: Vec<String>)
    ensures
        text::texts(r@) == reasoning_values(),
{
    let r = own_strs(
        &vec!["auto", "off", "none", "disabled", "low", "medium", "high", "max", "xhigh"],
    );
    assert(text::texts(r@) =~= reasoning_values());
    r
}

/// The reasoning efforts that the settings list steps through.
pub fn reasoning_step_list() -> (r: Vec<String>)
    ensures
        text::texts(r@) == reasoning_steps(),
{
    let r = own_strs(&vec!["auto", "off", "low", "medium", "high"]);
    assert(text::texts(r@) =~= reasoning_steps());
    r
}

/// The permission postures.
pub fn posture_list() -> (r: Vec<String>)
    ensures
        text::texts(r@) == posture_values(),
{
    let r = own_strs(&vec!["full-access", "restricted", "sandboxed", "off"]);
    assert(text::texts(r@) =~= posture_values());
    r
}

/// Where a text first stands in a list, at or after `i`.
pub open spec fn place_from(list: Seq<Seq<char>>, s: Seq<char>, i: int) -> Option<int>
    decreases list.len() - i,
{
    if i < 0 || i >= list.len() {
        None
    } else if list[i] == s {
        Some(i)
    } else {
        place_from(list, s, i + 1)
    }
}

/// Where a text first stands in a list.
pub open spec fn place_of(list: Seq<Seq<char>>, s: Seq<char>) -> Option<int> {
    place_from(list, s, 0)
}

/// What a place says: the text stands there and nowhere before.
pub proof fn place_means(list: Seq<Seq<char>>, s: Seq<char>, i: int)
    requires
        0 <= i,
    ensures
        match place_from(list, s, i) {
            Some(k) => i <= k < list.len() && list[k] == s && forall|j: int|
                i <= j < k ==> list[j] != s,
            None => forall|j: int| i <= j < list.len() ==> list[j] != s,
        },
    decreases list.len() - i,
{
    if i < list.len() && list[i] != s {
        place_means(list, s, i + 1);
    }
}

/// Where a text first stands in a list.
pub fn position_of(list: &Vec<String>, s: &str) -> (r: Option<usize>)
    ensures
        match r {
            Some(k) => place_of(text::texts(list@), s@) == Some(k as int) && k < list@.len(),
            None => place_of(text::texts(list@), s@) is None,
        },
{
    let ghost all = text::texts(list@);
    let mut i: usize = 0;
    while i < list.len()
        invariant
            all == text::texts(list@),
            i <= list@.len(),
            place_from(all, s@, 0) == place_from(all, s@, i as int),
        decreases list.len() - i,
    {
        assert(all[i as int] == list@[i as int]@);
        if text::same_text(list[i].as_str(), s) {
            return Some(i);
        }
        i = i + 1;
    }
    None
}

/// The next value of a list, or the one before, within the list; an unknown value
/// counts as the one at `otherwise`.
pub open spec fn stepped_value(
    list: Seq<Seq<char>>,
    value: Seq<char>,
    otherwise: int,
    on: bool,
) -> Seq<char> {
    let at = match place_of(list, value) {
        Some(k) => k,
        None => otherwise,
    };
    if on {
        list[paint::least(at + 1, list.len() - 1)]
    } else {
        list[if at > 0 {
            at - 1
        } else {
            0
        }]
    }
}

/// The next value of a list, or the one before.
pub fn step_value(list: &Vec<String>, value: &str, otherwise: usize, on: bool) -> (r: String)
    requires
        otherwise < list@.len(),
    ensures
        r@ == stepped_value(text::texts(list@), value@, otherwise as int, on),
{
    let ghost all = text::texts(list@);
    assert(all.len() == list@.len());
    let at: usize = match position_of(list, value) {
        Some(k) => k,
        None => otherwise,
    };
    assert(at < list.len());
    let next: usize = if !on {
        if at > 0 {
            at - 1
        } else {
            0
        }
    } else if at + 1 <= list.len() - 1 {
        at + 1
    } else {
        list.len() - 1
    };
    assert(all[next as int] == list@[next as int]@);
    text::copy_text(list[next].as_str())
}

/// What an on/off argument asks for: nothing flips, an unknown word keeps.
pub open spec fn toggled_to(arg: Option<Seq<char>>, current: bool) -> bool {
    match arg {
        None => !current,
        Some(s) => {
            let word = text::lower(s);
            if word == "on"@ || word == "true"@ || word == "yes"@ || word == "1"@ {
                true
            } else if word == "off"@ || word == "false"@ || word == "no"@ || word == "0"@ {
                false
            } else {
                current
            }
        },
    }
}

/// The first text of a list, if there is one.
pub open spec fn first_of(list: Seq<Seq<char>>) -> Option<Seq<char>> {
    if list.len() > 0 {
        Some(list[0])
    } else {
        None
    }
}

/// What an on/off argument asks for.
pub fn toggle_value(value: Option<&String>, current: bool) -> (r: bool)
    ensures
        r == toggled_to(
            match value {
                Some(s) => Some(s@),
                None => None,
            },
            current,
        ),
{
    match value {
        None => !current,
        Some(s) => {
            let word = text::lower_text(s.as_str());
            let w = word.as_str();
            if text::same_text(w, "on") || text::same_text(w, "true") || text::same_text(w, "yes") || text::same_text(
                w,
                "1",
            ) {
                true
            } else if text::same_text(w, "off") || text::same_text(w, "false") || text::same_text(w, "no")
                || text::same_text(w, "0") {
                false
            } else {
                current
            }
        },
    }
}

/// The word for a switch.
pub open spec fn on_off(on: bool) -> Seq<char> {
    if on {
        "on"@
    } else {
        "off"@
    }
}

/// The word for a switch.
pub fn switch_word(on: bool) -> (r: &'static str)
    ensures
        r@ == on_off(on),
{
    if on {
        "on"
    } else {
        "off"
    }
}

/// The word for something that can be hidden.
pub open spec fn shown_hidden(on: bool) -> Seq<char> {
    if on {
        "shown"@
    } else {
        "hidden"@
    }
}

/// The word for something that can be hidden.
pub fn shown_word(on: bool) -> (r: &'static str)
    ensures
        r@ == shown_hidden(on),
{
    if on {
        "shown"
    } else {
        "hidden"
    }
}

// ---------------------------------------------------------------------------
// Laws
// ---------------------------------------------------------------------------

/// Three steps through the modes come back to the first, and the name of a mode reads
/// back as that mode.
pub proof fn modes_go_round(mode: Mode)
    ensures
        mode_after(mode_after(mode_after(mode))) == mode,
        mode_of(mode_name(mode)) == mode,
{
    reveal_strlit("build");
    reveal_strlit("plan");
    reveal_strlit("ask");
    assert("build"@.len() == 5 && "plan"@.len() == 4 && "ask"@.len() == 3);
}

/// Toggling without an argument twice restores a switch, and naming a state twice is
/// the same as naming it once.
pub proof fn toggling_settles(arg: Seq<char>, current: bool)
    ensures
        toggled_to(None, toggled_to(None, current)) == current,
        toggled_to(Some(arg), toggled_to(Some(arg), current)) == toggled_to(Some(arg), current),
{
}

/// A step on and a step back come back to the value, unless it was the last one.
pub proof fn stepping_back_undoes(list: Seq<Seq<char>>, k: int, otherwise: int)
    requires
        0 <= k < list.len() - 1,
        forall|i: int, j: int| 0 <= i < j < list.len() ==> list[i] != list[j],
    ensures
        stepped_value(list, stepped_value(list, list[k], otherwise, true), otherwise, false)
            == list[k],
{
    place_means(list, list[k], 0);
    place_means(list, list[k + 1], 0);
    assert(place_of(list, list[k]) == Some(k));
    assert(place_of(list, list[k + 1]) == Some(k + 1));
}

} // verus!
