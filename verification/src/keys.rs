//! Keys, and the actions that can be bound to them.

use crate::scan;
use crate::text;
use vstd::prelude::*;
use vstd::string::*;

verus! {

/// A key of the keyboard.
#[derive(Debug, Clone, Copy, PartialEq, Eq, Structural)]
pub enum KeyCode {
    Char(char),
    Enter,
    Esc,
    Tab,
    Backspace,
    Delete,
    Left,
    Right,
    Up,
    Down,
    Home,
    End,
    PageUp,
    PageDown,
    Other,
}

/// A key and the modifiers held with it. `extra` stands for any modifier besides
/// control, alt and shift.
#[derive(Debug, Clone, Copy, PartialEq, Eq, Structural)]
pub struct Key {
    pub code: KeyCode,
    pub ctrl: bool,
    pub alt: bool,
    pub shift: bool,
    pub extra: bool,
}

impl Key {
    /// A key by itself.
    pub fn plain(code: KeyCode) -> (r: Key)
        ensures
            r == (Key { code: code, ctrl: false, alt: false, shift: false, extra: false }),
    {
        Key { code, ctrl: false, alt: false, shift: false, extra: false }
    }

    /// A character with control.
    pub fn ctrl(c: char) -> (r: Key)
        ensures
            r == (Key {
                code: KeyCode::Char(c),
                ctrl: true,
                alt: false,
                shift: false,
                extra: false,
            }),
    {
        Key { code: KeyCode::Char(c), ctrl: true, alt: false, shift: false, extra: false }
    }

    /// Whether this is the given letter, small or capital, with control.
    pub open spec fn is_ctrl(self, c: char) -> bool {
        self.ctrl && (self.code matches KeyCode::Char(found) && text::lower_char(found) == c)
    }

    /// Whether this is the given letter, small or capital, with control.
    pub fn is_ctrl_letter(&self, c: char) -> (r: bool)
        ensures
            r == self.is_ctrl(c),
    {
        match self.code {
            KeyCode::Char(found) => self.ctrl && text::ascii_lower(found) == c,
            _ => false,
        }
    }
}

/// The actions whose key can be chosen, and the letter that each has with control by
/// itself. Ctrl+C, Esc, Tab and Enter are fixed.
pub open spec fn default_letter(action: Seq<char>) -> Option<char> {
    if action == "cancel"@ {
        Some('x')
    } else if action == "details"@ {
        Some('o')
    } else if action == "tasks"@ {
        Some('t')
    } else if action == "history"@ {
        Some('r')
    } else if action == "redraw"@ {
        Some('l')
    } else if action == "sidebar"@ {
        Some('b')
    } else {
        None
    }
}

/// The letter that an action has by itself.
pub fn default_key(action: &str) -> (r: Option<char>)
    ensures
        r == default_letter(action@),
{
    if text::same_text(action, "cancel") {
        Some('x')
    } else if text::same_text(action, "details") {
        Some('o')
    } else if text::same_text(action, "tasks") {
        Some('t')
    } else if text::same_text(action, "history") {
        Some('r')
    } else if text::same_text(action, "redraw") {
        Some('l')
    } else if text::same_text(action, "sidebar") {
        Some('b')
    } else {
        None
    }
}

/// Whether an action's key can be chosen.
pub fn is_known_key_action(action: &str) -> (r: bool)
    ensures
        r == (default_letter(action@) is Some),
{
    default_key(action).is_some()
}

/// The letter that a binding `ctrl+<letter>` names.
pub open spec fn bound_letter(binding: Seq<char>) -> Option<char> {
    let t = text::lower(scan::trim(binding));
    if scan::begins(t, "ctrl+"@) && t.len() == "ctrl+"@.len() + 1 && 'a' <= t.last() <= 'z' {
        Some(t.last())
    } else {
        None
    }
}

/// The letter that a binding names: `ctrl+` and one letter, whatever its case.
pub fn ctrl_spec_letter(spec_text: &str) -> (r: Option<char>)
    ensures
        r == bound_letter(spec_text@),
{
    let bare = scan::trim_text(spec_text);
    let small = text::lower_text(bare.as_str());
    match scan::strip_prefix(small.as_str(), "ctrl+") {
        Some(rest) => {
            let c = text::to_chars(rest.as_str());
            if c.len() == 1 && 'a' <= c[0] && c[0] <= 'z' {
                Some(c[0])
            } else {
                proof {
                    if c@.len() == 1 {
                        assert(small@.last() == c@[0]);
                    }
                }
                None
            }
        },
        None => None,
    }
}

/// Whether a binding is `ctrl+<letter>`.
pub fn valid_ctrl_spec(spec_text: &str) -> (r: bool)
    ensures
        r == (bound_letter(spec_text@) is Some),
{
    ctrl_spec_letter(spec_text).is_some()
}

/// Whether a key is what a binding names: that letter with control and nothing else.
pub open spec fn binding_matches(binding: Seq<char>, key: Key) -> bool {
    match bound_letter(binding) {
        Some(letter) => key.is_ctrl(letter) && !key.alt && !key.shift && !key.extra,
        None => false,
    }
}

/// Whether a key is what a binding names.
pub fn match_ctrl_spec(spec_text: &str, key: &Key) -> (r: bool)
    ensures
        r == binding_matches(spec_text@, *key),
{
    match ctrl_spec_letter(spec_text) {
        Some(letter) => key.is_ctrl_letter(letter) && !key.alt && !key.shift && !key.extra,
        None => false,
    }
}

/// Bindings that the user chose: an action and a binding each.
pub open spec fn chosen(bindings: Seq<(String, String)>, action: Seq<char>, i: int) -> Option<
    Seq<char>,
>
    decreases bindings.len() - i,
{
    if i < 0 || i >= bindings.len() {
        None
    } else if bindings[i].0@ == action {
        Some(bindings[i].1@)
    } else {
        chosen(bindings, action, i + 1)
    }
}

/// Whether a key triggers an action: by the binding that the user chose for it, or
/// else by its own letter with control.
pub open spec fn triggers(bindings: Seq<(String, String)>, action: Seq<char>, key: Key) -> bool {
    match chosen(bindings, action, 0) {
        Some(binding) => binding_matches(binding, key),
        None => match default_letter(action) {
            Some(letter) => key.ctrl && key.code == KeyCode::Char(letter),
            None => false,
        },
    }
}

/// Whether a key triggers an action.
pub fn action_key(bindings: &Vec<(String, String)>, action: &str, key: &Key) -> (r: bool)
    ensures
        r == triggers(bindings@, action@, *key),
{
    let mut i: usize = 0;
    while i < bindings.len()
        invariant
            i <= bindings@.len(),
            chosen(bindings@, action@, 0) == chosen(bindings@, action@, i as int),
        decreases bindings.len() - i,
    {
        if text::same_text(bindings[i].0.as_str(), action) {
            return match_ctrl_spec(bindings[i].1.as_str(), key);
        }
        i = i + 1;
    }
    match default_key(action) {
        Some(letter) => match key.code {
            KeyCode::Char(found) => key.ctrl && found == letter,
            _ => false,
        },
        None => false,
    }
}

/// How many of the bindings for known actions among the first `n` are no
/// `ctrl+<letter>`.
pub open spec fn invalid_in(bindings: Seq<(String, String)>, n: int) -> nat
    decreases n,
{
    if n <= 0 {
        0
    } else if default_letter(bindings[n - 1].0@) is Some && bound_letter(bindings[n - 1].1@) is None {
        invalid_in(bindings, n - 1) + 1
    } else {
        invalid_in(bindings, n - 1)
    }
}

/// How many bindings for known actions are no `ctrl+<letter>`.
pub fn count_invalid_bindings(bindings: &Vec<(String, String)>) -> (r: usize)
    ensures
        r == invalid_in(bindings@, bindings@.len() as int),
{
    let mut n: usize = 0;
    for i in 0..bindings.len()
        invariant
            n == invalid_in(bindings@, i as int),
            n <= i,
    {
        if is_known_key_action(bindings[i].0.as_str()) && !valid_ctrl_spec(bindings[i].1.as_str()) {
            n = n + 1;
        }
    }
    n
}

/// No two actions share their own letter.
pub proof fn default_letters_differ(a: Seq<char>, b: Seq<char>)
    requires
        default_letter(a) is Some,
        default_letter(a) == default_letter(b),
    ensures
        a == b,
{
}

/// A binding means the same key whatever the case of its letters and the white space
/// around it: only what is between counts.
pub proof fn binding_reads_trimmed_lower(a: Seq<char>, b: Seq<char>, key: Key)
    requires
        text::lower(scan::trim(a)) == text::lower(scan::trim(b)),
    ensures
        binding_matches(a, key) == binding_matches(b, key),
{
}

} // verus!
