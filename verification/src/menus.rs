//! Menus under the composer: files after `@`, values of command arguments, and
//! candidates for shell lines.

use crate::caret;
use crate::composer::{Composer, ComposerView};
use crate::composer;
use crate::files;
use crate::ghost;
use crate::paint;
use crate::replies;
use crate::scan;
use crate::text;
use vstd::prelude::*;
use vstd::string::*;

verus! {

// ---------------------------------------------------------------------------
// What the draft asks for
// ---------------------------------------------------------------------------

/// Whether a text is nothing but path characters.
pub open spec fn all_path_chars(s: Seq<char>) -> bool {
    forall|i: int| 0 <= i < s.len() ==> files::path_char(#[trigger] s[i])
}

/// The path after the last `@` before the cursor, where that `@` opens the draft or
/// follows white space and only path characters follow it.
pub open spec fn token_before(s: Seq<char>, at: int) -> Option<Seq<char>> {
    let before = s.take(at);
    match replies::rfind(before, seq!['@']) {
        None => None,
        Some(k) => {
            let token = before.skip(k + 1);
            if (k > 0 && !text::white(before[k - 1])) || token.len() == 0 || !all_path_chars(token) {
                None
            } else {
                Some(token)
            }
        },
    }
}

/// Whether a text ends in white space.
pub open spec fn ends_white(s: Seq<char>) -> bool {
    s.len() > 0 && text::white(s.last())
}

/// Whether a character of a text is white space.
pub open spec fn some_white(s: Seq<char>) -> bool {
    exists|i: int| 0 <= i < s.len() && text::white(#[trigger] s[i])
}

/// Whether a draft is a command being typed: a slash and no white space.
pub open spec fn is_palette(s: Seq<char>) -> bool {
    s.len() > 0 && s[0] == '/' && !some_white(s)
}

/// The words of a draft, with an empty one where it ends in white space.
pub open spec fn arg_words(s: Seq<char>) -> Seq<Seq<char>> {
    if ends_white(s) {
        scan::words(s).push(Seq::empty())
    } else {
        scan::words(s)
    }
}

/// Whether the draft is a command whose first or second argument is being typed.
pub open spec fn is_arg_position(v: ComposerView) -> bool {
    &&& !is_palette(v.text)
    &&& v.at == v.text.len()
    &&& !v.text.contains('\n')
    &&& token_before(v.text, v.at) is None
    &&& scan::words(v.text).len() > 0
    &&& scan::begins(scan::words(v.text)[0], "/"@)
    &&& (arg_words(v.text).len() == 2 || arg_words(v.text).len() == 3)
}

/// The shell line of a draft and the width of its mark: after `!`, or the draft itself
/// where it reads as shell. Commands, descriptions, references and more than one line
/// are no shell lines.
pub open spec fn shell_of(v: ComposerView, reads_as_shell: bool) -> Option<(int, Seq<char>)> {
    if v.text.contains('\n') || token_before(v.text, v.at) is Some {
        None
    } else if v.text.len() > 0 && v.text[0] == '!' {
        if scan::blank(v.text.skip(1)) {
            None
        } else {
            Some((1int, v.text.skip(1)))
        }
    } else if v.text.len() > 0 && (v.text[0] == '/' || v.text[0] == '#' || v.text[0] == '@') {
        None
    } else if reads_as_shell {
        Some((0int, v.text))
    } else {
        None
    }
}

/// Whether a text ends in white space.
pub fn ends_in_white(s: &str) -> (r: bool)
    ensures
        r == ends_white(s@),
{
    let c = text::to_chars(s);
    c.len() > 0 && text::is_white(c[c.len() - 1])
}

impl Composer {
    /// The path after `@` before the cursor.
    pub fn at_token(&self) -> (r: Option<String>)
        requires
            self.wf(),
        ensures
            composer::opt_text(r) == token_before(self@.text, self@.at),
    {
        let (chars, at) = self.chars_at();
        let before_text = text::slice_text(&chars, 0, at);
        let before = text::to_chars(before_text.as_str());
        assert(before@ =~= self@.text.take(self@.at));
        let mut mark: Vec<char> = Vec::new();
        mark.push('@');
        assert(mark@ =~= seq!['@']);
        match replies::rfind_chars(&before, &mark) {
            None => None,
            Some(k) => {
                assert(k + 1 <= before.len());
                if k > 0 && !text::is_white(before[k - 1]) {
                    return None;
                }
                let token = text::slice_text(&before, k + 1, before.len());
                assert(token@ =~= before@.skip(k + 1));
                let t = text::to_chars(token.as_str());
                if t.len() == 0 {
                    return None;
                }
                let mut i: usize = 0;
                while i < t.len()
                    invariant
                        t@ == token@,
                        token@ == before@.skip(k + 1),
                        before@ == self@.text.take(self@.at),
                        replies::rfind(before@, seq!['@']) == Some(k as int),
                        i <= t@.len(),
                        forall|j: int| 0 <= j < i ==> files::path_char(#[trigger] token@[j]),
                    decreases t.len() - i,
                {
                    if !files::is_path_char(t[i]) {
                        assert(!files::path_char(token@[i as int]));
                        return None;
                    }
                    i = i + 1;
                }
                Some(token)
            },
        }
    }

    /// Whether the draft is a command being typed.
    pub fn is_palette_query(&self) -> (r: bool)
        ensures
            r == is_palette(self@.text),
    {
        let c = text::to_chars(self.input.as_str());
        if c.len() == 0 || c[0] != '/' {
            return false;
        }
        let mut i: usize = 0;
        while i < c.len()
            invariant
                c@ == self@.text,
                i <= c@.len(),
                forall|j: int| 0 <= j < i ==> !text::white(#[trigger] c@[j]),
            decreases c.len() - i,
        {
            if text::is_white(c[i]) {
                return false;
            }
            i = i + 1;
        }
        true
    }

    /// The shell line of the draft and the width of its mark. `reads_as_shell` says
    /// whether a draft without a mark is one.
    pub fn shell_line(&self, reads_as_shell: bool) -> (r: Option<(usize, String)>)
        requires
            self.wf(),
        ensures
            match r {
                Some((n, line)) => shell_of(self@, reads_as_shell) == Some((n as int, line@)),
                None => shell_of(self@, reads_as_shell) is None,
            },
    {
        if ghost::has_char(self.input.as_str(), '\n') || self.at_token().is_some() {
            return None;
        }
        let c = text::to_chars(self.input.as_str());
        if c.len() > 0 && c[0] == '!' {
            let rest = text::slice_text(&c, 1, c.len());
            assert(rest@ =~= self@.text.skip(1));
            return if scan::is_blank(rest.as_str()) {
                None
            } else {
                Some((1, rest))
            };
        }
        if c.len() > 0 && (c[0] == '/' || c[0] == '#' || c[0] == '@') {
            return None;
        }
        if reads_as_shell {
            Some((0, text::copy_text(self.input.as_str())))
        } else {
            None
        }
    }

    /// The words of the draft, with an empty one where it ends in white space.
    pub fn argument_words(&self) -> (r: Vec<String>)
        ensures
            text::texts(r@) == arg_words(self@.text),
    {
        let mut list = scan::text_words(self.input.as_str());
        if ends_in_white(self.input.as_str()) {
            let none = String::new();
            proof {
                text::texts_push(list@, none);
                assert(none@ =~= Seq::empty());
            }
            list.push(none);
        }
        list
    }

    /// Which argument is being typed: the first after the command, or a later one.
    pub fn arg_position(&self) -> (r: usize)
        ensures
            r == (if arg_words(self@.text).len() == 0 {
                0
            } else {
                arg_words(self@.text).len() - 1
            }),
    {
        let list = self.argument_words();
        assert(text::texts(list@).len() == list@.len());
        if list.len() == 0 {
            0
        } else {
            list.len() - 1
        }
    }

    /// The argument being typed; nothing after white space.
    pub fn arg_token(&self) -> (r: String)
        ensures
            r@ == (if arg_words(self@.text).len() == 0 {
                Seq::empty()
            } else {
                arg_words(self@.text).last()
            }),
    {
        let list = self.argument_words();
        assert(text::texts(list@).len() == list@.len());
        if list.len() == 0 {
            let none = String::new();
            assert(none@ =~= Seq::empty());
            none
        } else {
            assert(text::texts(list@).last() == list@.last()@);
            text::copy_text(list[list.len() - 1].as_str())
        }
    }

    fn in_arg_position(&self) -> (r: bool)
        requires
            self.wf(),
        ensures
            r == is_arg_position(self@),
    {
        if self.is_palette_query() || !self.at_end() || ghost::has_char(self.input.as_str(), '\n')
            || self.at_token().is_some() {
            return false;
        }
        let list = scan::text_words(self.input.as_str());
        assert(scan::words(self@.text).len() == list@.len());
        if list.len() == 0 {
            return false;
        }
        assert(scan::words(self@.text)[0] == list@[0]@);
        if !scan::text_begins(list[0].as_str(), "/") {
            return false;
        }
        let all = self.argument_words();
        assert(arg_words(self@.text).len() == all@.len());
        all.len() == 2 || all.len() == 3
    }
}

// ---------------------------------------------------------------------------
// Menus
// ---------------------------------------------------------------------------

/// A menu whose entries belong to one draft and cursor.
pub struct Menu {
    pub selected: usize,
    pub key: String,
    pub items: Vec<String>,
}

/// What a menu holds.
#[verifier::ext_equal]
pub struct MenuView {
    pub selected: int,
    pub key: Seq<char>,
    pub items: Seq<Seq<char>>,
}

impl View for Menu {
    type V = MenuView;

    open spec fn view(&self) -> MenuView {
        MenuView { selected: self.selected as int, key: self.key@, items: text::texts(self.items@) }
    }
}

/// What tells one draft and cursor from another.
pub open spec fn draft_key(v: ComposerView) -> Seq<char> {
    v.text + ":"@ + scan::decimal(caret::offset(v.text, v.at))
}

/// What tells one draft and cursor from another.
pub fn draft_key_text(c: &Composer) -> (r: String)
    requires
        c.wf(),
    ensures
        r@ == draft_key(c@),
{
    proof {
        c.wf_valid();
    }
    let n = scan::decimal_text(c.cursor as u64);
    text::cat3(c.input.as_str(), ":", n.as_str())
}

/// What a menu needs to show its entries.
#[derive(Debug, Clone, PartialEq, Eq)]
pub enum Lookup {
    /// The draft asks for nothing.
    Closed,
    /// The entries that the menu has are those of the draft.
    Kept,
    /// The entries are to be looked up for this text.
    Search(String),
}

/// What a lookup says.
pub open spec fn lookup_is(r: Lookup, want: Option<Seq<char>>, kept: bool) -> bool {
    match want {
        None => r is Closed,
        Some(text) => if kept {
            r is Kept
        } else {
            r matches Lookup::Search(t) && t@ == text
        },
    }
}

impl MenuView {
    /// An empty menu.
    pub open spec fn empty() -> MenuView {
        MenuView { selected: 0, key: Seq::empty(), items: Seq::empty() }
    }

    /// The selection one entry up or down, within the list.
    pub open spec fn stepped(self, down: bool) -> MenuView {
        let n = self.items.len() as int;
        MenuView {
            selected: if n == 0 {
                self.selected
            } else if down {
                paint::least(self.selected + 1, n - 1)
            } else if self.selected > 0 {
                self.selected - 1
            } else {
                0
            },
            ..self
        }
    }
}

impl Menu {
    /// An empty menu.
    pub fn new() -> (r: Menu)
        ensures
            r@ == MenuView::empty(),
    {
        let r = Menu { selected: 0, key: String::new(), items: Vec::new() };
        assert(r@ =~= MenuView::empty());
        r
    }

    /// Empties the menu.
    pub fn clear(&mut self)
        ensures
            final(self)@ == MenuView::empty(),
    {
        self.selected = 0;
        self.key = String::new();
        self.items = Vec::new();
        assert(self@ =~= MenuView::empty());
    }

    /// Forgets which draft the entries belong to.
    pub fn forget(&mut self)
        ensures
            final(self)@ == (MenuView { key: Seq::empty(), ..old(self)@ }),
    {
        self.key = String::new();
        assert(self@ =~= (MenuView { key: Seq::empty(), ..old(self)@ }));
    }

    /// Takes the entries for the draft as it is.
    pub fn store(&mut self, composer: &Composer, items: Vec<String>)
        requires
            composer.wf(),
        ensures
            final(self)@ == (MenuView {
                selected: 0,
                key: draft_key(composer@),
                items: text::texts(items@),
            }),
    {
        self.key = draft_key_text(composer);
        self.selected = 0;
        self.items = items;
    }

    /// Moves the selection one entry up or down.
    pub fn step(&mut self, down: bool)
        ensures
            final(self)@ == old(self)@.stepped(down),
    {
        assert(self@.items.len() == self.items@.len());
        let n: usize = self.items.len();
        if n > 0 {
            if down {
                self.selected = if self.selected < n - 1 {
                    self.selected + 1
                } else {
                    n - 1
                };
            } else if self.selected > 0 {
                self.selected = self.selected - 1;
            }
        }
    }

    /// What the file menu needs for the draft.
    pub fn at_lookup(&self, composer: &Composer, overlay_open: bool) -> (r: Lookup)
        requires
            composer.wf(),
        ensures
            lookup_is(
                r,
                if overlay_open || is_palette(composer@.text) {
                    None
                } else {
                    token_before(composer@.text, composer@.at)
                },
                self@.key == draft_key(composer@),
            ),
    {
        if overlay_open || composer.is_palette_query() {
            return Lookup::Closed;
        }
        match composer.at_token() {
            None => Lookup::Closed,
            Some(query) => {
                let key = draft_key_text(composer);
                if text::same_text(key.as_str(), self.key.as_str()) {
                    Lookup::Kept
                } else {
                    Lookup::Search(query)
                }
            },
        }
    }

    /// Whether the file menu is up for the draft as it is.
    pub fn at_active(&self, composer: &Composer) -> (r: bool)
        requires
            composer.wf(),
        ensures
            r == (self@.key.len() > 0 && token_before(composer@.text, composer@.at) is Some
                && self@.items.len() > 0 && self@.key == draft_key(composer@)),
    {
        assert(self@.items.len() == self.items@.len());
        let key = draft_key_text(composer);
        !self.key.as_str().is_empty() && composer.at_token().is_some() && self.items.len() > 0
            && text::same_text(key.as_str(), self.key.as_str())
    }

    /// Whether the value menu is up for the draft as it is.
    pub fn arg_active(&self, composer: &Composer) -> (r: bool)
        requires
            composer.wf(),
        ensures
            r == (self@.key.len() > 0 && self@.items.len() > 0 && self@.key == draft_key(composer@)),
    {
        assert(self@.items.len() == self.items@.len());
        let key = draft_key_text(composer);
        !self.key.as_str().is_empty() && self.items.len() > 0 && text::same_text(
            key.as_str(),
            self.key.as_str(),
        )
    }

    /// What the value menu needs for the draft: the argument being typed.
    pub fn arg_lookup(&self, composer: &Composer, overlay_open: bool) -> (r: Lookup)
        requires
            composer.wf(),
        ensures
            lookup_is(
                r,
                if overlay_open || !is_arg_position(composer@) {
                    None
                } else {
                    Some(arg_words(composer@.text).last())
                },
                self@.key == draft_key(composer@),
            ),
    {
        if overlay_open || !composer.in_arg_position() {
            return Lookup::Closed;
        }
        let key = draft_key_text(composer);
        if text::same_text(key.as_str(), self.key.as_str()) {
            Lookup::Kept
        } else {
            Lookup::Search(composer.arg_token())
        }
    }
}

/// The candidates among the first `n` that begin with a text, whatever the case.
pub open spec fn beginning(list: Seq<Seq<char>>, token: Seq<char>, n: int) -> Seq<Seq<char>>
    decreases n,
{
    if n <= 0 {
        Seq::empty()
    } else if scan::begins(text::lower(list[n - 1]), text::lower(token)) {
        beginning(list, token, n - 1).push(list[n - 1])
    } else {
        beginning(list, token, n - 1)
    }
}

/// The first twelve candidates that begin with what is typed.
pub open spec fn arg_choices(list: Seq<Seq<char>>, token: Seq<char>) -> Seq<Seq<char>> {
    let all = beginning(list, token, list.len() as int);
    if all.len() <= 12 {
        all
    } else {
        all.take(12)
    }
}

/// The first twelve candidates that begin with what is typed.
pub fn narrow_args(list: &Vec<String>, token: &str) -> (r: Vec<String>)
    ensures
        text::texts(r@) == arg_choices(text::texts(list@), token@),
{
    let small = text::lower_text(token);
    let ghost all = text::texts(list@);
    let mut out: Vec<String> = Vec::new();
    assert(text::texts(out@) =~= beginning(all, token@, 0));
    for i in 0..list.len()
        invariant
            all == text::texts(list@),
            small@ == text::lower(token@),
            text::texts(out@) == beginning(all, token@, i as int),
    {
        assert(all[i as int] == list@[i as int]@);
        let item = text::lower_text(list[i].as_str());
        if scan::text_begins(item.as_str(), small.as_str()) {
            let kept = text::copy_text(list[i].as_str());
            proof {
                text::texts_push(out@, kept);
            }
            out.push(kept);
        }
    }
    let ghost found = text::texts(out@);
    out.truncate(12);
    assert(text::texts(out@) =~= arg_choices(all, token@));
    out
}

/// Where the values of an argument come from.
#[derive(Debug, Clone, PartialEq, Eq)]
pub enum ArgSource {
    /// There are none.
    Nothing,
    Skills,
    Sessions,
    Models,
    /// Files of the workspace that fit this text.
    Files(String),
    /// The values of `/connect` and the providers.
    Providers,
    /// The fixed values of this command.
    Fixed(String),
}

/// What an argument source is, as text.
pub enum SourceView {
    Nothing,
    Skills,
    Sessions,
    Models,
    Files(Seq<char>),
    Providers,
    Fixed(Seq<char>),
}

impl View for ArgSource {
    type V = SourceView;

    open spec fn view(&self) -> SourceView {
        match *self {
            ArgSource::Nothing => SourceView::Nothing,
            ArgSource::Skills => SourceView::Skills,
            ArgSource::Sessions => SourceView::Sessions,
            ArgSource::Models => SourceView::Models,
            ArgSource::Files(token) => SourceView::Files(token@),
            ArgSource::Providers => SourceView::Providers,
            ArgSource::Fixed(command) => SourceView::Fixed(command@),
        }
    }
}

/// Where the values of the argument being typed come from: behind some subcommands
/// names of skills and sessions, else the values of the command.
pub open spec fn source_of(list: Seq<Seq<char>>) -> SourceView {
    let command = text::lower(list[0]);
    if list.len() == 3 {
        let first = text::lower(list[1]);
        if command == "/skill"@ && (first == "use"@ || first == "show"@ || first == "drop"@) {
            SourceView::Skills
        } else if command == "/session"@ && (first == "load"@ || first == "delete"@ || first
            == "diff"@) {
            SourceView::Sessions
        } else {
            SourceView::Nothing
        }
    } else if command == "/model"@ {
        SourceView::Models
    } else if command == "/preview"@ {
        SourceView::Files(list.last())
    } else if command == "/connect"@ {
        SourceView::Providers
    } else {
        SourceView::Fixed(command)
    }
}

/// Where the values of the argument being typed come from.
pub fn arg_candidates(list: &Vec<String>) -> (r: ArgSource)
    requires
        list@.len() == 2 || list@.len() == 3,
    ensures
        r@ == source_of(text::texts(list@)),
{
    let ghost all = text::texts(list@);
    assert(all[0] == list@[0]@ && all[1] == list@[1]@ && all.last() == list@.last()@);
    let command = text::lower_text(list[0].as_str());
    if list.len() == 3 {
        let first = text::lower_text(list[1].as_str());
        if text::same_text(command.as_str(), "/skill") && (text::same_text(first.as_str(), "use") || text::same_text(
            first.as_str(),
            "show",
        ) || text::same_text(first.as_str(), "drop")) {
            return ArgSource::Skills;
        }
        if text::same_text(command.as_str(), "/session") && (text::same_text(first.as_str(), "load")
            || text::same_text(first.as_str(), "delete") || text::same_text(first.as_str(), "diff")) {
            return ArgSource::Sessions;
        }
        return ArgSource::Nothing;
    }
    if text::same_text(command.as_str(), "/model") {
        ArgSource::Models
    } else if text::same_text(command.as_str(), "/preview") {
        ArgSource::Files(text::copy_text(list[list.len() - 1].as_str()))
    } else if text::same_text(command.as_str(), "/connect") {
        ArgSource::Providers
    } else {
        ArgSource::Fixed(command)
    }
}

// ---------------------------------------------------------------------------
// Accepting
// ---------------------------------------------------------------------------

impl ComposerView {
    /// The file reference before the cursor replaced by a pick, and what follows it: a
    /// slash after a directory, a blank after a file.
    pub open spec fn file_accepted(self, pick: Seq<char>, is_dir: bool) -> ComposerView {
        let before = self.text.take(self.at);
        match replies::rfind(before, seq!['@']) {
            None => self,
            Some(k) => {
                let with = "@"@ + pick + (if is_dir {
                    "/"@
                } else {
                    " "@
                });
                ComposerView {
                    text: composer::splice(self.text, k, self.at, with),
                    at: k + with.len(),
                    ..self
                }
            },
        }
    }

    /// What follows the last blank replaced by a pick and a blank.
    pub open spec fn value_accepted(self, pick: Seq<char>) -> ComposerView {
        match replies::rfind(self.text, seq![' ']) {
            None => self,
            Some(k) => self.with_text(self.text.take(k + 1) + pick + " "@),
        }
    }
}

/// Accepts the selected file: it takes the place of the reference before the cursor.
/// Says whether there was anything to accept.
pub fn accept_at_complete(composer: &mut Composer, menu: &mut Menu, is_dir: bool) -> (r: bool)
    requires
        old(composer).wf(),
    ensures
        final(composer).wf(),
        ({
            let m = old(menu)@;
            let v = old(composer)@;
            if m.selected < m.items.len() && replies::rfind(v.text.take(v.at), seq!['@']) is Some {
                &&& r
                &&& final(composer)@ == v.file_accepted(m.items[m.selected], is_dir)
                &&& final(menu)@ == MenuView::empty()
            } else {
                !r && final(composer)@ == v && final(menu)@ == m
            }
        }),
{
    assert(menu@.items.len() == menu.items@.len());
    if menu.selected >= menu.items.len() {
        return false;
    }
    assert(menu@.items[menu.selected as int] == menu.items@[menu.selected as int]@);
    let pick = text::copy_text(menu.items[menu.selected].as_str());
    let (chars, at) = composer.chars_at();
    let before_text = text::slice_text(&chars, 0, at);
    let before = text::to_chars(before_text.as_str());
    assert(before@ =~= composer@.text.take(composer@.at));
    let mut mark: Vec<char> = Vec::new();
    mark.push('@');
    assert(mark@ =~= seq!['@']);
    match replies::rfind_chars(&before, &mark) {
        None => false,
        Some(k) => {
            let text = text::cat3(
                "@",
                pick.as_str(),
                if is_dir {
                    "/"
                } else {
                    " "
                },
            );
            let with = text::to_chars(text.as_str());
            let out = composer::splice_chars(&chars, k, at, &with);
            composer.put(&out, k + with.len());
            menu.clear();
            true
        },
    }
}

/// Accepts the selected value: it takes the place of what follows the last blank. Says
/// whether there was anything to accept.
pub fn accept_arg_complete(composer: &mut Composer, menu: &mut Menu) -> (r: bool)
    requires
        old(composer).wf(),
    ensures
        final(composer).wf(),
        ({
            let m = old(menu)@;
            let v = old(composer)@;
            if m.selected < m.items.len() && replies::rfind(v.text, seq![' ']) is Some {
                &&& r
                &&& final(composer)@ == v.value_accepted(m.items[m.selected])
                &&& final(menu)@ == MenuView::empty()
            } else {
                !r && final(composer)@ == v && final(menu)@ == m
            }
        }),
{
    assert(menu@.items.len() == menu.items@.len());
    if menu.selected >= menu.items.len() {
        return false;
    }
    assert(menu@.items[menu.selected as int] == menu.items@[menu.selected as int]@);
    let pick = text::copy_text(menu.items[menu.selected].as_str());
    let chars = text::to_chars(composer.input.as_str());
    let mut mark: Vec<char> = Vec::new();
    mark.push(' ');
    assert(mark@ =~= seq![' ']);
    match replies::rfind_chars(&chars, &mark) {
        None => false,
        Some(k) => {
            assert(k + 1 <= chars.len());
            let head = text::slice_text(&chars, 0, k + 1);
            assert(head@ =~= composer@.text.take(k + 1));
            composer.set_input(text::cat3(head.as_str(), pick.as_str(), " "));
            menu.clear();
            true
        },
    }
}

// ---------------------------------------------------------------------------
// Shell candidates
// ---------------------------------------------------------------------------

/// A candidate for a shell line. A whole-line candidate replaces the line, any other
/// the word under the cursor; `line` is the shell line with the candidate taken.
#[derive(Debug, Clone, PartialEq, Eq)]
pub struct ShellCandidate {
    pub text: String,
    pub kind: String,
    pub detail: String,
    pub whole_line: bool,
    pub line: String,
}

/// The menu of shell candidates. It opens with Tab where there is a choice, and stays
/// until it is closed, something is accepted, or the line is sent.
pub struct ShellMenu {
    pub selected: usize,
    pub key: String,
    pub items: Vec<ShellCandidate>,
    pub invoked: bool,
}

/// What the menu of shell candidates holds.
#[verifier::ext_equal]
pub struct ShellMenuView {
    pub selected: int,
    pub key: Seq<char>,
    pub items: Seq<ShellCandidate>,
    pub invoked: bool,
}

impl View for ShellMenu {
    type V = ShellMenuView;

    open spec fn view(&self) -> ShellMenuView {
        ShellMenuView {
            selected: self.selected as int,
            key: self.key@,
            items: self.items@,
            invoked: self.invoked,
        }
    }
}

/// A closed menu.
pub open spec fn closed_menu() -> ShellMenuView {
    ShellMenuView { selected: 0, key: Seq::empty(), items: Seq::empty(), invoked: false }
}

/// What Tab does on a shell line.
#[derive(Debug, Clone, PartialEq, Eq)]
pub enum ShellTab {
    /// Nothing: Tab means something else here.
    Pass,
    /// The only candidate is taken.
    Take,
    /// The menu opened.
    Opened,
}

impl ShellMenu {
    /// A closed menu.
    pub fn new() -> (r: ShellMenu)
        ensures
            r@ == closed_menu(),
    {
        let r = ShellMenu { selected: 0, key: String::new(), items: Vec::new(), invoked: false };
        assert(r@ =~= closed_menu());
        r
    }

    /// Whether the menu can be asked for candidates: no overlay, no command being typed,
    /// the cursor at the end, and a shell line. Gives that line.
    pub fn candidate_line(
        &self,
        composer: &Composer,
        overlay_open: bool,
        reads_as_shell: bool,
    ) -> (r: Option<String>)
        requires
            composer.wf(),
        ensures
            composer::opt_text(r) == (if overlay_open || is_palette(composer@.text) || composer@.at
                != composer@.text.len() {
                None
            } else {
                match shell_of(composer@, reads_as_shell) {
                    Some((_, line)) => Some(line),
                    None => None,
                }
            }),
    {
        if overlay_open || composer.is_palette_query() || !composer.at_end() {
            return None;
        }
        match composer.shell_line(reads_as_shell) {
            Some((_, line)) => Some(line),
            None => None,
        }
    }

    /// Tab on a shell line whose candidates are `items`: a single one is taken at once,
    /// several open the menu.
    pub fn sh_tab(&mut self, composer: &Composer, items: Vec<ShellCandidate>) -> (r: ShellTab)
        requires
            composer.wf(),
        ensures
            if old(self)@.invoked || items@.len() == 0 {
                r == ShellTab::Pass && final(self)@ == old(self)@
            } else if items@.len() == 1 {
                &&& r == ShellTab::Take
                &&& final(self)@ == (ShellMenuView { selected: 0, ..old(self)@ })
            } else {
                &&& r == ShellTab::Opened
                &&& final(self)@ == (ShellMenuView {
                    selected: 0,
                    key: draft_key(composer@),
                    items: items@,
                    invoked: true,
                })
            },
    {
        if self.invoked || items.len() == 0 {
            return ShellTab::Pass;
        }
        self.selected = 0;
        if items.len() == 1 {
            return ShellTab::Take;
        }
        self.key = draft_key_text(composer);
        self.items = items;
        self.invoked = true;
        ShellTab::Opened
    }

    /// Whether the candidates are to be looked up again: the menu was opened and the
    /// draft has changed since. A menu that was not opened has none.
    pub fn sh_refresh(&mut self, composer: &Composer) -> (r: bool)
        requires
            composer.wf(),
        ensures
            r == (old(self)@.invoked && old(self)@.key != draft_key(composer@)),
            final(self)@ == (if old(self)@.invoked {
                old(self)@
            } else {
                ShellMenuView { key: Seq::empty(), items: Seq::empty(), ..old(self)@ }
            }),
    {
        if !self.invoked {
            self.key = String::new();
            self.items = Vec::new();
            return false;
        }
        let key = draft_key_text(composer);
        !text::same_text(key.as_str(), self.key.as_str())
    }

    /// Takes the candidates for the draft as it is.
    pub fn sh_store(&mut self, composer: &Composer, items: Vec<ShellCandidate>)
        requires
            composer.wf(),
        ensures
            final(self)@ == (ShellMenuView {
                selected: 0,
                key: draft_key(composer@),
                items: items@,
                ..old(self)@
            }),
    {
        self.key = draft_key_text(composer);
        self.selected = 0;
        self.items = items;
    }

    /// Whether the menu is up for the draft as it is.
    pub fn sh_menu_active(&self, composer: &Composer) -> (r: bool)
        requires
            composer.wf(),
        ensures
            r == (self@.invoked && self@.key.len() > 0 && self@.items.len() > 0 && self@.key
                == draft_key(composer@)),
    {
        let key = draft_key_text(composer);
        self.invoked && !self.key.as_str().is_empty() && self.items.len() > 0 && text::same_text(
            key.as_str(),
            self.key.as_str(),
        )
    }

    /// Closes the menu without accepting anything.
    pub fn close_sh_menu(&mut self)
        ensures
            final(self)@ == closed_menu(),
    {
        self.invoked = false;
        self.key = String::new();
        self.items = Vec::new();
        self.selected = 0;
    }
}

/// Puts a completed shell line into the draft, after its mark if it has one. Says
/// whether the draft still is a shell line.
pub fn apply_sh_pick(composer: &mut Composer, reads_as_shell: bool, swapped: &str) -> (r: bool)
    requires
        old(composer).wf(),
    ensures
        final(composer).wf(),
        match shell_of(old(composer)@, reads_as_shell) {
            Some((n, _)) => r && final(composer)@ == old(composer)@.with_text(
                old(composer)@.text.take(n) + swapped@,
            ),
            None => !r && final(composer)@ == old(composer)@,
        },
{
    match composer.shell_line(reads_as_shell) {
        None => false,
        Some((n, _)) => {
            let chars = text::to_chars(composer.input.as_str());
            let head = text::slice_text(&chars, 0, n);
            assert(head@ =~= composer@.text.take(n as int));
            composer.set_input(text::cat2(head.as_str(), swapped));
            true
        },
    }
}

// ---------------------------------------------------------------------------
// Laws
// ---------------------------------------------------------------------------

/// No two menus want the same draft: a command being typed has no argument position
/// and is no shell line, and a file reference excludes both of these.
pub proof fn menus_exclude_each_other(v: ComposerView, reads_as_shell: bool)
    ensures
        is_palette(v.text) ==> !is_arg_position(v) && shell_of(v, reads_as_shell) is None,
        token_before(v.text, v.at) is Some ==> !is_arg_position(v) && shell_of(
            v,
            reads_as_shell,
        ) is None,
        is_arg_position(v) ==> scan::words(v.text)[0].len() > 0 && scan::begins(scan::words(v.text)[0], "/"@),
{
    reveal_strlit("/");
    if is_arg_position(v) {
        assert(scan::occurs_at(scan::words(v.text)[0], "/"@, 0));
    }
}

/// The values of `/connect`: the fixed ones and the ids of the providers, in text order, each
/// once.
pub fn connect_values(fixed: &Vec<String>, ids: &Vec<String>) -> (r: Vec<String>)
    ensures
        files::rises(text::texts(r@)),
        forall|t: Seq<char>| #[trigger]
            text::texts(r@).contains(t) == (text::texts(fixed@).contains(t) || text::texts(ids@).contains(t)),
{
    let mut r: Vec<String> = Vec::new();
    let ghost first = text::texts(fixed@);
    let ghost second = text::texts(ids@);
    for i in 0..fixed.len()
        invariant
            first == text::texts(fixed@),
            files::rises(text::texts(r@)),
            forall|t: Seq<char>| #[trigger]
                text::texts(r@).contains(t) == first.take(i as int).contains(t),
    {
        assert(first[i as int] == fixed@[i as int]@);
        files::insert_once(&mut r, fixed[i].as_str());
        proof {
            files::one_more_holds(first, i as int);
        }
    }
    assert(first.take(first.len() as int) =~= first);
    for i in 0..ids.len()
        invariant
            second == text::texts(ids@),
            files::rises(text::texts(r@)),
            forall|t: Seq<char>| #[trigger]
                text::texts(r@).contains(t) == (first.contains(t) || second.take(i as int).contains(t)),
    {
        assert(second[i as int] == ids@[i as int]@);
        files::insert_once(&mut r, ids[i].as_str());
        proof {
            files::one_more_holds(second, i as int);
        }
    }
    assert(second.take(second.len() as int) =~= second);
    r
}

} // verus!
