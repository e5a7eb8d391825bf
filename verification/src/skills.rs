//! Skills of a pane: named instructions that the user turns on and off.

use crate::composer;
use crate::files;
use crate::ghost;
use crate::idmap::IdMap;
use crate::pane::{Pane, PaneView};
use crate::paths;
use crate::scan;
use crate::sessions;
use crate::text;
use vstd::prelude::*;

verus! {

/// The parameters that a skill was turned on with.
pub struct SkillParams {
    pub pairs: IdMap<String>,
}

/// What parameters hold.
pub open spec fn param_pairs(m: Map<Seq<char>, String>) -> Map<Seq<char>, Seq<char>> {
    Map::new(|k: Seq<char>| m.contains_key(k), |k: Seq<char>| m[k]@)
}

impl View for SkillParams {
    type V = Map<Seq<char>, Seq<char>>;

    open spec fn view(&self) -> Map<Seq<char>, Seq<char>> {
        param_pairs(self.pairs@)
    }
}

/// What the parameters of skills hold.
pub open spec fn params_view(m: Map<Seq<char>, SkillParams>) -> Map<
    Seq<char>,
    Map<Seq<char>, Seq<char>>,
> {
    Map::new(|k: Seq<char>| m.contains_key(k), |k: Seq<char>| m[k]@)
}

/// The skills that are on, in the order in which they were turned on, with their
/// parameters.
pub struct Skills {
    pub active: Vec<String>,
    pub params: IdMap<SkillParams>,
}

/// What skills hold.
#[verifier::ext_equal]
pub struct SkillsView {
    pub active: Seq<Seq<char>>,
    pub params: Map<Seq<char>, Map<Seq<char>, Seq<char>>>,
}

impl View for Skills {
    type V = SkillsView;

    open spec fn view(&self) -> SkillsView {
        SkillsView { active: text::texts(self.active@), params: params_view(self.params@) }
    }
}

/// No skill is on.
pub open spec fn no_skills() -> SkillsView {
    SkillsView { active: Seq::empty(), params: Map::empty() }
}

/// A list without any copy of a text, looking at its first `n` entries.
pub open spec fn list_without(list: Seq<Seq<char>>, name: Seq<char>, n: int) -> Seq<Seq<char>>
    decreases n,
{
    if n <= 0 || n > list.len() {
        Seq::empty()
    } else if list[n - 1] == name {
        list_without(list, name, n - 1)
    } else {
        list_without(list, name, n - 1).push(list[n - 1])
    }
}

impl SkillsView {
    /// A skill turned on.
    pub open spec fn with(self, name: Seq<char>, params: Map<Seq<char>, Seq<char>>) -> SkillsView {
        SkillsView {
            active: self.active.push(name),
            params: if params == Map::<Seq<char>, Seq<char>>::empty() {
                self.params
            } else {
                self.params.insert(name, params)
            },
        }
    }

    /// A skill turned off.
    pub open spec fn without(self, name: Seq<char>) -> SkillsView {
        SkillsView {
            active: list_without(self.active, name, self.active.len() as int),
            params: self.params.remove(name),
        }
    }
}

/// What stands before and behind the first equals sign of a text.
pub open spec fn pair_of(s: Seq<char>) -> Option<(Seq<char>, Seq<char>)> {
    let k = scan::seek(s, '=', 0);
    if k < s.len() {
        Some((s.take(k), s.skip(k + 1)))
    } else {
        None
    }
}

/// The pairs among the arguments from the third to the `n`-th; of two with the same name
/// the later one counts.
pub open spec fn params_of(args: Seq<Seq<char>>, n: int) -> Map<Seq<char>, Seq<char>>
    decreases n,
{
    if n <= 2 || n > args.len() {
        Map::empty()
    } else {
        match pair_of(args[n - 1]) {
            Some((k, v)) => params_of(args, n - 1).insert(k, v),
            None => params_of(args, n - 1),
        }
    }
}

impl Skills {
    /// No skill has two sets of parameters.
    pub open spec fn wf(self) -> bool {
        self.params.wf()
    }

    /// Whether no skill has two sets of parameters.
    pub fn is_sound(&self) -> (r: bool)
        ensures
            r == self.wf(),
    {
        self.params.ids_differ()
    }

    /// No skill is on.
    pub fn new() -> (r: Skills)
        ensures
            r.wf(),
            r@ == no_skills(),
    {
        let r = Skills { active: Vec::new(), params: IdMap::new() };
        assert(r@ =~= no_skills());
        r
    }

    fn turn_on(&mut self, name: &str, params: SkillParams)
        requires
            old(self).wf(),
            params.pairs.wf(),
        ensures
            final(self).wf(),
            final(self)@ == old(self)@.with(name@, params@),
    {
        let ghost before = self@;
        self.active.push(text::copy_text(name));
        assert(text::texts(self.active@) =~= before.active.push(name@));
        let empty = params.pairs.is_empty();
        proof {
            if params@ == Map::<Seq<char>, Seq<char>>::empty() {
                assert forall|k: Seq<char>| !params.pairs@.contains_key(k) by {
                    assert(!params@.contains_key(k));
                }
                assert(params.pairs@ =~= Map::<Seq<char>, String>::empty());
            }
            if empty {
                assert(params@ =~= Map::<Seq<char>, Seq<char>>::empty());
            }
        }
        if !empty {
            let ghost m = self.params@;
            let ghost p = params@;
            self.params.insert(text::copy_text(name), params);
            assert(params_view(self.params@) =~= params_view(m).insert(name@, p));
        }
    }

    fn turn_off(&mut self, name: &str)
        requires
            old(self).wf(),
        ensures
            final(self).wf(),
            final(self)@ == old(self)@.without(name@),
    {
        let ghost before = self@;
        let ghost m = self.params@;
        let mut kept: Vec<String> = Vec::new();
        assert(text::texts(kept@) =~= Seq::empty());
        for i in 0..self.active.len()
            invariant
                before.active == text::texts(self.active@),
                text::texts(kept@) == list_without(before.active, name@, i as int),
        {
            assert(before.active[i as int] == self.active@[i as int]@);
            if !text::same_text(self.active[i].as_str(), name) {
                let ghost list = kept@;
                kept.push(text::copy_text(self.active[i].as_str()));
                assert(text::texts(kept@) =~= text::texts(list).push(before.active[i as int]));
            }
        }
        self.active = kept;
        self.params.remove(name);
        assert(params_view(self.params@) =~= params_view(m).remove(name@));
    }
}

fn read_params(args: &Vec<String>) -> (r: SkillParams)
    ensures
        r.pairs.wf(),
        r@ == params_of(text::texts(args@), args@.len() as int),
{
    let mut pairs: IdMap<String> = IdMap::new();
    let ghost list = text::texts(args@);
    assert(param_pairs(pairs@) =~= Map::<Seq<char>, Seq<char>>::empty());
    if args.len() > 2 {
        for i in 2..args.len()
            invariant
                list == text::texts(args@),
                pairs.wf(),
                param_pairs(pairs@) == params_of(list, i as int),
        {
            assert(list[i as int] == args@[i as int]@);
            let c = text::to_chars(args[i].as_str());
            let k: usize = scan::seek_char(&c, '=', 0);
            if k < c.len() {
                let ghost m = pairs@;
                let name = text::slice_text(&c, 0, k);
                let value = text::slice_text(&c, k + 1, c.len());
                assert(name@ =~= c@.take(k as int));
                assert(value@ =~= c@.skip(k + 1));
                pairs.insert(name, value);
                assert(param_pairs(pairs@) =~= param_pairs(m).insert(name@, value@));
            }
        }
    }
    SkillParams { pairs }
}

// ---------------------------------------------------------------------------
// Names
// ---------------------------------------------------------------------------

/// The parts that a path consists of.
#[derive(Debug, Clone, Copy, PartialEq, Eq, Structural)]
pub enum PathPart {
    Prefix,
    Root,
    Current,
    Parent,
    Name,
}

/// The kind of a part of a plain path.
pub open spec fn part_kind(part: Seq<char>) -> PathPart {
    if part == "."@ {
        PathPart::Current
    } else if part == ".."@ {
        PathPart::Parent
    } else {
        PathPart::Name
    }
}

/// The kinds of the parts of a plain path.
pub open spec fn kinds(path: Seq<char>) -> Seq<PathPart> {
    (if paths::rooted(path) {
        seq![PathPart::Root]
    } else {
        Seq::empty()
    }) + paths::parts(path).map_values(|part: Seq<char>| part_kind(part))
}

/// `std::path::Path::components`: the kinds of the parts of a path, in order. How a text that
/// is not plain is taken apart depends on the platform, and is not said here.
#[verifier::external_body]
fn path_parts(path: &str) -> (r: Vec<PathPart>)
    ensures
        paths::plain(path@) ==> r@ == kinds(path@),
{
    std::path::Path::new(path)
        .components()
        .map(|part| match part {
            std::path::Component::Prefix(_) => PathPart::Prefix,
            std::path::Component::RootDir => PathPart::Root,
            std::path::Component::CurDir => PathPart::Current,
            std::path::Component::ParentDir => PathPart::Parent,
            std::path::Component::Normal(_) => PathPart::Name,
        })
        .collect()
}

/// The name that a text gives a skill: without white space round it and without the ending
/// of its file. Hidden files and paths give none.
pub open spec fn named_skill(input: Seq<char>) -> Option<Seq<char>> {
    let t = scan::trim(input);
    if t.len() == 0 || t[0] == '.' || t.contains('/') || t.contains('\\') {
        None
    } else if scan::ends(t, ".md"@) {
        Some(t.take(t.len() - 3))
    } else {
        Some(t)
    }
}

fn stem(input: &str) -> (r: Option<String>)
    ensures
        composer::opt_text(r) == named_skill(input@),
{
    let t = scan::trim_text(input);
    let c = text::to_chars(t.as_str());
    if c.len() == 0 || c[0] == '.' || ghost::has_char(t.as_str(), '/') || ghost::has_char(t.as_str(), '\\') {
        return None;
    }
    proof {
        reveal_strlit(".md");
    }
    match scan::strip_suffix(t.as_str(), ".md") {
        Some(name) => Some(name),
        None => Some(t),
    }
}

/// The name of a skill, where the parts of its name are a single name.
pub fn skill_name_of(name: Option<String>, parts: &Vec<PathPart>) -> (r: Option<String>)
    ensures
        r == if parts@ == seq![PathPart::Name] {
            name
        } else {
            None
        },
{
    if parts.len() == 1 && parts[0] == PathPart::Name {
        assert(parts@ =~= seq![PathPart::Name]);
        name
    } else {
        None
    }
}

/// The name that a text gives a skill. A name that the platform reads as a path gives none.
pub fn skill_name(input: &str) -> (r: Option<String>)
    ensures
        r matches Some(name) ==> named_skill(input@) == Some(name@),
        named_skill(input@) is None ==> r is None,
        (named_skill(input@) matches Some(name) && !name.contains(':')) ==> r is Some,
{
    match stem(input) {
        None => None,
        Some(name) => {
            proof {
                skills_are_local(input@);
                paths::names_are_single_parts(name@);
                reveal_strlit(".");
                reveal_strlit("..");
                assert(name@ != "."@ && name@ != ".."@);
                assert(kinds(name@) =~= seq![PathPart::Name]);
            }
            let parts = path_parts(name.as_str());
            skill_name_of(Some(name), &parts)
        },
    }
}

/// The name that the second argument of a command gives a skill.
pub fn asked_skill(args: &Vec<String>) -> (r: Option<String>)
    ensures
        args@.len() < 2 ==> r is None,
        args@.len() >= 2 ==> {
            &&& r matches Some(name) ==> named_skill(args@[1]@) == Some(name@)
            &&& named_skill(args@[1]@) is None ==> r is None
            &&& (named_skill(args@[1]@) matches Some(name) && !name.contains(':')) ==> r is Some
        },
{
    if args.len() < 2 {
        None
    } else {
        skill_name(args[1].as_str())
    }
}

/// A skill is never named by a path or by a hidden file.
pub proof fn skills_are_local(input: Seq<char>)
    requires
        named_skill(input) is Some,
    ensures
        !named_skill(input)->0.contains('/'),
        !named_skill(input)->0.contains('\\'),
        named_skill(input)->0.len() > 0,
        named_skill(input)->0[0] != '.',
{
    let t = scan::trim(input);
    let n = named_skill(input)->0;
    reveal_strlit(".md");
    if scan::ends(t, ".md"@) && t.len() == 3 {
        assert(t.skip(0) =~= t);
        assert(t[0] == ".md"@[0]);
    }
    assert forall|c: char| n.contains(c) implies t.contains(c) by {
        let i = choose|i: int| 0 <= i < n.len() && n[i] == c;
        assert(t[i] == c);
    }
}

// ---------------------------------------------------------------------------
// The command
// ---------------------------------------------------------------------------

/// What is known of the file of a skill.
#[derive(Debug, PartialEq, Eq)]
pub struct SkillFile {
    pub path: String,
    pub exists: bool,
    pub content: Result<String, String>,
}

impl PaneView {
    /// A skill turned on by the user.
    pub open spec fn skill_used(
        self,
        args: Seq<Seq<char>>,
        name: Option<Seq<char>>,
        path: Seq<char>,
        exists: bool,
    ) -> PaneView {
        if args.len() < 2 {
            self.said("Usage: /skill use <name>"@)
        } else {
            match name {
                None => self.failed("Skill names must be local Markdown filenames"@),
                Some(n) => if !exists {
                    self.failed("Skill not found: "@ + path)
                } else if self.skills.active.contains(n) {
                    self.said("Skill already active: "@ + n)
                } else {
                    PaneView {
                        skills: self.skills.with(n, params_of(args, args.len() as int)),
                        ..self
                    }.did("Skill active: "@ + n)
                },
            }
        }
    }

    /// A skill shown.
    pub open spec fn skill_shown(
        self,
        name: Option<Seq<char>>,
        content: Result<Seq<char>, Seq<char>>,
    ) -> PaneView {
        match name {
            None => self.said("Usage: /skill show <name>"@),
            Some(n) => match content {
                Ok(text) => self.told("Skill: "@ + n + "\n\n"@ + text),
                Err(e) => self.failed("Skill read failed: "@ + e),
            },
        }
    }

    /// A skill turned off by the user.
    pub open spec fn skill_dropped(self, name: Option<Seq<char>>) -> PaneView {
        match name {
            None => self.said("Usage: /skill drop <name>"@),
            Some(n) => {
                let v = PaneView { skills: self.skills.without(n), ..self };
                if v.skills.active.len() == self.skills.active.len() {
                    v.said("Skill was not active: "@ + n)
                } else {
                    v.did("Skill inactive: "@ + n)
                }
            },
        }
    }

    /// A command on skills. `name` is the name that its second argument gives.
    pub open spec fn skill_commanded(
        self,
        args: Seq<Seq<char>>,
        name: Option<Seq<char>>,
        path: Seq<char>,
        exists: bool,
        content: Result<Seq<char>, Seq<char>>,
    ) -> PaneView {
        let word = sessions::nth_arg(args, 0);
        if word == Some("use"@) {
            self.skill_used(args, name, path, exists)
        } else if word == Some("show"@) {
            self.skill_shown(name, content)
        } else if word == Some("drop"@) {
            self.skill_dropped(name)
        } else if word == Some("clear"@) {
            PaneView { skills: SkillsView { active: Seq::empty(), ..self.skills }, ..self }.did(
                "All skills cleared"@,
            )
        } else {
            self.said("Usage: /skill use|show|drop|clear <name>"@)
        }
    }
}

impl Pane {
    fn use_skill(&mut self, args: &Vec<String>, name: Option<String>, path: &str, exists: bool)
        requires
            old(self).wf(),
        ensures
            final(self).wf(),
            final(self)@ == old(self)@.skill_used(text::texts(args@), composer::opt_text(name), path@, exists),
    {
        assert(text::texts(args@).len() == args@.len());
        if args.len() < 2 {
            self.say("Usage: /skill use <name>");
            return;
        }
        match name {
            None => self.fail("Skill names must be local Markdown filenames"),
            Some(n) => {
                if !exists {
                    self.set_error(text::cat2("Skill not found: ", path));
                } else if text::has_text(&self.skills.active, n.as_str()) {
                    self.set_status(text::cat2("Skill already active: ", n.as_str()));
                } else {
                    let params = read_params(args);
                    self.skills.turn_on(n.as_str(), params);
                    self.set_ok(text::cat2("Skill active: ", n.as_str()));
                }
            },
        }
    }

    fn show_skill(&mut self, name: Option<String>, content: &Result<String, String>)
        requires
            old(self).wf(),
        ensures
            final(self).wf(),
            final(self)@ == old(self)@.skill_shown(composer::opt_text(name), sessions::outcome_view(*content)),
    {
        match name {
            None => self.say("Usage: /skill show <name>"),
            Some(n) => match content {
                Ok(text) => {
                    let text = text::cat4("Skill: ", n.as_str(), "\n\n", text.as_str());
                    self.push_system(text.as_str());
                },
                Err(e) => self.set_error(text::cat2("Skill read failed: ", e.as_str())),
            },
        }
    }

    fn drop_skill(&mut self, name: Option<String>)
        requires
            old(self).wf(),
        ensures
            final(self).wf(),
            final(self)@ == old(self)@.skill_dropped(composer::opt_text(name)),
    {
        match name {
            None => self.say("Usage: /skill drop <name>"),
            Some(n) => {
                let before: usize = self.skills.active.len();
                assert(self@.skills.active.len() == before);
                self.skills.turn_off(n.as_str());
                assert(self@.skills.active.len() == self.skills.active@.len());
                if before == self.skills.active.len() {
                    self.set_status(text::cat2("Skill was not active: ", n.as_str()));
                } else {
                    self.set_ok(text::cat2("Skill inactive: ", n.as_str()));
                }
            },
        }
    }

    /// Runs a command on skills. `name` is the name that `asked_skill` finds in it, and
    /// `file` what is known of the file of that skill.
    pub fn command_skill(&mut self, args: &Vec<String>, name: Option<String>, file: &SkillFile)
        requires
            old(self).wf(),
        ensures
            final(self).wf(),
            final(self)@ == old(self)@.skill_commanded(
                text::texts(args@),
                composer::opt_text(name),
                file.path@,
                file.exists,
                sessions::outcome_view(file.content),
            ),
    {
        if sessions::arg_is(args, 0, "use") {
            self.use_skill(args, name, file.path.as_str(), file.exists);
        } else if sessions::arg_is(args, 0, "show") {
            self.show_skill(name, &file.content);
        } else if sessions::arg_is(args, 0, "drop") {
            self.drop_skill(name);
        } else if sessions::arg_is(args, 0, "clear") {
            self.skills.active = Vec::new();
            assert(self@.skills.active =~= Seq::empty());
            self.did("All skills cleared");
        } else {
            self.say("Usage: /skill use|show|drop|clear <name>");
        }
    }
}

/// Whether a file name has the ending of a skill and more than that.
pub open spec fn is_markdown(name: Seq<char>) -> bool {
    name.len() > 3 && scan::ends(name, ".md"@)
}

/// The names of skills among the first `n` file names.
pub open spec fn markdown_in(names: Seq<Seq<char>>, n: int) -> Seq<Seq<char>>
    decreases n,
{
    if n <= 0 || n > names.len() {
        Seq::empty()
    } else if is_markdown(names[n - 1]) {
        markdown_in(names, n - 1).push(names[n - 1])
    } else {
        markdown_in(names, n - 1)
    }
}

/// Names without the ending of a skill.
pub open spec fn stems(names: Seq<Seq<char>>) -> Seq<Seq<char>> {
    names.map_values(|s: Seq<char>| s.take(s.len() - 3))
}

/// The file names that are those of skills.
pub fn markdown_files(names: &Vec<String>) -> (r: Vec<String>)
    ensures
        text::texts(r@) == markdown_in(text::texts(names@), names@.len() as int),
{
    let ghost all = text::texts(names@);
    let mut r: Vec<String> = Vec::new();
    assert(text::texts(r@) =~= Seq::empty());
    for i in 0..names.len()
        invariant
            all == text::texts(names@),
            text::texts(r@) == markdown_in(all, i as int),
    {
        assert(all[i as int] == names@[i as int]@);
        let c = text::to_chars(names[i].as_str());
        if c.len() > 3 && scan::strip_suffix(names[i].as_str(), ".md").is_some() {
            let ghost before = r@;
            r.push(text::copy_text(names[i].as_str()));
            assert(text::texts(r@) =~= text::texts(before).push(all[i as int]));
        }
    }
    r
}

/// The names of the skills among file names, in text order.
pub fn skill_names(names: &Vec<String>) -> (r: Vec<String>)
    ensures
        text::texts(r@) == files::sorted_texts(stems(markdown_in(text::texts(names@), names@.len() as int))),
{
    let files = markdown_files(names);
    let ghost all = text::texts(files@);
    let mut list: Vec<String> = Vec::new();
    proof {
        markdown_has_endings(text::texts(names@), names@.len() as int);
    }
    for i in 0..files.len()
        invariant
            all == text::texts(files@),
            forall|j: int| 0 <= j < all.len() ==> (#[trigger] all[j]).len() > 3,
            list@.len() == i,
            forall|j: int| 0 <= j < i ==> (#[trigger] list@[j])@ == all[j].take(all[j].len() - 3),
    {
        assert(all[i as int] == files@[i as int]@);
        let c = text::to_chars(files[i].as_str());
        let stem = text::slice_text(&c, 0, c.len() - 3);
        assert(stem@ =~= all[i as int].take(all[i as int].len() - 3));
        list.push(stem);
    }
    assert(text::texts(list@) =~= stems(all));
    files::sort_texts(&list)
}

proof fn markdown_has_endings(names: Seq<Seq<char>>, n: int)
    ensures
        forall|j: int| 0 <= j < markdown_in(names, n).len() ==> (#[trigger] markdown_in(names, n)[j]).len() > 3,
    decreases n,
{
    if 0 < n <= names.len() {
        markdown_has_endings(names, n - 1);
        let more = markdown_in(names, n);
        let rest = markdown_in(names, n - 1);
        assert forall|j: int| 0 <= j < more.len() implies (#[trigger] more[j]).len() > 3 by {
            if j < rest.len() {
                assert(more[j] == rest[j]);
            }
        }
    }
}

/// The file names of skills shown, in text order.
pub open spec fn skills_listed(dir: Seq<char>, names: Seq<Seq<char>>) -> Seq<char> {
    if names.len() == 0 {
        "No Markdown skills found"@
    } else {
        "Skills in "@ + dir + ":\n"@ + scan::join(files::sorted_texts(names), "\n"@)
    }
}

impl Pane {
    /// Shows the names of the skills among the files of their directory.
    pub fn command_skills(&mut self, dir: &str, names: &Vec<String>)
        requires
            old(self).wf(),
        ensures
            final(self).wf(),
            final(self)@ == old(self)@.told(
                skills_listed(dir@, markdown_in(text::texts(names@), names@.len() as int)),
            ),
    {
        let found = markdown_files(names);
        assert(text::texts(found@).len() == found@.len());
        if found.len() == 0 {
            self.push_system("No Markdown skills found");
            return;
        }
        let sorted = files::sort_texts(&found);
        let list = scan::join_texts(&sorted, "\n");
        let text = text::cat4("Skills in ", dir, ":\n", list.as_str());
        self.push_system(text.as_str());
    }
}

proof fn without_has_none(list: Seq<Seq<char>>, name: Seq<char>, n: int)
    requires
        0 <= n <= list.len(),
    ensures
        !list_without(list, name, n).contains(name),
        list_without(list, name, n).len() <= n,
        !list.take(n).contains(name) ==> list_without(list, name, n) == list.take(n),
    decreases n,
{
    if n > 0 {
        without_has_none(list, name, n - 1);
        let rest = list_without(list, name, n - 1);
        if list[n - 1] != name {
            let more = rest.push(list[n - 1]);
            assert forall|i: int| 0 <= i < more.len() implies #[trigger] more[i] != name by {
                if i < rest.len() {
                    assert(rest.contains(rest[i]));
                }
            }
        } else {
            assert(list.take(n)[n - 1] == name);
        }
        if !list.take(n).contains(name) {
            let less = list.take(n - 1);
            assert forall|i: int| 0 <= i < less.len() implies #[trigger] less[i] != name by {
                assert(list.take(n)[i] == list[i]);
            }
            assert(list.take(n) =~= list.take(n - 1).push(list[n - 1]));
        }
    } else {
        assert(list.take(0) =~= Seq::empty());
    }
}

/// A skill that was turned off is off, and turning on a skill that was off and turning it
/// off again leaves the others as they were.
pub proof fn turning_off_undoes(v: SkillsView, name: Seq<char>, params: Map<Seq<char>, Seq<char>>)
    ensures
        !v.without(name).active.contains(name),
        !v.active.contains(name) ==> v.with(name, params).without(name).active == v.active,
{
    let n = v.active.len() as int;
    without_has_none(v.active, name, n);
    assert(v.active.take(n) =~= v.active);
    if !v.active.contains(name) {
        let w = v.with(name, params).active;
        assert(w.take(n) =~= v.active);
        without_has_none(w, name, n);
        assert(list_without(w, name, n + 1) == list_without(w, name, n));
    }
}

} // verus!
