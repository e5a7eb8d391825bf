//! Values that background queries bring: names of containers, images, pods and
//! namespaces, behind completions of shell lines.

use crate::idmap::IdMap;
use crate::settings;
use crate::text;
use vstd::prelude::*;

verus! {

/// What can be asked in the background.
#[derive(Debug, Clone, Copy, PartialEq, Eq, Structural)]
pub enum LiveKey {
    Namespaces,
    Pods,
    Containers,
    Images,
}

/// The name of a question.
pub open spec fn key_name(key: LiveKey) -> Seq<char> {
    match key {
        LiveKey::Namespaces => "k8s-ns"@,
        LiveKey::Pods => "k8s-pods"@,
        LiveKey::Containers => "docker-containers"@,
        LiveKey::Images => "docker-images"@,
    }
}

/// The program that answers a question.
pub open spec fn key_program(key: LiveKey) -> Seq<char> {
    match key {
        LiveKey::Namespaces => "kubectl"@,
        LiveKey::Pods => "kubectl"@,
        LiveKey::Containers => "docker"@,
        LiveKey::Images => "docker"@,
    }
}

/// The arguments that a question is asked with.
pub open spec fn key_args(key: LiveKey) -> Seq<Seq<char>> {
    match key {
        LiveKey::Namespaces => seq![
            "get"@,
            "namespaces"@,
            "-o=jsonpath={.items[*].metadata.name}"@,
        ],
        LiveKey::Pods => seq!["get"@, "pods"@, "-o=jsonpath={.items[*].metadata.name}"@],
        LiveKey::Containers => seq!["ps"@, "--format"@, "{{.Names}}"@],
        LiveKey::Images => seq!["images"@, "--format"@, "{{.Repository}}:{{.Tag}}"@],
    }
}

/// The question of a name.
pub open spec fn key_of(name: Seq<char>) -> Option<LiveKey> {
    if name == "k8s-ns"@ {
        Some(LiveKey::Namespaces)
    } else if name == "k8s-pods"@ {
        Some(LiveKey::Pods)
    } else if name == "docker-containers"@ {
        Some(LiveKey::Containers)
    } else if name == "docker-images"@ {
        Some(LiveKey::Images)
    } else {
        None
    }
}

impl LiveKey {
    /// The name of the question.
    pub fn name(self) -> (r: &'static str)
        ensures
            r@ == key_name(self),
    {
        match self {
            LiveKey::Namespaces => "k8s-ns",
            LiveKey::Pods => "k8s-pods",
            LiveKey::Containers => "docker-containers",
            LiveKey::Images => "docker-images",
        }
    }

    /// The program that answers the question.
    pub fn program(self) -> (r: &'static str)
        ensures
            r@ == key_program(self),
    {
        match self {
            LiveKey::Namespaces => "kubectl",
            LiveKey::Pods => "kubectl",
            LiveKey::Containers => "docker",
            LiveKey::Images => "docker",
        }
    }

    /// The arguments that the question is asked with.
    pub fn args(self) -> (r: Vec<String>)
        ensures
            text::texts(r@) == key_args(self),
    {
        let r = match self {
            LiveKey::Namespaces => settings::own_strs(
                &vec!["get", "namespaces", "-o=jsonpath={.items[*].metadata.name}"],
            ),
            LiveKey::Pods => settings::own_strs(
                &vec!["get", "pods", "-o=jsonpath={.items[*].metadata.name}"],
            ),
            LiveKey::Containers => settings::own_strs(&vec!["ps", "--format", "{{.Names}}"]),
            LiveKey::Images => settings::own_strs(
                &vec!["images", "--format", "{{.Repository}}:{{.Tag}}"],
            ),
        };
        assert(text::texts(r@) =~= key_args(self));
        r
    }

    /// The question of a name.
    pub fn named(name: &str) -> (r: Option<LiveKey>)
        ensures
            r == key_of(name@),
    {
        if text::same_text(name, "k8s-ns") {
            Some(LiveKey::Namespaces)
        } else if text::same_text(name, "k8s-pods") {
            Some(LiveKey::Pods)
        } else if text::same_text(name, "docker-containers") {
            Some(LiveKey::Containers)
        } else if text::same_text(name, "docker-images") {
            Some(LiveKey::Images)
        } else {
            None
        }
    }
}

/// The values that came in, when they came or failed to come, and the questions that are
/// under way. Times are in milliseconds.
pub struct Live {
    pub inflight: IdMap<bool>,
    pub at: IdMap<u64>,
    pub failed_at: IdMap<u64>,
    pub namespaces: Vec<String>,
    pub pods: Vec<String>,
    pub containers: Vec<String>,
    pub images: Vec<String>,
}

/// What the live values hold.
#[verifier::ext_equal]
pub struct LiveView {
    pub inflight: Map<Seq<char>, bool>,
    pub at: Map<Seq<char>, u64>,
    pub failed_at: Map<Seq<char>, u64>,
    pub namespaces: Seq<Seq<char>>,
    pub pods: Seq<Seq<char>>,
    pub containers: Seq<Seq<char>>,
    pub images: Seq<Seq<char>>,
}

impl View for Live {
    type V = LiveView;

    open spec fn view(&self) -> LiveView {
        LiveView {
            inflight: self.inflight@,
            at: self.at@,
            failed_at: self.failed_at@,
            namespaces: text::texts(self.namespaces@),
            pods: text::texts(self.pods@),
            containers: text::texts(self.containers@),
            images: text::texts(self.images@),
        }
    }
}

/// Nothing has come in.
pub open spec fn no_values() -> LiveView {
    LiveView {
        inflight: Map::empty(),
        at: Map::empty(),
        failed_at: Map::empty(),
        namespaces: Seq::empty(),
        pods: Seq::empty(),
        containers: Seq::empty(),
        images: Seq::empty(),
    }
}

/// Whether something happened less than `span` before `now`.
pub open spec fn lately(m: Map<Seq<char>, u64>, name: Seq<char>, span: u64, now: u64) -> bool {
    m.contains_key(name) && (now < m[name] || now - m[name] < span)
}

impl LiveView {
    /// Whether a question is to be asked for a command: it is about its program, not
    /// under way, not answered lately and not failed lately.
    pub open spec fn due(self, key: LiveKey, command: Seq<char>, ttl: u64, quiet: u64, now: u64) -> bool {
        &&& command == key_program(key)
        &&& !self.inflight.contains_key(key_name(key))
        &&& !lately(self.at, key_name(key), ttl, now)
        &&& !lately(self.failed_at, key_name(key), quiet, now)
    }

    /// A question under way, if it is to be asked.
    pub open spec fn kicked_one(
        self,
        key: LiveKey,
        command: Seq<char>,
        ttl: u64,
        quiet: u64,
        now: u64,
    ) -> LiveView {
        if self.due(key, command, ttl, quiet, now) {
            LiveView { inflight: self.inflight.insert(key_name(key), true), ..self }
        } else {
            self
        }
    }

    /// All questions under way that are to be asked for a command.
    pub open spec fn kicked(self, command: Seq<char>, ttl: u64, quiet: u64, now: u64) -> LiveView {
        self.kicked_one(LiveKey::Namespaces, command, ttl, quiet, now).kicked_one(
            LiveKey::Pods,
            command,
            ttl,
            quiet,
            now,
        ).kicked_one(LiveKey::Containers, command, ttl, quiet, now).kicked_one(
            LiveKey::Images,
            command,
            ttl,
            quiet,
            now,
        )
    }

    /// A question, if it is to be asked.
    pub open spec fn asked_one(
        self,
        key: LiveKey,
        command: Seq<char>,
        ttl: u64,
        quiet: u64,
        now: u64,
    ) -> Seq<LiveKey> {
        if self.due(key, command, ttl, quiet, now) {
            seq![key]
        } else {
            Seq::empty()
        }
    }

    /// The questions to ask for a command, in the order in which they are asked.
    pub open spec fn asked(self, command: Seq<char>, ttl: u64, quiet: u64, now: u64) -> Seq<LiveKey> {
        self.asked_one(LiveKey::Namespaces, command, ttl, quiet, now) + self.asked_one(
            LiveKey::Pods,
            command,
            ttl,
            quiet,
            now,
        ) + self.asked_one(LiveKey::Containers, command, ttl, quiet, now) + self.asked_one(
            LiveKey::Images,
            command,
            ttl,
            quiet,
            now,
        )
    }

    /// The values of a question replaced.
    pub open spec fn with_values(self, key: LiveKey, values: Seq<Seq<char>>) -> LiveView {
        match key {
            LiveKey::Namespaces => LiveView { namespaces: values, ..self },
            LiveKey::Pods => LiveView { pods: values, ..self },
            LiveKey::Containers => LiveView { containers: values, ..self },
            LiveKey::Images => LiveView { images: values, ..self },
        }
    }

    /// An answer that came in, or failed to.
    pub open spec fn answered(
        self,
        name: Seq<char>,
        values: Seq<Seq<char>>,
        ok: bool,
        now: u64,
    ) -> LiveView {
        let v = LiveView { inflight: self.inflight.remove(name), ..self };
        if !ok {
            LiveView { failed_at: v.failed_at.insert(name, now), ..v }
        } else {
            match key_of(name) {
                Some(key) => LiveView { at: v.at.insert(name, now), ..v.with_values(key, values) },
                None => v,
            }
        }
    }
}

fn was_lately(m: &IdMap<u64>, name: &str, span: u64, now: u64) -> (r: bool)
    ensures
        r == lately(m@, name@, span, now),
{
    match m.get(name) {
        Some(at) => now < *at || now - *at < span,
        None => false,
    }
}

impl Live {
    /// No question has two entries.
    pub open spec fn wf(self) -> bool {
        self.inflight.wf() && self.at.wf() && self.failed_at.wf()
    }

    /// Nothing has come in.
    pub fn new() -> (r: Live)
        ensures
            r.wf(),
            r@ == no_values(),
    {
        let r = Live {
            inflight: IdMap::new(),
            at: IdMap::new(),
            failed_at: IdMap::new(),
            namespaces: Vec::new(),
            pods: Vec::new(),
            containers: Vec::new(),
            images: Vec::new(),
        };
        assert(r@ =~= no_values());
        r
    }

    fn kick_one(
        &mut self,
        key: LiveKey,
        command: &str,
        ttl: u64,
        quiet: u64,
        now: u64,
        out: &mut Vec<LiveKey>,
    )
        requires
            old(self).wf(),
        ensures
            final(self).wf(),
            final(self)@ == old(self)@.kicked_one(key, command@, ttl, quiet, now),
            final(out)@ == old(out)@ + old(self)@.asked_one(key, command@, ttl, quiet, now),
    {
        let name = key.name();
        if text::same_text(command, key.program()) && self.inflight.get(name).is_none() && !was_lately(
            &self.at,
            name,
            ttl,
            now,
        ) && !was_lately(&self.failed_at, name, quiet, now) {
            self.inflight.insert(text::copy_text(name), true);
            out.push(key);
        }
        assert(out@ =~= old(out)@ + old(self)@.asked_one(key, command@, ttl, quiet, now));
    }

    /// The questions to ask for a command; they are under way from now on. An answer
    /// holds for `ttl` milliseconds, a failure for `quiet`.
    pub fn kick_live_refresh(&mut self, command: &str, ttl: u64, quiet: u64, now: u64) -> (r: Vec<
        LiveKey,
    >)
        requires
            old(self).wf(),
        ensures
            final(self).wf(),
            final(self)@ == old(self)@.kicked(command@, ttl, quiet, now),
            r@ == old(self)@.asked(command@, ttl, quiet, now),
    {
        proof {
            names_differ();
        }
        let ghost v0 = self@;
        let mut out: Vec<LiveKey> = Vec::new();
        assert(out@ =~= Seq::empty());
        self.kick_one(LiveKey::Namespaces, command, ttl, quiet, now, &mut out);
        assert(self@.due(LiveKey::Pods, command@, ttl, quiet, now) == v0.due(
            LiveKey::Pods,
            command@,
            ttl,
            quiet,
            now,
        ));
        self.kick_one(LiveKey::Pods, command, ttl, quiet, now, &mut out);
        assert(self@.due(LiveKey::Containers, command@, ttl, quiet, now) == v0.due(
            LiveKey::Containers,
            command@,
            ttl,
            quiet,
            now,
        ));
        self.kick_one(LiveKey::Containers, command, ttl, quiet, now, &mut out);
        assert(self@.due(LiveKey::Images, command@, ttl, quiet, now) == v0.due(
            LiveKey::Images,
            command@,
            ttl,
            quiet,
            now,
        ));
        self.kick_one(LiveKey::Images, command, ttl, quiet, now, &mut out);
        assert(out@ =~= v0.asked(command@, ttl, quiet, now));
        out
    }

    /// Takes an answer, or the news that there is none.
    pub fn take_answer(&mut self, name: String, values: Vec<String>, ok: bool, now: u64)
        requires
            old(self).wf(),
        ensures
            final(self).wf(),
            final(self)@ == old(self)@.answered(name@, text::texts(values@), ok, now),
    {
        self.inflight.remove(name.as_str());
        if !ok {
            self.failed_at.insert(name, now);
            return;
        }
        match LiveKey::named(name.as_str()) {
            None => {},
            Some(key) => {
                match key {
                    LiveKey::Namespaces => {
                        self.namespaces = values;
                    },
                    LiveKey::Pods => {
                        self.pods = values;
                    },
                    LiveKey::Containers => {
                        self.containers = values;
                    },
                    LiveKey::Images => {
                        self.images = values;
                    },
                }
                self.at.insert(name, now);
            },
        }
    }
}

proof fn names_differ()
    ensures
        forall|a: LiveKey, b: LiveKey| #[trigger] key_name(a) == #[trigger] key_name(b) ==> a == b,
        forall|a: LiveKey| key_of(#[trigger] key_name(a)) == Some(a),
{
    reveal_strlit("k8s-ns");
    reveal_strlit("k8s-pods");
    reveal_strlit("docker-containers");
    reveal_strlit("docker-images");
    assert("k8s-ns"@.len() == 6 && "k8s-pods"@.len() == 8 && "docker-containers"@.len() == 17
        && "docker-images"@.len() == 13);
}

// ---------------------------------------------------------------------------
// Laws
// ---------------------------------------------------------------------------

/// A question is asked once at a time: after it was asked it is not due again until its
/// answer, or the news that there is none, comes in.
pub proof fn one_flight_at_a_time(
    v: LiveView,
    key: LiveKey,
    command: Seq<char>,
    ttl: u64,
    quiet: u64,
    now: u64,
    later: u64,
)
    ensures
        !v.kicked(command, ttl, quiet, now).due(key, command, ttl, quiet, later) || !v.due(
            key,
            command,
            ttl,
            quiet,
            now,
        ),
{
    names_differ();
}

/// A failure is remembered and leaves the values as they were; an answer replaces the
/// values of its own question only.
pub proof fn failures_keep_values(v: LiveView, name: Seq<char>, values: Seq<Seq<char>>, now: u64)
    ensures
        ({
            let w = v.answered(name, values, false, now);
            &&& w.failed_at.contains_key(name)
            &&& !w.inflight.contains_key(name)
            &&& w.pods == v.pods && w.namespaces == v.namespaces && w.containers == v.containers
                && w.images == v.images
        }),
        v.answered("k8s-pods"@, values, true, now).pods == values,
        v.answered("k8s-pods"@, values, true, now).images == v.images,
{
    names_differ();
    assert(key_name(LiveKey::Pods) == "k8s-pods"@);
}

} // verus!
