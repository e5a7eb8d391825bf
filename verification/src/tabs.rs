//! Tabs: what each one holds while it is not shown, and the bar that lists them.

use crate::composer;
use crate::layout::LayoutNode;
use crate::layout;
use crate::paint::Rect;
use crate::scan;
use crate::text;
use vstd::prelude::*;

verus! {

/// A pane of a tab that is not shown: the session to load again, and its label.
#[derive(Debug, PartialEq, Eq)]
pub struct PaneStub {
    pub session: Option<String>,
    pub title: String,
}

/// What a stub holds.
#[verifier::ext_equal]
pub struct StubView {
    pub session: Option<Seq<char>>,
    pub title: Seq<char>,
}

impl View for PaneStub {
    type V = StubView;

    open spec fn view(&self) -> StubView {
        StubView { session: composer::opt_text(self.session), title: self.title@ }
    }
}

/// What the stubs of a list hold.
pub open spec fn stubs_view(list: Seq<PaneStub>) -> Seq<StubView> {
    list.map_values(|s: PaneStub| s@)
}

/// A tab: its panes, the one with the focus, and how they share the space. `session` and
/// `title` are what a tab of a single pane was once written as.
#[derive(Debug, PartialEq, Eq)]
pub struct Tab {
    pub panes: Vec<PaneStub>,
    pub focus: usize,
    pub layout: Option<LayoutNode>,
    /// Only the pane with the focus is shown.
    pub zoomed: bool,
    pub session: Option<String>,
    pub title: String,
}

/// What a tab holds.
#[verifier::ext_equal]
pub struct TabView {
    pub panes: Seq<StubView>,
    pub focus: int,
    pub layout: Option<LayoutNode>,
    pub zoomed: bool,
    pub session: Option<Seq<char>>,
    pub title: Seq<char>,
}

impl View for Tab {
    type V = TabView;

    open spec fn view(&self) -> TabView {
        TabView {
            panes: stubs_view(self.panes@),
            focus: self.focus as int,
            layout: self.layout,
            zoomed: self.zoomed,
            session: composer::opt_text(self.session),
            title: self.title@,
        }
    }
}

/// What the tabs of a list hold.
pub open spec fn tabs_view(list: Seq<Tab>) -> Seq<TabView> {
    list.map_values(|t: Tab| t@)
}

/// The label of a pane without one.
pub open spec fn numbered_label(index: int) -> Seq<char> {
    "session "@ + scan::decimal((index + 1) as nat)
}

/// A label, or the one that a pane without a label has.
pub open spec fn label_or(title: Seq<char>, index: int) -> Seq<char> {
    if title.len() == 0 {
        numbered_label(index)
    } else {
        title
    }
}

/// The arrangement kept where it fits the number of panes, and else the balanced one.
pub open spec fn repaired(layout: Option<LayoutNode>, count: int) -> Option<LayoutNode> {
    match layout {
        Some(l) => if l.valid(count) {
            layout
        } else if count > 0 {
            Some(layout::flat_node(0, count))
        } else {
            None
        },
        None => if count > 0 {
            Some(layout::flat_node(0, count))
        } else {
            None
        },
    }
}

/// A new tab with one pane.
pub open spec fn fresh_tab(title: Seq<char>) -> TabView {
    TabView {
        panes: seq![StubView { session: None, title }],
        focus: 0,
        layout: Some(LayoutNode::Pane(0)),
        zoomed: false,
        session: None,
        title: Seq::empty(),
    }
}

impl TabView {
    /// The panes of a tab, where it was written as one of a single pane too.
    pub open spec fn all_panes(self) -> Seq<StubView> {
        if self.panes.len() == 0 {
            seq![
                StubView {
                    session: self.session,
                    title: if self.title.len() == 0 {
                        "session"@
                    } else {
                        self.title
                    },
                },
            ]
        } else {
            self.panes
        }
    }

    /// The tab in the form that it is kept in.
    pub open spec fn normalized(self) -> TabView {
        let panes = self.all_panes();
        TabView {
            panes: Seq::new(
                panes.len(),
                |i: int| StubView { title: label_or(panes[i].title, i), ..panes[i] },
            ),
            focus: if self.focus >= panes.len() {
                0
            } else {
                self.focus
            },
            layout: repaired(self.layout, panes.len() as int),
            zoomed: self.zoomed && panes.len() > 1,
            session: None,
            title: Seq::empty(),
        }
    }

    /// A tab in the form that it is kept in: labelled panes, one of which has the focus,
    /// and an arrangement that fits them.
    pub open spec fn normal(self) -> bool {
        &&& self.panes.len() > 0
        &&& 0 <= self.focus < self.panes.len()
        &&& forall|i: int| 0 <= i < self.panes.len() ==> (#[trigger] self.panes[i]).title.len() > 0
        &&& self.layout matches Some(l) && l.valid(self.panes.len() as int)
        &&& self.zoomed ==> self.panes.len() > 1
        &&& self.session is None
        &&& self.title.len() == 0
    }

    /// The label of a pane: the name of its session while it is shown, or else its own.
    pub open spec fn label_of(self, index: int, live: Option<Seq<char>>) -> Seq<char> {
        match live {
            Some(name) => name,
            None => if index < self.panes.len() {
                self.panes[index].title
            } else {
                numbered_label(index)
            },
        }
    }

    /// The tab with an arrangement that fits the number of panes.
    pub open spec fn laid_out(self, count: int) -> TabView {
        TabView {
            layout: repaired(self.layout, count),
            zoomed: self.zoomed && count > 1,
            ..self
        }
    }
}

fn label_number(index: usize) -> (r: String)
    requires
        index < usize::MAX,
    ensures
        r@ == numbered_label(index as int),
{
    let n = scan::decimal_text((index + 1) as u64);
    text::cat2("session ", n.as_str())
}

/// A label, or the one that a pane without a label has.
pub fn title_or(title: &str, index: usize) -> (r: String)
    requires
        index < usize::MAX,
    ensures
        r@ == label_or(title@, index as int),
{
    if title.is_empty() {
        label_number(index)
    } else {
        text::copy_text(title)
    }
}

fn repair(layout: Option<LayoutNode>, count: usize) -> (r: Option<LayoutNode>)
    ensures
        r == repaired(layout, count as int),
{
    match layout {
        Some(l) => {
            if l.valid_for(count) {
                Some(l)
            } else {
                LayoutNode::flat(count)
            }
        },
        None => LayoutNode::flat(count),
    }
}

impl PaneStub {
    /// A copy.
    pub fn copy(&self) -> (r: PaneStub)
        ensures
            r@ == self@,
    {
        PaneStub { session: composer::copy_opt(&self.session), title: text::copy_text(self.title.as_str()) }
    }
}

impl Tab {
    /// A new tab with one pane.
    pub fn new(title: &str) -> (r: Tab)
        ensures
            r@ == fresh_tab(title@),
    {
        let mut panes: Vec<PaneStub> = Vec::new();
        panes.push(PaneStub { session: None, title: text::copy_text(title) });
        let r = Tab {
            panes,
            focus: 0,
            layout: Some(LayoutNode::Pane(0)),
            zoomed: false,
            session: None,
            title: String::new(),
        };
        assert(r@.panes =~= fresh_tab(title@).panes);
        assert(r@.title =~= Seq::<char>::empty());
        r
    }

    /// Puts a tab into the form that it is kept in.
    pub fn normalize(self) -> (r: Tab)
        ensures
            r@ == self@.normalized(),
            r@.normal(),
    {
        let ghost v = self@;
        let mut panes = self.panes;
        assert(stubs_view(panes@).len() == panes@.len());
        if panes.len() == 0 {
            let title = if self.title.as_str().is_empty() {
                text::copy_text("session")
            } else {
                self.title
            };
            panes.push(PaneStub { session: self.session, title });
        }
        assert(stubs_view(panes@) =~= v.all_panes());
        let ghost all = v.all_panes();
        let mut kept: Vec<PaneStub> = Vec::new();
        for i in 0..panes.len()
            invariant
                stubs_view(panes@) == all,
                kept@.len() == i,
                forall|j: int|
                    0 <= j < i ==> (#[trigger] kept@[j])@ == (StubView {
                        title: label_or(all[j].title, j),
                        ..all[j]
                    }),
        {
            assert(i < panes.len());
            assert(all[i as int] == panes@[i as int]@);
            let title = title_or(panes[i].title.as_str(), i);
            kept.push(PaneStub { session: composer::copy_opt(&panes[i].session), title });
        }
        let count: usize = kept.len();
        let r = Tab {
            panes: kept,
            focus: if self.focus >= count {
                0
            } else {
                self.focus
            },
            layout: repair(self.layout, count),
            zoomed: self.zoomed && count > 1,
            session: None,
            title: String::new(),
        };
        assert(r@ =~= v.normalized());
        proof {
            normalizing_repairs(v);
        }
        r
    }

    /// The label of a pane.
    pub fn label(&self, index: usize, live: Option<String>) -> (r: String)
        requires
            index < usize::MAX,
        ensures
            r@ == self@.label_of(index as int, composer::opt_text(live)),
    {
        assert(stubs_view(self.panes@).len() == self.panes@.len());
        match live {
            Some(name) => name,
            None => {
                if index < self.panes.len() {
                    assert(stubs_view(self.panes@)[index as int] == self.panes@[index as int]@);
                    text::copy_text(self.panes[index].title.as_str())
                } else {
                    label_number(index)
                }
            },
        }
    }

    fn lay_out(&mut self, count: usize)
        ensures
            final(self)@ == old(self)@.laid_out(count as int),
    {
        let layout = self.layout.take();
        self.layout = repair(layout, count);
        if count <= 1 {
            self.zoomed = false;
        }
    }
}

/// However a tab was written, it is brought into the form that it is kept in: nothing but
/// the form changes, and bringing it there again changes nothing more.
pub proof fn normalizing_repairs(v: TabView)
    requires
        v.panes.len() <= usize::MAX,
        v.focus >= 0,
    ensures
        v.normalized().normal(),
        v.normalized().normalized() == v.normalized(),
        v.normalized().panes.len() == v.all_panes().len(),
        forall|i: int|
            0 <= i < v.all_panes().len() ==> (#[trigger] v.normalized().panes[i]).session
                == v.all_panes()[i].session,
        v.normal() ==> v.normalized() == v,
{
    let n = v.normalized();
    let count = v.all_panes().len() as int;
    reveal_strlit("session ");
    reveal_strlit("session");
    assert forall|i: int| 0 <= i < n.panes.len() implies (#[trigger] n.panes[i]).title.len() > 0 by {
        assert(numbered_label(i).len() >= 8);
    }
    if !(v.layout matches Some(l) && l.valid(count)) {
        layout::flat_is_valid(count);
    }
    assert(n.normalized().panes =~= n.panes);
    if v.normal() {
        assert(n.panes =~= v.panes);
        assert(v.title =~= Seq::<char>::empty());
    }
}

// ---------------------------------------------------------------------------
// The bar
// ---------------------------------------------------------------------------

/// The tabs, the one that is shown, and where their bar was drawn.
#[derive(Debug, PartialEq, Eq)]
pub struct TabBar {
    pub tabs: Vec<Tab>,
    pub active_tab: usize,
    pub rect: Rect,
}

/// What the bar holds.
#[verifier::ext_equal]
pub struct BarView {
    pub tabs: Seq<TabView>,
    pub active: int,
    pub rect: Rect,
}

/// A bar with one fresh tab that was not drawn yet.
pub open spec fn fresh_bar() -> BarView {
    BarView {
        tabs: seq![fresh_tab("session"@)],
        active: 0,
        rect: Rect { x: 0, y: 0, width: 0, height: 0 },
    }
}

impl View for TabBar {
    type V = BarView;

    open spec fn view(&self) -> BarView {
        BarView { tabs: tabs_view(self.tabs@), active: self.active_tab as int, rect: self.rect }
    }
}

/// A label cut to a number of characters, with a mark where something is missing.
pub open spec fn compacted(label: Seq<char>, max: int) -> Seq<char> {
    if label.len() <= max {
        label
    } else {
        label.take(
            if max >= 2 {
                max - 1
            } else {
                1
            },
        ).push('…')
    }
}

/// A label cut to a number of characters.
pub fn compact_tab_label(label: &str, max_chars: usize) -> (r: String)
    ensures
        r@ == compacted(label@, max_chars as int),
{
    let c = text::to_chars(label);
    if c.len() <= max_chars {
        return text::copy_text(label);
    }
    let keep: usize = if max_chars >= 2 {
        max_chars - 1
    } else {
        1
    };
    let head = text::slice_text(&c, 0, keep);
    proof {
        reveal_strlit("…");
    }
    let r = text::cat2(head.as_str(), "…");
    assert(r@ =~= compacted(label@, max_chars as int));
    r
}

/// Where a chip of the bar was drawn.
#[derive(Debug, Clone, Copy, PartialEq, Eq, Structural)]
pub struct Region {
    pub index: usize,
    pub start: u32,
    pub end: u32,
}

impl BarView {
    /// There is a tab that is shown.
    pub open spec fn valid(self) -> bool {
        0 <= self.active < self.tabs.len()
    }

    /// The tab that is shown.
    pub open spec fn shown(self) -> TabView {
        self.tabs[self.active]
    }

    /// The tab that is shown replaced.
    pub open spec fn with_shown(self, t: TabView) -> BarView {
        BarView { tabs: self.tabs.update(self.active, t), ..self }
    }

    /// The shown tab with an arrangement that fits its panes.
    pub open spec fn laid_out(self, count: int) -> BarView {
        self.with_shown(self.shown().laid_out(count))
    }

    /// The shown tab with only one pane in view, or with all of them again.
    pub open spec fn zoom_flipped(self, count: int) -> BarView {
        let b = self.laid_out(count);
        b.with_shown(TabView { zoomed: !b.shown().zoomed, ..b.shown() })
    }

    /// The shown tab with what its panes are to be loaded from.
    pub open spec fn stashed(self, stubs: Seq<StubView>, focus: int) -> BarView {
        let b = self.laid_out(stubs.len() as int);
        b.with_shown(TabView { panes: stubs, focus, ..b.shown() })
    }

    /// A new tab at the end, which is shown.
    pub open spec fn opened(self) -> BarView {
        BarView {
            tabs: self.tabs.push(fresh_tab("session"@)),
            active: self.tabs.len() as int,
            ..self
        }
    }

    /// The shown tab moved by one place, where there is one.
    pub open spec fn shifted(self, forward: bool) -> Option<BarView> {
        let to = if forward {
            self.active + 1
        } else {
            self.active - 1
        };
        if 0 <= to < self.tabs.len() {
            Some(
                BarView {
                    tabs: self.tabs.update(self.active, self.tabs[to]).update(
                        to,
                        self.tabs[self.active],
                    ),
                    active: to,
                    ..self
                },
            )
        } else {
            None
        }
    }

    /// The tab before or after the shown one, round the ends.
    pub open spec fn neighbour(self, forward: bool) -> int {
        if forward {
            if self.active + 1 == self.tabs.len() {
                0
            } else {
                self.active + 1
            }
        } else if self.active == 0 {
            self.tabs.len() - 1
        } else {
            self.active - 1
        }
    }

    /// A tab taken out; where it was the shown one, its neighbour is shown.
    pub open spec fn closed(self, index: int) -> BarView {
        let left = self.tabs.len() - 1;
        BarView {
            tabs: self.tabs.remove(index),
            active: if index < self.active || self.active >= left {
                self.active - 1
            } else {
                self.active
            },
            ..self
        }
    }

    /// The label on a chip.
    pub open spec fn chip_label(self, index: int, sessions: Seq<Seq<char>>) -> Seq<char> {
        let tab = self.tabs[index];
        if index == self.active {
            if sessions.len() == 0 {
                tab.title
            } else if sessions.len() == 1 {
                sessions[0]
            } else {
                sessions[0] + " · "@ + scan::decimal(sessions.len()) + " panes"@
            }
        } else if tab.panes.len() > 1 {
            tab.label_of(0, None) + " · "@ + scan::decimal(tab.panes.len()) + " panes"@
        } else {
            tab.label_of(0, None)
        }
    }

    /// The text on a chip.
    pub open spec fn chip(self, index: int, sessions: Seq<Seq<char>>) -> Seq<char> {
        " "@ + scan::decimal((index + 1) as nat) + " "@ + compacted(self.chip_label(index, sessions), 28)
            + (if index == self.active {
            " × "@
        } else {
            " "@
        })
    }

    /// The first column behind the bar.
    pub open spec fn limit(self) -> int {
        self.rect.x + self.rect.width
    }

    /// Where the chips from `i` on are drawn, from a column on.
    pub open spec fn regions_from(self, sessions: Seq<Seq<char>>, i: int, from: int) -> Seq<Region>
        decreases self.tabs.len() - i,
    {
        if i < 0 || i >= self.tabs.len() || from >= self.limit() {
            Seq::empty()
        } else {
            let end = from + self.chip(i, sessions).len();
            seq![
                Region {
                    index: i as usize,
                    start: from as u32,
                    end: (if end <= self.limit() {
                        end
                    } else {
                        self.limit()
                    }) as u32,
                },
            ] + self.regions_from(sessions, i + 1, end + 1)
        }
    }

    /// Where the chips are drawn: behind the name of the program.
    pub open spec fn regions(self, sessions: Seq<Seq<char>>) -> Seq<Region> {
        self.regions_from(sessions, 0, self.rect.x + 6)
    }

    /// Whether a cell belongs to the bar's line.
    pub open spec fn on_bar(self, column: int, row: int) -> bool {
        self.rect.width > 0 && row == self.rect.y && self.rect.x <= column < self.limit()
    }

    /// Whether a cell is the mark that opens a new tab.
    pub open spec fn plus_at(self, sessions: Seq<Seq<char>>, column: int, row: int) -> bool {
        let list = self.regions(sessions);
        let from = if list.len() > 0 {
            list.last().end + 1
        } else {
            self.rect.x + 6
        };
        self.on_bar(column, row) && from <= column < from + 2
    }

    /// Whether a cell is the mark that closes the shown tab.
    pub open spec fn cross_at(self, sessions: Seq<Seq<char>>, column: int, row: int) -> bool {
        let list = self.regions(sessions);
        self.rect.width > 0 && row == self.rect.y && self.active < list.len() && column + 2
            == list[self.active].end
    }

    /// The chip that a cell belongs to.
    pub open spec fn chip_at(self, sessions: Seq<Seq<char>>, column: int, row: int) -> Option<int> {
        if self.on_bar(column, row) {
            region_at(self.regions(sessions), column, 0)
        } else {
            None
        }
    }
}

/// The first region, from `i` on, that holds a column.
pub open spec fn region_at(list: Seq<Region>, column: int, i: int) -> Option<int>
    decreases list.len() - i,
{
    if i < 0 || i >= list.len() {
        None
    } else if list[i].start <= column < list[i].end {
        Some(list[i].index as int)
    } else {
        region_at(list, column, i + 1)
    }
}

proof fn regions_in_order(b: BarView, sessions: Seq<Seq<char>>, i: int, from: int)
    requires
        b.valid(),
        b.tabs.len() <= usize::MAX,
        0 <= i <= b.tabs.len(),
        0 <= from,
    ensures
        b.regions_from(sessions, i, from).len() <= b.tabs.len() - i,
        forall|k: int|
            0 <= k < b.regions_from(sessions, i, from).len() ==> {
                let r = #[trigger] b.regions_from(sessions, i, from)[k];
                r.index == i + k && from <= r.start && r.start <= r.end <= b.limit()
            },
        forall|j: int, k: int|
            0 <= j < k < b.regions_from(sessions, i, from).len() ==> (
            #[trigger] b.regions_from(sessions, i, from)[j]).end < (
            #[trigger] b.regions_from(sessions, i, from)[k]).start,
    decreases b.tabs.len() - i,
{
    if i < b.tabs.len() && from < b.limit() {
        let end = from + b.chip(i, sessions).len();
        regions_in_order(b, sessions, i + 1, end + 1);
        let rest = b.regions_from(sessions, i + 1, end + 1);
        let all = b.regions_from(sessions, i, from);
        assert(all[0].end <= end);
        assert forall|k: int| 0 <= k < all.len() implies {
            let r = #[trigger] all[k];
            r.index == i + k && from <= r.start && r.start <= r.end <= b.limit()
        } by {
            if k > 0 {
                assert(all[k] == rest[k - 1]);
            }
        }
        assert forall|j: int, k: int| 0 <= j < k < all.len() implies (#[trigger] all[j]).end < (
        #[trigger] all[k]).start by {
            assert(all[k] == rest[k - 1]);
            if j > 0 {
                assert(all[j] == rest[j - 1]);
            }
        }
    }
}

/// The chips of the bar lie side by side, in the order of the tabs, and within the bar: no
/// cell belongs to two of them.
pub proof fn chips_are_disjoint(b: BarView, sessions: Seq<Seq<char>>)
    requires
        b.valid(),
        b.tabs.len() <= usize::MAX,
    ensures
        b.regions(sessions).len() <= b.tabs.len(),
        forall|k: int|
            0 <= k < b.regions(sessions).len() ==> (#[trigger] b.regions(sessions)[k]).index == k
                && b.regions(sessions)[k].end <= b.limit(),
        forall|j: int, k: int|
            0 <= j < k < b.regions(sessions).len() ==> (#[trigger] b.regions(sessions)[j]).end < (
            #[trigger] b.regions(sessions)[k]).start,
{
    regions_in_order(b, sessions, 0, b.rect.x + 6);
}

/// Taking a tab out keeps one that is shown, and keeps showing the same tab where another
/// one was taken out.
pub proof fn closing_keeps_the_shown(b: BarView, index: int)
    requires
        b.valid(),
        b.tabs.len() > 1,
        0 <= index < b.tabs.len(),
    ensures
        b.closed(index).valid(),
        b.closed(index).tabs.len() == b.tabs.len() - 1,
        index != b.active ==> b.closed(index).shown() == b.shown(),
{
}

/// Moving a tab and moving it back leaves the tabs as they were.
pub proof fn moving_back_undoes(b: BarView, forward: bool)
    requires
        b.valid(),
        b.shifted(forward) is Some,
    ensures
        b.shifted(forward)->0.valid(),
        b.shifted(forward)->0.shown() == b.shown(),
        b.shifted(forward)->0.shifted(!forward) == Some(b),
{
    let c = b.shifted(forward)->0;
    assert(c.shifted(!forward) is Some);
    assert(c.shifted(!forward)->0.tabs =~= b.tabs);
}

/// Going to the next tab and back again shows the same tab.
pub proof fn neighbours_go_round(b: BarView, forward: bool)
    requires
        b.valid(),
    ensures
        0 <= b.neighbour(forward) < b.tabs.len(),
        (BarView { active: b.neighbour(forward), ..b }).neighbour(!forward) == b.active,
{
}

/// What a pane is made from.
#[derive(Debug, PartialEq, Eq)]
pub enum StubNeed {
    /// Nothing.
    Fresh,
    /// The state that the program was started with.
    Carried,
    /// The session of this name.
    Session(String),
}

/// What a pane is made from, as text.
#[verifier::ext_equal]
pub enum StubNeedView {
    Fresh,
    Carried,
    Session(Seq<char>),
}

impl View for StubNeed {
    type V = StubNeedView;

    open spec fn view(&self) -> StubNeedView {
        match *self {
            StubNeed::Fresh => StubNeedView::Fresh,
            StubNeed::Carried => StubNeedView::Carried,
            StubNeed::Session(name) => StubNeedView::Session(name@),
        }
    }
}

/// What the panes of a list are made from.
pub open spec fn needs_view(list: Seq<StubNeed>) -> Seq<StubNeedView> {
    list.map_values(|n: StubNeed| n@)
}

/// Each of the first `n` stubs names a session.
pub open spec fn no_fresh(stubs: Seq<StubView>, n: int) -> bool {
    forall|j: int| 0 <= j < n ==> (#[trigger] stubs[j]).session is Some
}

/// What stubs are made from: the sessions that they name, and for the first one that names
/// none the state that the program was started with.
pub open spec fn stub_needs(stubs: Seq<StubView>, carried: bool) -> Seq<StubNeedView> {
    Seq::new(
        stubs.len(),
        |i: int|
            match stubs[i].session {
                Some(name) => StubNeedView::Session(name),
                None => if carried && no_fresh(stubs, i) {
                    StubNeedView::Carried
                } else {
                    StubNeedView::Fresh
                },
            },
    )
}

impl BarView {
    /// The tabs that were kept taken over, in the form that they are kept in.
    pub open spec fn restored(self, kept: Seq<TabView>, active: int) -> BarView {
        if kept.len() == 0 {
            self
        } else {
            BarView {
                tabs: kept.map_values(|t: TabView| t.normalized()),
                active: if active < kept.len() {
                    active
                } else {
                    kept.len() - 1
                },
                ..self
            }
        }
    }
}

/// Tabs that are kept and taken over again are the same tabs, with the same one shown.
pub proof fn kept_tabs_come_back(v: BarView, other: BarView)
    requires
        v.valid(),
        forall|i: int| 0 <= i < v.tabs.len() ==> (#[trigger] v.tabs[i]).normal(),
        forall|i: int| 0 <= i < v.tabs.len() ==> (#[trigger] v.tabs[i]).panes.len() <= usize::MAX,
    ensures
        other.restored(v.tabs, v.active).tabs == v.tabs,
        other.restored(v.tabs, v.active).active == v.active,
{
    assert forall|i: int| 0 <= i < v.tabs.len() implies (#[trigger] v.tabs[i]).normalized()
        == v.tabs[i] by {
        normalizing_repairs(v.tabs[i]);
    }
    assert(other.restored(v.tabs, v.active).tabs =~= v.tabs);
}

impl TabBar {
    /// There is a tab that is shown.
    pub open spec fn wf(self) -> bool {
        self@.valid()
    }

    /// Takes over the tabs that were kept, and which one was shown. Says whether there were
    /// any.
    pub fn restore(&mut self, kept: Vec<Tab>, active: usize) -> (r: bool)
        requires
            old(self).wf(),
        ensures
            final(self).wf(),
            r == (kept@.len() > 0),
            final(self)@ == old(self)@.restored(tabs_view(kept@), active as int),
    {
        if kept.len() == 0 {
            return false;
        }
        let count: usize = kept.len();
        let ghost all = kept@;
        let mut rest = kept;
        let mut tabs: Vec<Tab> = Vec::new();
        assert(all.skip(0) =~= all);
        for i in 0..count
            invariant
                all.len() == count,
                rest@ == all.skip(i as int),
                tabs@.len() == i,
                forall|j: int|
                    0 <= j < i ==> (#[trigger] tabs@[j])@ == all[j]@.normalized()
                        && tabs@[j]@.normal(),
        {
            assert(rest@[0] == all[i as int]);
            let tab = rest.remove(0);
            assert(rest@ =~= all.skip(i + 1));
            tabs.push(tab.normalize());
        }
        self.tabs = tabs;
        self.active_tab = if active < count {
            active
        } else {
            count - 1
        };
        assert(self@ =~= old(self)@.restored(tabs_view(all), active as int));
        true
    }

    /// What each pane of the shown tab is made from.
    pub fn needs(&self, carried: bool) -> (r: Vec<StubNeed>)
        requires
            self.wf(),
        ensures
            needs_view(r@) == stub_needs(self@.shown().panes, carried),
    {
        let at: usize = self.active_tab;
        let ghost stubs = self@.shown().panes;
        assert(self@.shown() == self.tabs@[at as int]@);
        let mut left = carried;
        let mut r: Vec<StubNeed> = Vec::new();
        let count: usize = self.tabs[at].panes.len();
        for i in 0..count
            invariant
                at < self.tabs@.len(),
                count == self.tabs@[at as int].panes@.len(),
                stubs == stubs_view(self.tabs@[at as int].panes@),
                left == (carried && no_fresh(stubs, i as int)),
                r@.len() == i,
                forall|j: int| 0 <= j < i ==> (#[trigger] r@[j])@ == stub_needs(stubs, carried)[j],
        {
            assert(stubs[i as int] == self.tabs@[at as int].panes@[i as int]@);
            match &self.tabs[at].panes[i].session {
                Some(name) => r.push(StubNeed::Session(text::copy_text(name.as_str()))),
                None => {
                    if left {
                        r.push(StubNeed::Carried);
                        left = false;
                    } else {
                        r.push(StubNeed::Fresh);
                    }
                },
            }
        }
        assert(needs_view(r@) =~= stub_needs(stubs, carried));
        r
    }

    /// A bar with one tab.
    pub fn new() -> (r: TabBar)
        ensures
            r.wf(),
            r@ == fresh_bar(),
    {
        let mut tabs: Vec<Tab> = Vec::new();
        tabs.push(Tab::new("session"));
        let r = TabBar { tabs, active_tab: 0, rect: Rect::none() };
        assert(r@.tabs =~= seq![fresh_tab("session"@)]);
        r
    }

    /// Gives the shown tab an arrangement that fits its panes.
    pub fn ensure_active_layout(&mut self, count: usize)
        requires
            old(self).wf(),
        ensures
            final(self).wf(),
            final(self)@ == old(self)@.laid_out(count as int),
    {
        let ghost before = self@;
        let i: usize = self.active_tab;
        self.tabs[i].lay_out(count);
        assert(self@.tabs =~= before.laid_out(count as int).tabs);
    }

    /// Whether only the pane with the focus is shown.
    pub fn pane_zoomed(&self) -> (r: bool)
        requires
            self.wf(),
        ensures
            r == self@.shown().zoomed,
    {
        self.tabs[self.active_tab].zoomed
    }

    /// Shows only one pane, or all of them again. Says which.
    pub fn flip_zoom(&mut self, count: usize) -> (r: bool)
        requires
            old(self).wf(),
        ensures
            final(self).wf(),
            final(self)@ == old(self)@.zoom_flipped(count as int),
            r == final(self)@.shown().zoomed,
    {
        self.ensure_active_layout(count);
        let ghost before = self@;
        let i: usize = self.active_tab;
        let zoomed = !self.tabs[i].zoomed;
        self.tabs[i].zoomed = zoomed;
        assert(self@.tabs =~= before.with_shown(TabView { zoomed, ..before.shown() }).tabs);
        zoomed
    }

    /// Keeps what the panes of the shown tab are to be loaded from.
    pub fn stash(&mut self, stubs: Vec<PaneStub>, focus: usize)
        requires
            old(self).wf(),
        ensures
            final(self).wf(),
            final(self)@ == old(self)@.stashed(stubs_view(stubs@), focus as int),
    {
        assert(stubs_view(stubs@).len() == stubs@.len());
        self.ensure_active_layout(stubs.len());
        let ghost before = self@;
        let ghost list = stubs_view(stubs@);
        let i: usize = self.active_tab;
        self.tabs[i].panes = stubs;
        self.tabs[i].focus = focus;
        assert(self@.tabs =~= before.with_shown(
            TabView { panes: list, focus: focus as int, ..before.shown() },
        ).tabs);
    }

    /// Adds a tab at the end and shows it.
    pub fn open(&mut self)
        requires
            old(self).wf(),
        ensures
            final(self).wf(),
            final(self)@ == old(self)@.opened(),
    {
        let ghost before = self@;
        assert(before.tabs.len() == self.tabs@.len());
        self.active_tab = self.tabs.len();
        self.tabs.push(Tab::new("session"));
        assert(self@.tabs =~= before.opened().tabs);
    }

    /// Moves the shown tab by one place. Says whether it could.
    pub fn tab_move(&mut self, forward: bool) -> (r: bool)
        requires
            old(self).wf(),
        ensures
            final(self).wf(),
            match old(self)@.shifted(forward) {
                Some(b) => r && final(self)@ == b,
                None => !r && *final(self) == *old(self),
            },
    {
        let ghost before = self@;
        assert(before.tabs.len() == self.tabs@.len());
        let i: usize = self.active_tab;
        if forward {
            if i >= self.tabs.len() - 1 {
                return false;
            }
            let here = self.tabs.remove(i);
            self.tabs.insert(i + 1, here);
            self.active_tab = i + 1;
            assert(self@.tabs =~= before.shifted(true)->0.tabs);
        } else {
            if i == 0 {
                return false;
            }
            let here = self.tabs.remove(i);
            self.tabs.insert(i - 1, here);
            self.active_tab = i - 1;
            assert(self@.tabs =~= before.shifted(false)->0.tabs);
        }
        true
    }

    /// The tab before or after the shown one.
    pub fn tab_next(&self, forward: bool) -> (r: usize)
        requires
            self.wf(),
        ensures
            r == self@.neighbour(forward),
            r < self.tabs@.len(),
    {
        let count: usize = self.tabs.len();
        assert(self@.tabs.len() == count);
        if forward {
            if self.active_tab == count - 1 {
                0
            } else {
                self.active_tab + 1
            }
        } else if self.active_tab == 0 {
            count - 1
        } else {
            self.active_tab - 1
        }
    }

    /// Takes a tab out.
    pub fn close(&mut self, index: usize)
        requires
            old(self).wf(),
            old(self).tabs@.len() > 1,
            index < old(self).tabs@.len(),
        ensures
            final(self).wf(),
            final(self)@ == old(self)@.closed(index as int),
    {
        let ghost before = self@;
        self.tabs.remove(index);
        assert(self@.tabs =~= before.tabs.remove(index as int));
        if index < self.active_tab || self.active_tab >= self.tabs.len() {
            self.active_tab = self.active_tab - 1;
        }
    }

    fn with_count(label: String, count: usize) -> (r: String)
        ensures
            r@ == label@ + " · "@ + scan::decimal(count as nat) + " panes"@,
    {
        let n = scan::decimal_text(count as u64);
        text::cat4(label.as_str(), " · ", n.as_str(), " panes")
    }

    /// The text on a chip.
    pub fn tab_chip_text(&self, index: usize, sessions: &Vec<String>) -> (r: String)
        requires
            self.wf(),
            index < self.tabs@.len(),
        ensures
            r@ == self@.chip(index as int, text::texts(sessions@)),
    {
        let tab = &self.tabs[index];
        assert(self@.tabs[index as int] == tab@);
        assert(index < self.tabs.len());
        assert(text::texts(sessions@).len() == sessions@.len());
        assert(stubs_view(tab.panes@).len() == tab.panes@.len());
        let active = index == self.active_tab;
        let label = if active {
            if sessions.len() == 0 {
                text::copy_text(tab.title.as_str())
            } else {
                assert(text::texts(sessions@)[0] == sessions@[0]@);
                let first = text::copy_text(sessions[0].as_str());
                if sessions.len() == 1 {
                    first
                } else {
                    TabBar::with_count(first, sessions.len())
                }
            }
        } else {
            let first = tab.label(0, None);
            if tab.panes.len() > 1 {
                TabBar::with_count(first, tab.panes.len())
            } else {
                first
            }
        };
        let label = compact_tab_label(label.as_str(), 28);
        let n = scan::decimal_text((index + 1) as u64);
        text::cat5(
            " ",
            n.as_str(),
            " ",
            label.as_str(),
            if active {
                " × "
            } else {
                " "
            },
        )
    }

    /// Where the chips are drawn.
    pub fn tab_regions(&self, sessions: &Vec<String>) -> (r: Vec<Region>)
        requires
            self.wf(),
        ensures
            r@ == self@.regions(text::texts(sessions@)),
    {
        let ghost names = text::texts(sessions@);
        let limit: u128 = self.rect.x as u128 + self.rect.width as u128;
        let mut offset: u128 = self.rect.x as u128 + 6;
        let mut list: Vec<Region> = Vec::new();
        let mut i: usize = 0;
        assert(self@.tabs.len() == self.tabs@.len());
        while i < self.tabs.len() && offset < limit
            invariant
                self.wf(),
                i <= self.tabs@.len(),
                names == text::texts(sessions@),
                limit == self@.limit(),
                offset <= limit + u64::MAX + 1,
                self@.tabs.len() == self.tabs@.len(),
                list@ + self@.regions_from(names, i as int, offset as int) == self@.regions(names),
            decreases self.tabs@.len() - i,
        {
            let text = self.tab_chip_text(i, sessions);
            let c = text::to_chars(text.as_str());
            let end: u128 = offset + c.len() as u128;
            let region = Region {
                index: i,
                start: offset as u32,
                end: if end <= limit {
                    end as u32
                } else {
                    limit as u32
                },
            };
            proof {
                let rest = self@.regions_from(names, i + 1, end + 1);
                assert(list@ + (seq![region] + rest) =~= list@.push(region) + rest);
            }
            list.push(region);
            offset = end + 1;
            i = i + 1;
        }
        assert(list@ + Seq::<Region>::empty() =~= list@);
        list
    }

    fn on_bar(&self, column: u16, row: u16) -> (r: bool)
        ensures
            r == self@.on_bar(column as int, row as int),
    {
        self.rect.width > 0 && row == self.rect.y && column >= self.rect.x && (column as u32)
            < self.rect.x as u32 + self.rect.width as u32
    }

    /// Whether a click hits the mark that opens a new tab.
    pub fn tab_plus_hit(&self, sessions: &Vec<String>, column: u16, row: u16) -> (r: bool)
        requires
            self.wf(),
        ensures
            r == self@.plus_at(text::texts(sessions@), column as int, row as int),
    {
        if !self.on_bar(column, row) {
            return false;
        }
        let list = self.tab_regions(sessions);
        let from: u64 = if list.len() > 0 {
            list[list.len() - 1].end as u64 + 1
        } else {
            self.rect.x as u64 + 6
        };
        from <= column as u64 && (column as u64) < from + 2
    }

    /// The shown tab, where a click hits the mark that closes it.
    pub fn tab_close_hit(&self, sessions: &Vec<String>, column: u16, row: u16) -> (r: Option<usize>)
        requires
            self.wf(),
        ensures
            r == if self@.cross_at(text::texts(sessions@), column as int, row as int) {
                Some(self.active_tab)
            } else {
                None
            },
    {
        if self.rect.width == 0 || row != self.rect.y {
            return None;
        }
        let list = self.tab_regions(sessions);
        if self.active_tab < list.len() && column as u32 + 2 == list[self.active_tab].end {
            Some(self.active_tab)
        } else {
            None
        }
    }

    /// The tab whose chip a click hits.
    pub fn tab_hit(&self, sessions: &Vec<String>, column: u16, row: u16) -> (r: Option<usize>)
        requires
            self.wf(),
        ensures
            match r {
                Some(i) => self@.chip_at(text::texts(sessions@), column as int, row as int) == Some(
                    i as int,
                ) && i < self.tabs@.len(),
                None => self@.chip_at(text::texts(sessions@), column as int, row as int) is None,
            },
    {
        if !self.on_bar(column, row) {
            return None;
        }
        let list = self.tab_regions(sessions);
        assert(self@.tabs.len() == self.tabs.len());
        proof {
            chips_are_disjoint(self@, text::texts(sessions@));
        }
        for i in 0..list.len()
            invariant
                region_at(list@, column as int, 0) == region_at(list@, column as int, i as int),
                list@.len() <= self.tabs@.len(),
                forall|k: int| 0 <= k < list@.len() ==> (#[trigger] list@[k]).index == k,
                self@.chip_at(text::texts(sessions@), column as int, row as int) == region_at(
                    list@,
                    column as int,
                    0,
                ),
        {
            if list[i].start <= column as u32 && (column as u32) < list[i].end {
                return Some(list[i].index);
            }
        }
        None
    }
}

} // verus!
