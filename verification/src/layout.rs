//! The arrangement of panes inside a tab: a tree of splits whose leaves are
//! positions in the tab's pane list.

use vstd::prelude::*;

verus! {

/// `Right` keeps the two halves side by side; `Down` stacks them.
#[derive(Debug, Clone, Copy, PartialEq, Eq, Structural)]
pub enum SplitDirection {
    Right,
    Down,
}

/// The share of the first half of a new split, in thousandths.
pub const DEFAULT_SPLIT_RATIO: u16 = 500;

/// A pane, or two arrangements that share the space. `ratio` is the share of the
/// first one in thousandths.
#[derive(Debug, PartialEq, Eq)]
pub enum LayoutNode {
    Pane(usize),
    Split {
        direction: SplitDirection,
        ratio: u16,
        first: Box<LayoutNode>,
        second: Box<LayoutNode>,
    },
}

/// The share of `left` out of `total` in thousandths, kept within 100 and 900.
pub open spec fn share(left: int, total: int) -> int {
    let r = left * 1000 / total;
    if r < 100 {
        100
    } else if r > 900 {
        900
    } else {
        r
    }
}

/// The balanced left-to-right arrangement of the panes `start..end`.
pub open spec fn flat_node(start: int, end: int) -> LayoutNode
    decreases end - start,
{
    if end - start <= 1 {
        LayoutNode::Pane(start as usize)
    } else {
        let mid = start + (end - start) / 2;
        LayoutNode::Split {
            direction: SplitDirection::Right,
            ratio: share(mid - start, end - start) as u16,
            first: Box::new(flat_node(start, mid)),
            second: Box::new(flat_node(mid, end)),
        }
    }
}

fn build(start: usize, end: usize) -> (r: LayoutNode)
    requires
        start < end,
    ensures
        r == flat_node(start as int, end as int),
    decreases end - start,
{
    if end - start == 1 {
        return LayoutNode::Pane(start);
    }
    let mid: usize = start + (end - start) / 2;
    let left: u128 = (mid - start) as u128;
    let total: u128 = (end - start) as u128;
    proof {
        assert(left as int * 1000 / (total as int) <= 1000) by (nonlinear_arith)
            requires
                left <= total,
                total > 0,
        ;
    }
    let raw: u128 = left * 1000 / total;
    let ratio: u16 = if raw < 100 {
        100
    } else if raw > 900 {
        900
    } else {
        raw as u16
    };
    LayoutNode::Split {
        direction: SplitDirection::Right,
        ratio: ratio,
        first: Box::new(build(start, mid)),
        second: Box::new(build(mid, end)),
    }
}

/// The numbers `0..n` in order.
pub open spec fn upto(n: int) -> Seq<usize> {
    Seq::new(n as nat, |i: int| i as usize)
}

impl LayoutNode {
    /// The leaves from left to right.
    pub open spec fn leaf_seq(self) -> Seq<usize>
        decreases self,
    {
        match self {
            LayoutNode::Pane(index) => seq![index],
            LayoutNode::Split { first, second, .. } => first.leaf_seq() + second.leaf_seq(),
        }
    }

    /// Whether the leaves are exactly the panes `0..count`, in order.
    pub open spec fn valid(self, count: int) -> bool {
        self.leaf_seq() == upto(count)
    }

    /// The arrangement with leaf `target` split in two.
    pub open spec fn with_split(
        self,
        target: usize,
        new_index: usize,
        direction: SplitDirection,
    ) -> LayoutNode
        decreases self,
    {
        match self {
            LayoutNode::Pane(index) => if index == target {
                LayoutNode::Split {
                    direction: direction,
                    ratio: DEFAULT_SPLIT_RATIO,
                    first: Box::new(LayoutNode::Pane(target)),
                    second: Box::new(LayoutNode::Pane(new_index)),
                }
            } else {
                self
            },
            LayoutNode::Split { direction: d, ratio, first, second } => if first.has_leaf(target) {
                LayoutNode::Split {
                    direction: d,
                    ratio: ratio,
                    first: Box::new(first.with_split(target, new_index, direction)),
                    second: second,
                }
            } else {
                LayoutNode::Split {
                    direction: d,
                    ratio: ratio,
                    first: first,
                    second: Box::new(second.with_split(target, new_index, direction)),
                }
            },
        }
    }

    /// Whether a pane is among the leaves.
    pub open spec fn has_leaf(self, target: usize) -> bool
        decreases self,
    {
        match self {
            LayoutNode::Pane(index) => index == target,
            LayoutNode::Split { first, second, .. } => first.has_leaf(target) || second.has_leaf(
                target,
            ),
        }
    }

    /// The arrangement with every leaf from `index` on moved up by one.
    pub open spec fn shifted_up(self, index: usize) -> LayoutNode
        decreases self,
    {
        match self {
            LayoutNode::Pane(value) => LayoutNode::Pane(
                if value >= index {
                    (value + 1) as usize
                } else {
                    value
                },
            ),
            LayoutNode::Split { direction, ratio, first, second } => LayoutNode::Split {
                direction: direction,
                ratio: ratio,
                first: Box::new(first.shifted_up(index)),
                second: Box::new(second.shifted_up(index)),
            },
        }
    }

    /// The arrangement with every leaf after `index` moved down by one.
    pub open spec fn shifted_down(self, index: usize) -> LayoutNode
        decreases self,
    {
        match self {
            LayoutNode::Pane(value) => LayoutNode::Pane(
                if value > index {
                    (value - 1) as usize
                } else {
                    value
                },
            ),
            LayoutNode::Split { direction, ratio, first, second } => LayoutNode::Split {
                direction: direction,
                ratio: ratio,
                first: Box::new(first.shifted_down(index)),
                second: Box::new(second.shifted_down(index)),
            },
        }
    }

    /// The arrangement without leaf `target`, its sibling in place of their split;
    /// `None` where no split holds it.
    pub open spec fn without(self, target: usize) -> Option<LayoutNode>
        decreases self,
    {
        match self {
            LayoutNode::Pane(_) => None,
            LayoutNode::Split { direction, ratio, first, second } => if *first == LayoutNode::Pane(
                target,
            ) {
                Some(*second)
            } else if *second == LayoutNode::Pane(target) {
                Some(*first)
            } else {
                match first.without(target) {
                    Some(rest) => Some(
                        LayoutNode::Split {
                            direction: direction,
                            ratio: ratio,
                            first: Box::new(rest),
                            second: second,
                        },
                    ),
                    None => match second.without(target) {
                        Some(rest) => Some(
                            LayoutNode::Split {
                                direction: direction,
                                ratio: ratio,
                                first: first,
                                second: Box::new(rest),
                            },
                        ),
                        None => None,
                    },
                }
            },
        }
    }

    /// The largest leaf stays below the last number, so that leaves can move up.
    pub open spec fn can_shift_up(self, index: usize) -> bool
        decreases self,
    {
        match self {
            LayoutNode::Pane(value) => value >= index ==> value < usize::MAX,
            LayoutNode::Split { first, second, .. } => first.can_shift_up(index)
                && second.can_shift_up(index),
        }
    }

    /// The balanced left-to-right arrangement of `count` panes.
    pub fn flat(count: usize) -> (r: Option<LayoutNode>)
        ensures
            count == 0 <==> r is None,
            r matches Some(node) ==> node == flat_node(0, count as int) && node.valid(count as int)
                && balanced(node),
    {
        if count == 0 {
            None
        } else {
            proof {
                flat_is_valid(count as int);
                flat_is_balanced(count as int);
            }
            Some(build(0, count))
        }
    }

    /// A copy of the arrangement.
    pub fn copy(&self) -> (r: LayoutNode)
        ensures
            r == *self,
        decreases self,
    {
        match self {
            LayoutNode::Pane(index) => LayoutNode::Pane(*index),
            LayoutNode::Split { direction, ratio, first, second } => LayoutNode::Split {
                direction: *direction,
                ratio: *ratio,
                first: Box::new(first.copy()),
                second: Box::new(second.copy()),
            },
        }
    }

    /// Appends the leaves from left to right.
    pub fn leaves(&self, output: &mut Vec<usize>)
        ensures
            final(output)@ == old(output)@ + self.leaf_seq(),
        decreases self,
    {
        match self {
            LayoutNode::Pane(index) => {
                output.push(*index);
            },
            LayoutNode::Split { first, second, .. } => {
                first.leaves(output);
                second.leaves(output);
                assert(output@ =~= old(output)@ + self.leaf_seq());
            },
        }
    }

    /// Whether the leaves are exactly the panes `0..count`, in order.
    pub fn valid_for(&self, count: usize) -> (r: bool)
        ensures
            r == self.valid(count as int),
    {
        let mut leaves: Vec<usize> = Vec::new();
        self.leaves(&mut leaves);
        assert(leaves@ =~= self.leaf_seq());
        if leaves.len() != count {
            return false;
        }
        let mut i: usize = 0;
        while i < count
            invariant
                i <= count == leaves@.len(),
                leaves@ == self.leaf_seq(),
                forall|j: int| 0 <= j < i ==> leaves@[j] == j,
            decreases count - i,
        {
            if leaves[i] != i {
                assert(self.leaf_seq()[i as int] != upto(count as int)[i as int]);
                return false;
            }
            i = i + 1;
        }
        assert(self.leaf_seq() =~= upto(count as int));
        true
    }

    /// Splits leaf `target` in two, the second half holding `new_index`. Says whether
    /// there was such a leaf.
    pub fn split_leaf(&mut self, target: usize, new_index: usize, direction: SplitDirection) -> (r:
        bool)
        ensures
            r == old(self).has_leaf(target),
            *final(self) == old(self).with_split(target, new_index, direction),
        decreases *old(self),
    {
        match self {
            LayoutNode::Pane(index) => {
                if *index == target {
                    *self = LayoutNode::Split {
                        direction: direction,
                        ratio: DEFAULT_SPLIT_RATIO,
                        first: Box::new(LayoutNode::Pane(target)),
                        second: Box::new(LayoutNode::Pane(new_index)),
                    };
                    true
                } else {
                    false
                }
            },
            LayoutNode::Split { first, second, .. } => {
                proof {
                    no_leaf_no_split(**first, target, new_index, direction);
                    no_leaf_no_split(**second, target, new_index, direction);
                }
                if first.split_leaf(target, new_index, direction) {
                    true
                } else {
                    second.split_leaf(target, new_index, direction)
                }
            },
        }
    }

    /// Makes room for a pane at `index`: every leaf from there on moves up by one.
    pub fn reindex_insert(&mut self, index: usize)
        requires
            old(self).can_shift_up(index),
        ensures
            *final(self) == old(self).shifted_up(index),
        decreases *old(self),
    {
        match self {
            LayoutNode::Pane(value) => {
                if *value >= index {
                    *value = *value + 1;
                }
            },
            LayoutNode::Split { first, second, .. } => {
                first.reindex_insert(index);
                second.reindex_insert(index);
            },
        }
    }

    /// Closes the gap that pane `index` left: every leaf after it moves down by one.
    pub fn reindex_remove(&mut self, index: usize)
        ensures
            *final(self) == old(self).shifted_down(index),
        decreases *old(self),
    {
        match self {
            LayoutNode::Pane(value) => {
                if *value > index {
                    *value = *value - 1;
                }
            },
            LayoutNode::Split { first, second, .. } => {
                first.reindex_remove(index);
                second.reindex_remove(index);
            },
        }
    }

    /// Takes out leaf `target` and puts its sibling in place of their split. Says
    /// whether it was found; a lone pane stays.
    pub fn remove_leaf(&mut self, target: usize) -> (r: bool)
        ensures
            match old(self).without(target) {
                Some(rest) => r && *final(self) == rest,
                None => !r && *final(self) == *old(self),
            },
        decreases *old(self),
    {
        let whole: Option<LayoutNode> = match self {
            LayoutNode::Pane(_) => {
                return false;
            },
            LayoutNode::Split { first, second, .. } => {
                let in_first = match **first {
                    LayoutNode::Pane(index) => index == target,
                    LayoutNode::Split { .. } => false,
                };
                let in_second = match **second {
                    LayoutNode::Pane(index) => index == target,
                    LayoutNode::Split { .. } => false,
                };
                if in_first {
                    Some(second.copy())
                } else if in_second {
                    Some(first.copy())
                } else if first.remove_leaf(target) {
                    None
                } else {
                    return second.remove_leaf(target);
                }
            },
        };
        if let Some(node) = whole {
            *self = node;
        }
        true
    }
}

proof fn no_leaf_no_split(
    node: LayoutNode,
    target: usize,
    new_index: usize,
    direction: SplitDirection,
)
    ensures
        !node.has_leaf(target) ==> node.with_split(target, new_index, direction) == node,
    decreases node,
{
    match node {
        LayoutNode::Pane(_) => {},
        LayoutNode::Split { first, second, .. } => {
            no_leaf_no_split(*first, target, new_index, direction);
            no_leaf_no_split(*second, target, new_index, direction);
        },
    }
}

proof fn flat_leaves(start: int, end: int)
    requires
        0 <= start < end <= usize::MAX,
    ensures
        flat_node(start, end).leaf_seq() == Seq::new(
            (end - start) as nat,
            |i: int| (start + i) as usize,
        ),
    decreases end - start,
{
    let want = Seq::new((end - start) as nat, |i: int| (start + i) as usize);
    if end - start == 1 {
        assert(flat_node(start, end).leaf_seq() =~= want);
    } else {
        let mid = start + (end - start) / 2;
        flat_leaves(start, mid);
        flat_leaves(mid, end);
        assert(flat_node(start, end).leaf_seq() =~= want);
    }
}

/// Each split shares its panes evenly, the second side having at most one more, and leaves
/// both sides a tenth of the space.
pub open spec fn balanced(node: LayoutNode) -> bool
    decreases node,
{
    match node {
        LayoutNode::Pane(_) => true,
        LayoutNode::Split { ratio, first, second, .. } => {
            &&& 100 <= ratio <= 900
            &&& first.leaf_seq().len() <= second.leaf_seq().len() <= first.leaf_seq().len() + 1
            &&& balanced(*first)
            &&& balanced(*second)
        },
    }
}

proof fn flat_parts_are_balanced(start: int, end: int)
    requires
        0 <= start < end <= usize::MAX,
    ensures
        balanced(flat_node(start, end)),
    decreases end - start,
{
    if end - start > 1 {
        let mid = start + (end - start) / 2;
        flat_parts_are_balanced(start, mid);
        flat_parts_are_balanced(mid, end);
        flat_leaves(start, mid);
        flat_leaves(mid, end);
    }
}

/// The arrangement of any number of panes from left to right is balanced.
pub proof fn flat_is_balanced(count: int)
    requires
        0 < count <= usize::MAX,
    ensures
        balanced(flat_node(0, count)),
{
    flat_parts_are_balanced(0, count);
}

/// The balanced arrangement of any number of panes holds each of them once, in order.
pub proof fn flat_is_valid(count: int)
    requires
        0 < count <= usize::MAX,
    ensures
        flat_node(0, count).valid(count),
{
    flat_leaves(0, count);
    assert(flat_node(0, count).leaf_seq() =~= upto(count));
}

proof fn has_leaf_is_contains(node: LayoutNode, target: usize)
    ensures
        node.has_leaf(target) <==> node.leaf_seq().contains(target),
    decreases node,
{
    match node {
        LayoutNode::Pane(index) => {
            if index == target {
                assert(node.leaf_seq()[0] == target);
            }
        },
        LayoutNode::Split { first, second, .. } => {
            has_leaf_is_contains(*first, target);
            has_leaf_is_contains(*second, target);
            let a = first.leaf_seq();
            let b = second.leaf_seq();
            if a.contains(target) {
                let i = choose|i: int| 0 <= i < a.len() && a[i] == target;
                assert((a + b)[i] == target);
            }
            if b.contains(target) {
                let i = choose|i: int| 0 <= i < b.len() && b[i] == target;
                assert((a + b)[a.len() + i] == target);
            }
            if (a + b).contains(target) {
                let i = choose|i: int| 0 <= i < (a + b).len() && (a + b)[i] == target;
                if i < a.len() {
                    assert(a[i] == target);
                } else {
                    assert(b[i - a.len()] == target);
                }
            }
        },
    }
}

proof fn split_leaves(
    node: LayoutNode,
    target: usize,
    new_index: usize,
    direction: SplitDirection,
    p: int,
)
    requires
        0 <= p < node.leaf_seq().len(),
        node.leaf_seq()[p] == target,
        forall|j: int| 0 <= j < p ==> node.leaf_seq()[j] != target,
    ensures
        node.with_split(target, new_index, direction).leaf_seq() == node.leaf_seq().insert(
            p + 1,
            new_index,
        ),
    decreases node,
{
    let want = node.leaf_seq().insert(p + 1, new_index);
    match node {
        LayoutNode::Pane(_) => {
            reveal_with_fuel(LayoutNode::leaf_seq, 3);
            assert(node.with_split(target, new_index, direction).leaf_seq() =~= want);
        },
        LayoutNode::Split { first, second, .. } => {
            let a = first.leaf_seq();
            let b = second.leaf_seq();
            has_leaf_is_contains(*first, target);
            if p < a.len() {
                assert(a[p] == target);
                assert forall|j: int| 0 <= j < p implies a[j] != target by {
                    assert(node.leaf_seq()[j] == a[j]);
                }
                split_leaves(*first, target, new_index, direction, p);
            } else {
                assert forall|j: int| 0 <= j < a.len() implies a[j] != target by {
                    assert(node.leaf_seq()[j] == a[j]);
                }
                assert forall|j: int| 0 <= j < p - a.len() implies b[j] != target by {
                    assert(node.leaf_seq()[j + a.len()] == b[j]);
                }
                split_leaves(*second, target, new_index, direction, p - a.len());
            }
            assert(node.with_split(target, new_index, direction).leaf_seq() =~= want);
        },
    }
}

proof fn shifted_leaves(node: LayoutNode, index: usize)
    ensures
        node.shifted_up(index).leaf_seq() == node.leaf_seq().map_values(
            |v: usize|
                if v >= index {
                    (v + 1) as usize
                } else {
                    v
                },
        ),
        node.shifted_down(index).leaf_seq() == node.leaf_seq().map_values(
            |v: usize|
                if v > index {
                    (v - 1) as usize
                } else {
                    v
                },
        ),
    decreases node,
{
    let up = |v: usize|
        if v >= index {
            (v + 1) as usize
        } else {
            v
        };
    let down = |v: usize|
        if v > index {
            (v - 1) as usize
        } else {
            v
        };
    match node {
        LayoutNode::Pane(_) => {
            assert(node.shifted_up(index).leaf_seq() =~= node.leaf_seq().map_values(up));
            assert(node.shifted_down(index).leaf_seq() =~= node.leaf_seq().map_values(down));
        },
        LayoutNode::Split { first, second, .. } => {
            shifted_leaves(*first, index);
            shifted_leaves(*second, index);
            assert(node.shifted_up(index).leaf_seq() =~= node.leaf_seq().map_values(up));
            assert(node.shifted_down(index).leaf_seq() =~= node.leaf_seq().map_values(down));
        },
    }
}

proof fn without_leaves(node: LayoutNode, target: usize, p: int)
    requires
        node is Split,
        0 <= p < node.leaf_seq().len(),
        node.leaf_seq()[p] == target,
        forall|j: int| 0 <= j < node.leaf_seq().len() && j != p ==> node.leaf_seq()[j] != target,
    ensures
        node.without(target) is Some,
        node.without(target)->0.leaf_seq() == node.leaf_seq().remove(p),
    decreases node,
{
    let want = node.leaf_seq().remove(p);
    match node {
        LayoutNode::Pane(_) => {},
        LayoutNode::Split { first, second, .. } => {
            let a = first.leaf_seq();
            let b = second.leaf_seq();
            leaf_seq_nonempty(*first);
            leaf_seq_nonempty(*second);
            if *first == LayoutNode::Pane(target) {
                assert(node.leaf_seq()[0] == target);
                assert(second.leaf_seq() =~= want);
            } else if *second == LayoutNode::Pane(target) {
                assert(node.leaf_seq()[a.len() as int] == target);
                assert(first.leaf_seq() =~= want);
            } else if p < a.len() {
                assert forall|j: int| 0 <= j < a.len() && j != p implies a[j] != target by {
                    assert(node.leaf_seq()[j] == a[j]);
                }
                assert(a[p] == target);
                if *first is Pane {
                    assert(a =~= seq![first->Pane_0]);
                }
                without_leaves(*first, target, p);
                assert(node.without(target)->0.leaf_seq() =~= want);
            } else {
                let q = p - a.len();
                assert forall|j: int| 0 <= j < a.len() implies a[j] != target by {
                    assert(node.leaf_seq()[j] == a[j]);
                }
                assert forall|j: int| 0 <= j < b.len() && j != q implies b[j] != target by {
                    assert(node.leaf_seq()[j + a.len()] == b[j]);
                }
                assert(b[q] == target);
                has_leaf_is_contains(*first, target);
                no_leaf_no_removal(*first, target);
                without_leaves(*second, target, q);
                assert(node.without(target)->0.leaf_seq() =~= want);
            }
        },
    }
}

proof fn leaf_seq_nonempty(node: LayoutNode)
    ensures
        node.leaf_seq().len() >= 1,
    decreases node,
{
    match node {
        LayoutNode::Pane(_) => {},
        LayoutNode::Split { first, second, .. } => {
            leaf_seq_nonempty(*first);
        },
    }
}

proof fn no_leaf_no_removal(node: LayoutNode, target: usize)
    ensures
        !node.has_leaf(target) ==> node.without(target) is None,
    decreases node,
{
    match node {
        LayoutNode::Pane(_) => {},
        LayoutNode::Split { first, second, .. } => {
            no_leaf_no_removal(*first, target);
            no_leaf_no_removal(*second, target);
        },
    }
}

/// A valid arrangement of `count` panes has room for one more.
pub proof fn valid_can_shift_up(node: LayoutNode, count: int, index: usize)
    requires
        node.valid(count),
        0 <= count < usize::MAX,
    ensures
        node.can_shift_up(index),
{
    assert forall|j: int| 0 <= j < node.leaf_seq().len() implies #[trigger] node.leaf_seq()[j]
        < usize::MAX by {
        assert(upto(count)[j] == j as usize);
    }
    small_leaves_shift(node, index);
}

proof fn small_leaves_shift(node: LayoutNode, index: usize)
    requires
        forall|j: int| 0 <= j < node.leaf_seq().len() ==> #[trigger] node.leaf_seq()[j] < usize::MAX,
    ensures
        node.can_shift_up(index),
    decreases node,
{
    match node {
        LayoutNode::Pane(v) => {
            assert(node.leaf_seq()[0] == v);
        },
        LayoutNode::Split { first, second, .. } => {
            let a = first.leaf_seq();
            let b = second.leaf_seq();
            assert forall|j: int| 0 <= j < a.len() implies #[trigger] a[j] < usize::MAX by {
                assert(node.leaf_seq()[j] == a[j]);
            }
            assert forall|j: int| 0 <= j < b.len() implies #[trigger] b[j] < usize::MAX by {
                assert(node.leaf_seq()[j + a.len()] == b[j]);
            }
            small_leaves_shift(*first, index);
            small_leaves_shift(*second, index);
        },
    }
}

/// Splitting a pane of a valid arrangement, once there is room for the new one,
/// gives a valid arrangement of one pane more: no pane is lost and the order stays.
pub proof fn split_keeps_order(
    node: LayoutNode,
    count: int,
    target: usize,
    direction: SplitDirection,
)
    requires
        node.valid(count),
        target < count < usize::MAX,
    ensures
        node.shifted_up((target + 1) as usize).has_leaf(target),
        node.shifted_up((target + 1) as usize).with_split(
            target,
            (target + 1) as usize,
            direction,
        ).valid(count + 1),
{
    let up = node.shifted_up((target + 1) as usize);
    shifted_leaves(node, (target + 1) as usize);
    let l = up.leaf_seq();
    assert(l.len() == count);
    assert forall|j: int| 0 <= j < count implies l[j] == (if j <= target {
        j
    } else {
        j + 1
    }) by {
        assert(node.leaf_seq()[j] == j as usize);
    }
    has_leaf_is_contains(up, target);
    assert(l[target as int] == target);
    split_leaves(up, target, (target + 1) as usize, direction, target as int);
    assert(up.with_split(target, (target + 1) as usize, direction).leaf_seq() =~= upto(count + 1));
}

/// Removing a pane of a valid arrangement of two or more, and closing the gap, gives
/// a valid arrangement of one pane less.
pub proof fn remove_keeps_order(node: LayoutNode, count: int, target: usize)
    requires
        node.valid(count),
        target < count <= usize::MAX,
        count >= 2,
    ensures
        node.without(target) is Some,
        node.without(target)->0.shifted_down(target).valid(count - 1),
{
    if node is Pane {
        assert(node.leaf_seq().len() == 1);
        assert(false);
    }
    assert forall|j: int| 0 <= j < count implies node.leaf_seq()[j] == j by {
        assert(upto(count)[j] == j as usize);
    }
    without_leaves(node, target, target as int);
    let rest = node.without(target)->0;
    shifted_leaves(rest, target);
    assert(rest.shifted_down(target).leaf_seq() =~= upto(count - 1));
}

proof fn unsplit(node: LayoutNode, target: usize, new_index: usize, direction: SplitDirection)
    requires
        node.has_leaf(target),
        !node.has_leaf(new_index),
    ensures
        node.with_split(target, new_index, direction).without(new_index) == Some(node),
        node.with_split(target, new_index, direction) is Split,
    decreases node,
{
    reveal_with_fuel(LayoutNode::has_leaf, 2);
    let split = node.with_split(target, new_index, direction);
    match node {
        LayoutNode::Pane(_) => {
            assert(*split->first == node);
            assert(*split->first != LayoutNode::Pane(new_index));
            assert(split.without(new_index) == Some(node));
        },
        LayoutNode::Split { first, second, .. } => {
            no_leaf_no_removal(*first, new_index);
            no_leaf_no_removal(*second, new_index);
            if first.has_leaf(target) {
                unsplit(*first, target, new_index, direction);
                assert(*second != LayoutNode::Pane(new_index));
            } else {
                unsplit(*second, target, new_index, direction);
                assert(*first != LayoutNode::Pane(new_index));
            }
            assert(split.without(new_index) == Some(node));
        },
    }
}

proof fn unshift(node: LayoutNode, index: usize)
    requires
        node.can_shift_up(index),
    ensures
        node.shifted_up(index).shifted_down(index) == node,
        !node.shifted_up(index).has_leaf(index),
    decreases node,
{
    match node {
        LayoutNode::Pane(_) => {},
        LayoutNode::Split { first, second, .. } => {
            unshift(*first, index);
            unshift(*second, index);
        },
    }
}

/// Removing the pane that a split brought in restores the arrangement.
pub proof fn remove_undoes_split(
    node: LayoutNode,
    count: int,
    target: usize,
    direction: SplitDirection,
)
    requires
        node.valid(count),
        target < count < usize::MAX,
    ensures
        ({
            let split = node.shifted_up((target + 1) as usize).with_split(
                target,
                (target + 1) as usize,
                direction,
            );
            &&& split.without((target + 1) as usize) is Some
            &&& split.without((target + 1) as usize)->0.shifted_down((target + 1) as usize) == node
        }),
{
    let new_index = (target + 1) as usize;
    valid_can_shift_up(node, count, new_index);
    unshift(node, new_index);
    split_keeps_order(node, count, target, direction);
    unsplit(node.shifted_up(new_index), target, new_index, direction);
}

} // verus!
