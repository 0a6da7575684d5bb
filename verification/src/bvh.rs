//! A bounding volume hierarchy with stackless traversal.
//!
//! The tree is built top-down by median split over the given order and
//! stored flat, children after their parent, so an index always moves
//! toward the root when it follows a parent link.  Each leaf holds the
//! index of exactly one bounded shape, and the builder returns the
//! map from shapes back to their leaves.  Traversal is an automaton
//! that remembers only the current node and where it came from; one
//! step of it yields the next candidate shape.  The automaton's
//! contract is exact: from any state it stands to yield a definite
//! sequence of candidates, a yield is the head of that sequence and
//! leaves the tail, and the walk ends exactly when nothing remains.
//! Over a complete iteration this makes the yields exactly the pruned
//! walk of the tree — on a well-formed tree, each box-entered shape
//! once (`lemma_visit_once`) — and the verified nearest-hit queries
//! consume the traversal directly.

use vstd::prelude::*;

use crate::bounds::{Bounds, bounds_hit, bounds_hit_s, bounds_reducer, reduce_s};
use crate::ray::Ray;

verus! {

/// One node of the flattened tree.
#[derive(Clone, Copy, Debug)]
pub enum BvhNode {
    /// A leaf holding one shape index.
    Leaf { shape: usize, parent: usize },
    /// An inner node with the envelopes of its two subtrees.
    Internal { left: usize, right: usize, left_bounds: Bounds, right_bounds: Bounds, parent: usize },
}

/// A flattened bounding volume hierarchy.
#[derive(Clone, Debug)]
pub struct Bvh {
    pub nodes: Vec<BvhNode>,
}

/// Whether a node is a leaf holding shape `s`.
pub open spec fn is_leaf_with(n: BvhNode, s: int) -> bool {
    match n {
        BvhNode::Leaf { shape, parent } => shape == s,
        BvhNode::Internal { .. } => false,
    }
}

/// The envelope of a range of boxes, split as the builder splits it.
pub open spec fn envelope_s(bounds: Seq<Bounds>, lo: int, hi: int) -> Bounds
    decreases hi - lo,
{
    if hi - lo <= 1 {
        bounds[lo]
    } else {
        let mid = lo + (hi - lo) / 2;
        reduce_s(envelope_s(bounds, lo, mid), envelope_s(bounds, mid, hi))
    }
}

/// The parent link of a node.
pub open spec fn parent_of(n: BvhNode) -> int {
    match n {
        BvhNode::Leaf { shape, parent } => parent as int,
        BvhNode::Internal { left, right, left_bounds, right_bounds, parent } => parent as int,
    }
}

/// The nodes of `[lo, hi)` form a well-formed subtree rooted at `lo`
/// over the shapes `[slo, shi)`, with the root's parent link naming
/// `parent`: a single leaf holding the single shape, or an internal
/// node whose left subtree fills `[lo + 1, right)` over the first
/// half of the shapes, whose right subtree fills `[right, hi)` over
/// the second half, and whose stored child boxes are exactly the
/// envelopes of those shape ranges.
pub open spec fn subtree_wf(
    nodes: Seq<BvhNode>,
    bounds: Seq<Bounds>,
    lo: int,
    hi: int,
    slo: int,
    shi: int,
    parent: int,
) -> bool
    decreases hi - lo,
{
    &&& 0 <= lo < hi <= nodes.len()
    &&& 0 <= slo < shi <= bounds.len()
    &&& match nodes[lo] {
        BvhNode::Leaf { shape, parent: par } => par == parent && hi == lo + 1 && shi == slo + 1
            && shape == slo,
        BvhNode::Internal { left, right, left_bounds, right_bounds, parent: par } => {
            let smid = slo + (shi - slo) / 2;
            &&& par == parent
            &&& left == lo + 1
            &&& lo + 1 < right < hi
            &&& slo < smid < shi
            &&& left_bounds == envelope_s(bounds, slo, smid)
            &&& right_bounds == envelope_s(bounds, smid, shi)
            &&& subtree_wf(nodes, bounds, lo + 1, right as int, slo, smid, lo)
            &&& subtree_wf(nodes, bounds, right as int, hi, smid, shi, lo)
        },
    }
}

/// A subtree predicate reads only its own range of nodes: it carries
/// over to any sequence agreeing there.
proof fn lemma_subtree_frame(
    n1: Seq<BvhNode>,
    n2: Seq<BvhNode>,
    bounds: Seq<Bounds>,
    lo: int,
    hi: int,
    slo: int,
    shi: int,
    parent: int,
)
    requires
        subtree_wf(n1, bounds, lo, hi, slo, shi, parent),
        n2.len() >= hi,
        forall|k: int| lo <= k < hi ==> n2[k] == n1[k],
    ensures
        subtree_wf(n2, bounds, lo, hi, slo, shi, parent),
    decreases hi - lo,
{
    match n1[lo] {
        BvhNode::Leaf { shape, parent: par } => {},
        BvhNode::Internal { left, right, left_bounds, right_bounds, parent: par } => {
            let smid = slo + (shi - slo) / 2;
            lemma_subtree_frame(n1, n2, bounds, lo + 1, right as int, slo, smid, lo);
            lemma_subtree_frame(n1, n2, bounds, right as int, hi, smid, shi, lo);
        },
    }
}

/// The link facts of one node: its parent stands before it and lists
/// it as a child, and an internal node's children stand after it and
/// point back at it.
pub open spec fn node_links_ok(nodes: Seq<BvhNode>, n: int) -> bool {
    &&& (n == 0 ==> parent_of(nodes[n]) == 0)
    &&& (n > 0 ==> 0 <= parent_of(nodes[n]) < n && match nodes[parent_of(nodes[n])] {
        BvhNode::Internal { left, right, left_bounds, right_bounds, parent } => n == left || n
            == right,
        BvhNode::Leaf { shape, parent } => false,
    })
    &&& match nodes[n] {
        BvhNode::Internal { left, right, left_bounds, right_bounds, parent } => left == n + 1 && n
            + 1 < right < nodes.len() && parent_of(nodes[left as int]) == n && parent_of(
            nodes[right as int],
        ) == n,
        BvhNode::Leaf { shape, parent } => true,
    }
}

/// Every node of a well-formed subtree carries consistent links: the
/// root's parent names the given `parent`, every deeper node's parent
/// lies within the range and lists it as a child, and every internal
/// node's children stand right after it, within the range, pointing
/// back.
#[verifier::rlimit(100)]
#[verifier::spinoff_prover]
pub proof fn lemma_subtree_links(
    nodes: Seq<BvhNode>,
    bounds: Seq<Bounds>,
    lo: int,
    hi: int,
    slo: int,
    shi: int,
    parent: int,
)
    requires
        subtree_wf(nodes, bounds, lo, hi, slo, shi, parent),
    ensures
        parent_of(nodes[lo]) == parent,
        forall|n: int|
            lo < n < hi ==> lo <= #[trigger] parent_of(nodes[n]) < n && match nodes[parent_of(
                nodes[n],
            )] {
                BvhNode::Internal { left, right, left_bounds, right_bounds, parent: q } => n
                    == left || n == right,
                BvhNode::Leaf { shape, parent: q } => false,
            },
        forall|n: int|
            lo <= n < hi ==> match #[trigger] nodes[n] {
                BvhNode::Internal { left, right, left_bounds, right_bounds, parent: q } => left
                    == n + 1 && n + 1 < right < hi && parent_of(nodes[left as int]) == n
                    && parent_of(nodes[right as int]) == n,
                BvhNode::Leaf { shape, parent: q } => true,
            },
    decreases hi - lo,
{
    match nodes[lo] {
        BvhNode::Leaf { shape, parent: par } => {},
        BvhNode::Internal { left, right, left_bounds, right_bounds, parent: par } => {
            let smid = slo + (shi - slo) / 2;
            lemma_subtree_links(nodes, bounds, lo + 1, right as int, slo, smid, lo);
            lemma_subtree_links(nodes, bounds, right as int, hi, smid, shi, lo);
            assert forall|n: int|
                lo < n < hi implies lo <= #[trigger] parent_of(nodes[n]) < n && match nodes[parent_of(
                nodes[n],
            )] {
                BvhNode::Internal { left: l2, right: r2, left_bounds: lb2, right_bounds: rb2, parent: q } => n
                    == l2 || n == r2,
                BvhNode::Leaf { shape: s2, parent: q } => false,
            } by {
                if n == lo + 1 {
                    assert(parent_of(nodes[n]) == lo);
                } else if n == right as int {
                    assert(parent_of(nodes[n]) == lo);
                } else if n < right as int {
                    assert(lo + 1 <= parent_of(nodes[n]) < n);
                } else {
                    assert(right as int <= parent_of(nodes[n]) < n);
                }
            }
            assert forall|n: int|
                lo <= n < hi implies match #[trigger] nodes[n] {
                BvhNode::Internal { left: l2, right: r2, left_bounds: lb2, right_bounds: rb2, parent: q } => l2
                    == n + 1 && n + 1 < r2 < hi && parent_of(nodes[l2 as int]) == n && parent_of(
                    nodes[r2 as int],
                ) == n,
                BvhNode::Leaf { shape: s2, parent: q } => true,
            } by {
                if n == lo {
                    assert(parent_of(nodes[lo + 1]) == lo);
                    assert(parent_of(nodes[right as int]) == lo);
                }
            }
        },
    }
}

impl Bvh {
    /// Every node of the tree carries consistent parent and child
    /// links.
    pub open spec fn links_ok(self) -> bool {
        forall|n: int| 0 <= n < self.nodes.len() ==> #[trigger] node_links_ok(self.nodes@, n)
    }

    /// Some leaf of the tree holds shape `s`.
    pub open spec fn has_leaf_shape(self, s: int) -> bool {
        exists|i: int|
            0 <= i < self.nodes.len() && is_leaf_with(#[trigger] self.nodes[i], s)
    }

    /// Every leaf holds a shape below `n` whose recorded leaf index
    /// points back at it.
    pub open spec fn leaves_match(self, leaf_of: Seq<usize>, n: int) -> bool {
        forall|i: int, s: int|
            0 <= i < self.nodes.len() && #[trigger] is_leaf_with(self.nodes[i], s) ==> 0 <= s < n
                && n == leaf_of.len() && leaf_of[s] == i
    }

    /// Build a tree over the given boxes.  The returned vector maps
    /// each shape index to its leaf: shape `k` sits in leaf
    /// `leaf_of[k]`, and every leaf holds exactly one shape, which
    /// points back at it.
    pub fn build(bounds: &Vec<Bounds>) -> (res: (Bvh, Vec<usize>))
        requires
            bounds.len() < 0x4000_0000,
        ensures
            res.1.len() == bounds.len(),
            res.0.leaves_match(res.1@, bounds.len() as int),
            forall|k: int|
                0 <= k < bounds.len() ==> (#[trigger] res.1[k]) < res.0.nodes.len()
                    && is_leaf_with(res.0.nodes[res.1[k] as int], k),
            bounds.len() > 0 ==> subtree_wf(
                res.0.nodes@,
                bounds@,
                0,
                res.0.nodes.len() as int,
                0,
                bounds.len() as int,
                0,
            ),
            res.0.links_ok(),
    {
        let mut nodes: Vec<BvhNode> = Vec::new();
        let mut leaf_of: Vec<usize> = Vec::new();
        let n = bounds.len();
        let mut k: usize = 0;
        while k < n
            invariant
                leaf_of.len() == k,
                0 <= k <= n,
            decreases n - k,
        {
            leaf_of.push(0);
            k = k + 1;
        }
        if n == 0 {
            return (Bvh { nodes }, leaf_of);
        }
        build_range(bounds, 0, n, 0, &mut nodes, &mut leaf_of);
        let bvh = Bvh { nodes };
        proof {
            lemma_subtree_links(
                bvh.nodes@,
                bounds@,
                0,
                bvh.nodes.len() as int,
                0,
                bounds.len() as int,
                0,
            );
            assert forall|j: int| 0 <= j < bvh.nodes.len() implies #[trigger] node_links_ok(
                bvh.nodes@,
                j,
            ) by {
                if j > 0 {
                    assert(0 <= parent_of(bvh.nodes@[j]) < j);
                }
            }
        }
        (bvh, leaf_of)
    }
}

/// Build the subtree over `bounds[lo..hi]`, appending its nodes and
/// recording each shape's leaf.  The first appended node is the root
/// of the subtree and its parent link is `parent`.
fn build_range(
    bounds: &Vec<Bounds>,
    lo: usize,
    hi: usize,
    parent: usize,
    nodes: &mut Vec<BvhNode>,
    leaf_of: &mut Vec<usize>,
) -> (res: (usize, Bounds))
    requires
        0 <= lo < hi <= bounds.len(),
        old(leaf_of).len() == bounds.len(),
        hi < 0x4000_0000,
        old(nodes).len() + 2 * (hi - lo) <= usize::MAX,
    ensures
        res.0 == old(nodes).len(),
        final(nodes).len() <= old(nodes).len() + 2 * (hi - lo) - 1,
        final(nodes).len() > old(nodes).len(),
        final(leaf_of).len() == old(leaf_of).len(),
        res.1 == envelope_s(bounds@, lo as int, hi as int),
        // earlier nodes and unrelated leaf entries are untouched
        forall|i: int| 0 <= i < old(nodes).len() ==> final(nodes)[i] == old(nodes)[i],
        forall|s: int|
            0 <= s < bounds.len() && !(lo <= s < hi) ==> final(leaf_of)[s] == old(leaf_of)[s],
        // every shape of the range got a leaf pointing at it
        forall|s: int|
            lo <= s < hi ==> old(nodes).len() <= (#[trigger] final(leaf_of)[s]) < final(nodes).len()
                && is_leaf_with(final(nodes)[final(leaf_of)[s] as int], s),
        // every appended leaf holds a shape of the range that points back
        forall|i: int, s: int|
            old(nodes).len() <= i < final(nodes).len() && #[trigger] is_leaf_with(
                final(nodes)[i],
                s,
            ) ==> lo <= s < hi && final(leaf_of)[s] == i,
        subtree_wf(
            final(nodes)@,
            bounds@,
            old(nodes).len() as int,
            final(nodes).len() as int,
            lo as int,
            hi as int,
            parent as int,
        ),
    decreases hi - lo,
{
    let my_idx = nodes.len();
    if hi - lo == 1 {
        nodes.push(BvhNode::Leaf { shape: lo, parent });
        leaf_of.set(lo, my_idx);
        (my_idx, *bounds.get(lo).unwrap())
    } else {
        // placeholder; the children are not known yet
        nodes.push(
            BvhNode::Internal {
                left: 0,
                right: 0,
                left_bounds: *bounds.get(lo).unwrap(),
                right_bounds: *bounds.get(lo).unwrap(),
                parent,
            },
        );
        let mid = lo + (hi - lo) / 2;
        let (left, lb) = build_range(bounds, lo, mid, my_idx, nodes, leaf_of);
        let ghost after_left = nodes@;
        let (right, rb) = build_range(bounds, mid, hi, my_idx, nodes, leaf_of);
        let ghost after_right = nodes@;
        nodes.set(
            my_idx,
            BvhNode::Internal { left, right, left_bounds: lb, right_bounds: rb, parent },
        );
        proof {
            lemma_subtree_frame(
                after_left,
                nodes@,
                bounds@,
                my_idx as int + 1,
                after_left.len() as int,
                lo as int,
                mid as int,
                my_idx as int,
            );
            lemma_subtree_frame(
                after_right,
                nodes@,
                bounds@,
                after_left.len() as int,
                after_right.len() as int,
                mid as int,
                hi as int,
                my_idx as int,
            );
        }
        (my_idx, bounds_reducer(&lb, &rb))
    }
}

/// The candidate shapes of the pruned walk of the subtree rooted at
/// node `n`, in order: a leaf contributes its shape; an internal node
/// contributes its left then its right subtree, each only when the
/// ray enters that child's stored box.  This sequence is what a
/// complete traversal yields.
pub open spec fn visit_s(nodes: Seq<BvhNode>, ray: Ray, n: int) -> Seq<int>
    decreases nodes.len() - n,
{
    if !(0 <= n < nodes.len()) {
        Seq::empty()
    } else {
        match nodes[n] {
            BvhNode::Leaf { shape, parent } => seq![shape as int],
            BvhNode::Internal { left, right, left_bounds, right_bounds, parent } => {
                let lv = if bounds_hit_s(left_bounds, ray) is Some && n < left < nodes.len() {
                    visit_s(nodes, ray, left as int)
                } else {
                    Seq::empty()
                };
                let rv = if bounds_hit_s(right_bounds, ray) is Some && n < right < nodes.len() {
                    visit_s(nodes, ray, right as int)
                } else {
                    Seq::empty()
                };
                lv + rv
            },
        }
    }
}

/// What remains to be yielded once the walk climbs out of node `n`:
/// for each ancestor reached from its left child, the right sibling
/// subtree when the ray enters its box.
pub open spec fn up_s(nodes: Seq<BvhNode>, ray: Ray, n: int) -> Seq<int>
    decreases n,
{
    if !(0 < n < nodes.len()) {
        Seq::empty()
    } else {
        let p = parent_of(nodes[n]);
        if 0 <= p < n {
            match nodes[p] {
                BvhNode::Internal { left, right, left_bounds, right_bounds, parent } => {
                    let pend = if n == left && bounds_hit_s(right_bounds, ray) is Some && p
                        < right < nodes.len() {
                        visit_s(nodes, ray, right as int)
                    } else {
                        Seq::empty()
                    };
                    pend + up_s(nodes, ray, p)
                },
                BvhNode::Leaf { shape, parent } => Seq::empty(),
            }
        } else {
            Seq::empty()
        }
    }
}

/// The automaton steps a walk of the subtree at `n` takes before it
/// climbs back out.
pub open spec fn t_steps(nodes: Seq<BvhNode>, ray: Ray, n: int) -> int
    decreases nodes.len() - n,
{
    if !(0 <= n < nodes.len()) {
        1
    } else {
        match nodes[n] {
            BvhNode::Leaf { shape, parent } => 1,
            BvhNode::Internal { left, right, left_bounds, right_bounds, parent } => {
                let dl = if bounds_hit_s(left_bounds, ray) is Some && n < left < nodes.len() {
                    t_steps(nodes, ray, left as int) + 1
                } else {
                    0
                };
                let dr = if bounds_hit_s(right_bounds, ray) is Some && n < right < nodes.len() {
                    t_steps(nodes, ray, right as int) + 1
                } else {
                    0
                };
                1 + dl + dr
            },
        }
    }
}

/// The automaton steps left after climbing out of node `n`.
pub open spec fn w_steps(nodes: Seq<BvhNode>, ray: Ray, n: int) -> int
    decreases n,
{
    if !(0 < n < nodes.len()) {
        0
    } else {
        let p = parent_of(nodes[n]);
        if 0 <= p < n {
            match nodes[p] {
                BvhNode::Internal { left, right, left_bounds, right_bounds, parent } => {
                    let pend = if n == left && bounds_hit_s(right_bounds, ray) is Some && p
                        < right < nodes.len() {
                        2 + t_steps(nodes, ray, right as int)
                    } else {
                        1
                    };
                    pend + w_steps(nodes, ray, p)
                },
                BvhNode::Leaf { shape, parent } => 0,
            }
        } else {
            0
        }
    }
}

/// A subtree walk takes at least one step.
proof fn lemma_t_nonneg(nodes: Seq<BvhNode>, ray: Ray, n: int)
    ensures
        t_steps(nodes, ray, n) >= 1,
    decreases nodes.len() - n,
{
    if 0 <= n < nodes.len() {
        match nodes[n] {
            BvhNode::Leaf { shape, parent } => {},
            BvhNode::Internal { left, right, left_bounds, right_bounds, parent } => {
                if bounds_hit_s(left_bounds, ray) is Some && n < left < nodes.len() {
                    lemma_t_nonneg(nodes, ray, left as int);
                }
                if bounds_hit_s(right_bounds, ray) is Some && n < right < nodes.len() {
                    lemma_t_nonneg(nodes, ray, right as int);
                }
            },
        }
    }
}

/// Climbing out never owes a negative number of steps.
proof fn lemma_w_nonneg(nodes: Seq<BvhNode>, ray: Ray, n: int)
    ensures
        w_steps(nodes, ray, n) >= 0,
    decreases n,
{
    if 0 < n < nodes.len() {
        let p = parent_of(nodes[n]);
        if 0 <= p < n {
            match nodes[p] {
                BvhNode::Internal { left, right, left_bounds, right_bounds, parent } => {
                    lemma_w_nonneg(nodes, ray, p);
                    if n == left && bounds_hit_s(right_bounds, ray) is Some && p < right
                        < nodes.len() {
                        lemma_t_nonneg(nodes, ray, right as int);
                    }
                },
                BvhNode::Leaf { shape, parent } => {},
            }
        }
    }
}

/// The pruned walk of a well-formed subtree repeats nothing: every
/// yielded element names a shape of the subtree's own range, and no
/// shape appears twice.  At the root this says a complete traversal
/// yields each box-entered shape exactly once.
pub proof fn lemma_visit_once(
    nodes: Seq<BvhNode>,
    bounds: Seq<Bounds>,
    ray: Ray,
    lo: int,
    hi: int,
    slo: int,
    shi: int,
    parent: int,
)
    requires
        subtree_wf(nodes, bounds, lo, hi, slo, shi, parent),
    ensures
        forall|i: int|
            0 <= i < visit_s(nodes, ray, lo).len() ==> slo <= #[trigger] visit_s(nodes, ray, lo)[i]
                < shi,
        forall|i: int, j: int|
            0 <= i < j < visit_s(nodes, ray, lo).len() ==> visit_s(nodes, ray, lo)[i] != visit_s(
                nodes,
                ray,
                lo,
            )[j],
    decreases hi - lo,
{
    match nodes[lo] {
        BvhNode::Leaf { shape, parent: par } => {},
        BvhNode::Internal { left, right, left_bounds, right_bounds, parent: par } => {
            let smid = slo + (shi - slo) / 2;
            lemma_visit_once(nodes, bounds, ray, lo + 1, right as int, slo, smid, lo);
            lemma_visit_once(nodes, bounds, ray, right as int, hi, smid, shi, lo);
            let lv = if bounds_hit_s(left_bounds, ray) is Some && lo < left < nodes.len() {
                visit_s(nodes, ray, left as int)
            } else {
                Seq::<int>::empty()
            };
            let rv = if bounds_hit_s(right_bounds, ray) is Some && lo < right < nodes.len() {
                visit_s(nodes, ray, right as int)
            } else {
                Seq::<int>::empty()
            };
            assert(visit_s(nodes, ray, lo) == lv + rv);
            assert forall|i: int|
                0 <= i < (lv + rv).len() implies slo <= #[trigger] (lv + rv)[i] < shi by {
                if i < lv.len() {
                    assert((lv + rv)[i] == lv[i]);
                } else {
                    assert((lv + rv)[i] == rv[i - lv.len()]);
                }
            }
            assert forall|i: int, j: int|
                0 <= i < j < (lv + rv).len() implies (lv + rv)[i] != (lv + rv)[j] by {
                if j < lv.len() {
                } else if i >= lv.len() {
                } else {
                    assert((lv + rv)[i] == lv[i] && lv[i] < smid);
                    assert((lv + rv)[j] == rv[j - lv.len()] && rv[j - lv.len()] >= smid);
                }
            }
        },
    }
}

/// Where the traversal came from when it reached the current node.
#[derive(Clone, Copy, Debug, PartialEq, Eq, Structural)]
pub enum Arrival {
    /// Descending: the node has not been examined yet.
    FromParent,
    /// Ascending from the child with the given index.
    FromBottom(usize),
}

/// The O(1) state of a stackless traversal.
#[derive(Clone, Copy, Debug)]
pub struct BvhIter {
    pub node: usize,
    pub arrival: Arrival,
    pub finished: bool,
}

impl BvhIter {
    /// The state names a node of the tree, and an ascending state
    /// names the child it climbed out of.
    pub open spec fn inv_s(self, bvh: Bvh) -> bool {
        self.finished || bvh.nodes.len() == 0 || {
            &&& 0 <= self.node < bvh.nodes.len()
            &&& match self.arrival {
                Arrival::FromParent => true,
                Arrival::FromBottom(c) => 0 <= c < bvh.nodes.len() && parent_of(
                    bvh.nodes@[c as int],
                ) == self.node && match bvh.nodes@[self.node as int] {
                    BvhNode::Internal { left, right, left_bounds, right_bounds, parent } => c
                        == left || c == right,
                    BvhNode::Leaf { shape, parent } => false,
                },
            }
        }
    }

    /// The candidates the traversal still stands to yield from this
    /// state: descending, the current subtree and everything owed
    /// above it; ascending, possibly the right sibling subtree and
    /// everything owed above.
    pub open spec fn remaining_s(self, bvh: Bvh, ray: Ray) -> Seq<int> {
        if self.finished || bvh.nodes.len() == 0 || !(0 <= self.node < bvh.nodes.len()) {
            Seq::empty()
        } else {
            match self.arrival {
                Arrival::FromParent => visit_s(bvh.nodes@, ray, self.node as int) + up_s(
                    bvh.nodes@,
                    ray,
                    self.node as int,
                ),
                Arrival::FromBottom(c) => match bvh.nodes@[self.node as int] {
                    BvhNode::Internal { left, right, left_bounds, right_bounds, parent } => {
                        let pend = if c == left && bounds_hit_s(right_bounds, ray) is Some
                            && self.node < right < bvh.nodes.len() {
                            visit_s(bvh.nodes@, ray, right as int)
                        } else {
                            Seq::empty()
                        };
                        pend + up_s(bvh.nodes@, ray, self.node as int)
                    },
                    BvhNode::Leaf { shape, parent } => Seq::empty(),
                },
            }
        }
    }

    /// The steps the automaton still takes from this state.
    pub open spec fn m_steps_s(self, bvh: Bvh, ray: Ray) -> int {
        if self.finished || bvh.nodes.len() == 0 || !(0 <= self.node < bvh.nodes.len()) {
            0
        } else {
            match self.arrival {
                Arrival::FromParent => t_steps(bvh.nodes@, ray, self.node as int) + w_steps(
                    bvh.nodes@,
                    ray,
                    self.node as int,
                ),
                Arrival::FromBottom(c) => match bvh.nodes@[self.node as int] {
                    BvhNode::Internal { left, right, left_bounds, right_bounds, parent } => {
                        let pend = if c == left && bounds_hit_s(right_bounds, ray) is Some
                            && self.node < right < bvh.nodes.len() {
                            2 + t_steps(bvh.nodes@, ray, right as int)
                        } else {
                            1
                        };
                        pend + w_steps(bvh.nodes@, ray, self.node as int)
                    },
                    BvhNode::Leaf { shape, parent } => 0,
                },
            }
        }
    }

    /// Start a traversal at the root.  A fresh traversal satisfies
    /// the state invariant for any tree and stands to yield exactly
    /// the pruned walk of the whole tree.
    pub fn new() -> (res: BvhIter)
        ensures
            res.node == 0,
            res.arrival == Arrival::FromParent,
            !res.finished,
            forall|bvh: Bvh| #[trigger] res.inv_s(bvh),
            forall|bvh: Bvh, ray: Ray|
                #[trigger] res.remaining_s(bvh, ray) == if bvh.nodes.len() == 0 {
                    Seq::<int>::empty()
                } else {
                    visit_s(bvh.nodes@, ray, 0)
                },
    {
        let it = BvhIter { node: 0, arrival: Arrival::FromParent, finished: false };
        proof {
            assert forall|bvh: Bvh, ray: Ray|
                #[trigger] it.remaining_s(bvh, ray) == if bvh.nodes.len() == 0 {
                    Seq::<int>::empty()
                } else {
                    visit_s(bvh.nodes@, ray, 0)
                } by {
                if bvh.nodes.len() > 0 {
                    assert(up_s(bvh.nodes@, ray, 0) =~= Seq::<int>::empty());
                    assert(it.remaining_s(bvh, ray) =~= visit_s(bvh.nodes@, ray, 0));
                }
            }
        }
        it
    }

    /// Advance the traversal one candidate.  On a tree with
    /// consistent links, the walk behaves as a lazy sequence: a yield
    /// is exactly the head of what remained, leaving the tail, and
    /// the walk ends exactly when nothing remains.  Together with a
    /// fresh start this says the whole iteration yields exactly
    /// `visit_s` of the root: every shape whose path of boxes the ray
    /// enters, once each, in order.
    #[verifier::rlimit(100)]
    #[verifier::spinoff_prover]
    pub fn next(&mut self, bvh: &Bvh, ray: &Ray) -> (res: Option<usize>)
        requires
            bvh.links_ok(),
            old(self).inv_s(*bvh),
        ensures
            final(self).inv_s(*bvh),
            match res {
                Option::Some(s) => old(self).remaining_s(*bvh, *ray) == seq![s as int]
                    + final(self).remaining_s(*bvh, *ray) && bvh.has_leaf_shape(s as int),
                Option::None => old(self).remaining_s(*bvh, *ray) == Seq::<int>::empty()
                    && final(self).finished,
            },
    {
        if self.finished {
            return Option::None;
        }
        let n = bvh.nodes.len();
        if n == 0 {
            self.finished = true;
            return Option::None;
        }
        while !self.finished
            invariant
                n == bvh.nodes.len(),
                n > 0,
                bvh.links_ok(),
                self.inv_s(*bvh),
                !self.finished,
                self.remaining_s(*bvh, *ray) == old(self).remaining_s(*bvh, *ray),
            decreases self.m_steps_s(*bvh, *ray),
        {
            let cur = self.node;
            proof {
                assert(node_links_ok(bvh.nodes@, cur as int));
                lemma_w_nonneg(bvh.nodes@, *ray, cur as int);
                lemma_t_nonneg(bvh.nodes@, *ray, cur as int);
            }
            match *bvh.nodes.get(cur).unwrap() {
                BvhNode::Internal { left, right, left_bounds, right_bounds, parent } => {
                    proof {
                        lemma_t_nonneg(bvh.nodes@, *ray, left as int);
                        lemma_t_nonneg(bvh.nodes@, *ray, right as int);
                        lemma_w_nonneg(bvh.nodes@, *ray, left as int);
                    }
                    match self.arrival {
                        Arrival::FromParent => {
                            if bounds_hit(&left_bounds, ray).is_some() {
                                let ghost before = *self;
                                self.node = left;
                                proof {
                                    assert(self.remaining_s(*bvh, *ray) =~= before.remaining_s(
                                        *bvh,
                                        *ray,
                                    ));
                                }
                            } else if bounds_hit(&right_bounds, ray).is_some() {
                                let ghost before = *self;
                                self.node = right;
                                proof {
                                    assert(self.remaining_s(*bvh, *ray) =~= before.remaining_s(
                                        *bvh,
                                        *ray,
                                    ));
                                }
                            } else if cur == 0 {
                                proof {
                                    assert(self.remaining_s(*bvh, *ray) =~= Seq::<int>::empty());
                                }
                                self.finished = true;
                                return Option::None;
                            } else {
                                let ghost before = *self;
                                self.arrival = Arrival::FromBottom(cur);
                                self.node = parent;
                                proof {
                                    assert(self.remaining_s(*bvh, *ray) =~= before.remaining_s(
                                        *bvh,
                                        *ray,
                                    ));
                                }
                            }
                        },
                        Arrival::FromBottom(c) => {
                            if c == left && bounds_hit(&right_bounds, ray).is_some() {
                                let ghost before = *self;
                                self.arrival = Arrival::FromParent;
                                self.node = right;
                                proof {
                                    assert(self.remaining_s(*bvh, *ray) =~= before.remaining_s(
                                        *bvh,
                                        *ray,
                                    ));
                                }
                            } else if cur == 0 {
                                proof {
                                    assert(self.remaining_s(*bvh, *ray) =~= Seq::<int>::empty());
                                }
                                self.finished = true;
                                return Option::None;
                            } else {
                                let ghost before = *self;
                                self.arrival = Arrival::FromBottom(cur);
                                self.node = parent;
                                proof {
                                    assert(self.remaining_s(*bvh, *ray) =~= before.remaining_s(
                                        *bvh,
                                        *ray,
                                    ));
                                }
                            }
                        },
                    }
                },
                BvhNode::Leaf { shape, parent } => {
                    let ghost before = *self;
                    if cur == 0 {
                        self.finished = true;
                    } else {
                        self.arrival = Arrival::FromBottom(cur);
                        self.node = parent;
                    }
                    proof {
                        assert(is_leaf_with(bvh.nodes[cur as int], shape as int));
                        assert(before.remaining_s(*bvh, *ray) =~= seq![shape as int]
                            + self.remaining_s(*bvh, *ray));
                    }
                    return Option::Some(shape);
                },
            }
        }
        proof {
            assert(false);
        }
        Option::None
    }
}

} // verus!
