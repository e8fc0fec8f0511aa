//! Construction of a binary BVH laid out as a stackless pre-order array.
//!
//! Node `i` of the array is followed, on a hit, by `entry` (its first child,
//! always `i + 1`) and, on a miss or after a leaf, by `exit` (the first node
//! after its subtree, or [`SENTINEL`] at the end of the array).
use crate::aabb::{contains, is_union, lemma_union_contains, Aabb};
use vstd::prelude::*;

verus! {

broadcast use vstd::seq_lib::group_to_multiset_ensures, vstd::multiset::group_multiset_axioms;

/// Marks the end of traversal.
pub const SENTINEL: u32 = 0xFFFF_FFFF;

/// One node of the flattened hierarchy.
#[derive(Clone, Copy, Debug)]
pub struct FlatNode {
    pub bounds: Aabb,
    /// First child of an interior node; [`SENTINEL`] in a leaf.
    pub entry: u32,
    pub exit: u32,
    /// The element that a leaf stands for; 0 in an interior node.
    pub element: u32,
    pub is_leaf: bool,
}

/// The node index that `exit` leads to, with the sentinel read as `total`.
pub open spec fn resolved_exit(n: FlatNode, total: int) -> int {
    if n.exit == SENTINEL {
        total
    } else {
        n.exit as int
    }
}

/// Node `i` is a leaf of one element or an interior node whose children are
/// `i + 1` and the node right after the first child's subtree.
pub open spec fn node_ok(nodes: Seq<FlatNode>, boxes: Seq<Aabb>, i: int, total: int) -> bool {
    let n = nodes[i];
    let e = resolved_exit(n, total);
    &&& n.exit == SENTINEL || n.exit < total
    &&& i < e
    &&& if n.is_leaf {
        &&& e == i + 1
        &&& n.entry == SENTINEL
        &&& n.element < boxes.len()
        &&& n.bounds == boxes[n.element as int]
    } else {
        let r = resolved_exit(nodes[i + 1], total);
        &&& n.entry == i + 1
        &&& n.element == 0
        &&& i + 1 < r < e
        &&& resolved_exit(nodes[r], total) == e
        &&& is_union(n.bounds, nodes[i + 1].bounds, nodes[r].bounds)
    }
}

/// Every node in `[lo, hi)` is well formed and its subtree stays inside.
pub open spec fn segment_ok(
    nodes: Seq<FlatNode>,
    boxes: Seq<Aabb>,
    lo: int,
    hi: int,
    total: int,
) -> bool {
    forall|i: int|
        lo <= i < hi ==> #[trigger] node_ok(nodes, boxes, i, total) && resolved_exit(nodes[i], total)
            <= hi
}

/// The whole array is one well-formed tree over `boxes`, rooted at node 0.
pub open spec fn flat_bvh_ok(nodes: Seq<FlatNode>, boxes: Seq<Aabb>) -> bool {
    &&& nodes.len() >= 1
    &&& nodes.len() < SENTINEL
    &&& segment_ok(nodes, boxes, 0, nodes.len() as int, nodes.len() as int)
    &&& nodes[0].exit == SENTINEL
}

/// The elements of the leaves, in array order.
pub open spec fn leaf_elements(nodes: Seq<FlatNode>) -> Seq<u32>
    decreases nodes.len(),
{
    if nodes.len() == 0 {
        Seq::empty()
    } else {
        let rest = leaf_elements(nodes.drop_last());
        if nodes.last().is_leaf {
            rest.push(nodes.last().element)
        } else {
            rest
        }
    }
}

/// The element indices `0..n`.
pub open spec fn all_elements(n: nat) -> Seq<u32> {
    Seq::new(n, |i: int| i as u32)
}

/// The node that traversal visits after node `i` when the ray hits it.
pub open spec fn next_on_hit(nodes: Seq<FlatNode>, i: int) -> u32 {
    if nodes[i].is_leaf {
        nodes[i].exit
    } else {
        nodes[i].entry
    }
}

pub proof fn lemma_leaf_elements_append(a: Seq<FlatNode>, b: Seq<FlatNode>)
    ensures
        leaf_elements(a + b) == leaf_elements(a) + leaf_elements(b),
    decreases b.len(),
{
    if b.len() == 0 {
        assert(a + b =~= a);
        assert(leaf_elements(a) + leaf_elements(b) =~= leaf_elements(a));
    } else {
        lemma_leaf_elements_append(a, b.drop_last());
        assert((a + b).drop_last() =~= a + b.drop_last());
        assert((a + b).last() == b.last());
        if b.last().is_leaf {
            assert(leaf_elements(a) + leaf_elements(b.drop_last()).push(b.last().element) =~= (
            leaf_elements(a) + leaf_elements(b.drop_last())).push(b.last().element));
        }
    }
}

proof fn lemma_segment_stable(
    n1: Seq<FlatNode>,
    n2: Seq<FlatNode>,
    boxes: Seq<Aabb>,
    lo: int,
    hi: int,
    total: int,
)
    requires
        segment_ok(n1, boxes, lo, hi, total),
        0 <= lo,
        hi <= n1.len(),
        hi <= n2.len(),
        forall|j: int| lo <= j < hi ==> n2[j] == n1[j],
    ensures
        segment_ok(n2, boxes, lo, hi, total),
{
    assert forall|i: int| lo <= i < hi implies #[trigger] node_ok(n2, boxes, i, total)
        && resolved_exit(n2[i], total) <= hi by {
        assert(node_ok(n1, boxes, i, total));
        assert(n2[i] == n1[i]);
        if !n1[i].is_leaf {
            let r = resolved_exit(n1[i + 1], total);
            assert(n2[i + 1] == n1[i + 1]);
            assert(n2[r] == n1[r]);
        }
    }
}

proof fn lemma_join(nodes: Seq<FlatNode>, boxes: Seq<Aabb>, p: int, m: int, end: int, total: int)
    requires
        0 <= p,
        p + 1 < m < end,
        segment_ok(nodes, boxes, p + 1, m, total),
        segment_ok(nodes, boxes, m, end, total),
        node_ok(nodes, boxes, p, total),
        resolved_exit(nodes[p], total) <= end,
    ensures
        segment_ok(nodes, boxes, p, end, total),
{
    assert forall|i: int| p <= i < end implies #[trigger] node_ok(nodes, boxes, i, total)
        && resolved_exit(nodes[i], total) <= end by {
        if i == p {
        } else if i < m {
            assert(node_ok(nodes, boxes, i, total));
        } else {
            assert(node_ok(nodes, boxes, i, total));
        }
    }
}

/// The centre of `b` along `axis`, in key space.
pub open spec fn centroid_of(b: Aabb, axis: int) -> int {
    (b.min[axis] as int + b.max[axis] as int) / 2
}

/// The smallest and largest centre of the items' boxes along `axis`, with an
/// item that has each.
fn centroid_range(boxes: &Vec<Aabb>, items: &Vec<u32>, axis: usize) -> (r: (u32, u32, usize, usize))
    requires
        items.len() >= 1,
        axis < 3,
        forall|j: int| 0 <= j < items.len() ==> items[j] < boxes.len(),
    ensures
        r.2 < items.len(),
        r.3 < items.len(),
        centroid_of(boxes[items[r.2 as int] as int], axis as int) == r.0,
        centroid_of(boxes[items[r.3 as int] as int], axis as int) == r.1,
        forall|j: int|
            0 <= j < items.len() ==> r.0 <= #[trigger] centroid_of(boxes[items[j] as int], axis as int)
                <= r.1,
{
    let c0 = boxes[items[0] as usize].centroid(axis);
    let mut lo = c0;
    let mut hi = c0;
    let mut lo_at: usize = 0;
    let mut hi_at: usize = 0;
    let mut i: usize = 1;
    while i < items.len()
        invariant
            1 <= i <= items.len(),
            axis < 3,
            forall|j: int| 0 <= j < items.len() ==> items[j] < boxes.len(),
            lo_at < i,
            hi_at < i,
            centroid_of(boxes[items[lo_at as int] as int], axis as int) == lo,
            centroid_of(boxes[items[hi_at as int] as int], axis as int) == hi,
            forall|j: int|
                0 <= j < i ==> lo <= #[trigger] centroid_of(boxes[items[j] as int], axis as int)
                    <= hi,
        decreases items.len() - i,
    {
        let c = boxes[items[i] as usize].centroid(axis);
        if c < lo {
            lo = c;
            lo_at = i;
        }
        if c > hi {
            hi = c;
            hi_at = i;
        }
        i = i + 1;
    }
    (lo, hi, lo_at, hi_at)
}

/// Splits the items in two non-empty groups: at the middle of the widest
/// spread of centres, or in two halves when all centres coincide.
fn split_items(boxes: &Vec<Aabb>, items: &Vec<u32>) -> (r: (Vec<u32>, Vec<u32>))
    requires
        items.len() >= 2,
        forall|j: int| 0 <= j < items.len() ==> items[j] < boxes.len(),
    ensures
        r.0.len() >= 1,
        r.1.len() >= 1,
        r.0@.to_multiset().add(r.1@.to_multiset()) == items@.to_multiset(),
        r.0.len() + r.1.len() == items.len(),
        forall|j: int| 0 <= j < r.0.len() ==> r.0[j] < boxes.len(),
        forall|j: int| 0 <= j < r.1.len() ==> r.1[j] < boxes.len(),
{
    let mut best = centroid_range(boxes, items, 0);
    let mut axis: usize = 0;
    let mut a: usize = 1;
    while a < 3
        invariant
            1 <= a <= 3,
            axis < 3,
            items.len() >= 2,
            forall|j: int| 0 <= j < items.len() ==> items[j] < boxes.len(),
            best.2 < items.len(),
            best.3 < items.len(),
            centroid_of(boxes[items[best.2 as int] as int], axis as int) == best.0,
            centroid_of(boxes[items[best.3 as int] as int], axis as int) == best.1,
            forall|j: int|
                0 <= j < items.len() ==> best.0 <= #[trigger] centroid_of(
                    boxes[items[j] as int],
                    axis as int,
                ) <= best.1,
        decreases 3 - a,
    {
        let cand = centroid_range(boxes, items, a);
        if cand.1 - cand.0 > best.1 - best.0 {
            best = cand;
            axis = a;
        }
        a = a + 1;
    }
    let (lo, hi, lo_at, hi_at) = best;
    let spread = hi - lo;
    let mid = lo + spread / 2;
    let half = items.len() / 2;
    let ghost left_witness: int = if spread == 0 { 0 } else { lo_at as int };
    let ghost right_witness: int = if spread == 0 { items.len() - 1 } else { hi_at as int };
    let mut left: Vec<u32> = Vec::new();
    let mut right: Vec<u32> = Vec::new();
    let mut i: usize = 0;
    while i < items.len()
        invariant
            i <= items.len(),
            axis < 3,
            items.len() >= 2,
            half == items.len() / 2,
            spread == hi - lo,
            mid == lo + spread / 2,
            forall|j: int| 0 <= j < items.len() ==> items[j] < boxes.len(),
            0 <= left_witness < items.len(),
            0 <= right_witness < items.len(),
            spread == 0 ==> left_witness == 0 && right_witness == items.len() - 1,
            spread != 0 ==> centroid_of(boxes[items[left_witness] as int], axis as int) == lo,
            spread != 0 ==> centroid_of(boxes[items[right_witness] as int], axis as int) == hi,
            lo <= hi,
            i > left_witness ==> left.len() >= 1,
            i > right_witness ==> right.len() >= 1,
            left@.to_multiset().add(right@.to_multiset()) == items@.subrange(0, i as int).to_multiset(),
            forall|j: int| 0 <= j < left.len() ==> left[j] < boxes.len(),
            forall|j: int| 0 <= j < right.len() ==> right[j] < boxes.len(),
        decreases items.len() - i,
    {
        let x = items[i];
        let go_left = if spread == 0 {
            i < half
        } else {
            boxes[x as usize].centroid(axis) <= mid
        };
        assert(items@.subrange(0, i + 1) =~= items@.subrange(0, i as int).push(x));
        if go_left {
            left.push(x);
        } else {
            right.push(x);
        }
        i = i + 1;
    }
    assert(items@.subrange(0, items.len() as int) =~= items@);
    assert(left@.to_multiset().len() == left.len());
    assert(right@.to_multiset().len() == right.len());
    assert(items@.to_multiset().len() == items.len());
    (left, right)
}

/// Appends the subtree over `items` in pre-order; `total` is the size of the
/// finished array, whose end the sentinel stands for.
fn build_node(boxes: &Vec<Aabb>, items: Vec<u32>, nodes: &mut Vec<FlatNode>, total: u32)
    requires
        items.len() >= 1,
        forall|j: int| 0 <= j < items.len() ==> items[j] < boxes.len(),
        old(nodes).len() + 2 * items.len() - 1 <= total,
        total < SENTINEL,
    ensures
        final(nodes).len() == old(nodes).len() + 2 * items.len() - 1,
        forall|j: int| 0 <= j < old(nodes).len() ==> final(nodes)[j] == old(nodes)[j],
        segment_ok(
            final(nodes)@,
            boxes@,
            old(nodes).len() as int,
            final(nodes).len() as int,
            total as int,
        ),
        resolved_exit(final(nodes)[old(nodes).len() as int], total as int) == final(nodes).len(),
        leaf_elements(
            final(nodes)@.subrange(old(nodes).len() as int, final(nodes).len() as int),
        ).to_multiset() == items@.to_multiset(),
    decreases items.len(),
{
    let p = nodes.len();
    if items.len() == 1 {
        let e = items[0];
        let exit = if p + 1 == total as usize {
            SENTINEL
        } else {
            (p + 1) as u32
        };
        nodes.push(
            FlatNode { bounds: boxes[e as usize], entry: SENTINEL, exit, element: e, is_leaf: true },
        );
        proof {
            let s = nodes@.subrange(p as int, p + 1);
            assert(s.drop_last() =~= Seq::<FlatNode>::empty());
            assert(leaf_elements(s.drop_last()) =~= Seq::<u32>::empty());
            assert(s.last() == nodes@[p as int]);
            assert(leaf_elements(s) =~= seq![e]);
            assert(items@ =~= seq![e]);
            assert(seq![e] =~= Seq::<u32>::empty().push(e));
            assert(node_ok(nodes@, boxes@, p as int, total as int));
        }
        return;
    }
    let (left, right) = split_items(boxes, &items);
    nodes.push(
        FlatNode {
            bounds: boxes[items[0] as usize],
            entry: SENTINEL,
            exit: SENTINEL,
            element: 0,
            is_leaf: false,
        },
    );
    let ghost n0 = nodes@;
    build_node(boxes, left, nodes, total);
    let ghost n1 = nodes@;
    let m = nodes.len();
    build_node(boxes, right, nodes, total);
    let ghost n2 = nodes@;
    let end = nodes.len();
    let lb = nodes[p + 1].bounds;
    let rb = nodes[m].bounds;
    let exit = if end == total as usize {
        SENTINEL
    } else {
        end as u32
    };
    nodes.set(
        p,
        FlatNode { bounds: lb.union(&rb), entry: (p + 1) as u32, exit, element: 0, is_leaf: false },
    );
    proof {
        let n3 = nodes@;
        lemma_segment_stable(n1, n2, boxes@, p + 1, m as int, total as int);
        lemma_segment_stable(n1, n3, boxes@, p + 1, m as int, total as int);
        assert forall|j: int| 0 <= j < end && j != p implies n3[j] == n2[j] by {}
        lemma_segment_stable(n2, n3, boxes@, m as int, end as int, total as int);
        assert(n3[p + 1] == n1[p + 1]);
        assert(n3[m as int] == n2[m as int]);
        assert(node_ok(n3, boxes@, p as int, total as int));
        lemma_join(n3, boxes@, p as int, m as int, end as int, total as int);
        let s = n3.subrange(p as int, end as int);
        let sl = n1.subrange(p + 1, m as int);
        let sr = n2.subrange(m as int, end as int);
        assert(n3.subrange(p + 1, m as int) =~= sl);
        assert(n3.subrange(m as int, end as int) =~= sr);
        let head = n3.subrange(p as int, p + 1);
        assert(s =~= head + (sl + sr));
        lemma_leaf_elements_append(head, sl + sr);
        lemma_leaf_elements_append(sl, sr);
        assert(head.drop_last() =~= Seq::<FlatNode>::empty());
        assert(leaf_elements(head.drop_last()) =~= Seq::<u32>::empty());
        assert(head.last() == n3[p as int]);
        assert(leaf_elements(head) =~= Seq::<u32>::empty());
        assert(leaf_elements(s) =~= leaf_elements(sl) + leaf_elements(sr));
        vstd::seq_lib::lemma_multiset_commutative(leaf_elements(sl), leaf_elements(sr));
    }
}

/// Builds the stackless pre-order array over `boxes`, one leaf per box.
pub fn build_flat_bvh(boxes: &Vec<Aabb>) -> (nodes: Vec<FlatNode>)
    requires
        1 <= boxes.len() <= 0x7FFF_FFFF,
    ensures
        nodes.len() == 2 * boxes.len() - 1,
        flat_bvh_ok(nodes@, boxes@),
        leaf_elements(nodes@).to_multiset() == all_elements(boxes.len() as nat).to_multiset(),
{
    let mut items: Vec<u32> = Vec::new();
    let mut i: usize = 0;
    while i < boxes.len()
        invariant
            i <= boxes.len() <= 0x7FFF_FFFF,
            items@ == all_elements(i as nat),
        decreases boxes.len() - i,
    {
        items.push(i as u32);
        i = i + 1;
        assert(items@ =~= all_elements(i as nat));
    }
    let total = (2 * boxes.len() - 1) as u32;
    let mut nodes: Vec<FlatNode> = Vec::new();
    build_node(boxes, items, &mut nodes, total);
    proof {
        assert(nodes@.subrange(0, nodes.len() as int) =~= nodes@);
        assert(node_ok(nodes@, boxes@, 0, total as int));
    }
    nodes
}

/// Every element has exactly one leaf.
pub proof fn lemma_coverage(nodes: Seq<FlatNode>, boxes: Seq<Aabb>, k: u32)
    requires
        leaf_elements(nodes).to_multiset() == all_elements(boxes.len()).to_multiset(),
        boxes.len() <= 0x7FFF_FFFF,
    ensures
        leaf_elements(nodes).to_multiset().count(k) == if k < boxes.len() { 1nat } else { 0nat },
{
    let s = all_elements(boxes.len());
    assert(s.no_duplicates()) by {
        assert forall|a: int, b: int| 0 <= a < s.len() && 0 <= b < s.len() && a != b implies s[a]
            != s[b] by {}
    }
    s.lemma_multiset_has_no_duplicates();
    if k < boxes.len() {
        assert(s[k as int] == k);
        assert(s.contains(k));
    } else {
        assert(!s.contains(k));
    }
}

/// Every interior node encloses both of its children.
pub proof fn lemma_containment(nodes: Seq<FlatNode>, boxes: Seq<Aabb>, i: int)
    requires
        flat_bvh_ok(nodes, boxes),
        0 <= i < nodes.len(),
        !nodes[i].is_leaf,
    ensures
        contains(nodes[i].bounds, nodes[nodes[i].entry as int].bounds),
        contains(
            nodes[i].bounds,
            nodes[resolved_exit(nodes[nodes[i].entry as int], nodes.len() as int)].bounds,
        ),
{
    assert(node_ok(nodes, boxes, i, nodes.len() as int));
    let r = resolved_exit(nodes[i + 1], nodes.len() as int);
    lemma_union_contains(nodes[i].bounds, nodes[i + 1].bounds, nodes[r].bounds);
}

/// Following `entry` on hits and `exit` after leaves visits the nodes in array
/// order and ends at the sentinel; following `exit` on a miss always moves
/// forward, so no traversal visits a node twice.
pub proof fn lemma_traversal(nodes: Seq<FlatNode>, boxes: Seq<Aabb>)
    requires
        flat_bvh_ok(nodes, boxes),
    ensures
        forall|i: int| 0 <= i < nodes.len() - 1 ==> #[trigger] next_on_hit(nodes, i) == i + 1,
        next_on_hit(nodes, nodes.len() - 1) == SENTINEL,
        forall|i: int|
            0 <= i < nodes.len() ==> #[trigger] nodes[i].exit == SENTINEL || i < nodes[i].exit
                < nodes.len(),
{
    let n = nodes.len() as int;
    assert forall|i: int| 0 <= i < n - 1 implies #[trigger] next_on_hit(nodes, i) == i + 1 by {
        assert(node_ok(nodes, boxes, i, n));
    }
    assert(node_ok(nodes, boxes, n - 1, n));
    assert forall|i: int| 0 <= i < n implies #[trigger] nodes[i].exit == SENTINEL || i
        < nodes[i].exit < n by {
        assert(node_ok(nodes, boxes, i, n));
    }
}

/// No `exit` names the end of the array: it is the sentinel there.
pub proof fn lemma_sentinel_normalized(nodes: Seq<FlatNode>, boxes: Seq<Aabb>, i: int)
    requires
        flat_bvh_ok(nodes, boxes),
        0 <= i < nodes.len(),
    ensures
        nodes[i].exit != nodes.len(),
        nodes[i].exit >= nodes.len() ==> nodes[i].exit == SENTINEL,
{
    assert(node_ok(nodes, boxes, i, nodes.len() as int));
}

} // verus!
