//! The bounding-volume hierarchy: a binary tree over primitive indices,
//! built once per scene and traversed read-only.
//!
//! Leaves name primitives in the arena the root node owns.  Every inner
//! node's box encloses the boxes of its whole subtree — the invariant that
//! makes pruning sound — and the traversal narrows the query interval to
//! the closest hit found on the left before descending to the right.

use vstd::prelude::*;

use crate::aabb::{aabb_covers, spec_aabb_hit, spec_merge_aabb, Aabb};
use crate::hittables::{HitRecord, HittableList};
use crate::ray::Ray;
use crate::shapes::{spec_shape_bounding_box, spec_shape_hit, Shapes};
use crate::utils::Interval;

verus! {

pub enum BvhTree {
    /// A leaf: the index of a primitive in the arena.
    Prim(usize),
    /// An inner node with its cached subtree box.
    Node { left: Box<BvhTree>, right: Box<BvhTree>, bbox: Aabb },
}

pub struct BvhNode {
    pub objects: Vec<Shapes>,
    pub root: BvhTree,
}

/// Every leaf names a primitive inside the arena.
pub open spec fn tree_wf(t: BvhTree, n: int) -> bool
    decreases t,
{
    match t {
        BvhTree::Prim(i) => (i as int) < n,
        BvhTree::Node { left, right, bbox } => tree_wf(*left, n) && tree_wf(*right, n),
    }
}

/// The box of a subtree: a leaf's primitive box, or an inner node's cache.
pub open spec fn spec_tree_box(t: BvhTree, objects: Seq<Shapes>) -> Aabb
    decreases t,
{
    match t {
        BvhTree::Prim(i) => if (i as int) < objects.len() {
            spec_shape_bounding_box(objects[i as int])
        } else {
            Aabb {
                x: Interval::spec_empty(),
                y: Interval::spec_empty(),
                z: Interval::spec_empty(),
            }
        },
        BvhTree::Node { left, right, bbox } => bbox,
    }
}

/// Every inner node's cached box encloses both children's boxes — so, by
/// induction, the union of all boxes in its subtree.
pub open spec fn tree_boxes_wf(t: BvhTree, objects: Seq<Shapes>) -> bool
    decreases t,
{
    match t {
        BvhTree::Prim(i) => true,
        BvhTree::Node { left, right, bbox } => aabb_covers(bbox, spec_tree_box(*left, objects))
            && aabb_covers(bbox, spec_tree_box(*right, objects)) && tree_boxes_wf(*left, objects)
            && tree_boxes_wf(*right, objects),
    }
}

/// The leaf indices of a subtree, in traversal order.
pub open spec fn tree_leaves(t: BvhTree) -> Seq<usize>
    decreases t,
{
    match t {
        BvhTree::Prim(i) => seq![i],
        BvhTree::Node { left, right, bbox } => tree_leaves(*left) + tree_leaves(*right),
    }
}

/// The empty seed of a box fold.
pub open spec fn spec_empty_aabb() -> Aabb {
    Aabb { x: Interval::spec_empty(), y: Interval::spec_empty(), z: Interval::spec_empty() }
}

/// The union of the boxes of the primitives in `[start, end)`, folded in
/// order from the empty seed, exactly as the construction scan computes it.
pub open spec fn spec_span_box(objects: Seq<Shapes>, start: int, end: int) -> Aabb
    decreases end - start,
{
    if end <= start {
        spec_empty_aabb()
    } else {
        spec_merge_aabb(
            spec_span_box(objects, start, end - 1),
            spec_shape_bounding_box(objects[end - 1]),
        )
    }
}

/// Every inner node's cached box is exactly the union of its children's
/// boxes, all the way down.
pub open spec fn tree_box_exact(t: BvhTree, objects: Seq<Shapes>) -> bool
    decreases t,
{
    match t {
        BvhTree::Prim(i) => true,
        BvhTree::Node { left, right, bbox } => bbox == spec_merge_aabb(
            spec_tree_box(*left, objects),
            spec_tree_box(*right, objects),
        ) && tree_box_exact(*left, objects) && tree_box_exact(*right, objects),
    }
}

/// A box enclosing the box of every primitive a subtree names encloses the
/// subtree's exact box: the cached boxes are the least covers.
proof fn lemma_tree_box_least(t: BvhTree, objects: Seq<Shapes>, b: Aabb)
    requires
        tree_wf(t, objects.len() as int),
        tree_box_exact(t, objects),
        forall|i: usize|
            #[trigger] tree_contains(t, i) ==> aabb_covers(
                b,
                spec_shape_bounding_box(objects[i as int]),
            ),
    ensures
        aabb_covers(b, spec_tree_box(t, objects)),
    decreases t,
{
    match t {
        BvhTree::Prim(i) => {
            assert(tree_contains(t, i));
        },
        BvhTree::Node { left, right, bbox } => {
            assert forall|i: usize| #[trigger] tree_contains(*left, i) implies aabb_covers(
                b,
                spec_shape_bounding_box(objects[i as int]),
            ) by {
                assert(tree_contains(t, i));
            }
            assert forall|i: usize| #[trigger] tree_contains(*right, i) implies aabb_covers(
                b,
                spec_shape_bounding_box(objects[i as int]),
            ) by {
                assert(tree_contains(t, i));
            }
            lemma_tree_box_least(*left, objects, b);
            lemma_tree_box_least(*right, objects, b);
            crate::aabb::lemma_covers_merge(
                b,
                spec_tree_box(*left, objects),
                spec_tree_box(*right, objects),
            );
        },
    }
}

/// The folded span box encloses the box of every primitive of the span.
proof fn lemma_span_box_covers(objects: Seq<Shapes>, start: int, end: int, i: int)
    requires
        start <= i < end,
    ensures
        aabb_covers(
            spec_span_box(objects, start, end),
            spec_shape_bounding_box(objects[i]),
        ),
    decreases end - start,
{
    if i < end - 1 {
        lemma_span_box_covers(objects, start, end - 1, i);
    }
}

/// The folded span box is the least cover: any box enclosing every
/// primitive of the span encloses the fold.
proof fn lemma_span_box_least(objects: Seq<Shapes>, start: int, end: int, b: Aabb)
    requires
        forall|i: int|
            start <= i < end ==> aabb_covers(
                b,
                spec_shape_bounding_box(#[trigger] objects[i]),
            ),
    ensures
        aabb_covers(b, spec_span_box(objects, start, end)),
    decreases end - start,
{
    if end <= start {
        assert(aabb_covers(b, spec_empty_aabb()));
    } else {
        lemma_span_box_least(objects, start, end - 1, b);
        crate::aabb::lemma_covers_merge(
            b,
            spec_span_box(objects, start, end - 1),
            spec_shape_bounding_box(objects[end - 1]),
        );
    }
}

/// The traversal: a miss of the node's box prunes the whole subtree;
/// otherwise the left child is probed over the full interval, the right
/// over the interval narrowed to the left hit, and the closer hit wins
/// (the right on a strict improvement).
pub open spec fn spec_tree_hit(t: BvhTree, objects: Seq<Shapes>, r: Ray, tmin: int, tmax: int)
    -> Option<HitRecord>
    decreases t,
{
    match t {
        BvhTree::Prim(i) => if (i as int) < objects.len() {
            spec_probe(objects[i as int], r, tmin, tmax)
        } else {
            None
        },
        BvhTree::Node { left, right, bbox } => {
            if !spec_aabb_hit(
                bbox,
                r,
                Interval {
                    min: crate::fixed::Fx { bits: tmin as i64 },
                    max: crate::fixed::Fx { bits: tmax as i64 },
                },
            ) {
                None
            } else {
                let lh = spec_tree_hit(*left, objects, r, tmin, tmax);
                let upper = match lh {
                    Some(h) => h.t.bits as int,
                    None => tmax,
                };
                let rh = spec_tree_hit(*right, objects, r, tmin, upper);
                match rh {
                    Some(hr) => match lh {
                        Some(hl) => if hr.t.bits < hl.t.bits {
                            Some(hr)
                        } else {
                            Some(hl)
                        },
                        None => Some(hr),
                    },
                    None => lh,
                }
            }
        },
    }
}

impl BvhNode {
    /// The hierarchy over a scene list's objects.
    pub fn new_from_list(list: HittableList) -> (r: BvhNode)
        requires
            list.objects@.len() > 0,
        ensures
            r.objects == list.objects,
            tree_wf(r.root, r.objects@.len() as int),
            tree_boxes_wf(r.root, r.objects@),
            forall|i: usize| #[trigger] tree_contains(r.root, i) <==> (i as int)
                < list.objects@.len(),
            spec_tree_box(r.root, r.objects@) == spec_span_box(
                r.objects@,
                0,
                r.objects@.len() as int,
            ),
    {
        let n = list.objects.len();
        BvhNode::new(list.objects, 0, n)
    }

    /// The hierarchy over the span `[start, end)` of the given arena.  The
    /// tree names exactly the primitives of the span, however the
    /// partitioning reordered them; its root box is exactly the folded
    /// union of the span's boxes; a single primitive becomes a node whose
    /// two children alias it, and a pair becomes the two leaves directly.
    pub fn new(objects: Vec<Shapes>, start: usize, end: usize) -> (r: BvhNode)
        requires
            start < end,
            end <= objects@.len(),
        ensures
            r.objects == objects,
            tree_wf(r.root, r.objects@.len() as int),
            tree_boxes_wf(r.root, r.objects@),
            forall|i: usize| #[trigger] tree_contains(r.root, i) <==> start <= i < end,
            spec_tree_box(r.root, r.objects@) == spec_span_box(
                r.objects@,
                start as int,
                end as int,
            ),
            end - start == 1 ==> (r.root matches BvhTree::Node { left, right, bbox } && *left
                == BvhTree::Prim(start) && *right == BvhTree::Prim(start) && bbox
                == spec_shape_bounding_box(objects@[start as int])),
            end - start == 2 ==> (r.root matches BvhTree::Node { left, right, bbox } && *left
                == BvhTree::Prim(start) && *right == BvhTree::Prim((start + 1) as usize) && bbox
                == spec_merge_aabb(
                spec_shape_bounding_box(objects@[start as int]),
                spec_shape_bounding_box(objects@[start as int + 1]),
            )),
    {
        let mut idxs: Vec<usize> = Vec::new();
        let mut i: usize = 0;
        while i < objects.len()
            invariant
                0 <= i <= objects.len(),
                idxs@.len() == i,
                forall|j: int| 0 <= j < i ==> (#[trigger] idxs@[j]) == j,
            decreases objects.len() - i,
        {
            idxs.push(i);
            i = i + 1;
        }
        let ghost before = idxs@;
        let root = build_tree(&objects, &mut idxs, start, end);
        proof {
            broadcast use vstd::seq_lib::group_to_multiset_ensures;

            let fsub = idxs@.subrange(start as int, end as int);
            let isub = before.subrange(start as int, end as int);
            assert(fsub.to_multiset() == isub.to_multiset());
            assert forall|ix: usize| #[trigger] tree_contains(root, ix) <==> start <= ix
                < end by {
                if tree_contains(root, ix) {
                    let j = choose|j: int| start <= j < end && idxs@[j] == ix;
                    assert(fsub[j - start] == ix);
                    assert(fsub.contains(ix));
                    assert(fsub.to_multiset().count(ix) > 0);
                    assert(isub.to_multiset().count(ix) > 0);
                    assert(isub.contains(ix));
                    let k = choose|k: int| 0 <= k < isub.len() && isub[k] == ix;
                    assert(before[start + k] == start + k);
                } else {
                    if start <= ix < end {
                        assert(isub[ix - start as int] == ix);
                        assert(isub.contains(ix));
                        assert(isub.to_multiset().count(ix) > 0);
                        assert(fsub.to_multiset().count(ix) > 0);
                        assert(fsub.contains(ix));
                        let k = choose|k: int| 0 <= k < fsub.len() && fsub[k] == ix;
                        assert(idxs@[start + k] == ix);
                        assert(tree_contains(root, ix));
                    }
                }
            }
            let tb = spec_tree_box(root, objects@);
            let sb = spec_span_box(objects@, start as int, end as int);
            assert forall|i2: int| start <= i2 < end implies aabb_covers(
                tb,
                spec_shape_bounding_box(#[trigger] objects@[i2]),
            ) by {
                assert(tree_contains(root, i2 as usize));
                lemma_tree_box_covers_prim(root, objects@, i2 as usize);
            }
            lemma_span_box_least(objects@, start as int, end as int, tb);
            assert forall|i2: usize| #[trigger] tree_contains(root, i2) implies aabb_covers(
                sb,
                spec_shape_bounding_box(objects@[i2 as int]),
            ) by {
                assert(start <= i2 < end);
                lemma_span_box_covers(objects@, start as int, end as int, i2 as int);
            }
            lemma_tree_box_least(root, objects@, sb);
            crate::aabb::lemma_covers_antisym(tb, sb);
        }
        BvhNode { objects, root }
    }

    /// The nearest intersection found by the pruned traversal.
    pub fn hit(&self, r: Ray, ray_t: Interval) -> (res: Option<HitRecord>)
        requires
            tree_wf(self.root, self.objects@.len() as int),
        ensures
            res == spec_tree_hit(
                self.root,
                self.objects@,
                r,
                ray_t.min.bits as int,
                ray_t.max.bits as int,
            ),
    {
        tree_hit(&self.root, &self.objects, r, ray_t)
    }

    /// The box of the whole hierarchy.
    pub fn bounding_box(&self) -> (res: Aabb)
        requires
            tree_wf(self.root, self.objects@.len() as int),
        ensures
            res == spec_tree_box(self.root, self.objects@),
    {
        match &self.root {
            BvhTree::Prim(i) => self.objects[*i].bounding_box(),
            BvhTree::Node { left, right, bbox } => *bbox,
        }
    }
}

/// The identity index span `[start, end)`.
pub open spec fn span_idxs(start: int, end: int) -> Seq<usize> {
    Seq::new((end - start) as nat, |i: int| (start + i) as usize)
}

/// Swapping two positions of a sequence leaves its multiset unchanged.
proof fn lemma_swap_multiset(s: Seq<usize>, i: int, j: int)
    requires
        0 <= i < s.len(),
        0 <= j < s.len(),
    ensures
        s.update(i, s[j]).update(j, s[i]).to_multiset() == s.to_multiset(),
{
    broadcast use vstd::seq_lib::group_to_multiset_ensures;

    if i == j {
        assert(s.update(i, s[j]).update(j, s[i]) =~= s);
    } else {
        let t = s.update(i, s[j]);
        assert(t[j] == s[j]);
        assert(s.contains(s[i]));
        assert(s.contains(s[j]));
        assert(t.update(j, s[i]).to_multiset() =~= s.to_multiset());
    }
}

/// Builds the subtree over the index span `[start, end)`: a single index
/// becomes a leaf duplicated into both children, a pair becomes two leaves,
/// and a longer span is sorted along the widest axis of its union box and
/// split at the midpoint.  The leaves are exactly the span, reordered.
fn build_tree(objects: &Vec<Shapes>, idxs: &mut Vec<usize>, start: usize, end: usize) -> (t:
    BvhTree)
    requires
        start < end,
        end <= old(idxs)@.len(),
        forall|j: int| 0 <= j < old(idxs)@.len() ==> (#[trigger] old(idxs)@[j]) < objects@.len(),
    ensures
        final(idxs)@.len() == old(idxs)@.len(),
        forall|j: int| 0 <= j < final(idxs)@.len() ==> (#[trigger] final(idxs)@[j])
            < objects@.len(),
        forall|j: int|
            0 <= j < final(idxs)@.len() && !(start <= j < end) ==> final(idxs)@[j] == old(
                idxs,
            )@[j],
        tree_wf(t, objects@.len() as int),
        tree_boxes_wf(t, objects@),
        tree_box_exact(t, objects@),
        forall|i: usize|
            #[trigger] tree_contains(t, i) <==> exists|j: int|
                start <= j < end && final(idxs)@[j] == i,
        final(idxs)@.subrange(start as int, end as int).to_multiset() == old(idxs)@.subrange(
            start as int,
            end as int,
        ).to_multiset(),
        end - start == 1 ==> (t matches BvhTree::Node { left, right, bbox } && *left
            == BvhTree::Prim(old(idxs)@[start as int]) && *right == BvhTree::Prim(
            old(idxs)@[start as int],
        ) && bbox == spec_shape_bounding_box(objects@[old(idxs)@[start as int] as int])),
        end - start == 2 ==> (t matches BvhTree::Node { left, right, bbox } && *left
            == BvhTree::Prim(old(idxs)@[start as int]) && *right == BvhTree::Prim(
            old(idxs)@[start as int + 1],
        ) && bbox == spec_merge_aabb(
            spec_shape_bounding_box(objects@[old(idxs)@[start as int] as int]),
            spec_shape_bounding_box(objects@[old(idxs)@[start as int + 1] as int]),
        )),
    decreases end - start,
{
    let mut bbox = Aabb::empty();
    let mut i: usize = start;
    while i < end
        invariant
            start <= i <= end,
            end <= idxs@.len(),
            forall|j: int| 0 <= j < idxs@.len() ==> (#[trigger] idxs@[j]) < objects@.len(),
        decreases end - i,
    {
        bbox = Aabb::new_from_aabb(bbox, objects[idxs[i]].bounding_box());
        i = i + 1;
    }
    let axis = bbox.longest_axis();
    let object_span = end - start;
    if object_span == 1 {
        let leaf = idxs[start];
        let leaf_box = objects[leaf].bounding_box();
        let t = BvhTree::Node {
            left: Box::new(BvhTree::Prim(leaf)),
            right: Box::new(BvhTree::Prim(leaf)),
            bbox: leaf_box,
        };
        proof {
            crate::aabb::lemma_merge_covers(leaf_box, leaf_box);
            assert(tree_wf(BvhTree::Prim(leaf), objects@.len() as int));
            assert(tree_boxes_wf(BvhTree::Prim(leaf), objects@));
            assert forall|i: usize| #[trigger] tree_contains(t, i) <==> exists|j: int|
                start <= j < end && idxs@[j] == i by {
                assert(tree_contains(BvhTree::Prim(leaf), i) <==> i == leaf);
                if tree_contains(t, i) {
                    assert(i == leaf);
                    assert(idxs@[start as int] == i);
                }
                if idxs@[start as int] == i {
                    assert(tree_contains(t, i));
                }
            }
            assert(spec_merge_aabb(leaf_box, leaf_box) == leaf_box);
            assert(tree_box_exact(BvhTree::Prim(leaf), objects@));
            assert(tree_box_exact(t, objects@));
        }
        t
    } else if object_span == 2 {
        let a = idxs[start];
        let b = idxs[start + 1];
        let merged = Aabb::new_from_aabb(objects[a].bounding_box(), objects[b].bounding_box());
        proof {
            crate::aabb::lemma_merge_covers(
                spec_shape_bounding_box(objects@[a as int]),
                spec_shape_bounding_box(objects@[b as int]),
            );
            assert(tree_wf(BvhTree::Prim(a), objects@.len() as int));
            assert(tree_wf(BvhTree::Prim(b), objects@.len() as int));
            assert(tree_boxes_wf(BvhTree::Prim(a), objects@));
            assert(tree_boxes_wf(BvhTree::Prim(b), objects@));
        }
        let t = BvhTree::Node {
            left: Box::new(BvhTree::Prim(a)),
            right: Box::new(BvhTree::Prim(b)),
            bbox: merged,
        };
        proof {
            assert forall|i: usize| #[trigger] tree_contains(t, i) <==> exists|j: int|
                start <= j < end && idxs@[j] == i by {
                assert(tree_contains(BvhTree::Prim(a), i) <==> i == a);
                assert(tree_contains(BvhTree::Prim(b), i) <==> i == b);
                if tree_contains(t, i) {
                    if i == a {
                        assert(idxs@[start as int] == i);
                    } else {
                        assert(i == b);
                        assert(idxs@[start as int + 1] == i);
                    }
                }
                if exists|j: int| start <= j < end && idxs@[j] == i {
                    let j = choose|j: int| start <= j < end && idxs@[j] == i;
                    assert(j == start || j == start + 1);
                    assert(tree_contains(t, i));
                }
            }
            assert(tree_box_exact(BvhTree::Prim(a), objects@));
            assert(tree_box_exact(BvhTree::Prim(b), objects@));
            assert(tree_box_exact(t, objects@));
        }
        t
    } else {
        let ghost before = idxs@;
        sort_span(objects, idxs, start, end, axis);
        let ghost sorted = idxs@;
        let mid = start + object_span / 2;
        let left = build_tree(objects, idxs, start, mid);
        let ghost after_left = idxs@;
        let right = build_tree(objects, idxs, mid, end);
        let ghost after_right = idxs@;
        let lbox = tree_box_of(&left, objects);
        let rbox = tree_box_of(&right, objects);
        let merged = Aabb::new_from_aabb(lbox, rbox);
        let t = BvhTree::Node { left: Box::new(left), right: Box::new(right), bbox: merged };
        proof {
            crate::aabb::lemma_merge_covers(
                spec_tree_box(left, objects@),
                spec_tree_box(right, objects@),
            );
            broadcast use vstd::seq_lib::lemma_multiset_commutative;

            assert(after_right.subrange(start as int, mid as int) =~= after_left.subrange(
                start as int,
                mid as int,
            ));
            assert forall|i: usize| #[trigger] tree_contains(t, i) <==> exists|j: int|
                start <= j < end && after_right[j] == i by {
                if tree_contains(t, i) {
                    if tree_contains(left, i) {
                        let jl = choose|j: int| start <= j < mid && after_left[j] == i;
                        assert(after_right[jl] == i);
                    } else {
                        assert(tree_contains(right, i));
                    }
                } else {
                    if exists|j: int| start <= j < end && after_right[j] == i {
                        let j = choose|j: int| start <= j < end && after_right[j] == i;
                        if j < mid {
                            assert(after_left[j] == i);
                            assert(tree_contains(left, i));
                        } else {
                            assert(tree_contains(right, i));
                        }
                    }
                }
            }
            // the multisets agree span by span through the sort and the two
            // recursive builds
            assert(sorted.subrange(start as int, mid as int) + sorted.subrange(
                mid as int,
                end as int,
            ) =~= sorted.subrange(start as int, end as int));
            assert(after_left.subrange(mid as int, end as int) =~= sorted.subrange(
                mid as int,
                end as int,
            ));
            assert(after_left.subrange(start as int, mid as int) + after_left.subrange(
                mid as int,
                end as int,
            ) =~= after_left.subrange(start as int, end as int));
            assert(sorted.subrange(start as int, end as int).to_multiset() == sorted.subrange(
                start as int,
                mid as int,
            ).to_multiset().add(sorted.subrange(mid as int, end as int).to_multiset()));
            assert(after_left.subrange(start as int, end as int).to_multiset()
                == after_left.subrange(start as int, mid as int).to_multiset().add(
                after_left.subrange(mid as int, end as int).to_multiset(),
            ));
            assert(after_right.subrange(start as int, mid as int) + after_right.subrange(
                mid as int,
                end as int,
            ) =~= after_right.subrange(start as int, end as int));
            assert((after_right.subrange(start as int, mid as int) + after_right.subrange(
                mid as int,
                end as int,
            )).to_multiset() == after_right.subrange(start as int, end as int).to_multiset());
            assert(after_right.subrange(start as int, end as int).to_multiset()
                == after_right.subrange(start as int, mid as int).to_multiset().add(
                after_right.subrange(mid as int, end as int).to_multiset(),
            ));
            assert(after_left.subrange(mid as int, end as int) =~= sorted.subrange(
                mid as int,
                end as int,
            ));
            assert(after_left.subrange(start as int, end as int).to_multiset()
                == sorted.subrange(start as int, end as int).to_multiset());
            assert(after_right.subrange(start as int, end as int).to_multiset()
                == after_left.subrange(start as int, end as int).to_multiset());
            assert(tree_box_exact(t, objects@));
        }
        t
    }
}

/// The cached or leaf box of a built subtree.
fn tree_box_of(t: &BvhTree, objects: &Vec<Shapes>) -> (r: Aabb)
    requires
        tree_wf(*t, objects@.len() as int),
    ensures
        r == spec_tree_box(*t, objects@),
{
    match t {
        BvhTree::Prim(i) => objects[*i].bounding_box(),
        BvhTree::Node { left, right, bbox } => *bbox,
    }
}

/// Sorts the index span in place by the lower bound of the primitives'
/// boxes on the chosen axis, by insertion.
fn sort_span(objects: &Vec<Shapes>, idxs: &mut Vec<usize>, start: usize, end: usize, axis: i32)
    requires
        start <= end,
        end <= old(idxs)@.len(),
        forall|j: int| 0 <= j < old(idxs)@.len() ==> (#[trigger] old(idxs)@[j]) < objects@.len(),
    ensures
        final(idxs)@.len() == old(idxs)@.len(),
        forall|j: int| 0 <= j < final(idxs)@.len() ==> (#[trigger] final(idxs)@[j])
            < objects@.len(),
        forall|j: int|
            0 <= j < final(idxs)@.len() && !(start <= j < end) ==> final(idxs)@[j] == old(
                idxs,
            )@[j],
        final(idxs)@.subrange(start as int, end as int).to_multiset() == old(idxs)@.subrange(
            start as int,
            end as int,
        ).to_multiset(),
{
    let mut i: usize = start;
    while i < end
        invariant
            start <= i <= end,
            end <= idxs@.len(),
            idxs@.len() == old(idxs)@.len(),
            forall|j: int| 0 <= j < idxs@.len() ==> (#[trigger] idxs@[j]) < objects@.len(),
            forall|j: int|
                0 <= j < idxs@.len() && !(start <= j < end) ==> idxs@[j] == old(idxs)@[j],
            idxs@.subrange(start as int, end as int).to_multiset() == old(idxs)@.subrange(
                start as int,
                end as int,
            ).to_multiset(),
        decreases end - i,
    {
        let mut k: usize = i;
        while k > start
            invariant
                start <= k <= i < end,
                end <= idxs@.len(),
                idxs@.len() == old(idxs)@.len(),
                forall|j: int| 0 <= j < idxs@.len() ==> (#[trigger] idxs@[j]) < objects@.len(),
                forall|j: int|
                    0 <= j < idxs@.len() && !(start <= j < end) ==> idxs@[j] == old(idxs)@[j],
                idxs@.subrange(start as int, end as int).to_multiset() == old(idxs)@.subrange(
                    start as int,
                    end as int,
                ).to_multiset(),
            decreases k,
        {
            let here = idxs[k];
            let before = idxs[k - 1];
            let key_here = objects[here].bounding_box().axis_interval(axis).min;
            let key_before = objects[before].bounding_box().axis_interval(axis).min;
            if key_here.bits < key_before.bits {
                let ghost pre = idxs@;
                idxs.set(k, before);
                idxs.set(k - 1, here);
                proof {
                    let sub = pre.subrange(start as int, end as int);
                    let ki = k - start;
                    let kj = k - 1 - start;
                    assert(idxs@.subrange(start as int, end as int) =~= sub.update(
                        ki as int,
                        sub[kj as int],
                    ).update(kj as int, sub[ki as int]));
                    lemma_swap_multiset(sub, ki as int, kj as int);
                }
                k = k - 1;
            } else {
                break ;
            }
        }
        i = i + 1;
    }
}

/// Whether the subtree names primitive `i`.
pub open spec fn tree_contains(t: BvhTree, i: usize) -> bool
    decreases t,
{
    match t {
        BvhTree::Prim(j) => i == j,
        BvhTree::Node { left, right, bbox } => tree_contains(*left, i) || tree_contains(*right, i),
    }
}

/// A subtree's box encloses the box of every primitive it names.
proof fn lemma_tree_box_covers_prim(t: BvhTree, objects: Seq<Shapes>, i: usize)
    requires
        tree_wf(t, objects.len() as int),
        tree_boxes_wf(t, objects),
        tree_contains(t, i),
    ensures
        (i as int) < objects.len(),
        aabb_covers(spec_tree_box(t, objects), spec_shape_bounding_box(objects[i as int])),
    decreases t,
{
    match t {
        BvhTree::Prim(j) => {
        },
        BvhTree::Node { left, right, bbox } => {
            if tree_contains(*left, i) {
                lemma_tree_box_covers_prim(*left, objects, i);
            } else {
                lemma_tree_box_covers_prim(*right, objects, i);
            }
        },
    }
}

/// Pruning is sound: when a subtree's box fails the slab test, no
/// primitive the subtree names hits the ray within the query interval —
/// granted that a primitive's hit implies its own box passes the test,
/// which ties the intersection tests to the boxes they are cached under.
pub proof fn lemma_bvh_prune_sound(
    t: BvhTree,
    objects: Seq<Shapes>,
    r: Ray,
    tmin: int,
    tmax: int,
    i: usize,
)
    requires
        tree_wf(t, objects.len() as int),
        tree_boxes_wf(t, objects),
        forall|k: int|
            0 <= k < objects.len() ==> crate::aabb::aabb_sorted(
                spec_shape_bounding_box(#[trigger] objects[k]),
            ),
        tree_contains(t, i),
        !spec_aabb_hit(spec_tree_box(t, objects), r, crate::aabb::ivl(tmin, tmax)),
        spec_shape_hit(objects[i as int], r, tmin, tmax) is Some ==> spec_aabb_hit(
            spec_shape_bounding_box(objects[i as int]),
            r,
            crate::aabb::ivl(tmin, tmax),
        ),
    ensures
        spec_shape_hit(objects[i as int], r, tmin, tmax) is None,
{
    lemma_tree_box_covers_prim(t, objects, i);
    if spec_shape_hit(objects[i as int], r, tmin, tmax) is Some {
        crate::aabb::lemma_aabb_hit_covers(
            spec_shape_bounding_box(objects[i as int]),
            spec_tree_box(t, objects),
            r,
            crate::aabb::ivl(tmin, tmax),
        );
    }
}

/// One probe of a shape, opaque so the scan lemmas reason about probing
/// order without unrolling the intersection arithmetic.
#[verifier::opaque]
pub open spec fn spec_probe(s: Shapes, r: Ray, tmin: int, hi: int) -> Option<HitRecord> {
    spec_shape_hit(s, r, tmin, hi)
}

/// The scan of a sequence of shapes front to back: each shape is probed
/// with the interval narrowed to the closest hit so far, and the last
/// accepted record stands.
pub open spec fn spec_scan_seq(
    s: Seq<Shapes>,
    r: Ray,
    tmin: int,
    acc: Option<HitRecord>,
    closest: int,
) -> Option<HitRecord>
    decreases s.len(),
{
    if s.len() == 0 {
        acc
    } else {
        match spec_probe(s[0], r, tmin, closest) {
            Some(h) => spec_scan_seq(s.drop_first(), r, tmin, Some(h), h.t.bits as int),
            None => spec_scan_seq(s.drop_first(), r, tmin, acc, closest),
        }
    }
}

/// The probing hypotheses under which the traversal tracks the scan: a hit
/// passes the primitive's own box test on the interval it was found in;
/// widening the interval keeps the same record; and a record's parameter
/// lies within the interval that produced it.  On the fixed-point grid a
/// grazing hit can violate the first clause, which is why the equality
/// below assumes rather than proves it.
pub open spec fn prim_probe_sound(s: Shapes, r: Ray, tmin: int, tmax: int) -> bool {
    &&& forall|hi: int|
        hi <= tmax && (#[trigger] spec_probe(s, r, tmin, hi)) is Some ==> spec_aabb_hit(
            spec_shape_bounding_box(s),
            r,
            crate::aabb::ivl(tmin, hi),
        )
    &&& forall|hi1: int, hi2: int|
        hi1 <= hi2 <= tmax && (#[trigger] spec_probe(s, r, tmin, hi1)) is Some ==> #[trigger] spec_probe(
            s,
            r,
            tmin,
            hi2,
        ) == spec_probe(s, r, tmin, hi1)
    &&& forall|hi: int|
        hi <= tmax && (#[trigger] spec_probe(s, r, tmin, hi)) is Some ==> tmin < spec_probe(
            s,
            r,
            tmin,
            hi,
        )->Some_0.t.bits <= hi
}

/// The probing hypotheses over a whole arena.
pub open spec fn arena_probe_sound(objects: Seq<Shapes>, r: Ray, tmin: int, tmax: int) -> bool {
    forall|k: int| 0 <= k < objects.len() ==> prim_probe_sound(#[trigger] objects[k], r, tmin, tmax)
}

/// The shapes a subtree names, in traversal order.
pub open spec fn leaves_of(t: BvhTree, objects: Seq<Shapes>) -> Seq<Shapes> {
    tree_leaves(t).map_values(|i: usize| objects[i as int])
}

/// A scan over shapes that all miss leaves the accumulator alone.
proof fn lemma_scan_all_miss(
    s: Seq<Shapes>,
    r: Ray,
    tmin: int,
    acc: Option<HitRecord>,
    closest: int,
)
    requires
        forall|j: int| 0 <= j < s.len() ==> (#[trigger] spec_probe(s[j], r, tmin, closest))
            is None,
    ensures
        spec_scan_seq(s, r, tmin, acc, closest) == acc,
    decreases s.len(),
{
    if s.len() > 0 {
        assert(spec_probe(s[0], r, tmin, closest) is None);
        assert forall|j: int| 0 <= j < s.drop_first().len() implies (#[trigger] spec_probe(
            s.drop_first()[j],
            r,
            tmin,
            closest,
        )) is None by {
            assert(s.drop_first()[j] == s[j + 1]);
        }
        lemma_scan_all_miss(s.drop_first(), r, tmin, acc, closest);
    }
}

/// The narrowed upper bound a scan state stands at: the accumulated hit's
/// parameter, or the initial bound while nothing has been hit.
pub open spec fn scan_state_t(res: Option<HitRecord>, closest: int) -> int {
    match res {
        Some(h) => h.t.bits as int,
        None => closest,
    }
}

/// A scan that already holds a record keeps holding one.
proof fn lemma_scan_keeps_some(
    s: Seq<Shapes>,
    r: Ray,
    tmin: int,
    acc: Option<HitRecord>,
    closest: int,
)
    requires
        acc is Some,
    ensures
        spec_scan_seq(s, r, tmin, acc, closest) is Some,
    decreases s.len(),
{
    if s.len() > 0 {
        match spec_probe(s[0], r, tmin, closest) {
            Some(h) => {
                lemma_scan_keeps_some(s.drop_first(), r, tmin, Some(h), h.t.bits as int);
            },
            None => {
                lemma_scan_keeps_some(s.drop_first(), r, tmin, acc, closest);
            },
        }
    }
}

/// Scanning a concatenation scans the first part and hands its state to
/// the second, provided the accumulator's parameter tracks the narrowed
/// interval.
#[verifier::rlimit(100)]
proof fn lemma_scan_append(
    s1: Seq<Shapes>,
    s2: Seq<Shapes>,
    r: Ray,
    tmin: int,
    acc: Option<HitRecord>,
    closest: int,
)
    requires
        acc matches Some(h) ==> h.t.bits == closest,
    ensures
        spec_scan_seq(s1 + s2, r, tmin, acc, closest) == spec_scan_seq(
            s2,
            r,
            tmin,
            spec_scan_seq(s1, r, tmin, acc, closest),
            scan_state_t(spec_scan_seq(s1, r, tmin, acc, closest), closest),
        ),
    decreases s1.len(),
{
    if s1.len() == 0 {
        assert(s1 + s2 =~= s2);
        let mid = spec_scan_seq(s1, r, tmin, acc, closest);
        assert(mid == acc);
        let cmid = match mid {
            Some(h) => h.t.bits as int,
            None => closest,
        };
        assert(cmid == closest);
        assert(spec_scan_seq(s1 + s2, r, tmin, acc, closest) == spec_scan_seq(
            s2,
            r,
            tmin,
            mid,
            cmid,
        ));
    } else {
        assert((s1 + s2)[0] == s1[0]);
        assert((s1 + s2).drop_first() =~= s1.drop_first() + s2);
        match spec_probe(s1[0], r, tmin, closest) {
            Some(h) => {
                lemma_scan_append(s1.drop_first(), s2, r, tmin, Some(h), h.t.bits as int);
                lemma_scan_keeps_some(s1.drop_first(), r, tmin, Some(h), h.t.bits as int);
                assert(spec_scan_seq(s1 + s2, r, tmin, acc, closest) == spec_scan_seq(
                    s1.drop_first() + s2,
                    r,
                    tmin,
                    Some(h),
                    h.t.bits as int,
                ));
                assert(spec_scan_seq(s1, r, tmin, acc, closest) == spec_scan_seq(
                    s1.drop_first(),
                    r,
                    tmin,
                    Some(h),
                    h.t.bits as int,
                ));
            },
            None => {
                lemma_scan_append(s1.drop_first(), s2, r, tmin, acc, closest);
                assert(spec_scan_seq(s1 + s2, r, tmin, acc, closest) == spec_scan_seq(
                    s1.drop_first() + s2,
                    r,
                    tmin,
                    acc,
                    closest,
                ));
                assert(spec_scan_seq(s1, r, tmin, acc, closest) == spec_scan_seq(
                    s1.drop_first(),
                    r,
                    tmin,
                    acc,
                    closest,
                ));
            },
        }
    }
}

/// Every leaf index of a subtree is named by it.
proof fn lemma_leaves_contained(t: BvhTree, j: int)
    requires
        0 <= j < tree_leaves(t).len(),
    ensures
        tree_contains(t, tree_leaves(t)[j]),
    decreases t,
{
    match t {
        BvhTree::Prim(i) => {
        },
        BvhTree::Node { left, right, bbox } => {
            if j < tree_leaves(*left).len() {
                lemma_leaves_contained(*left, j);
            } else {
                lemma_leaves_contained(*right, j - tree_leaves(*left).len());
            }
        },
    }
}

/// When a subtree's box fails the slab test, every leaf probe misses.
proof fn lemma_pruned_leaves_miss(
    t: BvhTree,
    objects: Seq<Shapes>,
    r: Ray,
    tmin: int,
    closest: int,
    tmax0: int,
)
    requires
        tree_wf(t, objects.len() as int),
        tree_boxes_wf(t, objects),
        forall|k: int|
            0 <= k < objects.len() ==> crate::aabb::aabb_sorted(
                spec_shape_bounding_box(#[trigger] objects[k]),
            ),
        arena_probe_sound(objects, r, tmin, tmax0),
        closest <= tmax0,
        !spec_aabb_hit(spec_tree_box(t, objects), r, crate::aabb::ivl(tmin, closest)),
    ensures
        forall|j: int|
            0 <= j < leaves_of(t, objects).len() ==> (#[trigger] spec_probe(
                leaves_of(t, objects)[j],
                r,
                tmin,
                closest,
            )) is None,
{
    let lv = leaves_of(t, objects);
    assert forall|j: int| 0 <= j < lv.len() implies (#[trigger] spec_probe(
        lv[j],
        r,
        tmin,
        closest,
    )) is None by {
        let idx = tree_leaves(t)[j];
        lemma_leaves_contained(t, j);
        lemma_tree_box_covers_prim(t, objects, idx);
        assert(lv[j] == objects[idx as int]);
        assert(prim_probe_sound(objects[idx as int], r, tmin, tmax0));
        if spec_probe(objects[idx as int], r, tmin, closest) is Some {
            assert(spec_aabb_hit(
                spec_shape_bounding_box(objects[idx as int]),
                r,
                crate::aabb::ivl(tmin, closest),
            ));
            crate::aabb::lemma_aabb_hit_covers(
                spec_shape_bounding_box(objects[idx as int]),
                spec_tree_box(t, objects),
                r,
                crate::aabb::ivl(tmin, closest),
            );
        }
    }
}

/// The traversal tracks the in-order scan of its leaves: starting from any
/// accumulator whose parameter matches the narrowed bound, a subtree hit
/// means the scan ends on a record with the same parameter, and a subtree
/// miss leaves the scan's accumulator untouched.
#[verifier::rlimit(100)]
proof fn lemma_tree_tracks_scan(
    t: BvhTree,
    objects: Seq<Shapes>,
    r: Ray,
    tmin: int,
    acc: Option<HitRecord>,
    closest: int,
    tmax0: int,
)
    requires
        tree_wf(t, objects.len() as int),
        tree_boxes_wf(t, objects),
        forall|k: int|
            0 <= k < objects.len() ==> crate::aabb::aabb_sorted(
                spec_shape_bounding_box(#[trigger] objects[k]),
            ),
        arena_probe_sound(objects, r, tmin, tmax0),
        closest <= tmax0,
        acc matches Some(h) ==> h.t.bits == closest,
    ensures
        spec_tree_hit(t, objects, r, tmin, closest) matches Some(h) ==> (spec_scan_seq(
            leaves_of(t, objects),
            r,
            tmin,
            acc,
            closest,
        ) matches Some(g) && g.t == h.t && tmin < h.t.bits <= closest),
        spec_tree_hit(t, objects, r, tmin, closest) is None ==> spec_scan_seq(
            leaves_of(t, objects),
            r,
            tmin,
            acc,
            closest,
        ) == acc,
    decreases t,
{
    let th = spec_tree_hit(t, objects, r, tmin, closest);
    let lv = leaves_of(t, objects);
    match t {
        BvhTree::Prim(i) => {
            assert(lv =~= seq![objects[i as int]]);
            assert(lv.drop_first() =~= Seq::<Shapes>::empty());
            assert(prim_probe_sound(objects[i as int], r, tmin, tmax0));
            match spec_probe(lv[0], r, tmin, closest) {
                Some(h) => {
                    assert(spec_scan_seq(lv.drop_first(), r, tmin, Some(h), h.t.bits as int)
                        == Some(h));
                    assert(spec_scan_seq(lv, r, tmin, acc, closest) == Some(h));
                },
                None => {
                    assert(spec_scan_seq(lv.drop_first(), r, tmin, acc, closest) == acc);
                    assert(spec_scan_seq(lv, r, tmin, acc, closest) == acc);
                },
            }
        },
        BvhTree::Node { left, right, bbox } => {
            assert(lv =~= leaves_of(*left, objects) + leaves_of(*right, objects)) by {
                assert(tree_leaves(t) == tree_leaves(*left) + tree_leaves(*right));
            }
            let lvl = leaves_of(*left, objects);
            let lvr = leaves_of(*right, objects);
            let query = Interval {
                min: crate::fixed::Fx { bits: tmin as i64 },
                max: crate::fixed::Fx { bits: closest as i64 },
            };
            assert(query == crate::aabb::ivl(tmin, closest));
            if !spec_aabb_hit(bbox, r, query) {
                assert(th is None);
                lemma_pruned_leaves_miss(t, objects, r, tmin, closest, tmax0);
                lemma_scan_all_miss(lv, r, tmin, acc, closest);
            } else {
                let lh = spec_tree_hit(*left, objects, r, tmin, closest);
                lemma_tree_tracks_scan(*left, objects, r, tmin, acc, closest, tmax0);
                let mid = spec_scan_seq(lvl, r, tmin, acc, closest);
                let upper = match lh {
                    Some(h) => h.t.bits as int,
                    None => closest,
                };
                let cmid = scan_state_t(mid, closest);
                assert(cmid == upper);
                let rh = spec_tree_hit(*right, objects, r, tmin, upper);
                lemma_tree_tracks_scan(*right, objects, r, tmin, mid, upper, tmax0);
                lemma_scan_append(lvl, lvr, r, tmin, acc, closest);
                assert(spec_scan_seq(lv, r, tmin, acc, closest) == spec_scan_seq(
                    lvr,
                    r,
                    tmin,
                    mid,
                    cmid,
                ));
            }
        },
    }
}

/// The indexed scan the list's own test is specified by agrees with the
/// sequence scan the completeness theorem speaks of.
pub proof fn lemma_scan_list_eq_seq(
    objects: Seq<Shapes>,
    i: int,
    r: Ray,
    tmin: int,
    acc: Option<HitRecord>,
    closest: int,
)
    requires
        0 <= i <= objects.len(),
    ensures
        crate::shapes::spec_scan_list(objects, i, r, tmin, acc, closest) == spec_scan_seq(
            objects.subrange(i, objects.len() as int),
            r,
            tmin,
            acc,
            closest,
        ),
    decreases objects.len() - i,
{
    reveal(spec_probe);
    let sub = objects.subrange(i, objects.len() as int);
    if i < objects.len() {
        assert(sub[0] == objects[i]);
        assert(sub.drop_first() =~= objects.subrange(i + 1, objects.len() as int));
        match spec_probe(objects[i], r, tmin, closest) {
            Some(h) => {
                lemma_scan_list_eq_seq(objects, i + 1, r, tmin, Some(h), h.t.bits as int);
            },
            None => {
                lemma_scan_list_eq_seq(objects, i + 1, r, tmin, acc, closest);
            },
        }
    }
}

/// The hierarchy is complete relative to the straight scan of its leaves:
/// for any ray and query interval, the traversal reports a hit exactly
/// when the in-order scan of the leaf primitives does, and at the same
/// parameter.  The probing hypotheses tie each primitive's test to its
/// cached box; a grazing hit on the fixed-point grid can escape its box by
/// a rounding step, which is the one family of inputs left out here.
pub proof fn lemma_bvh_complete(t: BvhTree, objects: Seq<Shapes>, r: Ray, tmin: int, tmax: int)
    requires
        tree_wf(t, objects.len() as int),
        tree_boxes_wf(t, objects),
        forall|k: int|
            0 <= k < objects.len() ==> crate::aabb::aabb_sorted(
                spec_shape_bounding_box(#[trigger] objects[k]),
            ),
        arena_probe_sound(objects, r, tmin, tmax),
    ensures
        (spec_tree_hit(t, objects, r, tmin, tmax) is Some) == (spec_scan_seq(
            leaves_of(t, objects),
            r,
            tmin,
            None,
            tmax,
        ) is Some),
        spec_tree_hit(t, objects, r, tmin, tmax) matches Some(h) ==> spec_scan_seq(
            leaves_of(t, objects),
            r,
            tmin,
            None,
            tmax,
        )->Some_0.t == h.t,
{
    lemma_tree_tracks_scan(t, objects, r, tmin, None, tmax, tmax);
}

/// Whatever record the traversal returns came from some primitive's hit,
/// so its material index lies inside the arena.
pub proof fn lemma_tree_hit_mat(
    t: BvhTree,
    objects: Seq<Shapes>,
    r: Ray,
    tmin: int,
    tmax: int,
    mats: int,
)
    requires
        tree_wf(t, objects.len() as int),
        forall|i: int| 0 <= i < objects.len() ==> crate::shapes::shape_wf(
            #[trigger] objects[i],
            mats,
        ),
        spec_tree_hit(t, objects, r, tmin, tmax) is Some,
    ensures
        (spec_tree_hit(t, objects, r, tmin, tmax)->Some_0.mat as int) < mats,
    decreases t,
{
    match t {
        BvhTree::Prim(i) => {
            reveal(spec_probe);
            crate::shapes::lemma_shape_hit_mat(objects[i as int], r, tmin, tmax, mats);
        },
        BvhTree::Node { left, right, bbox } => {
            let lh = spec_tree_hit(*left, objects, r, tmin, tmax);
            let upper = match lh {
                Some(h) => h.t.bits as int,
                None => tmax,
            };
            if lh is Some {
                lemma_tree_hit_mat(*left, objects, r, tmin, tmax, mats);
            }
            if spec_tree_hit(*right, objects, r, tmin, upper) is Some {
                lemma_tree_hit_mat(*right, objects, r, tmin, upper, mats);
            }
        },
    }
}

/// The recursive traversal over the arena.
fn tree_hit(t: &BvhTree, objects: &Vec<Shapes>, r: Ray, ray_t: Interval) -> (res: Option<
    HitRecord,
>)
    requires
        tree_wf(*t, objects@.len() as int),
    ensures
        res == spec_tree_hit(*t, objects@, r, ray_t.min.bits as int, ray_t.max.bits as int),
    decreases *t,
{
    match t {
        BvhTree::Prim(i) => {
            proof {
                reveal(spec_probe);
            }
            objects[*i].hit(r, ray_t)
        },
        BvhTree::Node { left, right, bbox } => {
            if !bbox.hit(r, ray_t) {
                return None;
            }
            let lh = tree_hit(left, objects, r, ray_t);
            let upper: crate::fixed::Fx = match &lh {
                Some(h) => h.t,
                None => ray_t.max,
            };
            let rh = tree_hit(right, objects, r, Interval::new(ray_t.min, upper));
            match rh {
                Some(hr) => match lh {
                    Some(hl) => if hr.t.bits < hl.t.bits {
                        Some(hr)
                    } else {
                        Some(hl)
                    },
                    None => Some(hr),
                },
                None => lh,
            }
        },
    }
}

} // verus!
