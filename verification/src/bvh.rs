use vstd::prelude::*;

use crate::bound::{spec_aabb_hit, AABB};
use crate::hit::HitRecord;
use crate::materials::material_wf;
use crate::math::Ray;
use crate::random::random_in_range;
use crate::scene::{closest_hit_of, Scene};
use crate::shapes::{
    lemma_shape_hit_narrow, lemma_shape_hit_widen, shape_wf, spec_shape_bounding, spec_shape_hit,
    Shape,
};

verus! {

/// A node of the bounding-volume hierarchy: two children, each a primitive or
/// a subtree, and a box enclosing everything below. Built once over a scene's
/// objects and immutable afterward; it answers the same closest-hit question
/// as the scene's linear scan.
pub struct BVHNode {
    pub left: Box<BvhChild>,
    pub right: Box<BvhChild>,
    pub aabb: AABB,
}

/// A child of a node: either a leaf holding one shape, or a subtree.
pub enum BvhChild {
    Leaf(Shape),
    Node(BVHNode),
}

/// The shapes at the leaves below a child, in tree order.
pub open spec fn child_leaves(c: BvhChild) -> Seq<Shape>
    decreases c,
{
    match c {
        BvhChild::Leaf(s) => seq![s],
        BvhChild::Node(n) => child_leaves(*n.left) + child_leaves(*n.right),
    }
}

/// The shapes at the leaves below a node, in tree order.
pub open spec fn node_leaves(n: BVHNode) -> Seq<Shape> {
    child_leaves(*n.left) + child_leaves(*n.right)
}

pub open spec fn child_wf(c: BvhChild) -> bool
    decreases c,
{
    match c {
        BvhChild::Leaf(s) => shape_wf(s),
        BvhChild::Node(n) => child_wf(*n.left) && child_wf(*n.right),
    }
}

pub open spec fn node_wf(n: BVHNode) -> bool {
    child_wf(*n.left) && child_wf(*n.right)
}

/// The box a child reports to its parent: a leaf's shape box, or a
/// subtree's own box.
pub open spec fn child_bounding(c: BvhChild) -> AABB {
    match c {
        BvhChild::Leaf(s) => spec_shape_bounding(s),
        BvhChild::Node(n) => n.aabb,
    }
}

/// One box containing another on every axis.
pub open spec fn box_contains(outer: AABB, inner: AABB) -> bool {
    forall|i: int|
        0 <= i < 3 ==> outer.axes[i].min <= (#[trigger] inner.axes[i]).min && inner.axes[i].max
            <= outer.axes[i].max
}

/// Every node's box below this child is exactly the union of its two
/// children's boxes, and so contains the boxes of all the shapes at its
/// leaves.
pub open spec fn child_boxed(c: BvhChild) -> bool
    decreases c,
{
    match c {
        BvhChild::Leaf(_) => true,
        BvhChild::Node(n) => {
            &&& n.aabb == AABB::spec_unite(child_bounding(*n.left), child_bounding(*n.right))
            &&& forall|i: int|
                0 <= i < node_leaves(n).len() ==> box_contains(
                    n.aabb,
                    spec_shape_bounding(#[trigger] node_leaves(n)[i]),
                )
            &&& child_boxed(*n.left)
            &&& child_boxed(*n.right)
        },
    }
}

/// Containment of boxes is transitive.
proof fn lemma_box_contains_trans(a: AABB, b: AABB, c: AABB)
    requires
        box_contains(a, b),
        box_contains(b, c),
    ensures
        box_contains(a, c),
{
    assert forall|i: int|
        0 <= i < 3 implies a.axes[i].min <= (#[trigger] c.axes[i]).min && c.axes[i].max
        <= a.axes[i].max by {
        assert(a.axes[i].min <= b.axes[i].min && b.axes[i].max <= a.axes[i].max);
    }
}

/// The pruning hypothesis: below this child, every node's box test is
/// conservative for the given ray, over every window reaching no farther than
/// `t_max`. Exact arithmetic rounds each quantity separately, so a hit lying
/// on a box's boundary can slip a truncated slab test; this predicate names
/// the rays for which that does not happen.
pub open spec fn child_covers(c: BvhChild, ray: Ray, t_min: int, t_max: int) -> bool
    decreases c,
{
    match c {
        BvhChild::Leaf(_) => true,
        BvhChild::Node(n) => {
            &&& forall|w: int|
                t_min <= w <= t_max && !#[trigger] spec_aabb_hit(n.aabb, ray, t_min, w) ==> (forall|
                    i: int,
                |
                    0 <= i < node_leaves(n).len() ==> spec_shape_hit(
                        #[trigger] node_leaves(n)[i],
                        ray,
                        t_min,
                        w,
                    ) is None)
            &&& child_covers(*n.left, ray, t_min, t_max)
            &&& child_covers(*n.right, ray, t_min, t_max)
        },
    }
}

pub open spec fn node_covers(n: BVHNode, ray: Ray, t_min: int, t_max: int) -> bool {
    child_covers(BvhChild::Node(n), ray, t_min, t_max)
}

/// Conservativeness over a window extends to every narrower window.
proof fn lemma_covers_narrow(c: BvhChild, ray: Ray, t_min: int, w1: int, w2: int)
    requires
        w1 <= w2,
        child_covers(c, ray, t_min, w2),
    ensures
        child_covers(c, ray, t_min, w1),
    decreases c,
{
    match c {
        BvhChild::Leaf(_) => {},
        BvhChild::Node(n) => {
            lemma_covers_narrow(*n.left, ray, t_min, w1, w2);
            lemma_covers_narrow(*n.right, ray, t_min, w1, w2);
        },
    }
}

/// Every leaf below a well-formed child is itself well-formed.
proof fn lemma_child_leaves_wf(c: BvhChild)
    requires
        child_wf(c),
    ensures
        forall|i: int| 0 <= i < child_leaves(c).len() ==> shape_wf(#[trigger] child_leaves(c)[i]),
    decreases c,
{
    match c {
        BvhChild::Leaf(_) => {},
        BvhChild::Node(n) => {
            lemma_child_leaves_wf(*n.left);
            lemma_child_leaves_wf(*n.right);
            assert forall|i: int| 0 <= i < child_leaves(c).len() implies shape_wf(
                #[trigger] child_leaves(c)[i],
            ) by {
                let la = child_leaves(*n.left);
                let lb = child_leaves(*n.right);
                if i < la.len() {
                    assert(child_leaves(c)[i] == la[i]);
                } else {
                    assert(child_leaves(c)[i] == lb[i - la.len()]);
                }
            }
        },
    }
}

/// A one-element collection holds exactly that element.
proof fn lemma_singleton_contains(a: Shape)
    ensures
        forall|s: Shape| #[trigger] seq![a].contains(s) <==> s == a,
{
    assert forall|s: Shape| #[trigger] seq![a].contains(s) <==> s == a by {
        if seq![a].contains(s) {
            let i = choose|i: int| 0 <= i < seq![a].len() && seq![a][i] == s;
            assert(i == 0);
        }
        if s == a {
            assert(seq![a][0] == s);
        }
    }
}

/// Membership in a concatenation is membership in either part.
pub proof fn lemma_contains_concat(a: Seq<Shape>, b: Seq<Shape>)
    ensures
        forall|s: Shape| #[trigger] (a + b).contains(s) <==> a.contains(s) || b.contains(s),
{
    assert forall|s: Shape| #[trigger] (a + b).contains(s) implies a.contains(s) || b.contains(
        s,
    ) by {
        let i = choose|i: int| 0 <= i < (a + b).len() && (a + b)[i] == s;
        if i < a.len() {
            assert(a[i] == s);
        } else {
            assert(b[i - a.len()] == s);
        }
    }
    assert forall|s: Shape| a.contains(s) || b.contains(s) implies #[trigger] (a + b).contains(
        s,
    ) by {
        if a.contains(s) {
            let i = choose|i: int| 0 <= i < a.len() && a[i] == s;
            assert((a + b)[i] == s);
        } else {
            let i = choose|i: int| 0 <= i < b.len() && b[i] == s;
            assert((a + b)[a.len() + i] == s);
        }
    }
}

/// Combining the children's answers the way the traversal does yields the
/// closest hit over the concatenated leaves: the left child is probed over
/// the full window, the right child over the window shrunk to the left's hit,
/// and the right answer wins when it exists.
proof fn lemma_closest_concat(
    la: Seq<Shape>,
    lb: Seq<Shape>,
    ray: Ray,
    t_min: i64,
    t_max: i64,
    ra: Option<HitRecord>,
    rb: Option<HitRecord>,
)
    requires
        closest_hit_of(la, ray, t_min as int, t_max as int, ra),
        ra matches Some(h) ==> closest_hit_of(lb, ray, t_min as int, h.t as int, rb),
        ra is None ==> closest_hit_of(lb, ray, t_min as int, t_max as int, rb),
        ra matches Some(h) ==> t_min < h.t < t_max,
    ensures
        closest_hit_of(
            la + lb,
            ray,
            t_min as int,
            t_max as int,
            if rb is Some {
                rb
            } else {
                ra
            },
        ),
{
    let all = la + lb;
    match ra {
        None => {
            match rb {
                None => {
                    assert forall|i: int| 0 <= i < all.len() implies spec_shape_hit(
                        #[trigger] all[i],
                        ray,
                        t_min as int,
                        t_max as int,
                    ) is None by {
                        if i < la.len() {
                            assert(all[i] == la[i]);
                        } else {
                            assert(all[i] == lb[i - la.len()]);
                        }
                    }
                },
                Some(hb) => {
                    let j = choose|j: int|
                        0 <= j < lb.len() && spec_shape_hit(
                            #[trigger] lb[j],
                            ray,
                            t_min as int,
                            t_max as int,
                        ) == Some(hb);
                    assert(all[la.len() + j] == lb[j]);
                    assert forall|i: int|
                        0 <= i < all.len() && spec_shape_hit(
                            #[trigger] all[i],
                            ray,
                            t_min as int,
                            t_max as int,
                        ) is Some implies hb.t <= spec_shape_hit(
                        all[i],
                        ray,
                        t_min as int,
                        t_max as int,
                    )->Some_0.t by {
                        if i < la.len() {
                            assert(all[i] == la[i]);
                        } else {
                            assert(all[i] == lb[i - la.len()]);
                        }
                    }
                },
            }
        },
        Some(ha) => {
            match rb {
                None => {
                    // No leaf on the right beats the left's hit: a nearer one
                    // would already appear inside the shrunk window.
                    assert forall|i: int|
                        0 <= i < lb.len() && spec_shape_hit(
                            #[trigger] lb[i],
                            ray,
                            t_min as int,
                            t_max as int,
                        ) is Some implies ha.t <= spec_shape_hit(
                        lb[i],
                        ray,
                        t_min as int,
                        t_max as int,
                    )->Some_0.t by {
                        let h2 = spec_shape_hit(lb[i], ray, t_min as int, t_max as int)->Some_0;
                        if (h2.t as int) < ha.t {
                            lemma_shape_hit_narrow(lb[i], ray, t_min, ha.t, t_max);
                        }
                    }
                    let j = choose|j: int|
                        0 <= j < la.len() && spec_shape_hit(
                            #[trigger] la[j],
                            ray,
                            t_min as int,
                            t_max as int,
                        ) == Some(ha);
                    assert(all[j] == la[j]);
                    assert forall|i: int|
                        0 <= i < all.len() && spec_shape_hit(
                            #[trigger] all[i],
                            ray,
                            t_min as int,
                            t_max as int,
                        ) is Some implies ha.t <= spec_shape_hit(
                        all[i],
                        ray,
                        t_min as int,
                        t_max as int,
                    )->Some_0.t by {
                        if i < la.len() {
                            assert(all[i] == la[i]);
                        } else {
                            assert(all[i] == lb[i - la.len()]);
                        }
                    }
                },
                Some(hb) => {
                    // The right child found a strictly nearer hit.
                    let j = choose|j: int|
                        0 <= j < lb.len() && spec_shape_hit(
                            #[trigger] lb[j],
                            ray,
                            t_min as int,
                            ha.t as int,
                        ) == Some(hb);
                    lemma_shape_hit_widen(lb[j], ray, t_min, ha.t, t_max);
                    assert(spec_shape_hit(lb[j], ray, t_min as int, t_max as int) == Some(hb));
                    assert(all[la.len() + j] == lb[j]);
                    assert forall|i: int|
                        0 <= i < lb.len() && spec_shape_hit(
                            #[trigger] lb[i],
                            ray,
                            t_min as int,
                            t_max as int,
                        ) is Some implies hb.t <= spec_shape_hit(
                        lb[i],
                        ray,
                        t_min as int,
                        t_max as int,
                    )->Some_0.t by {
                        let h2 = spec_shape_hit(lb[i], ray, t_min as int, t_max as int)->Some_0;
                        if (h2.t as int) < hb.t {
                            lemma_shape_hit_narrow(lb[i], ray, t_min, ha.t, t_max);
                        }
                    }
                    assert forall|i: int|
                        0 <= i < all.len() && spec_shape_hit(
                            #[trigger] all[i],
                            ray,
                            t_min as int,
                            t_max as int,
                        ) is Some implies hb.t <= spec_shape_hit(
                        all[i],
                        ray,
                        t_min as int,
                        t_max as int,
                    )->Some_0.t by {
                        if i < la.len() {
                            assert(all[i] == la[i]);
                        } else {
                            assert(all[i] == lb[i - la.len()]);
                        }
                    }
                },
            }
        },
    }
}

/// Two collections with the same shapes give the same nearest-hit outcome:
/// both miss together, and when both hit, the hit parameters agree. This is
/// what makes the hierarchy a pure accelerator over the scene's linear scan.
pub proof fn lemma_closest_hit_agree(
    objs1: Seq<Shape>,
    objs2: Seq<Shape>,
    ray: Ray,
    t_min: int,
    t_max: int,
    r1: Option<HitRecord>,
    r2: Option<HitRecord>,
)
    requires
        forall|s: Shape| objs1.contains(s) <==> objs2.contains(s),
        closest_hit_of(objs1, ray, t_min, t_max, r1),
        closest_hit_of(objs2, ray, t_min, t_max, r2),
    ensures
        r1 is Some <==> r2 is Some,
        r1 matches Some(h1) ==> r2 matches Some(h2) && h1.t == h2.t,
{
    if r1 is Some && r2 is None {
        let h1 = r1->Some_0;
        let i = choose|i: int|
            0 <= i < objs1.len() && spec_shape_hit(#[trigger] objs1[i], ray, t_min, t_max) == Some(
                h1,
            );
        assert(objs1.contains(objs1[i]));
        let j = choose|j: int| 0 <= j < objs2.len() && objs2[j] == objs1[i];
        assert(spec_shape_hit(objs2[j], ray, t_min, t_max) == Some(h1));
    }
    if r2 is Some && r1 is None {
        let h2 = r2->Some_0;
        let i = choose|i: int|
            0 <= i < objs2.len() && spec_shape_hit(#[trigger] objs2[i], ray, t_min, t_max) == Some(
                h2,
            );
        assert(objs2.contains(objs2[i]));
        let j = choose|j: int| 0 <= j < objs1.len() && objs1[j] == objs2[i];
        assert(spec_shape_hit(objs1[j], ray, t_min, t_max) == Some(h2));
    }
    if r1 is Some && r2 is Some {
        let h1 = r1->Some_0;
        let h2 = r2->Some_0;
        let i = choose|i: int|
            0 <= i < objs1.len() && spec_shape_hit(#[trigger] objs1[i], ray, t_min, t_max) == Some(
                h1,
            );
        assert(objs1.contains(objs1[i]));
        let j = choose|j: int| 0 <= j < objs2.len() && objs2[j] == objs1[i];
        assert(spec_shape_hit(objs2[j], ray, t_min, t_max) == Some(h1));
        let i2 = choose|i2: int|
            0 <= i2 < objs2.len() && spec_shape_hit(#[trigger] objs2[i2], ray, t_min, t_max)
                == Some(h2);
        assert(objs2.contains(objs2[i2]));
        let j2 = choose|j2: int| 0 <= j2 < objs1.len() && objs1[j2] == objs2[i2];
        assert(spec_shape_hit(objs1[j2], ray, t_min, t_max) == Some(h2));
    }
}

/// The lower edge of a shape's box on the given axis, the key the
/// hierarchy partitions by.
pub open spec fn axis_key(s: Shape, axis: int) -> int {
    spec_shape_bounding(s).axes[axis].min as int
}

/// Whether the lower edge of `a`'s box on the given axis sits before `b`'s.
fn compare_axis(a: &Shape, b: &Shape, axis: usize) -> (r: bool)
    requires
        axis < 3,
    ensures
        r == (axis_key(*a, axis as int) <= axis_key(*b, axis as int)),
{
    a.bounding().axes[axis].min <= b.bounding().axes[axis].min
}

/// Orders the shapes by the lower edge of their boxes on the given axis, by
/// repeated selection of the least: the result holds the same shapes,
/// arranged with keys that never decrease.
fn sort_by_axis(objects: Vec<Shape>, axis: usize) -> (r: Vec<Shape>)
    requires
        axis < 3,
    ensures
        r@.to_multiset() == objects@.to_multiset(),
        r@.len() == objects@.len(),
        forall|s: Shape| r@.contains(s) <==> objects@.contains(s),
        forall|i: int, j: int|
            0 <= i <= j < r@.len() ==> #[trigger] axis_key(r@[i], axis as int)
                <= #[trigger] axis_key(r@[j], axis as int),
{
    broadcast use vstd::seq_lib::group_to_multiset_ensures;

    let mut src = objects;
    let mut out: Vec<Shape> = Vec::new();
    let ghost orig = src@;
    proof {
        assert(out@.to_multiset().add(src@.to_multiset()) =~= orig.to_multiset());
    }
    while src.len() > 0
        invariant
            axis < 3,
            out@.to_multiset().add(src@.to_multiset()) == orig.to_multiset(),
            out@.len() + src@.len() == orig.len(),
            forall|i: int, j: int|
                0 <= i <= j < out@.len() ==> #[trigger] axis_key(out@[i], axis as int)
                    <= #[trigger] axis_key(out@[j], axis as int),
            forall|i: int, j: int|
                0 <= i < out@.len() && 0 <= j < src@.len() ==> #[trigger] axis_key(
                    out@[i],
                    axis as int,
                ) <= #[trigger] axis_key(src@[j], axis as int),
        decreases src.len(),
    {
        let mut best: usize = 0;
        let mut i: usize = 1;
        while i < src.len()
            invariant
                axis < 3,
                best < src@.len(),
                i <= src@.len(),
                src@.len() > 0,
                forall|j: int|
                    0 <= j < i ==> axis_key(src@[best as int], axis as int) <= #[trigger] axis_key(
                        src@[j],
                        axis as int,
                    ),
            decreases src.len() - i,
        {
            if compare_axis(&src[i], &src[best], axis) {
                best = i;
            }
            i = i + 1;
        }
        let ghost src_before = src@;
        let ghost out_before = out@;
        let x = src.remove(best);
        out.push(x);
        proof {
            broadcast use vstd::seq_lib::group_to_multiset_ensures;

            assert(src_before.remove(best as int).to_multiset() =~= src_before.to_multiset()
                .remove(x));
            assert(src_before.to_multiset().count(x) > 0) by {
                assert(src_before.contains(x));
            }
            assert(out@.to_multiset().add(src@.to_multiset()) =~= orig.to_multiset());
            assert forall|i: int, j: int|
                0 <= i <= j < out@.len() implies #[trigger] axis_key(out@[i], axis as int)
                <= #[trigger] axis_key(out@[j], axis as int) by {
                if j < out_before.len() {
                    assert(out@[i] == out_before[i] && out@[j] == out_before[j]);
                } else {
                    assert(out@[j] == x);
                    if i < out_before.len() {
                        assert(out@[i] == out_before[i]);
                        assert(axis_key(out_before[i], axis as int) <= axis_key(
                            src_before[best as int],
                            axis as int,
                        ));
                    }
                }
            }
            assert forall|i: int, j: int|
                0 <= i < out@.len() && 0 <= j < src@.len() implies #[trigger] axis_key(
                out@[i],
                axis as int,
            ) <= #[trigger] axis_key(src@[j], axis as int) by {
                let jj = if j < best as int {
                    j
                } else {
                    j + 1
                };
                assert(src@[j] == src_before[jj]);
                assert(axis_key(src_before[best as int], axis as int) <= axis_key(
                    src_before[jj],
                    axis as int,
                ));
                if i < out_before.len() {
                    assert(out@[i] == out_before[i]);
                    assert(axis_key(out_before[i], axis as int) <= axis_key(
                        src_before[jj],
                        axis as int,
                    ));
                } else {
                    assert(out@[i] == x);
                }
            }
        }
    }
    proof {
        assert(out@.to_multiset() =~= orig.to_multiset());
        assert forall|s: Shape| out@.contains(s) <==> orig.contains(s) by {
            assert(out@.contains(s) <==> out@.to_multiset().count(s) > 0);
            assert(orig.contains(s) <==> orig.to_multiset().count(s) > 0);
        }
    }
    out
}

impl BVHNode {
    /// Builds the hierarchy over the objects of a scene, which must hold at
    /// least one. The tree holds exactly the scene's shapes at its leaves.
    pub fn from_scene(scene: Scene) -> (r: Self)
        requires
            scene.wf(),
            scene.objects@.len() > 0,
        ensures
            node_wf(r),
            child_boxed(BvhChild::Node(r)),
            forall|s: Shape| node_leaves(r).contains(s) <==> scene.objects@.contains(s),
    {
        BVHNode::from_objects(scene.objects)
    }

    /// Builds a subtree over a nonempty set of objects: a single object
    /// becomes both children, two are ordered along a random axis, and more
    /// are sorted along a random axis and split at the middle.
    fn from_objects(objects: Vec<Shape>) -> (r: Self)
        requires
            objects@.len() > 0,
            forall|i: int| 0 <= i < objects@.len() ==> shape_wf(#[trigger] objects@[i]),
        ensures
            node_wf(r),
            child_boxed(BvhChild::Node(r)),
            forall|s: Shape| node_leaves(r).contains(s) <==> objects@.contains(s),
        decreases objects@.len(),
    {
        let axis_draw = random_in_range(0, 3);
        let axis: usize = if axis_draw <= 0 {
            0
        } else if axis_draw == 1 {
            1
        } else {
            2
        };
        let ghost orig = objects@;
        if objects.len() == 1 {
            let only = objects[0];
            let left = BvhChild::Leaf(only);
            let right = BvhChild::Leaf(only);
            let aabb = AABB::unite(only.bounding(), only.bounding());
            let r = Self { left: Box::new(left), right: Box::new(right), aabb };
            proof {
                assert(node_leaves(r) =~= seq![only] + seq![only]);
                assert forall|i: int| 0 <= i < node_leaves(r).len() implies box_contains(
                    r.aabb,
                    spec_shape_bounding(#[trigger] node_leaves(r)[i]),
                ) by {
                    assert(node_leaves(r)[i] == only);
                }
                assert(child_boxed(BvhChild::Leaf(only)));
                assert(child_boxed(BvhChild::Node(r)));
                lemma_contains_concat(seq![only], seq![only]);
                lemma_singleton_contains(only);
                assert forall|s: Shape| node_leaves(r).contains(s) <==> orig.contains(s) by {
                    assert(seq![only].contains(s) <==> s == only);
                    assert(orig.contains(s) <==> s == only) by {
                        if orig.contains(s) {
                            let i = choose|i: int| 0 <= i < orig.len() && orig[i] == s;
                            assert(orig[0] == only);
                        }
                        if s == only {
                            assert(orig[0] == s);
                        }
                    }
                }
            }
            r
        } else if objects.len() == 2 {
            let a = objects[0];
            let b = objects[1];
            let (first, second) = if compare_axis(&a, &b, axis) {
                (a, b)
            } else {
                (b, a)
            };
            let aabb = AABB::unite(first.bounding(), second.bounding());
            let r = Self {
                left: Box::new(BvhChild::Leaf(first)),
                right: Box::new(BvhChild::Leaf(second)),
                aabb,
            };
            proof {
                assert(node_leaves(r) =~= seq![first] + seq![second]);
                assert forall|i: int| 0 <= i < node_leaves(r).len() implies box_contains(
                    r.aabb,
                    spec_shape_bounding(#[trigger] node_leaves(r)[i]),
                ) by {
                    assert(node_leaves(r)[0] == first && node_leaves(r)[1] == second);
                }
                assert(child_boxed(BvhChild::Leaf(first)));
                assert(child_boxed(BvhChild::Leaf(second)));
                assert(child_boxed(BvhChild::Node(r)));
                lemma_contains_concat(seq![first], seq![second]);
                lemma_singleton_contains(first);
                lemma_singleton_contains(second);
                assert forall|s: Shape| node_leaves(r).contains(s) <==> orig.contains(s) by {
                    assert(seq![first].contains(s) <==> s == first);
                    assert(seq![second].contains(s) <==> s == second);
                    if orig.contains(s) {
                        let i = choose|i: int| 0 <= i < orig.len() && orig[i] == s;
                        assert(i == 0 || i == 1);
                    }
                    if s == a {
                        assert(orig[0] == s);
                    }
                    if s == b {
                        assert(orig[1] == s);
                    }
                }
            }
            r
        } else {
            let sorted = sort_by_axis(objects, axis);
            let ghost sorted_view = sorted@;
            let mut left_vec = sorted;
            let mid = left_vec.len() / 2;
            let right_vec = left_vec.split_off(mid);
            proof {
                assert(left_vec@ + right_vec@ =~= sorted_view);
                lemma_contains_concat(left_vec@, right_vec@);
                assert forall|i: int| 0 <= i < left_vec@.len() implies shape_wf(
                    #[trigger] left_vec@[i],
                ) by {
                    assert(left_vec@[i] == sorted_view[i]);
                    assert(sorted_view.contains(sorted_view[i]));
                    let j = choose|j: int| 0 <= j < orig.len() && orig[j] == sorted_view[i];
                }
                assert forall|i: int| 0 <= i < right_vec@.len() implies shape_wf(
                    #[trigger] right_vec@[i],
                ) by {
                    assert(right_vec@[i] == sorted_view[mid + i]);
                    assert(sorted_view.contains(sorted_view[mid + i]));
                    let j = choose|j: int| 0 <= j < orig.len() && orig[j] == sorted_view[mid + i];
                }
            }
            let left_node = BVHNode::from_objects(left_vec);
            let right_node = BVHNode::from_objects(right_vec);
            let aabb = AABB::unite(left_node.aabb, right_node.aabb);
            let r = Self {
                left: Box::new(BvhChild::Node(left_node)),
                right: Box::new(BvhChild::Node(right_node)),
                aabb,
            };
            proof {
                lemma_contains_concat(node_leaves(left_node), node_leaves(right_node));
                assert forall|s: Shape| node_leaves(r).contains(s) <==> orig.contains(s) by {
                    assert(node_leaves(r).contains(s) <==> node_leaves(left_node).contains(s)
                        || node_leaves(right_node).contains(s));
                }
                let la = node_leaves(left_node);
                let lb = node_leaves(right_node);
                assert(box_contains(r.aabb, left_node.aabb));
                assert(box_contains(r.aabb, right_node.aabb));
                assert forall|i: int| 0 <= i < node_leaves(r).len() implies box_contains(
                    r.aabb,
                    spec_shape_bounding(#[trigger] node_leaves(r)[i]),
                ) by {
                    if i < la.len() {
                        assert(node_leaves(r)[i] == la[i]);
                        lemma_box_contains_trans(
                            r.aabb,
                            left_node.aabb,
                            spec_shape_bounding(la[i]),
                        );
                    } else {
                        assert(node_leaves(r)[i] == lb[i - la.len()]);
                        lemma_box_contains_trans(
                            r.aabb,
                            right_node.aabb,
                            spec_shape_bounding(lb[i - la.len()]),
                        );
                    }
                }
                assert(child_boxed(BvhChild::Node(r)));
            }
            r
        }
    }

    /// The box enclosing everything below this node.
    pub fn bounding(&self) -> (r: AABB)
        ensures
            r == self.aabb,
    {
        self.aabb
    }

    /// The nearest hit of the ray against any leaf below this node, inside
    /// the window. Any record returned is a genuine nearest-candidate hit;
    /// when the ray's pruning tests are conservative over the tree, the
    /// answer is exactly the closest hit over all leaves, as a linear scan
    /// would find it.
    pub fn hit(&self, ray: &Ray, t_min: i64, t_max: i64) -> (r: Option<HitRecord>)
        requires
            node_wf(*self),
        ensures
            r matches Some(h) ==> t_min < h.t < t_max && material_wf(h.material)
                && ray.direction.spec_sq_mag() > 0 && exists|i: int|
                0 <= i < node_leaves(*self).len() && spec_shape_hit(
                    #[trigger] node_leaves(*self)[i],
                    *ray,
                    t_min as int,
                    t_max as int,
                ) == Some(h),
            node_covers(*self, *ray, t_min as int, t_max as int) ==> closest_hit_of(
                node_leaves(*self),
                *ray,
                t_min as int,
                t_max as int,
                r,
            ),
        decreases *self,
    {
        if !self.aabb.hit(ray, t_min, t_max) {
            proof {
                if node_covers(*self, *ray, t_min as int, t_max as int) {
                    if t_min > t_max {
                        assert forall|i: int| 0 <= i < node_leaves(*self).len() implies
                            spec_shape_hit(
                            #[trigger] node_leaves(*self)[i],
                            *ray,
                            t_min as int,
                            t_max as int,
                        ) is None by {
                            lemma_shape_hit_no_window(node_leaves(*self)[i], *ray, t_min, t_max);
                        }
                    }
                }
            }
            return None;
        }
        let left_result = hit_child(&self.left, ray, t_min, t_max);
        let shrunk = match &left_result {
            Some(h) => h.t,
            None => t_max,
        };
        proof {
            if node_covers(*self, *ray, t_min as int, t_max as int) {
                lemma_covers_narrow(*self.right, *ray, t_min as int, shrunk as int, t_max as int);
            }
        }
        let right_result = hit_child(&self.right, ray, t_min, shrunk);
        let result = match right_result {
            Some(h) => Some(h),
            None => left_result,
        };
        proof {
            let la = child_leaves(*self.left);
            let lb = child_leaves(*self.right);
            if node_covers(*self, *ray, t_min as int, t_max as int) {
                lemma_closest_concat(la, lb, *ray, t_min, t_max, left_result, right_result);
            }
            match right_result {
                Some(hr) => {
                    let i = choose|i: int|
                        0 <= i < lb.len() && spec_shape_hit(
                            #[trigger] lb[i],
                            *ray,
                            t_min as int,
                            shrunk as int,
                        ) == Some(hr);
                    lemma_shape_hit_widen(lb[i], *ray, t_min, shrunk, t_max);
                    assert(node_leaves(*self)[la.len() + i] == lb[i]);
                },
                None => {
                    match left_result {
                        Some(h) => {
                            let i = choose|i: int|
                                0 <= i < la.len() && spec_shape_hit(
                                    #[trigger] la[i],
                                    *ray,
                                    t_min as int,
                                    t_max as int,
                                ) == Some(h);
                            assert(node_leaves(*self)[i] == la[i]);
                        },
                        None => {},
                    }
                },
            }
        }
        result
    }
}

/// An empty or inverted window admits no hit.
proof fn lemma_shape_hit_no_window(s: Shape, ray: Ray, t_min: i64, t_max: i64)
    requires
        t_max <= t_min,
    ensures
        spec_shape_hit(s, ray, t_min as int, t_max as int) is None,
{
    reveal(crate::shapes::Sphere::spec_hit);
    reveal(crate::shapes::Triangle::spec_hit);
}

/// The nearest hit below one child of a node.
fn hit_child(c: &BvhChild, ray: &Ray, t_min: i64, t_max: i64) -> (r: Option<HitRecord>)
    requires
        child_wf(*c),
    ensures
        r matches Some(h) ==> t_min < h.t < t_max && material_wf(h.material)
            && ray.direction.spec_sq_mag() > 0 && exists|i: int|
            0 <= i < child_leaves(*c).len() && spec_shape_hit(
                #[trigger] child_leaves(*c)[i],
                *ray,
                t_min as int,
                t_max as int,
            ) == Some(h),
        child_covers(*c, *ray, t_min as int, t_max as int) ==> closest_hit_of(
            child_leaves(*c),
            *ray,
            t_min as int,
            t_max as int,
            r,
        ),
    decreases *c,
{
    match c {
        BvhChild::Leaf(s) => {
            let r = s.hit(ray, t_min, t_max);
            proof {
                if r matches Some(h) {
                    assert(child_leaves(*c)[0] == *s);
                }
                match r {
                    None => {
                        assert forall|i: int| 0 <= i < child_leaves(*c).len() implies
                            spec_shape_hit(
                            #[trigger] child_leaves(*c)[i],
                            *ray,
                            t_min as int,
                            t_max as int,
                        ) is None by {
                            assert(child_leaves(*c)[i] == *s);
                        }
                    },
                    Some(h) => {
                        assert forall|i: int|
                            0 <= i < child_leaves(*c).len() && spec_shape_hit(
                                #[trigger] child_leaves(*c)[i],
                                *ray,
                                t_min as int,
                                t_max as int,
                            ) is Some implies h.t <= spec_shape_hit(
                            child_leaves(*c)[i],
                            *ray,
                            t_min as int,
                            t_max as int,
                        )->Some_0.t by {
                            assert(child_leaves(*c)[i] == *s);
                        }
                    },
                }
            }
            r
        },
        BvhChild::Node(n) => n.hit(ray, t_min, t_max),
    }
}

} // verus!
