//! What holds of the quadtree whatever is inserted and asked: insertion keeps
//! the invariant and every agent, divides at most one node, and a query never
//! returns its own target and misses nothing once its radius spans the tree.

use vstd::prelude::*;
use vstd::multiset::Multiset;
use vstd::seq_lib::*;
use crate::arith::{abs, lemma_square_monotone};
use crate::boid::Boid;
use crate::geometry::{Quadrant, Rectangle, UNIT, lemma_quadrants_cover, lemma_quadrant_inside};
use crate::node::{other_than, lemma_place_wf, QuadrantsView, TreeView};

verus! {

/// Insertion keeps the invariant, the capacity and the rectangle of a tree.
pub proof fn lemma_insert_wf(tree: TreeView, boid: Boid)
    requires
        tree.wf(),
    ensures
        tree.insert(boid).wf(),
        tree.insert(boid).capacity == tree.capacity,
        tree.insert(boid).boundary == tree.boundary,
    decreases tree, 1nat,
{
    if tree.accepts(boid) && tree.boids.len() >= tree.capacity {
        match tree.children {
            None => {
                lemma_quadrant_inside(tree.boundary, Quadrant::TopLeft, 0, 0);
                lemma_quadrant_inside(tree.boundary, Quadrant::TopRight, 0, 0);
                lemma_quadrant_inside(tree.boundary, Quadrant::BottomLeft, 0, 0);
                lemma_quadrant_inside(tree.boundary, Quadrant::BottomRight, 0, 0);
                lemma_place_wf(tree.parts(), boid);
            },
            Some(parts) => {
                lemma_parts_insert_wf(*parts, boid);
            },
        }
    }
}

/// Insertion into the parts of a divided node keeps the invariant, the
/// capacity and the rectangle of each part.
pub proof fn lemma_parts_insert_wf(parts: QuadrantsView, boid: Boid)
    requires
        parts.top_left.wf(),
        parts.top_right.wf(),
        parts.bottom_left.wf(),
        parts.bottom_right.wf(),
    ensures
        parts.insert(boid).top_left.wf(),
        parts.insert(boid).top_right.wf(),
        parts.insert(boid).bottom_left.wf(),
        parts.insert(boid).bottom_right.wf(),
        parts.insert(boid).top_left.capacity == parts.top_left.capacity,
        parts.insert(boid).top_right.capacity == parts.top_right.capacity,
        parts.insert(boid).bottom_left.capacity == parts.bottom_left.capacity,
        parts.insert(boid).bottom_right.capacity == parts.bottom_right.capacity,
        parts.insert(boid).top_left.boundary == parts.top_left.boundary,
        parts.insert(boid).top_right.boundary == parts.top_right.boundary,
        parts.insert(boid).bottom_left.boundary == parts.bottom_left.boundary,
        parts.insert(boid).bottom_right.boundary == parts.bottom_right.boundary,
    decreases parts, 0nat,
{
    if parts.top_left.accepts(boid) {
        lemma_insert_wf(parts.top_left, boid);
    } else if parts.top_right.accepts(boid) {
        lemma_insert_wf(parts.top_right, boid);
    } else if parts.bottom_left.accepts(boid) {
        lemma_insert_wf(parts.bottom_left, boid);
    } else if parts.bottom_right.accepts(boid) {
        lemma_insert_wf(parts.bottom_right, boid);
    }
}

/// The agents of the four parts of a divided node, in the order of
/// [`TreeView::flat`].
pub open spec fn parts_flat(parts: QuadrantsView) -> Seq<Boid> {
    parts.top_left.flat() + parts.top_right.flat() + parts.bottom_left.flat()
        + parts.bottom_right.flat()
}

/// Appending to `a` a sequence that holds `x` once more than `b` gives a
/// sequence that holds `x` once more than `a + b`.
proof fn lemma_gain_right(a: Seq<Boid>, b: Seq<Boid>, more: Seq<Boid>, x: Boid)
    requires
        more.to_multiset() == b.to_multiset().insert(x),
    ensures
        (a + more).to_multiset() == (a + b).to_multiset().insert(x),
{
    lemma_multiset_commutative(a, more);
    lemma_multiset_commutative(a, b);
    assert((a + more).to_multiset() =~= (a + b).to_multiset().insert(x));
}

/// Appending `b` to a sequence that holds `x` once more than `a` gives a
/// sequence that holds `x` once more than `a + b`.
proof fn lemma_gain_left(a: Seq<Boid>, more: Seq<Boid>, b: Seq<Boid>, x: Boid)
    requires
        more.to_multiset() == a.to_multiset().insert(x),
    ensures
        (more + b).to_multiset() == (a + b).to_multiset().insert(x),
{
    lemma_multiset_commutative(more, b);
    lemma_multiset_commutative(a, b);
    assert((more + b).to_multiset() =~= (a + b).to_multiset().insert(x));
}

/// Four empty, undivided parts hold one agent after it was placed in one of
/// them.
proof fn lemma_place_flat(parts: QuadrantsView, boid: Boid)
    requires
        parts.top_left == TreeView::fresh(parts.top_left.capacity, parts.top_left.boundary),
        parts.top_right == TreeView::fresh(parts.top_right.capacity, parts.top_right.boundary),
        parts.bottom_left == TreeView::fresh(parts.bottom_left.capacity, parts.bottom_left.boundary),
        parts.bottom_right == TreeView::fresh(
            parts.bottom_right.capacity,
            parts.bottom_right.boundary,
        ),
        parts.top_left.accepts(boid) || parts.top_right.accepts(boid) || parts.bottom_left.accepts(boid)
            || parts.bottom_right.accepts(boid),
    ensures
        parts_flat(parts.place(boid)) == Seq::<Boid>::empty().push(boid),
{
    let placed = parts.place(boid);
    assert(placed.top_left.flat() == placed.top_left.boids);
    assert(placed.top_right.flat() == placed.top_right.boids);
    assert(placed.bottom_left.flat() == placed.bottom_left.boids);
    assert(placed.bottom_right.flat() == placed.bottom_right.boids);
}

/// What [`lemma_insert_flat`] says, for a node with room.
proof fn lemma_insert_flat_store(tree: TreeView, boid: Boid)
    requires
        tree.children is None,
        tree.accepts(boid),
        tree.boids.len() < tree.capacity,
    ensures
        tree.insert(boid).flat().to_multiset() == tree.flat().to_multiset().insert(boid),
{
    assert(tree.insert(boid).flat() == tree.boids.push(boid));
    assert(tree.flat() == tree.boids);
    to_multiset_build(tree.boids, boid);
}

/// What [`lemma_insert_flat`] says, for a full node that is not divided.
proof fn lemma_insert_flat_divide(tree: TreeView, boid: Boid)
    requires
        tree.wf(),
        tree.children is None,
        tree.accepts(boid),
        tree.boids.len() >= tree.capacity,
    ensures
        tree.insert(boid).flat().to_multiset() == tree.flat().to_multiset().insert(boid),
{
    lemma_quadrants_cover(tree.boundary, boid.vertice.x as int * UNIT, boid.vertice.y as int * UNIT);
    let placed = tree.parts().place(boid);
    lemma_place_flat(tree.parts(), boid);
    assert(tree.insert(boid).children == Some(Box::new(placed)));
    assert(tree.insert(boid).flat() == tree.boids + parts_flat(placed));
    assert(tree.boids + parts_flat(placed) == tree.boids.push(boid));
    assert(tree.flat() == tree.boids);
    to_multiset_build(tree.boids, boid);
}

/// A divided node whose parts gain an agent gains that agent.
proof fn lemma_flat_gain(tree: TreeView, parts: QuadrantsView, after: QuadrantsView, boid: Boid)
    requires
        tree.children == Some(Box::new(parts)),
        parts_flat(after).to_multiset() == parts_flat(parts).to_multiset().insert(boid),
    ensures
        (TreeView { children: Some(Box::new(after)), ..tree }).flat().to_multiset()
            == tree.flat().to_multiset().insert(boid),
{
    let result = TreeView { children: Some(Box::new(after)), ..tree };
    assert(result.flat() == tree.boids + parts_flat(after));
    assert(tree.flat() == tree.boids + parts_flat(parts));
    lemma_gain_right(tree.boids, parts_flat(parts), parts_flat(after), boid);
}

/// An agent inside the rectangle of a tree is in the tree after its
/// insertion, once more than before, and every other agent is in it as often
/// as before. An agent outside the rectangle changes nothing.
pub proof fn lemma_insert_flat(tree: TreeView, boid: Boid)
    requires
        tree.wf(),
    ensures
        tree.accepts(boid) ==> tree.insert(boid).flat().to_multiset() == tree.flat().to_multiset().insert(
            boid,
        ),
        !tree.accepts(boid) ==> tree.insert(boid) == tree,
    decreases tree, 1nat,
{
    if tree.accepts(boid) {
        if tree.boids.len() < tree.capacity {
            lemma_insert_flat_store(tree, boid);
        } else {
            match tree.children {
                None => {
                    lemma_insert_flat_divide(tree, boid);
                },
                Some(parts) => {
                    lemma_quadrants_cover(
                        tree.boundary,
                        boid.vertice.x as int * UNIT,
                        boid.vertice.y as int * UNIT,
                    );
                    lemma_parts_insert_flat(*parts, boid);
                    lemma_flat_gain(tree, *parts, parts.insert(boid), boid);
                },
            }
        }
    }
}

/// What [`lemma_insert_flat`] says, for the parts of a divided node.
pub proof fn lemma_parts_insert_flat(parts: QuadrantsView, boid: Boid)
    requires
        parts.top_left.wf(),
        parts.top_right.wf(),
        parts.bottom_left.wf(),
        parts.bottom_right.wf(),
        parts.top_left.accepts(boid) || parts.top_right.accepts(boid) || parts.bottom_left.accepts(boid)
            || parts.bottom_right.accepts(boid),
    ensures
        parts_flat(parts.insert(boid)).to_multiset() == parts_flat(parts).to_multiset().insert(boid),
    decreases parts, 0nat,
{
    let a = parts.top_left.flat();
    let b = parts.top_right.flat();
    let c = parts.bottom_left.flat();
    let d = parts.bottom_right.flat();
    if parts.top_left.accepts(boid) {
        lemma_insert_flat(parts.top_left, boid);
        let more = parts.top_left.insert(boid).flat();
        lemma_gain_left(a, more, b, boid);
        lemma_gain_left(a + b, more + b, c, boid);
        lemma_gain_left(a + b + c, more + b + c, d, boid);
    } else if parts.top_right.accepts(boid) {
        lemma_insert_flat(parts.top_right, boid);
        let more = parts.top_right.insert(boid).flat();
        lemma_gain_right(a, b, more, boid);
        lemma_gain_left(a + b, a + more, c, boid);
        lemma_gain_left(a + b + c, a + more + c, d, boid);
    } else if parts.bottom_left.accepts(boid) {
        lemma_insert_flat(parts.bottom_left, boid);
        let more = parts.bottom_left.insert(boid).flat();
        lemma_gain_right(a + b, c, more, boid);
        lemma_gain_left(a + b + c, a + b + more, d, boid);
    } else {
        lemma_insert_flat(parts.bottom_right, boid);
        let more = parts.bottom_right.insert(boid).flat();
        lemma_gain_right(a + b + c, d, more, boid);
    }
}

/// Insertion of several agents keeps the invariant, the capacity and the
/// rectangle of a tree, and where the rectangle holds all of them the tree
/// holds afterwards what it held before and each of them once more.
pub proof fn lemma_insert_all(tree: TreeView, boids: Seq<Boid>)
    requires
        tree.wf(),
    ensures
        tree.insert_all(boids).wf(),
        tree.insert_all(boids).capacity == tree.capacity,
        tree.insert_all(boids).boundary == tree.boundary,
        (forall|i: int| 0 <= i < boids.len() ==> tree.accepts(#[trigger] boids[i]))
            ==> tree.insert_all(boids).flat().to_multiset() == tree.flat().to_multiset().add(
            boids.to_multiset(),
        ),
    decreases boids.len(),
{
    if boids.len() == 0 {
        assert(boids.to_multiset() =~= Multiset::<Boid>::empty()) by {
            boids.to_multiset_ensures();
        }
        assert(tree.flat().to_multiset().add(boids.to_multiset()) =~= tree.flat().to_multiset());
    } else {
        let before = tree.insert_all(boids.drop_last());
        lemma_insert_all(tree, boids.drop_last());
        lemma_insert_wf(before, boids.last());
        lemma_insert_flat(before, boids.last());
        if forall|i: int| 0 <= i < boids.len() ==> tree.accepts(#[trigger] boids[i]) {
            assert(tree.accepts(boids[boids.len() - 1]));
            assert forall|i: int| 0 <= i < boids.drop_last().len() implies tree.accepts(
                #[trigger] boids.drop_last()[i],
            ) by {
                assert(boids.drop_last()[i] == boids[i]);
            }
            assert(boids.drop_last().push(boids.last()) == boids);
            to_multiset_build(boids.drop_last(), boids.last());
            assert(tree.insert_all(boids).flat().to_multiset() =~= tree.flat().to_multiset().add(
                boids.to_multiset(),
            ));
        }
    }
}

/// Filling an empty tree and listing it gives back the agents that went in,
/// each as often as it went in, whatever the order in which they went in:
/// `other_order` holds the agents of `boids` in any other order.
pub proof fn lemma_round_trip(capacity: nat, boundary: Rectangle, boids: Seq<Boid>, other_order: Seq<Boid>)
    requires
        capacity > 0,
        boundary.wf(),
        forall|i: int|
            0 <= i < boids.len() ==> TreeView::fresh(capacity, boundary).accepts(#[trigger] boids[i]),
        other_order.to_multiset() == boids.to_multiset(),
    ensures
        TreeView::fresh(capacity, boundary).insert_all(boids).flat().to_multiset()
            == boids.to_multiset(),
        TreeView::fresh(capacity, boundary).insert_all(other_order).flat().to_multiset()
            == boids.to_multiset(),
{
    let tree = TreeView::fresh(capacity, boundary);
    assert(tree.flat().to_multiset() =~= Multiset::<Boid>::empty()) by {
        tree.flat().to_multiset_ensures();
    }
    assert forall|i: int| 0 <= i < other_order.len() implies tree.accepts(
        #[trigger] other_order[i],
    ) by {
        let b = other_order[i];
        assert(other_order.contains(b));
        to_multiset_contains(other_order, b);
        to_multiset_contains(boids, b);
        let j = choose|j: int| 0 <= j < boids.len() && boids[j] == b;
        assert(tree.accepts(boids[j]));
    }
    lemma_insert_all(tree, boids);
    lemma_insert_all(tree, other_order);
    assert(Multiset::<Boid>::empty().add(boids.to_multiset()) =~= boids.to_multiset());
}

/// A query returns agents of the tree only, and never one equal to its
/// target.
pub proof fn lemma_query_excludes_target(tree: TreeView, target: Boid, radius: int)
    ensures
        !tree.neighbors(target, radius).contains(target),
        forall|b: Boid| #[trigger] tree.neighbors(target, radius).contains(b) ==> tree.flat().contains(b),
    decreases tree,
{
    let found = tree.neighbors(target, radius);
    if tree.reached(target, radius) {
        let here = tree.boids.filter(other_than(target));
        assert forall|b: Boid| #[trigger] here.contains(b) implies b != target && tree.boids.contains(
            b,
        ) by {
            let i = choose|i: int| 0 <= i < here.len() && here[i] == b;
            tree.boids.lemma_filter_pred(other_than(target), i);
            tree.boids.lemma_filter_contains_rev(other_than(target), b);
        }
        match tree.children {
            None => {},
            Some(parts) => {
                lemma_query_excludes_target(parts.top_left, target, radius);
                lemma_query_excludes_target(parts.top_right, target, radius);
                lemma_query_excludes_target(parts.bottom_left, target, radius);
                lemma_query_excludes_target(parts.bottom_right, target, radius);
                let a = parts.top_left.neighbors(target, radius);
                let b = parts.top_right.neighbors(target, radius);
                let c = parts.bottom_left.neighbors(target, radius);
                let d = parts.bottom_right.neighbors(target, radius);
                assert forall|x: Boid| #[trigger] found.contains(x) implies x != target
                    && tree.flat().contains(x) by {
                    lemma_contains_in_sum(here, a, b, c, d, x);
                    lemma_sum_contains(
                        tree.boids,
                        parts.top_left.flat(),
                        parts.top_right.flat(),
                        parts.bottom_left.flat(),
                        parts.bottom_right.flat(),
                        x,
                    );
                }
            },
        }
    }
}

/// An element of a sequence put together from five is an element of one of
/// the five.
proof fn lemma_contains_in_sum(
    a: Seq<Boid>,
    b: Seq<Boid>,
    c: Seq<Boid>,
    d: Seq<Boid>,
    e: Seq<Boid>,
    x: Boid,
)
    requires
        (a + b + c + d + e).contains(x),
    ensures
        a.contains(x) || b.contains(x) || c.contains(x) || d.contains(x) || e.contains(x),
{
    let s = a + b + c + d + e;
    let i = choose|i: int| 0 <= i < s.len() && s[i] == x;
    if i < a.len() {
        assert(a[i] == x);
    } else if i < a.len() + b.len() {
        assert(b[i - a.len()] == x);
    } else if i < a.len() + b.len() + c.len() {
        assert(c[i - a.len() - b.len()] == x);
    } else if i < a.len() + b.len() + c.len() + d.len() {
        assert(d[i - a.len() - b.len() - c.len()] == x);
    } else {
        assert(e[i - a.len() - b.len() - c.len() - d.len()] == x);
    }
}

/// An element of one of five sequences is an element of the sequence put
/// together from them.
proof fn lemma_sum_contains(
    a: Seq<Boid>,
    b: Seq<Boid>,
    c: Seq<Boid>,
    d: Seq<Boid>,
    e: Seq<Boid>,
    x: Boid,
)
    requires
        a.contains(x) || b.contains(x) || c.contains(x) || d.contains(x) || e.contains(x),
    ensures
        (a + b + c + d + e).contains(x),
{
    let s = a + b + c + d + e;
    if a.contains(x) {
        let i = choose|i: int| 0 <= i < a.len() && a[i] == x;
        assert(s[i] == x);
    } else if b.contains(x) {
        let i = choose|i: int| 0 <= i < b.len() && b[i] == x;
        assert(s[a.len() + i] == x);
    } else if c.contains(x) {
        let i = choose|i: int| 0 <= i < c.len() && c[i] == x;
        assert(s[a.len() + b.len() + i] == x);
    } else if d.contains(x) {
        let i = choose|i: int| 0 <= i < d.len() && d[i] == x;
        assert(s[a.len() + b.len() + c.len() + i] == x);
    } else {
        let i = choose|i: int| 0 <= i < e.len() && e[i] == x;
        assert(s[a.len() + b.len() + c.len() + d.len() + i] == x);
    }
}

/// A query that reaches every node of a tree returns every agent of the tree
/// but those equal to its target, in the order of [`TreeView::flat`].
pub proof fn lemma_query_complete(tree: TreeView, target: Boid, radius: int)
    requires
        tree.all_reached(target, radius),
    ensures
        tree.neighbors(target, radius) == tree.flat().filter(other_than(target)),
    decreases tree,
{
    match tree.children {
        None => {},
        Some(parts) => {
            lemma_query_complete(parts.top_left, target, radius);
            lemma_query_complete(parts.top_right, target, radius);
            lemma_query_complete(parts.bottom_left, target, radius);
            lemma_query_complete(parts.bottom_right, target, radius);
            let keep = other_than(target);
            let a = tree.boids;
            let b = parts.top_left.flat();
            let c = parts.top_right.flat();
            let d = parts.bottom_left.flat();
            let e = parts.bottom_right.flat();
            Seq::filter_distributes_over_add(a, b, keep);
            Seq::filter_distributes_over_add(a + b, c, keep);
            Seq::filter_distributes_over_add(a + b + c, d, keep);
            Seq::filter_distributes_over_add(a + b + c + d, e, keep);
        },
    }
}

/// The doubled distance along one axis from `p` to the end of the stretch
/// from `low` to `high` that lies farther from it.
pub open spec fn farthest(low: int, high: int, p: int) -> int {
    if abs(2 * low - 2 * p) >= abs(2 * high - 2 * p) {
        abs(2 * low - 2 * p)
    } else {
        abs(2 * high - 2 * p)
    }
}

/// Whether `radius`, in steps, is large enough for a query around `target`
/// to reach every node of a tree that covers `boundary`: the corner of the
/// rectangle that lies farthest from the target is within the radius.
pub open spec fn spans(boundary: Rectangle, target: Boid, radius: int) -> bool {
    let far_x = farthest(boundary.left as int, boundary.right as int, target.vertice.x * UNIT);
    let far_y = farthest(boundary.bottom as int, boundary.top as int, target.vertice.y * UNIT);
    radius >= 0 && far_x * far_x + far_y * far_y <= (2 * radius) * (2 * radius)
}

/// A radius that spans a rectangle spans each of its parts and reaches its
/// centre.
proof fn lemma_spans_part(boundary: Rectangle, quadrant: Quadrant, target: Boid, radius: int)
    requires
        boundary.wf(),
        spans(boundary, target, radius),
    ensures
        spans(boundary.quadrant_spec(quadrant), target, radius),
        boundary.center_within(target.vertice.x as int, target.vertice.y as int, radius),
{
    let px = target.vertice.x * UNIT;
    let py = target.vertice.y * UNIT;
    let part = boundary.quadrant_spec(quadrant);
    let far_x = farthest(boundary.left as int, boundary.right as int, px);
    let far_y = farthest(boundary.bottom as int, boundary.top as int, py);
    let part_x = farthest(part.left as int, part.right as int, px);
    let part_y = farthest(part.bottom as int, part.top as int, py);
    assert(0 <= part_x <= far_x);
    assert(0 <= part_y <= far_y);
    lemma_square_monotone(part_x, far_x);
    lemma_square_monotone(part_y, far_y);
    let dx = boundary.left + boundary.right - 2 * px;
    let dy = boundary.bottom + boundary.top - 2 * py;
    assert(abs(dx) <= far_x);
    assert(abs(dy) <= far_y);
    lemma_square_monotone(abs(dx), far_x);
    lemma_square_monotone(abs(dy), far_y);
    assert(dx * dx == abs(dx) * abs(dx)) by (nonlinear_arith);
    assert(dy * dy == abs(dy) * abs(dy)) by (nonlinear_arith);
}

/// A query whose radius spans the rectangle of a tree reaches every node of
/// the tree.
pub proof fn lemma_wide_query_reaches_all(tree: TreeView, target: Boid, radius: int)
    requires
        tree.wf(),
        spans(tree.boundary, target, radius),
    ensures
        tree.all_reached(target, radius),
    decreases tree,
{
    lemma_spans_part(tree.boundary, Quadrant::TopLeft, target, radius);
    lemma_spans_part(tree.boundary, Quadrant::TopRight, target, radius);
    lemma_spans_part(tree.boundary, Quadrant::BottomLeft, target, radius);
    lemma_spans_part(tree.boundary, Quadrant::BottomRight, target, radius);
    match tree.children {
        None => {},
        Some(parts) => {
            lemma_wide_query_reaches_all(parts.top_left, target, radius);
            lemma_wide_query_reaches_all(parts.top_right, target, radius);
            lemma_wide_query_reaches_all(parts.bottom_left, target, radius);
            lemma_wide_query_reaches_all(parts.bottom_right, target, radius);
        },
    }
}

/// An agent that was inserted into a tree whose rectangle holds it is found
/// by every later query whose radius spans that rectangle, whatever its
/// centre, unless the agent equals the target of the query.
pub proof fn lemma_query_finds_inserted(tree: TreeView, boid: Boid, target: Boid, radius: int)
    requires
        tree.wf(),
        tree.accepts(boid),
        boid != target,
        spans(tree.boundary, target, radius),
    ensures
        tree.insert(boid).neighbors(target, radius).contains(boid),
{
    let after = tree.insert(boid);
    lemma_insert_wf(tree, boid);
    lemma_insert_flat(tree, boid);
    lemma_wide_query_reaches_all(after, target, radius);
    lemma_query_complete(after, target, radius);
    to_multiset_contains(after.flat(), boid);
    assert(after.flat().contains(boid));
    let i = choose|i: int| 0 <= i < after.flat().len() && after.flat()[i] == boid;
    after.flat().lemma_filter_contains(other_than(target), i);
}

/// An insertion divides at most one node. A divided node stays divided with
/// the same parts' rectangles and keeps its own agents; a full node that is
/// not divided is divided when an agent arrives that its rectangle holds; no
/// other node is divided at its root.
pub proof fn lemma_insert_divides_once(tree: TreeView, boid: Boid)
    requires
        tree.wf(),
    ensures
        tree.insert(boid).node_count() == tree.node_count() || tree.insert(boid).node_count()
            == tree.node_count() + 4,
        tree.children matches Some(parts) ==> tree.insert(boid).boids == tree.boids && (
        tree.insert(boid).children matches Some(after) && after.top_left.boundary
            == parts.top_left.boundary && after.top_right.boundary == parts.top_right.boundary
            && after.bottom_left.boundary == parts.bottom_left.boundary
            && after.bottom_right.boundary == parts.bottom_right.boundary),
        tree.children is None && tree.accepts(boid) && tree.boids.len() == tree.capacity ==> {
            &&& tree.insert(boid).boids == tree.boids
            &&& tree.insert(boid).children == Some(Box::new(tree.parts().place(boid)))
            &&& tree.insert(boid).node_count() == tree.node_count() + 4
        },
        tree.children is None && !(tree.accepts(boid) && tree.boids.len() == tree.capacity)
            ==> tree.insert(boid).children is None,
    decreases tree, 1nat,
{
    if tree.accepts(boid) && tree.boids.len() >= tree.capacity {
        match tree.children {
            None => {
                let placed = tree.parts().place(boid);
                assert(placed.top_left.node_count() == 1);
                assert(placed.top_right.node_count() == 1);
                assert(placed.bottom_left.node_count() == 1);
                assert(placed.bottom_right.node_count() == 1);
            },
            Some(parts) => {
                lemma_parts_insert_divides_once(*parts, boid);
                lemma_parts_insert_wf(*parts, boid);
            },
        }
    }
}

/// How many nodes the four parts of a divided node have together.
pub open spec fn parts_node_count(parts: QuadrantsView) -> nat {
    parts.top_left.node_count() + parts.top_right.node_count() + parts.bottom_left.node_count()
        + parts.bottom_right.node_count()
}

/// An insertion into the parts of a divided node divides at most one node.
pub proof fn lemma_parts_insert_divides_once(parts: QuadrantsView, boid: Boid)
    requires
        parts.top_left.wf(),
        parts.top_right.wf(),
        parts.bottom_left.wf(),
        parts.bottom_right.wf(),
    ensures
        parts_node_count(parts.insert(boid)) == parts_node_count(parts) || parts_node_count(
            parts.insert(boid),
        ) == parts_node_count(parts) + 4,
    decreases parts, 0nat,
{
    if parts.top_left.accepts(boid) {
        lemma_insert_divides_once(parts.top_left, boid);
    } else if parts.top_right.accepts(boid) {
        lemma_insert_divides_once(parts.top_right, boid);
    } else if parts.bottom_left.accepts(boid) {
        lemma_insert_divides_once(parts.bottom_left, boid);
    } else if parts.bottom_right.accepts(boid) {
        lemma_insert_divides_once(parts.bottom_right, boid);
    }
}

} // verus!
