//! Grid positions and the quadtree that finds the agents near one of them.
//!
//! A node covers a rectangle and stores up to `capacity` agents itself. When
//! one more arrives it is divided, once, into four parts; the agents it holds
//! stay with it and later arrivals go to the first part, in the order top
//! left, top right, bottom left, bottom right, whose rectangle holds them.

use vstd::prelude::*;
use crate::boid::Boid;
use crate::world::WorldOption;
use crate::geometry::{Quadrant, Rectangle, UNIT, lemma_quadrants_cover, lemma_quadrant_inside};

verus! {

/// A position on the integer grid.
#[derive(Clone, Copy, PartialEq, Eq, Structural, Debug)]
pub struct Vertice {
    pub x: i16,
    pub y: i16,
}

impl Vertice {
    /// The origin.
    pub fn new() -> (v: Self)
        ensures
            v == (Vertice { x: 0, y: 0 }),
    {
        Self { x: 0, y: 0 }
    }

    /// The slope of the line from `other` to `self` as a fraction, rise over
    /// run, or `None` for a vertical line.
    pub fn slope(&self, other: &Vertice) -> (s: Option<(i32, i32)>)
        ensures
            s == self.slope_spec(*other),
    {
        let y_diff: i32 = self.y as i32 - other.y as i32;
        let x_diff: i32 = self.x as i32 - other.x as i32;
        if x_diff == 0 {
            return None;
        }
        Some((y_diff, x_diff))
    }

    /// Rise and run between two positions; `None` when they share their `x`.
    pub open spec fn slope_spec(self, other: Vertice) -> Option<(i32, i32)> {
        if self.x == other.x {
            None
        } else {
            Some(((self.y - other.y) as i32, (self.x - other.x) as i32))
        }
    }
}

/// The test that a query applies to the agents it meets: it passes every
/// agent but those equal to `target`.
pub open spec fn other_than(target: Boid) -> spec_fn(Boid) -> bool {
    |b: Boid| b != target
}

/// What a quadtree node is, as a mathematical value.
pub struct TreeView {
    pub capacity: nat,
    pub boundary: Rectangle,
    pub boids: Seq<Boid>,
    pub children: Option<Box<QuadrantsView>>,
}

/// The four parts of a divided node.
pub struct QuadrantsView {
    pub top_left: TreeView,
    pub top_right: TreeView,
    pub bottom_left: TreeView,
    pub bottom_right: TreeView,
}

impl TreeView {
    /// An undivided node without agents.
    pub open spec fn fresh(capacity: nat, boundary: Rectangle) -> TreeView {
        TreeView { capacity, boundary, boids: Seq::empty(), children: None }
    }

    /// The four undivided, empty parts that a division gives this node.
    pub open spec fn parts(self) -> QuadrantsView {
        QuadrantsView {
            top_left: TreeView::fresh(self.capacity, self.boundary.quadrant_spec(Quadrant::TopLeft)),
            top_right: TreeView::fresh(self.capacity, self.boundary.quadrant_spec(Quadrant::TopRight)),
            bottom_left: TreeView::fresh(
                self.capacity,
                self.boundary.quadrant_spec(Quadrant::BottomLeft),
            ),
            bottom_right: TreeView::fresh(
                self.capacity,
                self.boundary.quadrant_spec(Quadrant::BottomRight),
            ),
        }
    }

    /// Whether the node's rectangle holds the agent's position.
    pub open spec fn accepts(self, boid: Boid) -> bool {
        self.boundary.contains(boid.vertice.x as int, boid.vertice.y as int)
    }

    /// The invariant of a tree: a positive capacity, never more agents in a
    /// node than that, each of them inside the node's rectangle, only full
    /// nodes divided, and the parts of a divided node covering the four
    /// quadrants of its rectangle with the same capacity.
    pub open spec fn wf(self) -> bool
        decreases self,
    {
        &&& self.capacity > 0
        &&& self.boundary.wf()
        &&& self.boids.len() <= self.capacity
        &&& forall|i: int| 0 <= i < self.boids.len() ==> self.accepts(#[trigger] self.boids[i])
        &&& match self.children {
            None => true,
            Some(q) => {
                &&& self.boids.len() == self.capacity
                &&& q.top_left.wf()
                &&& q.top_right.wf()
                &&& q.bottom_left.wf()
                &&& q.bottom_right.wf()
                &&& q.top_left.capacity == self.capacity
                &&& q.top_right.capacity == self.capacity
                &&& q.bottom_left.capacity == self.capacity
                &&& q.bottom_right.capacity == self.capacity
                &&& q.top_left.boundary == self.boundary.quadrant_spec(Quadrant::TopLeft)
                &&& q.top_right.boundary == self.boundary.quadrant_spec(Quadrant::TopRight)
                &&& q.bottom_left.boundary == self.boundary.quadrant_spec(Quadrant::BottomLeft)
                &&& q.bottom_right.boundary == self.boundary.quadrant_spec(Quadrant::BottomRight)
            },
        }
    }

    /// Every agent of the tree: those of the node, then those of its parts in
    /// the order top left, top right, bottom left, bottom right.
    pub open spec fn flat(self) -> Seq<Boid>
        decreases self,
    {
        match self.children {
            None => self.boids,
            Some(q) => self.boids + q.top_left.flat() + q.top_right.flat() + q.bottom_left.flat()
                + q.bottom_right.flat(),
        }
    }

    /// How many nodes the tree has.
    pub open spec fn node_count(self) -> nat
        decreases self,
    {
        match self.children {
            None => 1,
            Some(q) => 1 + q.top_left.node_count() + q.top_right.node_count()
                + q.bottom_left.node_count() + q.bottom_right.node_count(),
        }
    }

    /// The node with one more agent of its own.
    pub open spec fn store(self, boid: Boid) -> TreeView {
        TreeView { boids: self.boids.push(boid), ..self }
    }

    /// The tree after the insertion of `boid`. An agent outside the rectangle
    /// leaves the tree as it is. A node with room stores the agent. A full
    /// node that is not divided is divided first; a full node hands the agent
    /// to the first of its parts whose rectangle holds it.
    pub open spec fn insert(self, boid: Boid) -> TreeView
        decreases self, 1nat,
    {
        if !self.accepts(boid) {
            self
        } else if self.boids.len() < self.capacity {
            self.store(boid)
        } else {
            match self.children {
                None => TreeView { children: Some(Box::new(self.parts().place(boid))), ..self },
                Some(q) => TreeView { children: Some(Box::new(q.insert(boid))), ..self },
            }
        }
    }

    /// Whether a query around `target` with `radius`, in steps of a grid
    /// unit, looks into this node:
    /// the centre of its rectangle is within the radius of the target, or the
    /// rectangle holds the target.
    pub open spec fn reached(self, target: Boid, radius: int) -> bool {
        self.boundary.center_within(target.vertice.x as int, target.vertice.y as int, radius)
            || self.accepts(target)
    }

    /// What a query around `target` with `radius` finds. A node that the
    /// query does not reach gives nothing, and neither do its parts. A node
    /// that it reaches gives its agents but those equal to `target`, in their
    /// order, and then what its four parts give.
    pub open spec fn neighbors(self, target: Boid, radius: int) -> Seq<Boid>
        decreases self,
    {
        if !self.reached(target, radius) {
            Seq::empty()
        } else {
            let here = self.boids.filter(other_than(target));
            match self.children {
                None => here,
                Some(q) => here + q.top_left.neighbors(target, radius) + q.top_right.neighbors(
                    target,
                    radius,
                ) + q.bottom_left.neighbors(target, radius) + q.bottom_right.neighbors(
                    target,
                    radius,
                ),
            }
        }
    }

    /// Whether a query around `target` with `radius` reaches every node of
    /// the tree.
    pub open spec fn all_reached(self, target: Boid, radius: int) -> bool
        decreases self,
    {
        &&& self.reached(target, radius)
        &&& match self.children {
            None => true,
            Some(q) => {
                &&& q.top_left.all_reached(target, radius)
                &&& q.top_right.all_reached(target, radius)
                &&& q.bottom_left.all_reached(target, radius)
                &&& q.bottom_right.all_reached(target, radius)
            },
        }
    }

    /// The frame after the agents of `boids` were drawn, first to last.
    pub open spec fn flock_drawn(
        frame: Seq<u8>,
        boids: Seq<Boid>,
        width: int,
        height: int,
        option: WorldOption,
    ) -> Seq<u8>
        decreases boids.len(),
    {
        if boids.len() == 0 {
            frame
        } else {
            boids.last().drawn(
                Self::flock_drawn(frame, boids.drop_last(), width, height, option),
                width,
                height,
                option,
            )
        }
    }

    /// The frame after the agents of the tree were drawn: those of the node,
    /// then those of its parts in the order top left, top right, bottom left,
    /// bottom right.
    pub open spec fn boids_drawn(self, frame: Seq<u8>, width: int, height: int, option: WorldOption) -> Seq<u8>
        decreases self,
    {
        let own = Self::flock_drawn(frame, self.boids, width, height, option);
        match self.children {
            None => own,
            Some(q) => q.bottom_right.boids_drawn(
                q.bottom_left.boids_drawn(
                    q.top_right.boids_drawn(
                        q.top_left.boids_drawn(own, width, height, option),
                        width,
                        height,
                        option,
                    ),
                    width,
                    height,
                    option,
                ),
                width,
                height,
                option,
            ),
        }
    }

    /// The frame after the rectangles of the tree were outlined: that of the
    /// node, then those of its parts in the order top left, top right, bottom
    /// left, bottom right.
    pub open spec fn outlines_drawn(self, frame: Seq<u8>, width: int, height: int) -> Seq<u8>
        decreases self,
    {
        let own = self.boundary.outlined(frame, width, height);
        match self.children {
            None => own,
            Some(q) => q.bottom_right.outlines_drawn(
                q.bottom_left.outlines_drawn(
                    q.top_right.outlines_drawn(q.top_left.outlines_drawn(own, width, height), width, height),
                    width,
                    height,
                ),
                width,
                height,
            ),
        }
    }

    /// The frame after the tree was drawn: its rectangles where `option`
    /// asks for them, then its agents.
    pub open spec fn drawn(self, frame: Seq<u8>, width: int, height: int, option: WorldOption) -> Seq<u8> {
        let first = if option.show_quad_tree {
            self.outlines_drawn(frame, width, height)
        } else {
            frame
        };
        self.boids_drawn(first, width, height, option)
    }

    /// The tree after the insertion of the agents of `boids`, first to last.
    pub open spec fn insert_all(self, boids: Seq<Boid>) -> TreeView
        decreases boids.len(),
    {
        if boids.len() == 0 {
            self
        } else {
            self.insert_all(boids.drop_last()).insert(boids.last())
        }
    }
}

impl QuadrantsView {
    /// The parts after `boid` went to the first of them whose rectangle holds
    /// it and was stored in that node itself.
    pub open spec fn place(self, boid: Boid) -> QuadrantsView {
        if self.top_left.accepts(boid) {
            QuadrantsView { top_left: self.top_left.store(boid), ..self }
        } else if self.top_right.accepts(boid) {
            QuadrantsView { top_right: self.top_right.store(boid), ..self }
        } else if self.bottom_left.accepts(boid) {
            QuadrantsView { bottom_left: self.bottom_left.store(boid), ..self }
        } else if self.bottom_right.accepts(boid) {
            QuadrantsView { bottom_right: self.bottom_right.store(boid), ..self }
        } else {
            self
        }
    }

    /// The parts after the insertion of `boid` into the first of them whose
    /// rectangle holds it.
    pub open spec fn insert(self, boid: Boid) -> QuadrantsView
        decreases self, 0nat,
    {
        if self.top_left.accepts(boid) {
            QuadrantsView { top_left: self.top_left.insert(boid), ..self }
        } else if self.top_right.accepts(boid) {
            QuadrantsView { top_right: self.top_right.insert(boid), ..self }
        } else if self.bottom_left.accepts(boid) {
            QuadrantsView { bottom_left: self.bottom_left.insert(boid), ..self }
        } else if self.bottom_right.accepts(boid) {
            QuadrantsView { bottom_right: self.bottom_right.insert(boid), ..self }
        } else {
            self
        }
    }
}

/// Four well-formed parts without agents stay well formed when one of them
/// stores an agent that its rectangle holds.
pub proof fn lemma_place_wf(parts: QuadrantsView, boid: Boid)
    requires
        parts.top_left.wf(),
        parts.top_right.wf(),
        parts.bottom_left.wf(),
        parts.bottom_right.wf(),
        parts.top_left.boids.len() == 0,
        parts.top_right.boids.len() == 0,
        parts.bottom_left.boids.len() == 0,
        parts.bottom_right.boids.len() == 0,
    ensures
        parts.place(boid).top_left.wf(),
        parts.place(boid).top_right.wf(),
        parts.place(boid).bottom_left.wf(),
        parts.place(boid).bottom_right.wf(),
{
}

/// A quadtree node with the agents it stores and, once divided, its four
/// parts.
pub struct QuadTree {
    capacity: usize,
    boundary: Rectangle,
    boids: Vec<Boid>,
    children: Option<Box<Quadrants>>,
}

/// The four parts of a divided node.
struct Quadrants {
    top_left: QuadTree,
    top_right: QuadTree,
    bottom_left: QuadTree,
    bottom_right: QuadTree,
}

impl View for QuadTree {
    type V = TreeView;

    closed spec fn view(&self) -> TreeView {
        self.model()
    }
}

impl View for Quadrants {
    type V = QuadrantsView;

    closed spec fn view(&self) -> QuadrantsView {
        self.model()
    }
}

impl QuadTree {
    spec fn model(&self) -> TreeView
        decreases self,
    {
        TreeView {
            capacity: self.capacity as nat,
            boundary: self.boundary,
            boids: self.boids@,
            children: match self.children {
                None => None,
                Some(q) => Some(Box::new(q.model())),
            },
        }
    }
}

impl Quadrants {
    spec fn model(&self) -> QuadrantsView
        decreases self,
    {
        QuadrantsView {
            top_left: self.top_left.model(),
            top_right: self.top_right.model(),
            bottom_left: self.bottom_left.model(),
            bottom_right: self.bottom_right.model(),
        }
    }
}

impl Quadrants {
    /// Stores `boid` in the first part whose rectangle holds it. Tells
    /// whether there was one.
    fn place(&mut self, boid: &Boid) -> (stored: bool)
        ensures
            final(self)@ == old(self)@.place(*boid),
            stored == (old(self)@.top_left.accepts(*boid) || old(self)@.top_right.accepts(*boid)
                || old(self)@.bottom_left.accepts(*boid) || old(self)@.bottom_right.accepts(*boid)),
    {
        let x: i64 = boid.vertice.x as i64 * UNIT;
        let y: i64 = boid.vertice.y as i64 * UNIT;
        if self.top_left.boundary.contains_point(x, y) {
            self.top_left.boids.push(*boid);
            return true;
        }
        if self.top_right.boundary.contains_point(x, y) {
            self.top_right.boids.push(*boid);
            return true;
        }
        if self.bottom_left.boundary.contains_point(x, y) {
            self.bottom_left.boids.push(*boid);
            return true;
        }
        if self.bottom_right.boundary.contains_point(x, y) {
            self.bottom_right.boids.push(*boid);
            return true;
        }
        false
    }

    /// Inserts `boid` into the first part that takes it. Tells whether there
    /// was one.
    fn insert(&mut self, boid: &Boid) -> (stored: bool)
        requires
            old(self)@.top_left.wf(),
            old(self)@.top_right.wf(),
            old(self)@.bottom_left.wf(),
            old(self)@.bottom_right.wf(),
        ensures
            final(self)@ == old(self)@.insert(*boid),
            final(self)@.top_left.wf(),
            final(self)@.top_right.wf(),
            final(self)@.bottom_left.wf(),
            final(self)@.bottom_right.wf(),
            final(self)@.top_left.capacity == old(self)@.top_left.capacity,
            final(self)@.top_right.capacity == old(self)@.top_right.capacity,
            final(self)@.bottom_left.capacity == old(self)@.bottom_left.capacity,
            final(self)@.bottom_right.capacity == old(self)@.bottom_right.capacity,
            final(self)@.top_left.boundary == old(self)@.top_left.boundary,
            final(self)@.top_right.boundary == old(self)@.top_right.boundary,
            final(self)@.bottom_left.boundary == old(self)@.bottom_left.boundary,
            final(self)@.bottom_right.boundary == old(self)@.bottom_right.boundary,
            stored == (old(self)@.top_left.accepts(*boid) || old(self)@.top_right.accepts(*boid)
                || old(self)@.bottom_left.accepts(*boid) || old(self)@.bottom_right.accepts(*boid)),
        decreases *old(self),
    {
        if self.top_left.insert(boid) {
            return true;
        }
        if self.top_right.insert(boid) {
            return true;
        }
        if self.bottom_left.insert(boid) {
            return true;
        }
        if self.bottom_right.insert(boid) {
            return true;
        }
        false
    }
}

impl QuadTree {
    /// An undivided node without agents that covers `boundary` and stores up
    /// to `capacity` agents before it is divided. It meets the invariant, and
    /// so takes insertions, where the capacity is positive and the rectangle
    /// well formed.
    pub fn new(capacity: usize, boundary: Rectangle) -> (tree: Self)
        ensures
            tree@ == TreeView::fresh(capacity as nat, boundary),
            capacity > 0 && boundary.wf() ==> tree@.wf(),
    {
        Self { capacity, boundary, boids: Vec::new(), children: None }
    }

    /// Inserts a copy of `boid` and tells whether it was taken, which it is
    /// exactly when its position lies in the rectangle of the tree.
    pub fn insert(&mut self, boid: &Boid) -> (stored: bool)
        requires
            old(self)@.wf(),
        ensures
            final(self)@ == old(self)@.insert(*boid),
            final(self)@.wf(),
            final(self)@.capacity == old(self)@.capacity,
            final(self)@.boundary == old(self)@.boundary,
            stored == old(self)@.accepts(*boid),
        decreases *old(self),
    {
        if !self.boundary.contains_point(boid.vertice.x as i64 * UNIT, boid.vertice.y as i64 * UNIT) {
            return false;
        }
        if self.boids.len() < self.capacity {
            self.boids.push(*boid);
            return true;
        }
        proof {
            lemma_quadrants_cover(
                self.boundary,
                boid.vertice.x as int * UNIT,
                boid.vertice.y as int * UNIT,
            );
        }
        if self.children.is_none() {
            proof {
                lemma_quadrant_inside(self.boundary, Quadrant::TopLeft, 0, 0);
                lemma_quadrant_inside(self.boundary, Quadrant::TopRight, 0, 0);
                lemma_quadrant_inside(self.boundary, Quadrant::BottomLeft, 0, 0);
                lemma_quadrant_inside(self.boundary, Quadrant::BottomRight, 0, 0);
                lemma_place_wf(self@.parts(), *boid);
            }
            self.split();
            match &mut self.children {
                Some(parts) => parts.place(boid),
                None => false,
            }
        } else {
            match &mut self.children {
                Some(parts) => parts.insert(boid),
                None => false,
            }
        }
    }

    /// Appends to `found` the agents that a query around `boid` with
    /// `vision_radius`, in steps of a grid unit, finds: see [`TreeView::neighbors`]. No agent equal to
    /// `boid` is among them.
    pub fn query(&self, found: &mut Vec<Boid>, boid: &Boid, vision_radius: i32)
        ensures
            final(found)@ == old(found)@ + self@.neighbors(*boid, vision_radius as int),
            forall|i: int|
                old(found)@.len() <= i < final(found)@.len() ==> #[trigger] final(found)@[i] != *boid,
        decreases self,
    {
        if !self.boundary.intersects(&boid.vertice, vision_radius) && !self.boundary.contains_point(
            boid.vertice.x as i64 * UNIT,
            boid.vertice.y as i64 * UNIT,
        ) {
            assert(found@ == found@ + Seq::<Boid>::empty());
            return ;
        }
        let ghost others = other_than(*boid);
        let ghost before = found@;
        let mut i: usize = 0;
        while i < self.boids.len()
            invariant
                i <= self.boids.len(),
                others == other_than(*boid),
                found@ == before + self.boids@.take(i as int).filter(others),
            decreases self.boids.len() - i,
        {
            proof {
                assert(self.boids@.take(i + 1).drop_last() == self.boids@.take(i as int));
                reveal_with_fuel(Seq::filter, 2);
            }
            if self.boids[i] != *boid {
                found.push(self.boids[i]);
            }
            i += 1;
        }
        assert(self.boids@.take(i as int) == self.boids@);
        match &self.children {
            None => {},
            Some(parts) => {
                parts.top_left.query(found, boid, vision_radius);
                parts.top_right.query(found, boid, vision_radius);
                parts.bottom_left.query(found, boid, vision_radius);
                parts.bottom_right.query(found, boid, vision_radius);
            },
        }
    }

    /// Every agent of the tree: those of the node, then those of its parts in
    /// the order top left, top right, bottom left, bottom right.
    pub fn to_vec(&self) -> (all: Vec<Boid>)
        ensures
            all@ == self@.flat(),
        decreases self,
    {
        let mut boids: Vec<Boid> = Vec::new();
        let mut i: usize = 0;
        while i < self.boids.len()
            invariant
                i <= self.boids.len(),
                boids@ == self.boids@.take(i as int),
            decreases self.boids.len() - i,
        {
            boids.push(self.boids[i]);
            i += 1;
        }
        assert(self.boids@.take(i as int) == self.boids@);
        match &self.children {
            None => {},
            Some(parts) => {
                let mut part = parts.top_left.to_vec();
                boids.append(&mut part);
                let mut part = parts.top_right.to_vec();
                boids.append(&mut part);
                let mut part = parts.bottom_left.to_vec();
                boids.append(&mut part);
                let mut part = parts.bottom_right.to_vec();
                boids.append(&mut part);
            },
        }
        boids
    }

    /// How many agents a node stores before it is divided.
    pub fn capacity(&self) -> (capacity: usize)
        ensures
            capacity == self@.capacity,
    {
        self.capacity
    }

    /// The rectangle that the node covers.
    pub fn boundary(&self) -> (boundary: Rectangle)
        ensures
            boundary == self@.boundary,
    {
        self.boundary
    }

    /// How many agents the node stores itself.
    pub fn len(&self) -> (len: usize)
        ensures
            len == self@.boids.len(),
    {
        self.boids.len()
    }

    /// Whether the node has been divided.
    pub fn is_split(&self) -> (split: bool)
        ensures
            split == self@.children is Some,
    {
        self.children.is_some()
    }

    /// The part of a divided node named by `quadrant`; `None` for a node
    /// that is not divided.
    pub fn part(&self, quadrant: Quadrant) -> (part: Option<&QuadTree>)
        ensures
            self@.children is None ==> part is None,
            self@.children matches Some(parts) ==> part matches Some(tree) && tree@ == (match quadrant {
                Quadrant::TopLeft => parts.top_left,
                Quadrant::TopRight => parts.top_right,
                Quadrant::BottomLeft => parts.bottom_left,
                Quadrant::BottomRight => parts.bottom_right,
            }),
    {
        match &self.children {
            None => None,
            Some(parts) => Some(
                match quadrant {
                    Quadrant::TopLeft => &parts.top_left,
                    Quadrant::TopRight => &parts.top_right,
                    Quadrant::BottomLeft => &parts.bottom_left,
                    Quadrant::BottomRight => &parts.bottom_right,
                },
            ),
        }
    }

    /// Outlines the rectangles of the tree: see
    /// [`TreeView::outlines_drawn`].
    pub fn draw_quad_tree(&self, frame: &mut [u8], width: u16, height: u16)
        ensures
            final(frame)@ == self@.outlines_drawn(old(frame)@, width as int, height as int),
        decreases self,
    {
        self.boundary.draw(frame, width, height);
        match &self.children {
            None => {},
            Some(parts) => {
                parts.top_left.draw_quad_tree(frame, width, height);
                parts.top_right.draw_quad_tree(frame, width, height);
                parts.bottom_left.draw_quad_tree(frame, width, height);
                parts.bottom_right.draw_quad_tree(frame, width, height);
            },
        }
    }

    /// Draws the agents of the tree: see [`TreeView::boids_drawn`].
    pub fn draw(&self, frame: &mut [u8], width: u16, height: u16, world_option: &WorldOption)
        ensures
            final(frame)@ == self@.boids_drawn(old(frame)@, width as int, height as int, *world_option),
        decreases self,
    {
        let ghost before = frame@;
        let mut i: usize = 0;
        while i < self.boids.len()
            invariant
                i <= self.boids.len(),
                frame@ == TreeView::flock_drawn(
                    before,
                    self.boids@.take(i as int),
                    width as int,
                    height as int,
                    *world_option,
                ),
            decreases self.boids.len() - i,
        {
            proof {
                assert(self.boids@.take(i + 1).drop_last() == self.boids@.take(i as int));
            }
            self.boids[i].draw_with_option(frame, width, height, world_option);
            i += 1;
        }
        assert(self.boids@.take(i as int) == self.boids@);
        match &self.children {
            None => {},
            Some(parts) => {
                parts.top_left.draw(frame, width, height, world_option);
                parts.top_right.draw(frame, width, height, world_option);
                parts.bottom_left.draw(frame, width, height, world_option);
                parts.bottom_right.draw(frame, width, height, world_option);
            },
        }
    }

    /// Draws the tree: its rectangles where `world_option` asks for them,
    /// then its agents.
    pub fn draw_with_option(&self, frame: &mut [u8], width: u16, height: u16, world_option: &WorldOption)
        ensures
            final(frame)@ == self@.drawn(old(frame)@, width as int, height as int, *world_option),
    {
        if world_option.show_quad_tree {
            self.draw_quad_tree(frame, width, height);
        }
        self.draw(frame, width, height, world_option);
    }

    /// Divides a node that is not divided yet: it gets four empty parts, one
    /// for each quadrant of its rectangle, and keeps its agents.
    fn split(&mut self)
        requires
            old(self)@.children is None,
            old(self)@.boundary.wf(),
        ensures
            final(self)@ == (TreeView { children: Some(Box::new(old(self)@.parts())), ..old(self)@ }),
    {
        let top_right = QuadTree {
            capacity: self.capacity,
            boundary: self.boundary.quadrant(Quadrant::TopRight),
            boids: Vec::new(),
            children: None,
        };
        let top_left = QuadTree {
            capacity: self.capacity,
            boundary: self.boundary.quadrant(Quadrant::TopLeft),
            boids: Vec::new(),
            children: None,
        };
        let bottom_right = QuadTree {
            capacity: self.capacity,
            boundary: self.boundary.quadrant(Quadrant::BottomRight),
            boids: Vec::new(),
            children: None,
        };
        let bottom_left = QuadTree {
            capacity: self.capacity,
            boundary: self.boundary.quadrant(Quadrant::BottomLeft),
            boids: Vec::new(),
            children: None,
        };
        let parts = Quadrants { top_left, top_right, bottom_left, bottom_right };
        assert(parts.model() == self@.parts());
        self.children = Some(Box::new(parts));
    }
}

} // verus!
