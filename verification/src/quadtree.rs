//! The adaptive spatial index: a quadtree over `Boundary`.
//!
//! A node is a leaf until an insertion would push it past `capacity`; it then
//! divides, once and irreversibly, into four children covering its quadrants.
//! Points held before the division stay attached to the divided node and keep
//! participating in queries. Insertion hands the point to every child; the
//! half-open quadrants are disjoint, so exactly one child accepts it, and the
//! tree as a whole gains exactly one copy (proved in `insert`'s contract).

use vstd::multiset::Multiset;
use vstd::prelude::*;

use crate::boundary::Boundary;
use crate::boundary::TreePoint;
use crate::boundary::lemma_subdivision_tiles;

verus! {

pub struct QuadTree {
    pub capacity: usize,
    pub items: Vec<TreePoint>,
    pub boundary: Boundary,
    pub ne: Option<Box<QuadTree>>,
    pub nw: Option<Box<QuadTree>>,
    pub se: Option<Box<QuadTree>>,
    pub sw: Option<Box<QuadTree>>,
}

pub open spec fn nat_max(a: nat, b: nat) -> nat {
    if a >= b {
        a
    } else {
        b
    }
}

pub open spec fn opt_height(o: Option<Box<QuadTree>>) -> nat
    decreases o,
{
    match o {
        Option::None => 0,
        Option::Some(t) => t.height(),
    }
}

pub open spec fn opt_points(o: Option<Box<QuadTree>>) -> Multiset<TreePoint>
    decreases o,
{
    match o {
        Option::None => Multiset::empty(),
        Option::Some(t) => t.points(),
    }
}

pub open spec fn opt_wf(o: Option<Box<QuadTree>>, b: Boundary, cap: usize) -> bool
    decreases o,
{
    match o {
        Option::None => false,
        Option::Some(t) => t.wf() && t.boundary == b && t.capacity == cap,
    }
}

pub open spec fn opt_fresh(o: Option<Box<QuadTree>>, b: Boundary, cap: usize) -> bool {
    match o {
        Option::None => false,
        Option::Some(t) => t.fresh_leaf(b, cap),
    }
}

pub open spec fn opt_query_seq(o: Option<Box<QuadTree>>, range: Boundary) -> Seq<u32>
    decreases o,
{
    match o {
        Option::None => Seq::empty(),
        Option::Some(t) => t.query_seq(range),
    }
}

pub open spec fn opt_boundaries(o: Option<Box<QuadTree>>) -> Seq<Boundary>
    decreases o,
{
    match o {
        Option::None => Seq::empty(),
        Option::Some(t) => t.boundaries_seq(),
    }
}

/// The ids of the points of `s` that fall inside `range`, in order.
pub open spec fn ids_matching(s: Seq<TreePoint>, range: Boundary) -> Seq<u32>
    decreases s.len(),
{
    if s.len() == 0 {
        Seq::empty()
    } else {
        ids_matching(s.drop_last(), range) + if range.contains_pt(
            s.last().x as int,
            s.last().y as int,
        ) {
            seq![s.last().id]
        } else {
            Seq::empty()
        }
    }
}

/// How many times `k` occurs in `s`.
pub open spec fn count_id(s: Seq<u32>, k: u32) -> nat
    decreases s.len(),
{
    if s.len() == 0 {
        0
    } else {
        count_id(s.drop_last(), k) + if s.last() == k {
            1nat
        } else {
            0nat
        }
    }
}

/// Occurrences in a one-element sequence.
pub proof fn lemma_count_id_single(x: u32, k: u32)
    ensures
        count_id(seq![x], k) == if x == k {
            1nat
        } else {
            0nat
        },
{
    assert(seq![x].drop_last() =~= Seq::<u32>::empty());
    assert(count_id(Seq::<u32>::empty(), k) == 0);
    assert(seq![x].last() == x);
}

/// Occurrences split over concatenation.
pub proof fn lemma_count_id_append(a: Seq<u32>, b: Seq<u32>, k: u32)
    ensures
        count_id(a + b, k) == count_id(a, k) + count_id(b, k),
    decreases b.len(),
{
    if b.len() == 0 {
        assert(a + b =~= a);
    } else {
        assert((a + b).drop_last() =~= a + b.drop_last());
        lemma_count_id_append(a, b.drop_last(), k);
    }
}

/// A query over points none of which carries the id `k` never reports `k`.
pub proof fn lemma_ids_matching_no_id(s: Seq<TreePoint>, range: Boundary, k: u32)
    requires
        forall|i: int| 0 <= i < s.len() ==> (#[trigger] s[i]).id != k,
    ensures
        count_id(ids_matching(s, range), k) == 0,
    decreases s.len(),
{
    if s.len() > 0 {
        assert(forall|i: int|
            0 <= i < s.drop_last().len() ==> (#[trigger] s.drop_last()[i]).id != k) by {
            assert(forall|i: int|
                0 <= i < s.drop_last().len() ==> s.drop_last()[i] == #[trigger] s[i]);
        }
        lemma_ids_matching_no_id(s.drop_last(), range, k);
        if range.contains_pt(s.last().x as int, s.last().y as int) {
            assert(s.last().id != k);
            lemma_count_id_append(ids_matching(s.drop_last(), range), seq![s.last().id], k);
            lemma_count_id_single(s.last().id, k);
        } else {
            lemma_count_id_append(ids_matching(s.drop_last(), range), Seq::empty(), k);
            assert(count_id(Seq::<u32>::empty(), k) == 0);
        }
    }
}

/// Round-trip law: inserting a point `p` with a fresh id into a leaf with
/// room, whose boundary contains `p`, and then querying with that same
/// boundary, reports `p`'s id exactly once. `t0` is the tree before the
/// insertion and `t1` the tree `insert` leaves behind, characterized by
/// `insert`'s contract.
///
/// The leaf restriction matters: in a divided tree, a child hugging the
/// boundary's top edge can fail the corner-containment overlap test against
/// the boundary itself, so a query with the exact root boundary may miss
/// points stored there. That approximation is part of the query's defined
/// semantics.
pub proof fn lemma_insert_query_roundtrip(t0: QuadTree, t1: QuadTree, p: TreePoint)
    requires
        t0.wf(),
        !t0.divided(),
        t0.items@.len() < t0.capacity,
        t0.boundary.contains_pt(p.x as int, p.y as int),
        forall|i: int| 0 <= i < t0.items@.len() ==> (#[trigger] t0.items@[i]).id != p.id,
        t1.wf(),
        !t1.divided(),
        t1.boundary == t0.boundary,
        t1.items@ == t0.items@.push(p),
    ensures
        count_id(t1.query_seq(t1.boundary), p.id) == 1,
{
    let b = t1.boundary;
    assert(b.contains_pt(b.x_min as int, b.y_min as int));
    assert(b.overlaps_spec(b));
    assert(t1.ne is None && t1.nw is None && t1.se is None && t1.sw is None);
    let own = ids_matching(t1.items@, b);
    assert(t1.query_seq(b) =~= own + Seq::empty() + Seq::empty() + Seq::empty() + Seq::empty());
    assert(t1.query_seq(b) =~= own);
    assert(count_id(t1.query_seq(b), p.id) == count_id(own, p.id));
    assert(t1.items@.drop_last() =~= t0.items@);
    assert(t1.items@.last() == p);
    assert(own =~= ids_matching(t0.items@, b) + seq![p.id]);
    lemma_count_id_append(ids_matching(t0.items@, b), seq![p.id], p.id);
    lemma_ids_matching_no_id(t0.items@, b, p.id);
    lemma_count_id_single(p.id, p.id);
}

impl QuadTree {
    /// A node is divided exactly when it has children; the four child slots
    /// are filled together, so one stands for all.
    pub open spec fn divided(self) -> bool {
        self.nw is Some
    }

    pub open spec fn fresh_leaf(self, b: Boundary, cap: usize) -> bool {
        &&& self.boundary == b
        &&& self.capacity == cap
        &&& self.items@ == Seq::<TreePoint>::empty()
        &&& self.ne is None
        &&& self.nw is None
        &&& self.se is None
        &&& self.sw is None
    }

    pub open spec fn height(self) -> nat
        decreases self,
    {
        1 + nat_max(
            nat_max(opt_height(self.ne), opt_height(self.nw)),
            nat_max(opt_height(self.se), opt_height(self.sw)),
        )
    }

    /// Every point stored anywhere in the tree, with multiplicity.
    pub open spec fn points(self) -> Multiset<TreePoint>
        decreases self,
    {
        self.items@.to_multiset().add(opt_points(self.ne)).add(opt_points(self.nw)).add(
            opt_points(self.se),
        ).add(opt_points(self.sw))
    }

    /// Well-formedness: a node holds at most `capacity` points, each inside
    /// its boundary; either no children, or all four, covering the four
    /// quadrants of the parent with the same capacity.
    pub open spec fn wf(self) -> bool
        decreases self,
    {
        &&& self.boundary.valid()
        &&& 1 <= self.capacity
        &&& self.items@.len() <= self.capacity
        &&& forall|i: int|
            0 <= i < self.items@.len() ==> self.boundary.contains_pt(
                #[trigger] self.items@[i].x as int,
                self.items@[i].y as int,
            )
        &&& if self.divided() {
            &&& opt_wf(self.ne, self.boundary.quad_ne(), self.capacity)
            &&& opt_wf(self.nw, self.boundary.quad_nw(), self.capacity)
            &&& opt_wf(self.se, self.boundary.quad_se(), self.capacity)
            &&& opt_wf(self.sw, self.boundary.quad_sw(), self.capacity)
        } else {
            &&& self.ne is None
            &&& self.se is None
            &&& self.sw is None
        }
    }

    /// What a range query reports: the matching ids of this node's own points,
    /// then the children's reports, but only where the node's boundary passes
    /// the approximate overlap test against the range.
    pub open spec fn query_seq(self, range: Boundary) -> Seq<u32>
        decreases self,
    {
        if !self.boundary.overlaps_spec(range) {
            Seq::empty()
        } else {
            ids_matching(self.items@, range) + opt_query_seq(self.ne, range) + opt_query_seq(
                self.nw,
                range,
            ) + opt_query_seq(self.se, range) + opt_query_seq(self.sw, range)
        }
    }

    /// Every node boundary, depth first: this node's, then the children's.
    pub open spec fn boundaries_seq(self) -> Seq<Boundary>
        decreases self,
    {
        seq![self.boundary] + opt_boundaries(self.ne) + opt_boundaries(self.nw) + opt_boundaries(
            self.se,
        ) + opt_boundaries(self.sw)
    }

    /// A fresh leaf over `boundary`, holding nothing.
    pub fn new(boundary: Boundary, capacity: usize) -> (t: QuadTree)
        requires
            boundary.valid(),
            1 <= capacity,
        ensures
            t.fresh_leaf(boundary, capacity),
            t.wf(),
            !t.divided(),
            t.points() =~= Multiset::<TreePoint>::empty(),
            t.height() == 1,
    {
        let t = QuadTree {
            capacity,
            boundary,
            items: Vec::<TreePoint>::new(),
            ne: Option::None,
            nw: Option::None,
            se: Option::None,
            sw: Option::None,
        };
        proof {
            broadcast use vstd::seq_lib::group_to_multiset_ensures;

            assert(t.items@.to_multiset() =~= Multiset::<TreePoint>::empty());
        }
        t
    }

    pub fn is_divided(&self) -> (r: bool)
        ensures
            r == self.divided(),
    {
        match &self.nw {
            Option::Some(_) => true,
            Option::None => false,
        }
    }

    /// Create the four child quadrants, each empty, with the parent's
    /// capacity. The parent's own points stay where they are.
    fn subdivide(&mut self)
        requires
            old(self).wf(),
            !old(self).divided(),
        ensures
            final(self).wf(),
            final(self).divided(),
            final(self).boundary == old(self).boundary,
            final(self).capacity == old(self).capacity,
            final(self).items@ == old(self).items@,
            opt_fresh(final(self).ne, old(self).boundary.quad_ne(), old(self).capacity),
            opt_fresh(final(self).nw, old(self).boundary.quad_nw(), old(self).capacity),
            opt_fresh(final(self).se, old(self).boundary.quad_se(), old(self).capacity),
            opt_fresh(final(self).sw, old(self).boundary.quad_sw(), old(self).capacity),
            final(self).points() =~= old(self).points(),
    {
        proof {
            lemma_subdivision_tiles(self.boundary);
        }
        let w: i64 = self.boundary.x_max - self.boundary.x_min;
        let h: i64 = self.boundary.y_max - self.boundary.y_min;
        let mid_x: i64 = self.boundary.x_min + w / 2;
        let mid_y: i64 = self.boundary.y_min + h / 2;

        let ne = QuadTree::new(
            Boundary { x_min: mid_x, y_min: mid_y, x_max: self.boundary.x_max, y_max: self.boundary.y_max },
            self.capacity,
        );
        let nw = QuadTree::new(
            Boundary { x_min: self.boundary.x_min, y_min: mid_y, x_max: mid_x, y_max: self.boundary.y_max },
            self.capacity,
        );
        let se = QuadTree::new(
            Boundary { x_min: mid_x, y_min: self.boundary.y_min, x_max: self.boundary.x_max, y_max: mid_y },
            self.capacity,
        );
        let sw = QuadTree::new(
            Boundary { x_min: self.boundary.x_min, y_min: self.boundary.y_min, x_max: mid_x, y_max: mid_y },
            self.capacity,
        );

        self.ne = Option::Some(Box::new(ne));
        self.nw = Option::Some(Box::new(nw));
        self.se = Option::Some(Box::new(se));
        self.sw = Option::Some(Box::new(sw));
    }

    /// Insert a point. A point outside the node's boundary is silently
    /// dropped; one inside it ends up stored exactly once. A full leaf
    /// divides, once and for all, before handing the point to its children.
    pub fn insert(&mut self, item: TreePoint)
        requires
            old(self).wf(),
        ensures
            final(self).wf(),
            final(self).boundary == old(self).boundary,
            final(self).capacity == old(self).capacity,
            final(self).divided() == (old(self).divided() || (old(self).boundary.contains_pt(
                item.x as int,
                item.y as int,
            ) && old(self).items@.len() >= old(self).capacity)),
            old(self).boundary.contains_pt(item.x as int, item.y as int) ==> final(self).points()
                =~= old(self).points().insert(item),
            !old(self).boundary.contains_pt(item.x as int, item.y as int) ==> *final(self) == *old(
                self,
            ),
            (old(self).boundary.contains_pt(item.x as int, item.y as int) && !old(self).divided()
                && old(self).items@.len() < old(self).capacity) ==> final(self).items@ == old(
                self,
            ).items@.push(item) && !final(self).divided(),
        decreases old(self).height(), old(self).items@.len(),
    {
        broadcast use vstd::seq_lib::group_to_multiset_ensures;

        if self.boundary.contains(item.x, item.y) {
            if self.items.len() < self.capacity && !self.is_divided() {
                self.items.push(item);
            } else {
                proof {
                    lemma_subdivision_tiles(self.boundary);
                    if old(self).divided() {
                        assert(opt_height(old(self).ne) < old(self).height());
                        assert(opt_height(old(self).nw) < old(self).height());
                        assert(opt_height(old(self).se) < old(self).height());
                        assert(opt_height(old(self).sw) < old(self).height());
                    }
                }
                if !self.is_divided() {
                    self.subdivide();
                }

                let mut ne = self.ne.take().unwrap();
                (&mut *ne).insert(item);
                self.ne = Option::Some(ne);

                let mut nw = self.nw.take().unwrap();
                (&mut *nw).insert(item);
                self.nw = Option::Some(nw);

                let mut se = self.se.take().unwrap();
                (&mut *se).insert(item);
                self.se = Option::Some(se);

                let mut sw = self.sw.take().unwrap();
                (&mut *sw).insert(item);
                self.sw = Option::Some(sw);

                proof {
                    assert(self.points() =~= old(self).points().insert(item));
                }
            }
        }
    }

    /// Report the ids of stored points that fall inside `range`, appended to
    /// `found`, visiting only subtrees whose boundary passes the approximate
    /// overlap test.
    #[verifier::rlimit(100)]
    pub fn query(&self, range: &Boundary, found: &mut Vec<u32>)
        ensures
            final(found)@ == old(found)@ + self.query_seq(*range),
        decreases self.height(),
    {
        if self.boundary.overlaps(range) {
            let ghost entry = found@;
            let mut i: usize = 0;
            while i < self.items.len()
                invariant
                    i <= self.items@.len(),
                    found@ == entry + ids_matching(self.items@.subrange(0, i as int), *range),
                decreases self.items@.len() - i,
            {
                proof {
                    assert(self.items@.subrange(0, i + 1).drop_last() =~= self.items@.subrange(
                        0,
                        i as int,
                    ));
                    assert(self.items@.subrange(0, i + 1).last() == self.items@[i as int]);
                }
                let p = self.items[i];
                if range.contains(p.x, p.y) {
                    found.push(p.id);
                }
                i = i + 1;
            }
            proof {
                assert(self.items@.subrange(0, self.items@.len() as int) =~= self.items@);
            }
            if let Option::Some(q) = &self.ne {
                proof {
                    assert(opt_height(self.ne) < self.height());
                }
                q.query(range, found);
            }
            if let Option::Some(q) = &self.nw {
                proof {
                    assert(opt_height(self.nw) < self.height());
                }
                q.query(range, found);
            }
            if let Option::Some(q) = &self.se {
                proof {
                    assert(opt_height(self.se) < self.height());
                }
                q.query(range, found);
            }
            if let Option::Some(q) = &self.sw {
                proof {
                    assert(opt_height(self.sw) < self.height());
                }
                q.query(range, found);
            }
            proof {
                assert(found@ =~= old(found)@ + self.query_seq(*range));
            }
        } else {
            proof {
                assert(found@ =~= old(found)@ + self.query_seq(*range));
            }
        }
    }

    /// The read-only walk handed to a renderer: every node boundary in the
    /// tree, depth first.
    pub fn render(&self, out: &mut Vec<Boundary>)
        ensures
            final(out)@ == old(out)@ + self.boundaries_seq(),
        decreases self.height(),
    {
        out.push(self.boundary);
        if let Option::Some(q) = &self.ne {
            proof {
                assert(opt_height(self.ne) < self.height());
            }
            q.render(out);
        }
        if let Option::Some(q) = &self.nw {
            proof {
                assert(opt_height(self.nw) < self.height());
            }
            q.render(out);
        }
        if let Option::Some(q) = &self.se {
            proof {
                assert(opt_height(self.se) < self.height());
            }
            q.render(out);
        }
        if let Option::Some(q) = &self.sw {
            proof {
                assert(opt_height(self.sw) < self.height());
            }
            q.render(out);
        }
        proof {
            assert(out@ =~= old(out)@ + self.boundaries_seq());
        }
    }
}

} // verus!
