//! The per-tick simulation state: the particle population and the spatial
//! index over it. Each tick advances every particle, then discards the old
//! quadtree and rebuilds a fresh one by inserting every particle's position,
//! tagged with its index.

use vstd::multiset::Multiset;
use vstd::prelude::*;

use crate::boundary::Boundary;
use crate::boundary::TreePoint;
use crate::particle::Particle;
use crate::particle::ParticleSet;
use crate::particle::particle_step;
use crate::quadtree::QuadTree;

verus! {

/// The index entries that the first `n` particles of `ps` contribute: one
/// tagged point per particle whose position lies inside `world`; a particle
/// outside it is silently dropped.
pub open spec fn indexed_points(ps: Seq<Particle>, world: Boundary, n: int) -> Multiset<TreePoint>
    decreases n,
{
    if n <= 0 {
        Multiset::empty()
    } else {
        indexed_points(ps, world, n - 1).add(
            if world.contains_pt(ps[n - 1].x as int, ps[n - 1].y as int) {
                Multiset::singleton(
                    TreePoint { x: ps[n - 1].x, y: ps[n - 1].y, id: (n - 1) as u32 },
                )
            } else {
                Multiset::empty()
            },
        )
    }
}

/// The whole mutable simulation bundle: built once at startup, advanced by
/// `tick`, read by the renderer through `tree` and `particles`.
pub struct Simulation {
    pub particles: ParticleSet,
    pub tree: QuadTree,
    pub world: Boundary,
    pub capacity: usize,
}

impl Simulation {
    pub open spec fn wf(self) -> bool {
        &&& self.world.valid()
        &&& 1 <= self.capacity
        &&& self.particles.radii_valid()
        &&& self.tree.wf()
        &&& self.particles.particles@.len() <= u32::MAX
    }

    /// A fresh simulation over `world`: the given particles, and an empty
    /// index awaiting the first tick.
    pub fn new(world: Boundary, capacity: usize, particles: ParticleSet) -> (s: Simulation)
        requires
            world.valid(),
            1 <= capacity,
            particles.radii_valid(),
            particles.particles@.len() <= u32::MAX,
        ensures
            s.wf(),
            s.world == world,
            s.capacity == capacity,
            s.particles == particles,
            s.tree.points() =~= Multiset::<TreePoint>::empty(),
    {
        let tree = QuadTree::new(world, capacity);
        Simulation { particles, tree, world, capacity }
    }

    /// Advance one tick: step every particle, then rebuild the index from
    /// scratch, inserting each particle's new position under its index. The
    /// rebuilt tree holds exactly one entry per particle that lies inside the
    /// world boundary.
    pub fn tick(&mut self)
        requires
            old(self).wf(),
            old(self).particles.all_in_bounds(),
        ensures
            final(self).wf(),
            final(self).world == old(self).world,
            final(self).capacity == old(self).capacity,
            final(self).particles.inner_radius == old(self).particles.inner_radius,
            final(self).particles.outer_radius == old(self).particles.outer_radius,
            final(self).particles.particles@.len() == old(self).particles.particles@.len(),
            forall|i: int|
                0 <= i < old(self).particles.particles@.len()
                    ==> final(self).particles.particles@[i] == particle_step(
                    #[trigger] old(self).particles.particles@[i],
                    old(self).particles.inner_radius as int,
                    old(self).particles.outer_radius as int,
                ),
            final(self).tree.boundary == old(self).world,
            final(self).tree.points() =~= indexed_points(
                final(self).particles.particles@,
                old(self).world,
                old(self).particles.particles@.len() as int,
            ),
    {
        self.particles.step();
        let mut tree = QuadTree::new(self.world, self.capacity);
        let n = self.particles.particles.len();
        let mut i: usize = 0;
        while i < n
            invariant
                i <= n,
                n == self.particles.particles@.len(),
                n <= u32::MAX,
                self.world.valid(),
                tree.wf(),
                tree.boundary == self.world,
                tree.points() =~= indexed_points(self.particles.particles@, self.world, i as int),
            decreases n - i,
        {
            let p = self.particles.particles[i];
            tree.insert(TreePoint::new(p.x, p.y, i as u32));
            i = i + 1;
        }
        self.tree = tree;
    }
}

} // verus!
