// The tick loop: advance the particles, rebuild the index, query it.

use jelly::boundary::Boundary;
use jelly::particle::Particle;
use jelly::particle::ParticleSet;
use jelly::sim::Simulation;

fn square(center_x: i64, center_y: i64, half: i64) -> Boundary {
    Boundary {
        x_min: center_x - half,
        y_min: center_y - half,
        x_max: center_x + half,
        y_max: center_y + half,
    }
}

#[test]
fn test_tick_rebuilds_index() {
    let world = square(0, 0, 450000);
    let set = ParticleSet::new(
        vec![Particle::new(10000, 10000, 500, 0), Particle::new(-300000, -300000, 0, 0)],
        1000,
        1000000,
    );
    let mut sim = Simulation::new(world, 2, set);
    sim.tick();
    assert_eq!((sim.particles.particles[0].x, sim.particles.particles[0].y), (10500, 10000));

    let mut found: Vec<u32> = Vec::new();
    sim.tree.query(&square(10000, 10000, 2000), &mut found);
    assert_eq!(found, vec![0]);

    let mut found2: Vec<u32> = Vec::new();
    sim.tree.query(&square(-300000, -300000, 2000), &mut found2);
    assert_eq!(found2, vec![1]);

    // The index is rebuilt from scratch each tick, not patched.
    sim.tick();
    let mut found3: Vec<u32> = Vec::new();
    sim.tree.query(&square(11000, 10000, 2000), &mut found3);
    assert_eq!(found3, vec![0]);
}

#[test]
fn test_tick_drops_particle_outside_world() {
    let world = square(0, 0, 5000);
    let set = ParticleSet::new(vec![Particle::new(4900, 0, 500, 0)], 10, 100000);
    let mut sim = Simulation::new(world, 2, set);
    sim.tick();
    assert_eq!(sim.particles.particles[0].x, 5400);
    let mut found: Vec<u32> = Vec::new();
    sim.tree.query(&world, &mut found);
    assert!(found.is_empty());
}

#[test]
fn test_render_after_tick() {
    let world = square(0, 0, 5000);
    let set = ParticleSet::new(
        vec![
            Particle::new(1000, 1000, 0, 0),
            Particle::new(1100, 1100, 0, 0),
            Particle::new(1200, 1200, 0, 0),
        ],
        10,
        100000,
    );
    let mut sim = Simulation::new(world, 2, set);
    sim.tick();
    let mut walk: Vec<Boundary> = Vec::new();
    sim.tree.render(&mut walk);
    // Three points in one quadrant with capacity 2: the root divided once.
    assert_eq!(walk.len(), 5);
    assert_eq!(walk[0], world);
}
