// Physics behaviour: elastic reflection and long-run annulus confinement,
// at fixed-point scale: 1000 units = 1 world unit.

use jelly::particle::Particle;
use jelly::particle::ParticleSet;
use jelly::particle::reflect;

#[test]
fn test_reflection_preserves_speed_axis() {
    // Wall normal along the x axis: the radial component flips exactly and
    // the tangential one is untouched, so speed is preserved exactly.
    let (vx, vy) = reflect(1000, 0, 500, 300);
    assert_eq!((vx, vy), (-500, 300));
    assert_eq!(vx * vx + vy * vy, 500 * 500 + 300 * 300);
}

#[test]
fn test_reflection_preserves_speed_diagonal() {
    // Wall normal along the diagonal; the quotients divide exactly here.
    let (vx, vy) = reflect(1000, 1000, 400, 0);
    assert_eq!((vx, vy), (0, -400));
    assert_eq!(vx * vx + vy * vy, 400 * 400);
    // The radial component changed sign.
    let before = 400 * 1000 + 0 * 1000;
    let after = vx * 1000 + vy * 1000;
    assert_eq!(after, -before);
}

#[test]
fn test_step_outer_wall_reflection() {
    let mut p = Particle::new(1990, 0, 20, 0);
    p.step(10, 2000);
    // Position integrates past the wall and is not clamped back; only the
    // velocity is corrected.
    assert_eq!((p.x, p.y), (2010, 0));
    assert_eq!((p.vx, p.vy), (-20, 0));
}

#[test]
fn test_step_inner_wall_reflection() {
    let mut p = Particle::new(1010, 0, -20, 0);
    p.step(1000, 100000);
    assert_eq!((p.x, p.y), (990, 0));
    assert_eq!((p.vx, p.vy), (20, 0));
}

#[test]
fn test_step_no_reflection_inside_annulus() {
    let mut p = Particle::new(50000, 60000, 300, -200);
    p.step(1000, 1000000);
    assert_eq!((p.x, p.y), (50300, 59800));
    assert_eq!((p.vx, p.vy), (300, -200));
}

#[test]
fn test_annulus_confinement() {
    // The radii of the simulated annulus: inner 114.5, outer 398.0 world
    // units, at scale 1000. A particle started inside the annulus stays
    // within it, up to a small overshoot bound proportional to its speed.
    let inner: i64 = 114500;
    let outer: i64 = 398000;
    let margin: i64 = 2000;
    let mut set = ParticleSet::new(vec![Particle::new(200000, 0, 400, 300)], inner, outer);
    for _ in 0..2000 {
        set.step();
        let p = set.particles[0];
        let d2 = p.x * p.x + p.y * p.y;
        let lo = inner - margin;
        let hi = outer + margin;
        assert!(d2 >= lo * lo, "fell inside the hole: d2 = {}", d2);
        assert!(d2 <= hi * hi, "escaped the outer wall: d2 = {}", d2);
    }
}

#[test]
fn test_particle_set_step_advances_all() {
    let mut set = ParticleSet::new(
        vec![Particle::new(200000, 0, 100, 0), Particle::new(0, -200000, 0, -50)],
        1000,
        1000000,
    );
    set.step();
    assert_eq!(set.particles.len(), 2);
    assert_eq!((set.particles[0].x, set.particles[0].y), (200100, 0));
    assert_eq!((set.particles[1].x, set.particles[1].y), (0, -200050));
}
