//! Moving points and the annulus-confinement physics rule.
//!
//! Positions and velocities are fixed-point integers. A tick integrates the
//! position by one velocity step, then, when the particle has crossed the
//! outer wall or the inner hole (compared by squared distance, which is
//! exact), reflects the velocity about the wall normal. The reflected
//! velocity is the exact elastic reflection rounded once per component; the
//! exact reflection provably preserves speed and flips the radial component
//! (`lemma_reflection_preserves_speed`).

use vstd::arithmetic::div_mod::lemma_fundamental_div_mod;
use vstd::arithmetic::div_mod::lemma_mod_bound;
use vstd::prelude::*;

verus! {

/// Largest position-component magnitude the physics step accepts. Together
/// with `VEL_LIMIT` this keeps every intermediate product inside `i64`.
pub const POS_LIMIT: i64 = 1_048_576;

/// Largest velocity-component magnitude the physics step accepts.
pub const VEL_LIMIT: i64 = 65_536;

pub open spec fn dot2(ax: int, ay: int, bx: int, by: int) -> int {
    ax * bx + ay * by
}

/// Squared Euclidean length.
pub open spec fn norm_sq(x: int, y: int) -> int {
    x * x + y * y
}

/// First component of the elastic reflection of `(vx, vy)` about the normal
/// through `(px, py)`: the exact value `vx - 2 (v . p) px / |p|^2`, with the
/// quotient rounded by Euclidean division.
pub open spec fn reflected_vx(px: int, py: int, vx: int, vy: int) -> int {
    vx - (2 * dot2(vx, vy, px, py) * px) / norm_sq(px, py)
}

/// Second component of the elastic reflection; see `reflected_vx`.
pub open spec fn reflected_vy(px: int, py: int, vx: int, vy: int) -> int {
    vy - (2 * dot2(vx, vy, px, py) * py) / norm_sq(px, py)
}

/// The exact (unrounded) reflection, scaled by `|p|^2`, preserves speed and
/// flips the sign of the radial velocity component. With `d2 = |p|^2` and
/// `dt = v . p`, the scaled reflected velocity `w = v d2 - 2 dt p` satisfies
/// `|w|^2 == |v|^2 d2^2` (speed preserved) and `w . p == -(v . p) d2` (radial
/// component reversed).
pub proof fn lemma_reflection_preserves_speed(px: int, py: int, vx: int, vy: int)
    ensures
        ({
            let d2 = norm_sq(px, py);
            let dt = dot2(vx, vy, px, py);
            let wx = vx * d2 - 2 * dt * px;
            let wy = vy * d2 - 2 * dt * py;
            &&& norm_sq(wx, wy) == norm_sq(vx, vy) * d2 * d2
            &&& dot2(wx, wy, px, py) == -dt * d2
        }),
{
    let d2 = norm_sq(px, py);
    let dt = dot2(vx, vy, px, py);
    let wx = vx * d2 - 2 * dt * px;
    let wy = vy * d2 - 2 * dt * py;
    lemma_reflection_norm(px, py, vx, vy, d2, dt, wx, wy);
    lemma_reflection_radial(px, py, vx, vy, d2, dt, wx, wy);
}

/// The norm identity behind `lemma_reflection_preserves_speed`, stated over
/// named intermediates so each algebraic step stays small.
proof fn lemma_reflection_norm(px: int, py: int, vx: int, vy: int, d2: int, dt: int, wx: int, wy: int)
    requires
        d2 == px * px + py * py,
        dt == vx * px + vy * py,
        wx == vx * d2 - 2 * dt * px,
        wy == vy * d2 - 2 * dt * py,
    ensures
        wx * wx + wy * wy == (vx * vx + vy * vy) * d2 * d2,
{
    lemma_double(dt, px);
    lemma_double(dt, py);
    assert(wx == vx * d2 - 2 * (dt * px));
    assert(wy == vy * d2 - 2 * (dt * py));
    lemma_sq_diff(vx * d2, dt * px);
    lemma_sq_diff(vy * d2, dt * py);
    lemma_mul4(vx, d2, vx, d2);
    lemma_mul4(vy, d2, vy, d2);
    lemma_mul4(dt, px, dt, px);
    lemma_mul4(dt, py, dt, py);
    lemma_swap_inner(vx, d2, dt, px);
    lemma_swap_inner(vy, d2, dt, py);
    assert(wx * wx == (vx * vx) * (d2 * d2) - 4 * ((vx * px) * (dt * d2)) + 4 * ((dt * dt) * (px
        * px)));
    assert(wy * wy == (vy * vy) * (d2 * d2) - 4 * ((vy * py) * (dt * d2)) + 4 * ((dt * dt) * (py
        * py)));
    lemma_distr_right(vx * px, vy * py, dt * d2);
    assert((vx * px) * (dt * d2) + (vy * py) * (dt * d2) == dt * (dt * d2));
    lemma_assoc_self(dt, d2);
    lemma_distr_left(dt * dt, px * px, py * py);
    assert((dt * dt) * (px * px) + (dt * dt) * (py * py) == (dt * dt) * d2);
    lemma_distr_right(vx * vx, vy * vy, d2 * d2);
    lemma_assoc_tail(vx * vx + vy * vy, d2);
    assert((vx * vx) * (d2 * d2) + (vy * vy) * (d2 * d2) == (vx * vx + vy * vy) * d2 * d2);
}

/// `(2 a) b == 2 (a b)`.
proof fn lemma_double(a: int, b: int)
    ensures
        (2 * a) * b == 2 * (a * b),
{
    assert((2 * a) * b == 2 * (a * b)) by (nonlinear_arith);
}

/// The square of a difference, with the cross term kept as one product.
proof fn lemma_sq_diff(a: int, b: int)
    ensures
        (a - 2 * (b)) * (a - 2 * (b)) == a * a - 4 * (a * b) + 4 * (b * b),
{
    assert((a - 2 * (b)) * (a - 2 * (b)) == a * a - 4 * (a * b) + 4 * (b * b))
        by (nonlinear_arith);
}

/// Regrouping a product of two products.
proof fn lemma_mul4(a: int, b: int, c: int, d: int)
    ensures
        (a * b) * (c * d) == (a * c) * (b * d),
{
    assert((a * b) * (c * d) == (a * c) * (b * d)) by (nonlinear_arith);
}

/// Regrouping that swaps the inner factors.
proof fn lemma_swap_inner(a: int, b: int, c: int, d: int)
    ensures
        (a * b) * (c * d) == (a * d) * (c * b),
{
    assert((a * b) * (c * d) == (a * d) * (c * b)) by (nonlinear_arith);
}

/// Right distributivity: `a c + b c == (a + b) c`.
proof fn lemma_distr_right(a: int, b: int, c: int)
    ensures
        a * c + b * c == (a + b) * c,
{
    assert(a * c + b * c == (a + b) * c) by (nonlinear_arith);
}

/// Left distributivity: `a b + a c == a (b + c)`.
proof fn lemma_distr_left(a: int, b: int, c: int)
    ensures
        a * b + a * c == a * (b + c),
{
    assert(a * b + a * c == a * (b + c)) by (nonlinear_arith);
}

/// `a (a b) == (a a) b`.
proof fn lemma_assoc_self(a: int, b: int)
    ensures
        a * (a * b) == (a * a) * b,
{
    assert(a * (a * b) == (a * a) * b) by (nonlinear_arith);
}

/// `a (b b) == (a b) b`.
proof fn lemma_assoc_tail(a: int, b: int)
    ensures
        a * (b * b) == (a * b) * b,
{
    assert(a * (b * b) == (a * b) * b) by (nonlinear_arith);
}

/// `(a - 2 b) c == a c - 2 (b c)`.
proof fn lemma_distr_diff(a: int, b: int, c: int)
    ensures
        (a - 2 * (b)) * c == a * c - 2 * (b * c),
{
    assert((a - 2 * (b)) * c == a * c - 2 * (b * c)) by (nonlinear_arith);
}

/// `(a b) c == (a c) b`.
proof fn lemma_swap_tail(a: int, b: int, c: int)
    ensures
        (a * b) * c == (a * c) * b,
{
    assert((a * b) * c == (a * c) * b) by (nonlinear_arith);
}

/// `(a b) b == a (b b)`.
proof fn lemma_fold_sq(a: int, b: int)
    ensures
        (a * b) * b == a * (b * b),
{
    assert((a * b) * b == a * (b * b)) by (nonlinear_arith);
}

/// `(-a) b == -(a b)`.
proof fn lemma_neg_mul(a: int, b: int)
    ensures
        (-a) * b == -(a * b),
{
    assert((-a) * b == -(a * b)) by (nonlinear_arith);
}

/// The radial-component identity behind `lemma_reflection_preserves_speed`.
proof fn lemma_reflection_radial(px: int, py: int, vx: int, vy: int, d2: int, dt: int, wx: int, wy: int)
    requires
        d2 == px * px + py * py,
        dt == vx * px + vy * py,
        wx == vx * d2 - 2 * dt * px,
        wy == vy * d2 - 2 * dt * py,
    ensures
        wx * px + wy * py == -dt * d2,
{
    lemma_double(dt, px);
    lemma_double(dt, py);
    assert(wx == vx * d2 - 2 * (dt * px));
    assert(wy == vy * d2 - 2 * (dt * py));
    lemma_distr_diff(vx * d2, dt * px, px);
    lemma_distr_diff(vy * d2, dt * py, py);
    lemma_swap_tail(vx, d2, px);
    lemma_swap_tail(vy, d2, py);
    lemma_fold_sq(dt, px);
    lemma_fold_sq(dt, py);
    assert(wx * px == (vx * px) * d2 - 2 * (dt * (px * px)));
    assert(wy * py == (vy * py) * d2 - 2 * (dt * (py * py)));
    lemma_distr_right(vx * px, vy * py, d2);
    lemma_distr_left(dt, px * px, py * py);
    lemma_neg_mul(dt, d2);
    assert(wx * px + wy * py == dt * d2 - 2 * (dt * d2));
}

/// Euclidean division by a positive divisor lands between `-(|a| + d)` and
/// `|a|`; enough to rule out overflow around the reflection quotients.
proof fn lemma_div_magnitude(a: int, d: int, abs_a: int)
    requires
        1 <= d,
        -abs_a <= a <= abs_a,
    ensures
        -abs_a - d <= a / d <= abs_a,
{
    lemma_fundamental_div_mod(a, d);
    lemma_mod_bound(a, d);
    assert(-abs_a - d <= a / d <= abs_a) by (nonlinear_arith)
        requires
            1 <= d,
            a == d * (a / d) + a % d,
            0 <= a % d < d,
            -abs_a <= a <= abs_a,
    ;
}

/// Elastic reflection of the velocity `(vx, vy)` off a circular wall whose
/// normal passes through `(px, py)`: each component is the exact reflection
/// rounded once by Euclidean division. The same formula serves the outer
/// wall and the inner hole.
pub fn reflect(px: i64, py: i64, vx: i64, vy: i64) -> (r: (i64, i64))
    requires
        -POS_LIMIT - VEL_LIMIT <= px <= POS_LIMIT + VEL_LIMIT,
        -POS_LIMIT - VEL_LIMIT <= py <= POS_LIMIT + VEL_LIMIT,
        -VEL_LIMIT <= vx <= VEL_LIMIT,
        -VEL_LIMIT <= vy <= VEL_LIMIT,
        px != 0 || py != 0,
    ensures
        r.0 == reflected_vx(px as int, py as int, vx as int, vy as int),
        r.1 == reflected_vy(px as int, py as int, vx as int, vy as int),
{
    proof {
        assert(0 <= px * px <= 1_241_245_548_544 && (px != 0 ==> 1 <= px * px))
            by (nonlinear_arith)
            requires
                -1_114_112 <= px <= 1_114_112,
        ;
        assert(0 <= py * py <= 1_241_245_548_544 && (py != 0 ==> 1 <= py * py))
            by (nonlinear_arith)
            requires
                -1_114_112 <= py <= 1_114_112,
        ;
        assert(-73_014_444_032 <= vx * px <= 73_014_444_032) by (nonlinear_arith)
            requires
                -65_536 <= vx <= 65_536,
                -1_114_112 <= px <= 1_114_112,
        ;
        assert(-73_014_444_032 <= vy * py <= 73_014_444_032) by (nonlinear_arith)
            requires
                -65_536 <= vy <= 65_536,
                -1_114_112 <= py <= 1_114_112,
        ;
    }
    let d2: i64 = px * px + py * py;
    let dt: i64 = vx * px + vy * py;
    proof {
        assert(-200_000_000_000_000_000 <= (dt as int) * (px as int) <= 200_000_000_000_000_000)
            by (nonlinear_arith)
            requires
                -146_028_888_064 <= dt <= 146_028_888_064,
                -1_114_112 <= px <= 1_114_112,
        ;
        assert(-200_000_000_000_000_000 <= (dt as int) * (py as int) <= 200_000_000_000_000_000)
            by (nonlinear_arith)
            requires
                -146_028_888_064 <= dt <= 146_028_888_064,
                -1_114_112 <= py <= 1_114_112,
        ;
    }
    proof {
        assert((2 * (dt as int)) * (px as int) == 2 * ((dt as int) * (px as int)))
            by (nonlinear_arith);
        assert((2 * (dt as int)) * (py as int) == 2 * ((dt as int) * (py as int)))
            by (nonlinear_arith);
    }
    let ax: i64 = 2 * dt * px;
    let ay: i64 = 2 * dt * py;
    proof {
        lemma_div_magnitude(ax as int, d2 as int, 400_000_000_000_000_000);
        lemma_div_magnitude(ay as int, d2 as int, 400_000_000_000_000_000);
    }
    let qx: i64 = ax.checked_div_euclid(d2).unwrap();
    let qy: i64 = ay.checked_div_euclid(d2).unwrap();
    (vx - qx, vy - qy)
}

/// A moving point: fixed-point position and velocity.
#[derive(Debug, Copy, Clone, PartialEq, Eq, Structural)]
pub struct Particle {
    pub x: i64,
    pub y: i64,
    pub vx: i64,
    pub vy: i64,
}

/// Where one tick takes a particle: integrate the position by one velocity
/// step, then reflect the velocity if the new position lies beyond the outer
/// wall or inside the inner hole. Reflections correct the velocity only; the
/// position is left where it landed, so a fast particle may overshoot a wall
/// by one tick's displacement before the correction. A particle that lands
/// exactly on the center (where no wall normal exists) keeps its velocity.
pub open spec fn particle_step(p: Particle, inner_r: int, outer_r: int) -> Particle {
    let nx = p.x + p.vx;
    let ny = p.y + p.vy;
    let d2 = norm_sq(nx, ny);
    if d2 > outer_r * outer_r {
        Particle {
            x: nx as i64,
            y: ny as i64,
            vx: reflected_vx(nx, ny, p.vx as int, p.vy as int) as i64,
            vy: reflected_vy(nx, ny, p.vx as int, p.vy as int) as i64,
        }
    } else if d2 != 0 && d2 < inner_r * inner_r {
        Particle {
            x: nx as i64,
            y: ny as i64,
            vx: reflected_vx(nx, ny, p.vx as int, p.vy as int) as i64,
            vy: reflected_vy(nx, ny, p.vx as int, p.vy as int) as i64,
        }
    } else {
        Particle { x: nx as i64, y: ny as i64, vx: p.vx, vy: p.vy }
    }
}

impl Particle {
    pub open spec fn in_bounds(self) -> bool {
        &&& -POS_LIMIT <= self.x <= POS_LIMIT
        &&& -POS_LIMIT <= self.y <= POS_LIMIT
        &&& -VEL_LIMIT <= self.vx <= VEL_LIMIT
        &&& -VEL_LIMIT <= self.vy <= VEL_LIMIT
    }

    pub fn new(x: i64, y: i64, vx: i64, vy: i64) -> (p: Particle)
        ensures
            p == (Particle { x, y, vx, vy }),
    {
        Particle { x, y, vx, vy }
    }

    /// Advance this particle by one tick (see `particle_step`).
    pub fn step(&mut self, inner_r: i64, outer_r: i64)
        requires
            old(self).in_bounds(),
            1 <= inner_r < outer_r <= POS_LIMIT,
        ensures
            *final(self) == particle_step(*old(self), inner_r as int, outer_r as int),
    {
        let nx: i64 = self.x + self.vx;
        let ny: i64 = self.y + self.vy;
        self.x = nx;
        self.y = ny;
        proof {
            assert(0 <= nx * nx <= 1_241_245_548_544) by (nonlinear_arith)
                requires
                    -1_114_112 <= nx <= 1_114_112,
            ;
            assert(0 <= ny * ny <= 1_241_245_548_544) by (nonlinear_arith)
                requires
                    -1_114_112 <= ny <= 1_114_112,
            ;
            assert(0 <= outer_r * outer_r <= 1_099_511_627_776) by (nonlinear_arith)
                requires
                    1 <= outer_r <= 1_048_576,
            ;
            assert(0 <= inner_r * inner_r <= 1_099_511_627_776) by (nonlinear_arith)
                requires
                    1 <= inner_r <= 1_048_576,
            ;
        }
        let d2: i64 = nx * nx + ny * ny;
        let outer_sq: i64 = outer_r * outer_r;
        let inner_sq: i64 = inner_r * inner_r;
        if d2 > outer_sq {
            let r = reflect(nx, ny, self.vx, self.vy);
            self.vx = r.0;
            self.vy = r.1;
        } else if d2 != 0 && d2 < inner_sq {
            let r = reflect(nx, ny, self.vx, self.vy);
            self.vx = r.0;
            self.vy = r.1;
        }
    }
}

/// The particle population together with the two wall radii it is confined
/// between; fixed size for the run, advanced in place once per tick.
pub struct ParticleSet {
    pub particles: Vec<Particle>,
    pub inner_radius: i64,
    pub outer_radius: i64,
}

impl ParticleSet {
    pub open spec fn radii_valid(self) -> bool {
        1 <= self.inner_radius < self.outer_radius <= POS_LIMIT
    }

    pub open spec fn all_in_bounds(self) -> bool {
        forall|i: int| 0 <= i < self.particles@.len() ==> (#[trigger] self.particles@[i]).in_bounds()
    }

    pub fn new(particles: Vec<Particle>, inner_radius: i64, outer_radius: i64) -> (s: ParticleSet)
        requires
            1 <= inner_radius < outer_radius <= POS_LIMIT,
        ensures
            s.particles == particles,
            s.inner_radius == inner_radius,
            s.outer_radius == outer_radius,
            s.radii_valid(),
    {
        ParticleSet { particles, inner_radius, outer_radius }
    }

    /// Advance every particle by one tick, in order.
    pub fn step(&mut self)
        requires
            old(self).radii_valid(),
            old(self).all_in_bounds(),
        ensures
            final(self).inner_radius == old(self).inner_radius,
            final(self).outer_radius == old(self).outer_radius,
            final(self).particles@.len() == old(self).particles@.len(),
            forall|i: int|
                0 <= i < old(self).particles@.len() ==> final(self).particles@[i] == particle_step(
                    #[trigger] old(self).particles@[i],
                    old(self).inner_radius as int,
                    old(self).outer_radius as int,
                ),
    {
        let n = self.particles.len();
        let mut i: usize = 0;
        while i < n
            invariant
                i <= n,
                n == self.particles@.len(),
                self.inner_radius == old(self).inner_radius,
                self.outer_radius == old(self).outer_radius,
                self.radii_valid(),
                self.particles@.len() == old(self).particles@.len(),
                forall|j: int|
                    0 <= j < i ==> self.particles@[j] == particle_step(
                        #[trigger] old(self).particles@[j],
                        old(self).inner_radius as int,
                        old(self).outer_radius as int,
                    ),
                forall|j: int|
                    i <= j < n ==> #[trigger] self.particles@[j] == old(self).particles@[j],
                old(self).all_in_bounds(),
            decreases n - i,
        {
            let mut p = self.particles[i];
            p.step(self.inner_radius, self.outer_radius);
            self.particles[i] = p;
            i = i + 1;
        }
    }
}

} // verus!
