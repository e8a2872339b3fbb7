//! Pairwise force accumulation and the velocity impulse it produces.

use rayon::iter::{IntoParallelRefIterator, ParallelIterator};
use vstd::arithmetic::div_mod::lemma_fundamental_div_mod;
use vstd::prelude::*;

use crate::fixed::{
    div_toward_zero, div_trunc, floor_sqrt, is_floor_sqrt, isqrt, lemma_floor_sqrt_exists, SCALE,
};
use crate::particle::{Mass, Particle, ParticleBundle, CHARGE_LIMIT, MASS_LIMIT};
use crate::vector::{add3, norm_sq, sub3, zero3, Triple, Vector};

verus! {

/// Squared separations at or below this (in squared fixed-point units, one
/// unit of resolution) are treated as coincident and exert no force.
pub const EPSILON_SQ: i128 = 1_000_000_000;

/// Largest number of particles whose forces are summed.
pub const MAX_PARTICLES: usize = 4_294_967_295;

/// Largest time step, in fixed-point time units.
pub const DT_LIMIT: i64 = 281_474_976_710_656;

/// Largest magnitude of one component of an impulse.
pub const IMPULSE_BOUND: i128 = 0x2000_0000_0000_0000_0000_0000_0000_0000;

/// Largest magnitude of one component of a pairwise force.
pub const PAIR_BOUND: i128 = 274_877_906_944;

/// A force (or impulse) in fixed-point units, wide enough for a full sum.
#[derive(Clone, Copy, Debug, PartialEq, Eq, Structural)]
pub struct Force {
    pub x: i128,
    pub y: i128,
    pub z: i128,
}

impl View for Force {
    type V = Triple;

    open spec fn view(&self) -> Triple {
        (self.x as int, self.y as int, self.z as int)
    }
}

/// Every component of `a` has magnitude at most `b`.
pub open spec fn bounded(a: Triple, b: int) -> bool {
    -b <= a.0 <= b && -b <= a.1 <= b && -b <= a.2 <= b
}

impl Force {
    pub fn zero() -> (r: Force)
        ensures
            r@ == zero3(),
    {
        Force { x: 0, y: 0, z: 0 }
    }

    pub fn sum(a: Force, b: Force) -> (r: Force)
        requires
            bounded(a@, 0x1_0000_0000_0000_0000_0000_0000_0000),
            bounded(b@, 0x1_0000_0000_0000_0000_0000_0000_0000),
        ensures
            r@ == add3(a@, b@),
    {
        Force { x: a.x + b.x, y: a.y + b.y, z: a.z + b.z }
    }
}

/// One component of the regularised Coulomb kernel: the unit direction
/// `dk / dist` times `q / 3`, divided by `distSq + 1`, in fixed point.
pub open spec fn kernel(dk: int, dist: int, q: int, d2: int) -> int {
    div_trunc(div_trunc(dk * SCALE, dist) * q * (SCALE * SCALE), 3 * (d2 + SCALE * SCALE))
}

/// The force exerted on a particle at `ti` by one of charge `qj` (in thirds
/// of `e`) at `tj`: zero when the two are closer than the resolution,
/// otherwise `normalize(ti - tj) * qj / (|ti - tj|^2 + 1)`.
pub open spec fn pair_force(ti: Triple, tj: Triple, qj: int) -> Triple {
    let d = sub3(ti, tj);
    let d2 = norm_sq(d);
    if d2 <= EPSILON_SQ {
        zero3()
    } else {
        let dist = floor_sqrt(d2);
        (kernel(d.0, dist, qj, d2), kernel(d.1, dist, qj, d2), kernel(d.2, dist, qj, d2))
    }
}

/// The sum of the forces that every body of `ps` exerts on a particle at `t`.
pub open spec fn semi_force(t: Triple, ps: Seq<ParticleBundle>) -> Triple
    decreases ps.len(),
{
    if ps.len() == 0 {
        zero3()
    } else {
        add3(
            semi_force(t, ps.drop_last()),
            pair_force(t, ps.last().position@, ps.last().particle.charge as int),
        )
    }
}

/// The velocity change from force `f` on a particle of charge `q` (thirds of
/// `e`) and effective mass `m` over `dt`: `f * (q / m) * dt` in fixed point.
pub open spec fn impulse(f: Triple, q: int, m: int, dt: int) -> Triple {
    (div_trunc(f.0 * q * dt, 3 * m), div_trunc(f.1 * q * dt, 3 * m), div_trunc(f.2 * q * dt, 3 * m))
}

pub open spec fn all_wf(ps: Seq<ParticleBundle>) -> bool {
    forall|i: int| 0 <= i < ps.len() ==> #[trigger] ps[i].wf()
}

proof fn lemma_div_bound(a: int, b: int, c: int)
    requires
        0 <= a <= b * c,
        b > 0,
    ensures
        0 <= a / b <= c,
{
    lemma_fundamental_div_mod(a, b);
    let q = a / b;
    let r = a % b;
    assert(0 <= q <= c) by (nonlinear_arith)
        requires
            a == b * q + r,
            0 <= r < b,
            0 <= a <= b * c,
    ;
}

proof fn lemma_div_trunc_bound(a: int, b: int, c: int)
    requires
        -(b * c) <= a <= b * c,
        b > 0,
    ensures
        -c <= div_trunc(a, b) <= c,
        a >= 0 ==> div_trunc(a, b) >= 0,
{
    if a >= 0 {
        lemma_div_bound(a, b, c);
    } else {
        lemma_div_bound(-a, b, c);
    }
}

proof fn lemma_kernel_bound(dk: int, dist: int, q: int, d2: int)
    requires
        -dist <= dk <= dist,
        dist > 0,
        -CHARGE_LIMIT <= q <= CHARGE_LIMIT,
        d2 >= 0,
    ensures
        -PAIR_BOUND <= kernel(dk, dist, q, d2) <= PAIR_BOUND,
{
    let s = SCALE as int;
    assert(-(dist * s) <= dk * s <= dist * s) by (nonlinear_arith)
        requires -dist <= dk <= dist, s > 0;
    lemma_div_trunc_bound(dk * s, dist, s);
    let dir = div_trunc(dk * s, dist);
    let a = dir * q * (s * s);
    let b = 3 * (d2 + s * s);
    assert(-(b * PAIR_BOUND) <= a <= b * PAIR_BOUND) by (nonlinear_arith)
        requires
            -s <= dir <= s,
            -256 <= q <= 256,
            s == 1_000_000_000,
            d2 >= 0,
            a == dir * q * (s * s),
            b == 3 * (d2 + s * s),
    ;
    lemma_div_trunc_bound(a, b, PAIR_BOUND as int);
}

proof fn lemma_component_le_dist(dk: int, d2: int, dist: int)
    requires
        dk * dk <= d2,
        is_floor_sqrt(d2, dist),
    ensures
        -dist <= dk <= dist,
{
    if dk > dist {
        assert((dist + 1) * (dist + 1) <= dk * dk) by (nonlinear_arith)
            requires dk >= dist + 1, dist >= 0;
    } else if dk < -dist {
        assert((dist + 1) * (dist + 1) <= dk * dk) by (nonlinear_arith)
            requires -dk >= dist + 1, dist >= 0;
    }
}

/// Every component of a pairwise force has magnitude at most `PAIR_BOUND`.
pub proof fn lemma_pair_force_bound(ti: Triple, tj: Triple, qj: int)
    requires
        -CHARGE_LIMIT <= qj <= CHARGE_LIMIT,
    ensures
        bounded(pair_force(ti, tj, qj), PAIR_BOUND as int),
{
    let d = sub3(ti, tj);
    let d2 = norm_sq(d);
    if d2 > EPSILON_SQ {
        let dist = floor_sqrt(d2);
        assert(d.0 * d.0 >= 0 && d.1 * d.1 >= 0 && d.2 * d.2 >= 0) by (nonlinear_arith);
        lemma_floor_sqrt_exists(d2);
        assert(dist > 0) by (nonlinear_arith)
            requires is_floor_sqrt(d2, dist), d2 > EPSILON_SQ;
        lemma_component_le_dist(d.0, d2, dist);
        lemma_component_le_dist(d.1, d2, dist);
        lemma_component_le_dist(d.2, d2, dist);
        lemma_kernel_bound(d.0, dist, qj, d2);
        lemma_kernel_bound(d.1, dist, qj, d2);
        lemma_kernel_bound(d.2, dist, qj, d2);
    }
}

/// The sum of `k` forces has components of magnitude at most `k * PAIR_BOUND`.
pub proof fn lemma_semi_force_bound(t: Triple, ps: Seq<ParticleBundle>)
    requires
        all_wf(ps),
    ensures
        bounded(semi_force(t, ps), ps.len() * PAIR_BOUND),
    decreases ps.len(),
{
    if ps.len() > 0 {
        let init = ps.drop_last();
        assert(all_wf(init)) by {
            assert forall|i: int| 0 <= i < init.len() implies #[trigger] init[i].wf() by {
                assert(init[i] == ps[i]);
            }
        }
        assert(ps[ps.len() - 1].wf());
        lemma_semi_force_bound(t, init);
        lemma_pair_force_bound(t, ps.last().position@, ps.last().particle.charge as int);
    }
}

proof fn lemma_square_bound(d: int, b: int)
    requires
        -b <= d <= b,
    ensures
        0 <= d * d <= b * b,
{
    assert(0 <= d * d <= b * b) by (nonlinear_arith)
        requires -b <= d <= b;
}

fn kernel_exec(dk: i128, dist: i128, q: i128, d2: i128) -> (r: i128)
    requires
        -dist <= dk <= dist,
        -0x20_0000_0000_0000 <= dk <= 0x20_0000_0000_0000,
        0 < dist,
        -CHARGE_LIMIT <= q <= CHARGE_LIMIT,
        0 <= d2 <= 0x1000_0000_0000_0000_0000_0000_0000,
    ensures
        r == kernel(dk as int, dist as int, q as int, d2 as int),
{
    proof {
        lemma_kernel_bound(dk as int, dist as int, q as int, d2 as int);
    }
    assert(-(dist * SCALE) <= dk * SCALE <= dist * SCALE) by (nonlinear_arith)
        requires -dist <= dk <= dist, SCALE > 0;
    let dir = div_toward_zero(dk * (SCALE as i128), dist);
    proof {
        lemma_div_trunc_bound(dk * SCALE, dist as int, SCALE as int);
    }
    assert(-0x100_0000_0000_0000_0000_0000_0000 <= dir * q * (SCALE * SCALE)
        <= 0x100_0000_0000_0000_0000_0000_0000) by (nonlinear_arith)
        requires
            -SCALE <= dir <= SCALE,
            -256 <= q <= 256,
            SCALE == 1_000_000_000,
    ;
    assert(-256 * SCALE <= dir * q <= 256 * SCALE) by (nonlinear_arith)
        requires
            -SCALE <= dir <= SCALE,
            -256 <= q <= 256,
            SCALE == 1_000_000_000,
    ;
    let s2: i128 = (SCALE as i128) * (SCALE as i128);
    div_toward_zero(dir * q * s2, 3 * (d2 + s2))
}

/// The force that `other` exerts on a particle at `target`.
pub fn pair_force_exec(target: Vector, other: &ParticleBundle) -> (r: Force)
    requires
        target.wf(),
        other.wf(),
    ensures
        r@ == pair_force(target@, other.position@, other.particle.charge as int),
        bounded(r@, PAIR_BOUND as int),
{
    proof {
        lemma_pair_force_bound(target@, other.position@, other.particle.charge as int);
    }
    let dx: i128 = target.x as i128 - other.position.x as i128;
    let dy: i128 = target.y as i128 - other.position.y as i128;
    let dz: i128 = target.z as i128 - other.position.z as i128;
    proof {
        lemma_square_bound(dx as int, 0x20_0000_0000_0000);
        lemma_square_bound(dy as int, 0x20_0000_0000_0000);
        lemma_square_bound(dz as int, 0x20_0000_0000_0000);
    }
    let d2: i128 = dx * dx + dy * dy + dz * dz;
    if d2 <= EPSILON_SQ {
        return Force::zero();
    }
    let dist = isqrt(d2 as u128) as i128;
    proof {
        lemma_floor_sqrt_exists(d2 as int);
        assert(dist > 0) by (nonlinear_arith)
            requires is_floor_sqrt(d2 as int, dist as int), d2 > EPSILON_SQ;
        lemma_component_le_dist(dx as int, d2 as int, dist as int);
        lemma_component_le_dist(dy as int, d2 as int, dist as int);
        lemma_component_le_dist(dz as int, d2 as int, dist as int);
    }
    let q = other.particle.charge as i128;
    Force {
        x: kernel_exec(dx, dist, q, d2),
        y: kernel_exec(dy, dist, q, d2),
        z: kernel_exec(dz, dist, q, d2),
    }
}

/// Relies on rayon's `par_iter().map(..).reduce(..)`: with an associative
/// operation and its identity, the parallel reduction of an indexed iterator
/// equals the sequential sum of the mapped items, in any split.
#[verifier::external_body]
fn par_semi_force(target: Vector, bodies: &Vec<ParticleBundle>) -> (r: Force)
    requires
        target.wf(),
        all_wf(bodies@),
        bodies@.len() <= MAX_PARTICLES,
    ensures
        r@ == semi_force(target@, bodies@),
{
    bodies.par_iter().map(|b| pair_force_exec(target, b)).reduce(Force::zero, Force::sum)
}

/// The impulse on a particle with the given properties, effective mass and
/// position from all of `particles` over `delta_time`: the sum of the
/// pairwise forces, scaled by charge over mass and by the time step.
pub fn calculate_impulse(
    particles: &Vec<ParticleBundle>,
    properties: Particle,
    mass: Mass,
    translation: Vector,
    delta_time: i64,
) -> (r: Force)
    requires
        all_wf(particles@),
        particles@.len() <= MAX_PARTICLES,
        properties.wf(),
        1 <= mass.0 <= 2 * MASS_LIMIT,
        translation.wf(),
        0 <= delta_time <= DT_LIMIT,
    ensures
        r@ == impulse(
            semi_force(translation@, particles@),
            properties.charge as int,
            mass.0 as int,
            delta_time as int,
        ),
        bounded(r@, IMPULSE_BOUND as int),
{
    let f = par_semi_force(translation, particles);
    proof {
        lemma_semi_force_bound(translation@, particles@);
        assert(particles@.len() * PAIR_BOUND <= 0x40_0000_0000_0000_0000) by (nonlinear_arith)
            requires particles@.len() <= MAX_PARTICLES;
    }
    let q = properties.charge as i128;
    let m3: i128 = 3 * (mass.0 as i128);
    let dt = delta_time as i128;
    Force {
        x: scale_component(f.x, q, dt, m3),
        y: scale_component(f.y, q, dt, m3),
        z: scale_component(f.z, q, dt, m3),
    }
}

fn scale_component(f: i128, q: i128, dt: i128, m3: i128) -> (r: i128)
    requires
        -0x40_0000_0000_0000_0000 <= f <= 0x40_0000_0000_0000_0000,
        -CHARGE_LIMIT <= q <= CHARGE_LIMIT,
        0 <= dt <= DT_LIMIT,
        3 <= m3,
    ensures
        r == div_trunc(f * q * dt, m3 as int),
        -IMPULSE_BOUND <= r <= IMPULSE_BOUND,
{
    assert(-0x4000_0000_0000_0000_0000 <= f * q <= 0x4000_0000_0000_0000_0000) by (nonlinear_arith)
        requires
            -0x40_0000_0000_0000_0000 <= f <= 0x40_0000_0000_0000_0000,
            -256 <= q <= 256,
    ;
    let fq = f * q;
    assert(-0x4000_0000_0000_0000_0000_0000_0000_0000 <= fq * dt
        <= 0x4000_0000_0000_0000_0000_0000_0000_0000) by (nonlinear_arith)
        requires
            -0x4000_0000_0000_0000_0000 <= fq <= 0x4000_0000_0000_0000_0000,
            0 <= dt <= 0x1_0000_0000_0000,
    ;
    proof {
        assert(-(m3 * IMPULSE_BOUND) <= fq * dt <= m3 * IMPULSE_BOUND) by (nonlinear_arith)
            requires
                -0x4000_0000_0000_0000_0000_0000_0000_0000 <= fq * dt
                    <= 0x4000_0000_0000_0000_0000_0000_0000_0000,
                m3 >= 3,
                IMPULSE_BOUND == 0x2000_0000_0000_0000_0000_0000_0000_0000,
        ;
        lemma_div_trunc_bound(fq * dt, m3 as int, IMPULSE_BOUND as int);
    }
    div_toward_zero(fq * dt, m3)
}

} // verus!
