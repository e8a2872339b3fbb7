//! Laws of the simulation, proved over the stage specifications.

use vstd::prelude::*;

use crate::fixed::{clamp, div_trunc};
use crate::force::{impulse, kernel, pair_force, semi_force, EPSILON_SQ};
use crate::particle::ParticleBundle;
use crate::pipeline::{accelerated, after_forces, run, tick_result, wrapped, LoopTranslation};
use crate::vector::{
    add3, clamp3, in_range, neg3, norm_sq, sub3, vector_of, zero3, Triple,
};

verus! {

proof fn lemma_div_trunc_odd(a: int, b: int)
    requires
        b > 0,
    ensures
        div_trunc(-a, b) == -div_trunc(a, b),
{
    if a == 0 {
        assert(0int / b == 0);
    }
}

proof fn lemma_clamp_odd(x: int)
    ensures
        clamp(-x) == -clamp(x),
{
}

proof fn lemma_vector_of_view(t: Triple)
    requires
        in_range(t),
    ensures
        vector_of(t)@ == t,
{
}

proof fn lemma_kernel_odd(dk: int, dist: int, q: int, d2: int)
    requires
        dist > 0,
        d2 >= 0,
    ensures
        kernel(-dk, dist, -q, d2) == kernel(dk, dist, q, d2),
{
    let s = crate::fixed::SCALE as int;
    assert(-dk * s == -(dk * s)) by (nonlinear_arith);
    lemma_div_trunc_odd(dk * s, dist);
    let dir = div_trunc(dk * s, dist);
    assert((-dir) * (-q) * (s * s) == dir * q * (s * s)) by (nonlinear_arith);
}

/// Bodies at the same position exert no force on each other.
pub proof fn lemma_coincident_pair(ti: Triple, tj: Triple, qj: int)
    requires
        ti == tj,
    ensures
        pair_force(ti, tj, qj) == zero3(),
{
    assert(norm_sq(sub3(ti, tj)) == 0);
}

/// Forces between mirrored bodies: the force on `t` from charge `q` at `u`
/// equals the force on `u` from charge `-q` at `t`, when `u` mirrors `t`
/// through the origin.
proof fn lemma_pair_force_mirror(t: Triple, q: int)
    ensures
        pair_force(t, neg3(t), -q) == pair_force(neg3(t), t, q),
{
    let da = sub3(t, neg3(t));
    let db = sub3(neg3(t), t);
    assert(db == neg3(da));
    assert(norm_sq(db) == norm_sq(da)) by (nonlinear_arith)
        requires db == neg3(da);
    let d2 = norm_sq(da);
    if d2 > EPSILON_SQ {
        let dist = crate::fixed::floor_sqrt(d2);
        crate::fixed::lemma_floor_sqrt_exists(d2);
        assert(dist > 0) by (nonlinear_arith)
            requires crate::fixed::is_floor_sqrt(d2, dist), d2 > EPSILON_SQ;
        lemma_kernel_odd(da.0, dist, -q, d2);
        lemma_kernel_odd(da.1, dist, -q, d2);
        lemma_kernel_odd(da.2, dist, -q, d2);
    }
}

proof fn lemma_impulse_odd_in_charge(f: Triple, q: int, m: int, dt: int)
    requires
        m > 0,
    ensures
        impulse(f, -q, m, dt) == neg3(impulse(f, q, m, dt)),
{
    assert(f.0 * (-q) * dt == -(f.0 * q * dt)) by (nonlinear_arith);
    assert(f.1 * (-q) * dt == -(f.1 * q * dt)) by (nonlinear_arith);
    assert(f.2 * (-q) * dt == -(f.2 * q * dt)) by (nonlinear_arith);
    lemma_div_trunc_odd(f.0 * q * dt, 3 * m);
    lemma_div_trunc_odd(f.1 * q * dt, 3 * m);
    lemma_div_trunc_odd(f.2 * q * dt, 3 * m);
}

proof fn lemma_semi_force_pair(t: Triple, a: ParticleBundle, b: ParticleBundle)
    ensures
        semi_force(t, seq![a, b]) == add3(
            add3(zero3(), pair_force(t, a.position@, a.particle.charge as int)),
            pair_force(t, b.position@, b.particle.charge as int),
        ),
{
    let s = seq![a, b];
    assert(s.drop_last() =~= seq![a]);
    assert(seq![a].drop_last() =~= Seq::<ParticleBundle>::empty());
    reveal_with_fuel(semi_force, 3);
}

/// Two bodies of opposite charge and equal effective mass, placed
/// symmetrically about the origin and at rest, leave a tick with velocities
/// that are negatives of each other.
pub proof fn lemma_symmetric_pair(
    a: ParticleBundle,
    b: ParticleBundle,
    dt: int,
    lt: LoopTranslation,
)
    requires
        a.wf(),
        b.wf(),
        a.particle.charge == -b.particle.charge,
        a.mass == b.mass,
        b.position@ == neg3(a.position@),
        a.velocity.0@ == zero3(),
        b.velocity.0@ == zero3(),
    ensures
        tick_result(seq![a, b], dt, lt)[0].velocity.0@ == neg3(
            tick_result(seq![a, b], dt, lt)[1].velocity.0@,
        ),
{
    let s = seq![a, b];
    let ta = a.position@;
    let tb = b.position@;
    let qa = a.particle.charge as int;
    let qb = b.particle.charge as int;
    let m = a.mass.0 as int;
    lemma_semi_force_pair(ta, a, b);
    lemma_semi_force_pair(tb, a, b);
    lemma_coincident_pair(ta, ta, qa);
    lemma_coincident_pair(tb, tb, qb);
    assert(neg3(tb) == ta);
    lemma_pair_force_mirror(tb, qb);
    let f = semi_force(ta, s);
    assert(semi_force(tb, s) == f);
    lemma_impulse_odd_in_charge(f, qb, m, dt);
    let ia = impulse(f, qa, m, dt);
    let ib = impulse(f, qb, m, dt);
    assert(ia == neg3(ib));
    lemma_clamp_odd(ib.0);
    lemma_clamp_odd(ib.1);
    lemma_clamp_odd(ib.2);
    let va = clamp3(add3(a.velocity.0@, ia));
    let vb = clamp3(add3(b.velocity.0@, ib));
    assert(va == neg3(vb));
    lemma_vector_of_view(va);
    lemma_vector_of_view(vb);
    let forced = after_forces(s, dt);
    assert(forced[0] == accelerated(s, 0, dt));
    assert(forced[1] == accelerated(s, 1, dt));
    assert(forced[0].velocity.0@ == va);
    assert(forced[1].velocity.0@ == vb);
    lemma_tick_keeps_velocity(s, dt, lt, 0);
    lemma_tick_keeps_velocity(s, dt, lt, 1);
}

/// The velocities after a tick are those set by its force stage.
pub proof fn lemma_tick_keeps_velocity(s: Seq<ParticleBundle>, dt: int, lt: LoopTranslation, i: int)
    requires
        0 <= i < s.len(),
    ensures
        tick_result(s, dt, lt).len() == s.len(),
        tick_result(s, dt, lt)[i].velocity == after_forces(s, dt)[i].velocity,
{
}

/// A lone body feels no force: a tick leaves its velocity unchanged.
pub proof fn lemma_lone_particle(b: ParticleBundle, dt: int, lt: LoopTranslation)
    requires
        b.wf(),
    ensures
        semi_force(b.position@, seq![b]) == zero3(),
        after_forces(seq![b], dt) == seq![b],
        tick_result(seq![b], dt, lt)[0].velocity == b.velocity,
{
    let s = seq![b];
    let t = b.position@;
    assert(s.drop_last() =~= Seq::<ParticleBundle>::empty());
    reveal_with_fuel(semi_force, 2);
    lemma_coincident_pair(t, t, b.particle.charge as int);
    assert(semi_force(t, s) == zero3());
    let m3 = 3 * b.mass.0;
    assert(0 * (b.particle.charge as int) * dt == 0) by (nonlinear_arith);
    assert(0int / m3 == 0);
    assert(impulse(zero3(), b.particle.charge as int, b.mass.0 as int, dt) == zero3());
    lemma_vector_of_view(b.velocity.0@);
    assert(accelerated(s, 0, dt) == b);
    assert(after_forces(s, dt) =~= s);
    lemma_tick_keeps_velocity(s, dt, lt, 0);
}

/// Two bodies at identical coordinates leave each other's velocity
/// unchanged in the force stage.
pub proof fn lemma_coincident_bodies(a: ParticleBundle, b: ParticleBundle, dt: int)
    requires
        a.wf(),
        b.wf(),
        a.position == b.position,
    ensures
        after_forces(seq![a, b], dt) == seq![a, b],
{
    let s = seq![a, b];
    let t = a.position@;
    lemma_semi_force_pair(t, a, b);
    lemma_coincident_pair(t, t, a.particle.charge as int);
    lemma_coincident_pair(t, t, b.particle.charge as int);
    assert(impulse(zero3(), a.particle.charge as int, a.mass.0 as int, dt) == zero3());
    assert(impulse(zero3(), b.particle.charge as int, b.mass.0 as int, dt) == zero3());
    lemma_vector_of_view(a.velocity.0@);
    lemma_vector_of_view(b.velocity.0@);
    assert(accelerated(s, 0, dt) == a);
    assert(accelerated(s, 1, dt) == b);
    assert(after_forces(s, dt) =~= s);
}

/// The force sum may be split anywhere: the sum over the whole population
/// is the sum over a prefix plus the sum over the rest, so every way of
/// partitioning the reduction gives the same force.
pub proof fn lemma_semi_force_split(t: Triple, ps: Seq<ParticleBundle>, k: int)
    requires
        0 <= k <= ps.len(),
    ensures
        semi_force(t, ps) == add3(
            semi_force(t, ps.subrange(0, k)),
            semi_force(t, ps.subrange(k, ps.len() as int)),
        ),
    decreases ps.len(),
{
    let rest = ps.subrange(k, ps.len() as int);
    if k == ps.len() {
        assert(ps.subrange(0, k) =~= ps);
        assert(rest.len() == 0);
    } else {
        let init = ps.drop_last();
        lemma_semi_force_split(t, init, k);
        assert(init.subrange(0, k) =~= ps.subrange(0, k));
        assert(rest.drop_last() =~= init.subrange(k, init.len() as int));
        assert(rest.last() == ps.last());
    }
}

/// The new velocities of the bodies with indices in `[lo, hi)`.
pub open spec fn forces_on_range(s: Seq<ParticleBundle>, dt: int, lo: int, hi: int) -> Seq<
    ParticleBundle,
> {
    Seq::new((hi - lo) as nat, |i: int| accelerated(s, lo + i, dt))
}

/// The force stage may be split among workers at any index: each body's
/// result depends only on the population read at the start of the stage.
pub proof fn lemma_forces_split(s: Seq<ParticleBundle>, dt: int, k: int)
    requires
        0 <= k <= s.len(),
    ensures
        after_forces(s, dt) == forces_on_range(s, dt, 0, k) + forces_on_range(
            s,
            dt,
            k,
            s.len() as int,
        ),
{
    assert(after_forces(s, dt) =~= forces_on_range(s, dt, 0, k) + forces_on_range(
        s,
        dt,
        k,
        s.len() as int,
    ));
}

/// Ticking never creates or destroys a body, nor changes any body's species.
pub proof fn lemma_population_invariant(
    s: Seq<ParticleBundle>,
    dt: int,
    lt: LoopTranslation,
    n: nat,
)
    ensures
        run(s, dt, lt, n).len() == s.len(),
        forall|i: int| 0 <= i < s.len() ==> #[trigger] run(s, dt, lt, n)[i].particle == s[i].particle,
    decreases n,
{
    if n > 0 {
        let next = tick_result(s, dt, lt);
        assert(next.len() == s.len());
        assert(forall|i: int| 0 <= i < s.len() ==> #[trigger] next[i].particle == s[i].particle);
        lemma_population_invariant(next, dt, lt, (n - 1) as nat);
    }
}

/// A body that overshoots the x edge by any positive amount reappears
/// exactly on the opposite edge; one still inside the bounds stays put; the
/// other coordinates are not disturbed.
pub proof fn lemma_wrap_overshoot(b: ParticleBundle, lt: LoopTranslation, d: int)
    requires
        lt.wf(),
        0 < d,
        -lt.half_y <= b.position.y <= lt.half_y,
    ensures
        b.position.x == lt.half_x + d ==> wrapped(b, lt).position@ == (
            -lt.half_x,
            b.position.y as int,
            b.position.z as int,
        ),
        b.position.x == lt.half_x - d && d <= 2 * lt.half_x ==> wrapped(b, lt) == b,
{
}

} // verus!
