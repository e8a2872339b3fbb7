//! The particle store and the four stages of a simulation tick.

use vstd::prelude::*;

use crate::fixed::{floor_sqrt, is_floor_sqrt, isqrt, saturate, COORD_LIMIT, SCALE};
use crate::force::{all_wf, calculate_impulse, impulse, semi_force, DT_LIMIT, MAX_PARTICLES};
use crate::particle::{Mass, ParticleBundle, SimError, Velocity};
use crate::vector::{add3, clamp3, norm_sq, vector_of, Triple, Vector};

verus! {

/// Half-extent of the simulation bounds on each of x and y (400 units).
pub const SIZE: i64 = 400 * SCALE;

/// The toroidal bounds of the x, y plane: `[-half_x, half_x] x [-half_y, half_y]`.
#[derive(Clone, Copy, Debug, PartialEq, Eq, Structural)]
pub struct LoopTranslation {
    pub half_x: i64,
    pub half_y: i64,
}

impl LoopTranslation {
    pub open spec fn wf(&self) -> bool {
        0 <= self.half_x <= COORD_LIMIT && 0 <= self.half_y <= COORD_LIMIT
    }

    /// The bounds `[-SIZE, SIZE]` on both axes.
    pub fn standard() -> (r: LoopTranslation)
        ensures
            r == (LoopTranslation { half_x: SIZE, half_y: SIZE }),
            r.wf(),
    {
        LoopTranslation { half_x: SIZE, half_y: SIZE }
    }
}

/// A coordinate past one edge reappears at the opposite edge.
pub open spec fn wrap_coord(c: int, h: int) -> int {
    if c > h {
        -h
    } else if c < -h {
        h
    } else {
        c
    }
}

/// The body after the force stage: its velocity has taken the impulse of
/// all of `s` on it (saturating).
pub open spec fn accelerated(s: Seq<ParticleBundle>, i: int, dt: int) -> ParticleBundle {
    let b = s[i];
    let imp = impulse(semi_force(b.position@, s), b.particle.charge as int, b.mass.0 as int, dt);
    ParticleBundle { velocity: Velocity(vector_of(clamp3(add3(b.velocity.0@, imp)))), ..b }
}

/// The body after the motion stage: position advanced by velocity (saturating).
pub open spec fn moved(b: ParticleBundle) -> ParticleBundle {
    ParticleBundle { position: vector_of(clamp3(add3(b.position@, b.velocity.0@))), ..b }
}

/// The body after the wrap stage: x and y wrapped into the bounds, z kept.
pub open spec fn wrapped(b: ParticleBundle, lt: LoopTranslation) -> ParticleBundle {
    ParticleBundle {
        position: Vector {
            x: wrap_coord(b.position.x as int, lt.half_x as int) as i64,
            y: wrap_coord(b.position.y as int, lt.half_y as int) as i64,
            z: b.position.z,
        },
        ..b
    }
}

/// The Euclidean norm of a vector, rounded down.
pub open spec fn norm(v: Triple) -> int {
    floor_sqrt(norm_sq(v))
}

/// The body after the mass stage: effective mass is rest mass plus speed.
pub open spec fn reweighed(b: ParticleBundle) -> ParticleBundle {
    ParticleBundle { mass: Mass((b.particle.mass + norm(b.velocity.0@)) as u64), ..b }
}

pub open spec fn after_forces(s: Seq<ParticleBundle>, dt: int) -> Seq<ParticleBundle> {
    Seq::new(s.len(), |i: int| accelerated(s, i, dt))
}

pub open spec fn after_motion(s: Seq<ParticleBundle>) -> Seq<ParticleBundle> {
    s.map_values(|b: ParticleBundle| moved(b))
}

pub open spec fn after_wrap(s: Seq<ParticleBundle>, lt: LoopTranslation) -> Seq<ParticleBundle> {
    s.map_values(|b: ParticleBundle| wrapped(b, lt))
}

pub open spec fn after_mass(s: Seq<ParticleBundle>) -> Seq<ParticleBundle> {
    s.map_values(|b: ParticleBundle| reweighed(b))
}

/// One tick: forces, then motion, then wrap, then mass, each on the whole
/// population before the next begins.
pub open spec fn tick_result(s: Seq<ParticleBundle>, dt: int, lt: LoopTranslation) -> Seq<
    ParticleBundle,
> {
    after_mass(after_wrap(after_motion(after_forces(s, dt)), lt))
}

/// `n` ticks with the same time step.
pub open spec fn run(s: Seq<ParticleBundle>, dt: int, lt: LoopTranslation, n: nat) -> Seq<
    ParticleBundle,
>
    decreases n,
{
    if n == 0 {
        s
    } else {
        run(tick_result(s, dt, lt), dt, lt, (n - 1) as nat)
    }
}

/// The fixed population of simulated bodies.
pub struct ParticleStore {
    particles: Vec<ParticleBundle>,
}

impl View for ParticleStore {
    type V = Seq<ParticleBundle>;

    closed spec fn view(&self) -> Seq<ParticleBundle> {
        self.particles@
    }
}

impl ParticleStore {
    pub open spec fn wf(&self) -> bool {
        all_wf(self@) && self@.len() <= MAX_PARTICLES
    }

    pub fn new() -> (r: ParticleStore)
        ensures
            r@ == Seq::<ParticleBundle>::empty(),
            r.wf(),
    {
        ParticleStore { particles: Vec::new() }
    }

    /// Adds a body at the end of the population.
    pub fn push(&mut self, b: ParticleBundle)
        requires
            old(self).wf(),
            b.wf(),
            old(self)@.len() < MAX_PARTICLES,
        ensures
            final(self)@ == old(self)@.push(b),
            final(self).wf(),
    {
        self.particles.push(b);
        proof {
            assert forall|i: int| 0 <= i < self@.len() implies #[trigger] self@[i].wf() by {
                if i < old(self)@.len() {
                    assert(self@[i] == old(self)@[i]);
                }
            }
        }
    }

    pub fn len(&self) -> (r: usize)
        ensures
            r == self@.len(),
    {
        self.particles.len()
    }

    pub fn get(&self, i: usize) -> (r: ParticleBundle)
        requires
            i < self@.len(),
        ensures
            r == self@[i as int],
    {
        self.particles[i]
    }
}

/// The force stage: every body's velocity takes the impulse of the whole
/// population, read from the population as it stood before the stage.
pub fn update(store: &mut ParticleStore, delta_time: i64)
    requires
        old(store).wf(),
        0 <= delta_time <= DT_LIMIT,
    ensures
        final(store)@ == after_forces(old(store)@, delta_time as int),
        final(store).wf(),
{
    let snapshot = &store.particles;
    let n = snapshot.len();
    let mut next: Vec<ParticleBundle> = Vec::with_capacity(n);
    let mut i: usize = 0;
    while i < n
        invariant
            n == snapshot@.len(),
            all_wf(snapshot@),
            n <= MAX_PARTICLES,
            0 <= delta_time <= DT_LIMIT,
            i <= n,
            next@.len() == i,
            forall|j: int| 0 <= j < i ==> #[trigger] next@[j] == accelerated(snapshot@, j, delta_time as int),
            all_wf(next@),
        decreases n - i,
    {
        let b = snapshot[i];
        assert(snapshot@[i as int].wf());
        let imp = calculate_impulse(snapshot, b.particle, b.mass, b.position, delta_time);
        let v = b.velocity.0;
        let nv = Vector {
            x: saturate(v.x as i128 + imp.x),
            y: saturate(v.y as i128 + imp.y),
            z: saturate(v.z as i128 + imp.z),
        };
        let nb = ParticleBundle { velocity: Velocity(nv), ..b };
        assert(nb == accelerated(snapshot@, i as int, delta_time as int));
        next.push(nb);
        i += 1;
    }
    store.particles = next;
    proof {
        assert(store@ =~= after_forces(old(store)@, delta_time as int));
    }
}

/// The motion stage: every position advances by its velocity (saturating).
pub fn velocity_update(store: &mut ParticleStore)
    requires
        old(store).wf(),
    ensures
        final(store)@ == after_motion(old(store)@),
        final(store).wf(),
{
    let n = store.particles.len();
    let mut i: usize = 0;
    while i < n
        invariant
            n == store@.len() == old(store)@.len(),
            i <= n,
            n <= MAX_PARTICLES,
            forall|j: int| 0 <= j < i ==> #[trigger] store@[j] == moved(old(store)@[j]),
            forall|j: int| i <= j < n ==> #[trigger] store@[j] == old(store)@[j],
            all_wf(store@),
        decreases n - i,
    {
        let b = store.particles[i];
        assert(store@[i as int].wf());
        let nb = ParticleBundle { position: b.position.saturating_add(b.velocity.0), ..b };
        store.particles.set(i, nb);
        i += 1;
    }
    proof {
        assert(store@ =~= after_motion(old(store)@));
    }
}

/// The wrap stage: an x or y coordinate past one edge of the bounds is set
/// to the opposite edge; z is left as it is.
pub fn loop_translation_update(store: &mut ParticleStore, bounds: LoopTranslation)
    requires
        old(store).wf(),
        bounds.wf(),
    ensures
        final(store)@ == after_wrap(old(store)@, bounds),
        final(store).wf(),
        forall|i: int|
            0 <= i < final(store)@.len() ==> -bounds.half_x <= #[trigger] final(store)@[i].position.x
                <= bounds.half_x && -bounds.half_y <= final(store)@[i].position.y <= bounds.half_y,
{
    let n = store.particles.len();
    let mut i: usize = 0;
    while i < n
        invariant
            n == store@.len() == old(store)@.len(),
            i <= n,
            n <= MAX_PARTICLES,
            bounds.wf(),
            forall|j: int| 0 <= j < i ==> #[trigger] store@[j] == wrapped(old(store)@[j], bounds),
            forall|j: int| i <= j < n ==> #[trigger] store@[j] == old(store)@[j],
            all_wf(store@),
        decreases n - i,
    {
        let b = store.particles[i];
        assert(store@[i as int].wf());
        let mut p = b.position;
        if p.x > bounds.half_x {
            p.x = -bounds.half_x;
        } else if p.x < -bounds.half_x {
            p.x = bounds.half_x;
        }
        if p.y > bounds.half_y {
            p.y = -bounds.half_y;
        } else if p.y < -bounds.half_y {
            p.y = bounds.half_y;
        }
        let nb = ParticleBundle { position: p, ..b };
        assert(nb == wrapped(old(store)@[i as int], bounds));
        store.particles.set(i, nb);
        i += 1;
    }
    proof {
        assert(store@ =~= after_wrap(old(store)@, bounds));
    }
}

/// The speed of a body is below `2^53` fixed-point units.
proof fn lemma_norm_bound(v: Triple, r: int)
    requires
        -COORD_LIMIT <= v.0 <= COORD_LIMIT,
        -COORD_LIMIT <= v.1 <= COORD_LIMIT,
        -COORD_LIMIT <= v.2 <= COORD_LIMIT,
        is_floor_sqrt(norm_sq(v), r),
    ensures
        r < 0x20_0000_0000_0000,
{
    assert(norm_sq(v) < 0x400_0000_0000_0000_0000_0000_0000) by (nonlinear_arith)
        requires
            -0x10_0000_0000_0000 <= v.0 <= 0x10_0000_0000_0000,
            -0x10_0000_0000_0000 <= v.1 <= 0x10_0000_0000_0000,
            -0x10_0000_0000_0000 <= v.2 <= 0x10_0000_0000_0000,
    ;
    assert(r < 0x20_0000_0000_0000) by (nonlinear_arith)
        requires
            r >= 0,
            r * r <= norm_sq(v),
            norm_sq(v) < 0x400_0000_0000_0000_0000_0000_0000,
    ;
}

/// The speed of a velocity whose components are within the coordinate limit.
fn speed(v: Vector) -> (r: u64)
    requires
        v.wf(),
    ensures
        r == norm(v@),
        r < 0x20_0000_0000_0000,
{
    let x = v.x as i128;
    let y = v.y as i128;
    let z = v.z as i128;
    assert(x * x <= 0x100_0000_0000_0000_0000_0000_0000 && y * y
        <= 0x100_0000_0000_0000_0000_0000_0000 && z * z <= 0x100_0000_0000_0000_0000_0000_0000
        && x * x >= 0 && y * y >= 0 && z * z >= 0) by (nonlinear_arith)
        requires
            -0x10_0000_0000_0000 <= x <= 0x10_0000_0000_0000,
            -0x10_0000_0000_0000 <= y <= 0x10_0000_0000_0000,
            -0x10_0000_0000_0000 <= z <= 0x10_0000_0000_0000,
    ;
    let r = isqrt((x * x + y * y + z * z) as u128);
    proof {
        lemma_norm_bound(v@, r as int);
    }
    r
}

/// The mass stage: every effective mass becomes rest mass plus speed.
pub fn mass_update(store: &mut ParticleStore)
    requires
        old(store).wf(),
    ensures
        final(store)@ == after_mass(old(store)@),
        final(store).wf(),
{
    let n = store.particles.len();
    let mut i: usize = 0;
    while i < n
        invariant
            n == store@.len() == old(store)@.len(),
            i <= n,
            n <= MAX_PARTICLES,
            forall|j: int| 0 <= j < i ==> #[trigger] store@[j] == reweighed(old(store)@[j]),
            forall|j: int| i <= j < n ==> #[trigger] store@[j] == old(store)@[j],
            all_wf(store@),
        decreases n - i,
    {
        let b = store.particles[i];
        assert(store@[i as int].wf());
        let m = b.particle.mass + speed(b.velocity.0);
        let nb = ParticleBundle { mass: Mass(m), ..b };
        store.particles.set(i, nb);
        i += 1;
    }
    proof {
        assert(store@ =~= after_mass(old(store)@));
    }
}

impl ParticleStore {
    /// Runs the four stages in order: forces, motion, wrap, mass.
    pub fn tick(&mut self, delta_time: i64, bounds: LoopTranslation)
        requires
            old(self).wf(),
            bounds.wf(),
            0 <= delta_time <= DT_LIMIT,
        ensures
            final(self)@ == tick_result(old(self)@, delta_time as int, bounds),
            final(self).wf(),
    {
        update(self, delta_time);
        velocity_update(self);
        loop_translation_update(self, bounds);
        mass_update(self);
    }

    /// Reports `SimulationDiverged` when some position or velocity component
    /// has reached the saturation limit.
    pub fn check_finite(&self) -> (r: Result<(), SimError>)
        ensures
            (r is Ok) <==> (forall|i: int| 0 <= i < self@.len() ==> #[trigger] steady(self@[i])),
            r is Err ==> r == Err::<(), SimError>(SimError::SimulationDiverged),
    {
        let n = self.particles.len();
        let mut i: usize = 0;
        while i < n
            invariant
                n == self@.len(),
                i <= n,
                forall|j: int| 0 <= j < i ==> #[trigger] steady(self@[j]),
            decreases n - i,
        {
            let b = self.particles[i];
            if b.position.is_saturated() || b.velocity.0.is_saturated() {
                assert(!steady(self@[i as int]));
                return Err(SimError::SimulationDiverged);
            }
            i += 1;
        }
        Ok(())
    }
}

/// Neither the position nor the velocity of `b` has saturated.
pub open spec fn steady(b: ParticleBundle) -> bool {
    !saturated(b.position@) && !saturated(b.velocity.0@)
}

/// Some component is at or beyond the saturation limit.
pub open spec fn saturated(v: Triple) -> bool {
    !(-COORD_LIMIT < v.0 < COORD_LIMIT && -COORD_LIMIT < v.1 < COORD_LIMIT && -COORD_LIMIT < v.2
        < COORD_LIMIT)
}

} // verus!
