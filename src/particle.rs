//! Particle species and per-particle records.

use vstd::prelude::*;

use crate::vector::Vector;

verus! {

/// Largest magnitude of a charge, in thirds of the elementary charge.
pub const CHARGE_LIMIT: i64 = 256;

/// Largest rest mass, in fixed-point electronvolts.
pub const MASS_LIMIT: u64 = 1_152_921_504_606_846_976;

/// Errors reported by the simulation.
#[derive(Clone, Copy, Debug, PartialEq, Eq, Structural)]
pub enum SimError {
    /// A rest mass that is not positive, or a charge or mass too large to represent.
    InvalidSpecies,
    /// A position or velocity component has saturated.
    SimulationDiverged,
}

/// The constant properties of a particle.
#[derive(Clone, Copy, Debug, PartialEq, Eq, Structural)]
pub struct Particle {
    /// Charge in thirds of the elementary charge.
    pub charge: i64,
    /// Rest mass in fixed-point electronvolts.
    pub mass: u64,
}

impl Particle {
    pub open spec fn wf(&self) -> bool {
        -CHARGE_LIMIT <= self.charge <= CHARGE_LIMIT && 1 <= self.mass <= MASS_LIMIT
    }

    /// A species with the given charge (in thirds of `e`) and rest mass.
    pub fn new(charge: i64, rest_mass: i64) -> (r: Result<Particle, SimError>)
        ensures
            rest_mass <= 0 || rest_mass > MASS_LIMIT || charge < -CHARGE_LIMIT || charge
                > CHARGE_LIMIT <==> r == Err::<Particle, SimError>(SimError::InvalidSpecies),
            r is Ok ==> r->Ok_0 == (Particle { charge, mass: rest_mass as u64 }) && r->Ok_0.wf(),
    {
        if rest_mass <= 0 || rest_mass as u64 > MASS_LIMIT || charge < -CHARGE_LIMIT || charge
            > CHARGE_LIMIT {
            Err(SimError::InvalidSpecies)
        } else {
            Ok(Particle { charge, mass: rest_mass as u64 })
        }
    }

    /// Charge -1, rest mass 0.51099895 eV.
    pub fn electron() -> (r: Particle)
        ensures
            r == (Particle { charge: -3i64, mass: 510_998_950 }),
            r.wf(),
    {
        Particle { charge: -3i64, mass: 510_998_950 }
    }

    /// Charge 2/3, rest mass 2.4 eV.
    pub fn up_quark() -> (r: Particle)
        ensures
            r == (Particle { charge: 2, mass: 2_400_000_000 }),
            r.wf(),
    {
        Particle { charge: 2, mass: 2_400_000_000 }
    }

    /// Charge -1/3, rest mass 4.95 eV.
    pub fn down_quark() -> (r: Particle)
        ensures
            r == (Particle { charge: -1i64, mass: 4_950_000_000 }),
            r.wf(),
    {
        Particle { charge: -1i64, mass: 4_950_000_000 }
    }
}

/// The three kinds of particle that are simulated.
#[derive(Clone, Copy, Debug, PartialEq, Eq, Structural)]
pub enum Species {
    Electron,
    UpQuark,
    DownQuark,
}

impl Species {
    pub open spec fn spec_particle(self) -> Particle {
        match self {
            Species::Electron => Particle { charge: -3i64, mass: 510_998_950 },
            Species::UpQuark => Particle { charge: 2, mass: 2_400_000_000 },
            Species::DownQuark => Particle { charge: -1i64, mass: 4_950_000_000 },
        }
    }

    /// The constant properties of this species.
    pub fn particle(self) -> (r: Particle)
        ensures
            r == self.spec_particle(),
            r.wf(),
    {
        match self {
            Species::Electron => Particle::electron(),
            Species::UpQuark => Particle::up_quark(),
            Species::DownQuark => Particle::down_quark(),
        }
    }
}

/// Velocity of a particle, in fixed-point length units per tick.
#[derive(Clone, Copy, Debug, PartialEq, Eq, Structural)]
pub struct Velocity(pub Vector);

impl Velocity {
    pub fn zero() -> (r: Velocity)
        ensures
            r.0@ == (0int, 0int, 0int),
    {
        Velocity(Vector::zero())
    }
}

/// Effective mass of a particle, in fixed-point electronvolts.
#[derive(Clone, Copy, Debug, PartialEq, Eq, Structural)]
pub struct Mass(pub u64);

/// One simulated body: its species, position, velocity and effective mass.
#[derive(Clone, Copy, Debug, PartialEq, Eq, Structural)]
pub struct ParticleBundle {
    pub particle: Particle,
    pub position: Vector,
    pub velocity: Velocity,
    pub mass: Mass,
}

impl ParticleBundle {
    pub open spec fn wf(&self) -> bool {
        &&& self.particle.wf()
        &&& self.position.wf()
        &&& self.velocity.0.wf()
        &&& 1 <= self.mass.0 <= 2 * MASS_LIMIT
    }

    /// A body of the given species at rest mass.
    pub fn new(particle: Particle, position: Vector, velocity: Velocity) -> (r: ParticleBundle)
        requires
            particle.wf(),
            position.wf(),
            velocity.0.wf(),
        ensures
            r == (ParticleBundle { particle, position, velocity, mass: Mass(particle.mass) }),
            r.wf(),
    {
        ParticleBundle { particle, position, velocity, mass: Mass(particle.mass) }
    }

    pub fn electron(position: Vector, velocity: Velocity) -> (r: ParticleBundle)
        requires
            position.wf(),
            velocity.0.wf(),
        ensures
            r == ParticleBundle::spec_of(Species::Electron, position, velocity),
            r.wf(),
    {
        Self::new(Particle::electron(), position, velocity)
    }

    pub fn up_quark(position: Vector, velocity: Velocity) -> (r: ParticleBundle)
        requires
            position.wf(),
            velocity.0.wf(),
        ensures
            r == ParticleBundle::spec_of(Species::UpQuark, position, velocity),
            r.wf(),
    {
        Self::new(Particle::up_quark(), position, velocity)
    }

    pub fn down_quark(position: Vector, velocity: Velocity) -> (r: ParticleBundle)
        requires
            position.wf(),
            velocity.0.wf(),
        ensures
            r == ParticleBundle::spec_of(Species::DownQuark, position, velocity),
            r.wf(),
    {
        Self::new(Particle::down_quark(), position, velocity)
    }

    /// A body of species `s`, with the effective mass set to the rest mass.
    pub open spec fn spec_of(s: Species, position: Vector, velocity: Velocity) -> ParticleBundle {
        ParticleBundle {
            particle: s.spec_particle(),
            position,
            velocity,
            mass: Mass(s.spec_particle().mass),
        }
    }

    /// A body of species `s`.
    pub fn of_species(s: Species, position: Vector, velocity: Velocity) -> (r: ParticleBundle)
        requires
            position.wf(),
            velocity.0.wf(),
        ensures
            r == ParticleBundle::spec_of(s, position, velocity),
            r.wf(),
    {
        Self::new(s.particle(), position, velocity)
    }
}

} // verus!
