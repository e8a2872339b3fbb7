//! A fixed-point simulation of charged point particles (electrons and light
//! quarks) on a toroidal plane: pairwise regularised Coulomb forces, explicit
//! Euler motion, wrap-around at the bounds and a derived effective mass.
//!
//! All quantities are integers: lengths, velocities, times and masses count
//! units of `1 / SCALE` (so a time step is given in nanoseconds), and charges
//! count thirds of the elementary charge. Rounding is toward zero, and
//! positions and velocities saturate at `COORD_LIMIT`.

pub mod fixed;
pub mod force;
pub mod particle;
pub mod pipeline;
pub mod theorems;
pub mod vector;

pub use fixed::{COORD_LIMIT, SCALE};
pub use force::{calculate_impulse, Force, DT_LIMIT, MAX_PARTICLES};
pub use particle::{Mass, Particle, ParticleBundle, SimError, Species, Velocity};
pub use pipeline::{
    loop_translation_update, mass_update, update, velocity_update, LoopTranslation,
    ParticleStore, SIZE,
};
pub use vector::Vector;
