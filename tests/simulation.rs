use quarks::fixed::{div_toward_zero, isqrt, saturate};
use quarks::force::pair_force_exec;
use quarks::{
    calculate_impulse, loop_translation_update, mass_update, update, velocity_update, Force,
    LoopTranslation, Mass, Particle, ParticleBundle, ParticleStore, SimError, Species, Vector,
    Velocity, COORD_LIMIT, SCALE, SIZE,
};

fn at_rest(particle: Particle, x: i64, y: i64, z: i64) -> ParticleBundle {
    ParticleBundle::new(particle, Vector::new(x, y, z), Velocity::zero())
}

fn store_of(bodies: &[ParticleBundle]) -> ParticleStore {
    let mut store = ParticleStore::new();
    for b in bodies {
        store.push(*b);
    }
    store
}

fn ten_bodies() -> ParticleStore {
    let species = [Species::Electron, Species::UpQuark, Species::DownQuark];
    let mut store = ParticleStore::new();
    for i in 0..10i64 {
        let p = Vector::new((i * 37 - 170) * SCALE, (i * i * 11 - 300) * SCALE, (i - 5) * SCALE);
        let s = species[(i % 3) as usize];
        store.push(ParticleBundle::of_species(s, p, Velocity::zero()));
    }
    store
}

#[test]
fn isqrt_rounds_down() {
    assert_eq!(isqrt(0), 0);
    assert_eq!(isqrt(1), 1);
    assert_eq!(isqrt(24), 4);
    assert_eq!(isqrt(25), 5);
    assert_eq!(isqrt(26), 5);
    assert_eq!(isqrt(u128::MAX), u64::MAX);
}

#[test]
fn division_truncates_toward_zero() {
    assert_eq!(div_toward_zero(7, 2), 3);
    assert_eq!(div_toward_zero(-7, 2), -3);
    assert_eq!(div_toward_zero(0, 5), 0);
}

#[test]
fn saturation_clips_at_the_limit() {
    assert_eq!(saturate(COORD_LIMIT as i128 + 1), COORD_LIMIT);
    assert_eq!(saturate(-(COORD_LIMIT as i128) - 9), -COORD_LIMIT);
    assert_eq!(saturate(-12), -12);
}

#[test]
fn species_constants() {
    assert_eq!(Species::Electron.particle(), Particle { charge: -3, mass: 510_998_950 });
    assert_eq!(Species::UpQuark.particle(), Particle { charge: 2, mass: 2_400_000_000 });
    assert_eq!(Species::DownQuark.particle(), Particle { charge: -1, mass: 4_950_000_000 });
    let e = ParticleBundle::electron(Vector::new(1, 2, 3), Velocity::zero());
    assert_eq!(e.mass, Mass(510_998_950));
    assert_eq!(e.position, Vector::new(1, 2, 3));
    let u = ParticleBundle::up_quark(Vector::zero(), Velocity::zero());
    assert_eq!(u.particle, Particle::up_quark());
    let d = ParticleBundle::down_quark(Vector::zero(), Velocity::zero());
    assert_eq!(d.mass, Mass(4_950_000_000));
}

#[test]
fn non_positive_rest_mass_is_rejected() {
    assert_eq!(Particle::new(-3, 0), Err(SimError::InvalidSpecies));
    assert_eq!(Particle::new(2, -5), Err(SimError::InvalidSpecies));
    assert_eq!(Particle::new(300, SCALE), Err(SimError::InvalidSpecies));
    assert_eq!(Particle::new(3, SCALE), Ok(Particle { charge: 3, mass: 1_000_000_000 }));
}

#[test]
fn pair_force_at_unit_distance() {
    // One unit apart on x, from an electron: direction +x, times -1 / (1 + 1).
    let electron = at_rest(Particle::electron(), 0, 0, 0);
    let f = pair_force_exec(Vector::new(SCALE, 0, 0), &electron);
    assert_eq!(f, Force { x: -500_000_000, y: 0, z: 0 });
}

#[test]
fn impulse_from_one_neighbour() {
    // Force -0.5 on x, charge 2/3, mass 1, dt 1: impulse -1/3.
    let target = Particle::new(2, SCALE).unwrap();
    let bodies = vec![
        at_rest(target, SCALE, 0, 0),
        at_rest(Particle::electron(), 0, 0, 0),
    ];
    let imp = calculate_impulse(&bodies, target, Mass(SCALE as u64), Vector::new(SCALE, 0, 0), SCALE);
    assert_eq!(imp, Force { x: -333_333_333, y: 0, z: 0 });
}

#[test]
fn parallel_sum_matches_sequential_sum() {
    let store = ten_bodies();
    let bodies: Vec<ParticleBundle> = (0..store.len()).map(|i| store.get(i)).collect();
    for b in &bodies {
        let (mut x, mut y, mut z) = (0i128, 0i128, 0i128);
        for o in &bodies {
            let f = pair_force_exec(b.position, o);
            x += f.x;
            y += f.y;
            z += f.z;
        }
        let q = b.particle.charge as i128;
        let m3 = 3 * b.mass.0 as i128;
        let dt = 16_000_000i128;
        let imp = calculate_impulse(&bodies, b.particle, b.mass, b.position, 16_000_000);
        assert_eq!(imp.x, div_toward_zero(x * q * dt, m3));
        assert_eq!(imp.y, div_toward_zero(y * q * dt, m3));
        assert_eq!(imp.z, div_toward_zero(z * q * dt, m3));
        assert!(x != 0 || y != 0);
    }
}

#[test]
fn symmetric_pair_gets_opposite_velocities() {
    let plus = Particle::new(3, SCALE).unwrap();
    let minus = Particle::new(-3, SCALE).unwrap();
    let mut store = store_of(&[
        at_rest(plus, 10 * SCALE, 4 * SCALE, 0),
        at_rest(minus, -10 * SCALE, -4 * SCALE, 0),
    ]);
    store.tick(16_000_000, LoopTranslation::standard());
    let a = store.get(0).velocity.0;
    let b = store.get(1).velocity.0;
    assert_eq!(a, Vector::new(-b.x, -b.y, -b.z));
    assert!(a.x != 0);
}

#[test]
fn lone_particle_feels_no_force() {
    let v = Velocity(Vector::new(SCALE, -2 * SCALE, 0));
    let mut store = store_of(&[ParticleBundle::electron(Vector::new(3, 4, 5), v)]);
    update(&mut store, SCALE);
    assert_eq!(store.get(0).velocity, v);
}

#[test]
fn coincident_particles_exert_no_force() {
    let p = Vector::new(7 * SCALE, -2 * SCALE, SCALE);
    let mut store = store_of(&[
        ParticleBundle::electron(p, Velocity::zero()),
        ParticleBundle::up_quark(p, Velocity::zero()),
    ]);
    update(&mut store, SCALE);
    assert_eq!(store.get(0).velocity, Velocity::zero());
    assert_eq!(store.get(1).velocity, Velocity::zero());
}

#[test]
fn wrap_sends_overshoot_to_opposite_edge() {
    let bounds = LoopTranslation::standard();
    let five = 5 * SCALE;
    let mut store = store_of(&[
        at_rest(Particle::electron(), SIZE + five, 0, 0),
        at_rest(Particle::electron(), SIZE - five, 0, 0),
        at_rest(Particle::electron(), -SIZE - five, SIZE + 1, 9 * SIZE),
    ]);
    loop_translation_update(&mut store, bounds);
    assert_eq!(store.get(0).position, Vector::new(-SIZE, 0, 0));
    assert_eq!(store.get(1).position, Vector::new(SIZE - five, 0, 0));
    assert_eq!(store.get(2).position, Vector::new(SIZE, -SIZE, 9 * SIZE));
}

#[test]
fn mass_is_rest_mass_plus_speed() {
    let unit = Particle::new(-3, SCALE).unwrap();
    let v = Velocity(Vector::new(3 * SCALE, 4 * SCALE, 0));
    let mut store = store_of(&[ParticleBundle::new(unit, Vector::zero(), v)]);
    mass_update(&mut store);
    assert_eq!(store.get(0).mass, Mass(6 * SCALE as u64));
}

#[test]
fn motion_adds_velocity_and_saturates() {
    let v = Velocity(Vector::new(2 * SCALE, -SCALE, COORD_LIMIT));
    let mut store = store_of(&[ParticleBundle::electron(Vector::new(1, 1, 1), v)]);
    velocity_update(&mut store);
    assert_eq!(store.get(0).position, Vector::new(2 * SCALE + 1, 1 - SCALE, COORD_LIMIT));
    assert_eq!(store.check_finite(), Err(SimError::SimulationDiverged));
}

#[test]
fn check_finite_accepts_ordinary_state() {
    let store = ten_bodies();
    assert_eq!(store.check_finite(), Ok(()));
}

fn hundred_ticks_with_threads(threads: usize) -> Vec<ParticleBundle> {
    let pool = rayon::ThreadPoolBuilder::new().num_threads(threads).build().unwrap();
    pool.install(|| {
        let mut store = ten_bodies();
        for _ in 0..100 {
            store.tick(16_000_000, LoopTranslation::standard());
        }
        (0..store.len()).map(|i| store.get(i)).collect()
    })
}

#[test]
fn hundred_ticks_agree_across_partitionings() {
    let one = hundred_ticks_with_threads(1);
    let four = hundred_ticks_with_threads(4);
    assert_eq!(one.len(), 10);
    assert_eq!(one, four);
    assert!(one.iter().any(|b| b.velocity != Velocity::zero()));
}

#[test]
fn population_is_preserved_by_ticks() {
    let mut store = ten_bodies();
    let before: Vec<Particle> = (0..store.len()).map(|i| store.get(i).particle).collect();
    for _ in 0..50 {
        store.tick(16_000_000, LoopTranslation::standard());
    }
    let after: Vec<Particle> = (0..store.len()).map(|i| store.get(i).particle).collect();
    assert_eq!(before, after);
    for i in 0..store.len() {
        let p = store.get(i).position;
        assert!(-SIZE <= p.x && p.x <= SIZE && -SIZE <= p.y && p.y <= SIZE);
    }
}
