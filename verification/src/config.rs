//! Fixed configuration of the simulation. Lengths are in milli-pixels,
//! times in milliseconds, angles in milliradians, masses and forces in the
//! matching milli-units; `*_MILLI` factors are dimensionless thousandths.

use vstd::prelude::*;

verus! {

/// Playfield width.
pub const WINDOW_WIDTH: i64 = 1_280_000;

/// Playfield height.
pub const WINDOW_HEIGHT: i64 = 720_000;

/// Largest radius an asteroid is ever seeded with.
pub const ASTEROID_SIZE: i64 = 40_000;

/// Smallest radius an asteroid is ever seeded with.
pub const MIN_SEED_SIZE: i64 = 15_000;

/// Smallest radius a live asteroid can have: fragments of a parent just
/// above the fragmentation threshold.
pub const MIN_ASTEROID_SIZE: i64 = 10_000;

/// A destroyed asteroid strictly above this radius splits into two children.
pub const FRAGMENT_THRESHOLD: i64 = 20_000;

/// Player collision radius.
pub const PLAYER_SIZE: i64 = 14_000;

/// Speed of a freshly fired bullet.
pub const BULLET_SPEED: i64 = 400_000;

/// Asteroids seeded at start and on restart.
pub const ASTEROID_COUNT: usize = 20;

/// Lifetime of an explosion debris particle.
pub const PARTICLE_LIFETIME: i64 = 2_000;

/// Largest speed of an explosion debris particle.
pub const PARTICLE_SPEED: i64 = 80_000;

/// Kills needed per level before the next level begins.
pub const LEVEL_UP_THRESHOLD: u64 = 10;

/// Hard cap on the thruster particle population.
pub const MAX_THRUSTER_PARTICLES: usize = 40;

/// Longest base lifetime of a thruster particle.
pub const THRUSTER_PARTICLE_LIFETIME: i64 = 700;

/// Shortest base lifetime of a thruster particle.
pub const MIN_THRUSTER_LIFETIME: i64 = 300;

/// Largest per-axis speed a thruster particle can be emitted with.
pub const THRUSTER_VEL_LIMIT: i64 = 100_000;

/// Player mass: the squared collision radius times pi, in mass units of a
/// thousandth (the player is denser than the asteroids by design).
pub const PLAYER_MASS: i64 = 615_832;

/// Saturation guard on an accumulated gravity component.
pub const FORCE_LIMIT: i64 = 10_000_000_000_000;

/// Gravitational constant times the display scale factor, in thousandths.
pub const GRAVITY_MILLI: i64 = 66_743;

/// Distances in gravity and collision normals are floored to this value.
pub const MIN_DISTANCE: i64 = 1_000;

/// Spring constant of the surface deformation oscillator, in thousandths.
pub const SPRING_MILLI: i64 = 900;

/// Damping constant of the surface deformation oscillator, in thousandths.
pub const DAMPING_MILLI: i64 = 500;

/// Largest deformation as a fraction of the radius, in thousandths.
pub const MAX_DEFORMATION_MILLI: i64 = 800;

/// Deformation energy injected by a collision, in hundredths-of-mass units.
pub const COLLISION_FORCE_MILLI: i64 = 10;

/// Per-axis acceleration clamp applied before integration.
pub const MAX_ACCELERATION: i64 = 50_000;

/// Speed clamp for the player and for asteroids.
pub const MAX_SPEED: i64 = 200_000;

/// Velocity gained per thrust command.
pub const THRUST_IMPULSE: i64 = 10_000;

/// Angle change per rotate command.
pub const ROTATE_STEP: i64 = 200;

/// Largest time step a single tick accepts.
pub const DT_MAX: i64 = 60_000;

/// Saturation guard on every stored velocity component.
pub const VEL_LIMIT: i64 = 1_000_000_000;

/// Saturation guard on the deformation velocity.
pub const DEF_VEL_LIMIT: i64 = 1_000_000_000;

/// Saturation guard on particle coordinates, which do not wrap.
pub const POS_LIMIT: i64 = 1_000_000_000;

/// Debris count of the explosion burst at the player's death.
pub const PLAYER_EXPLOSION_COUNT: usize = 50;

/// Debris count of the explosion burst at a destroyed asteroid.
pub const ASTEROID_EXPLOSION_COUNT: usize = 20;

} // verus!
