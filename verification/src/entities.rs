//! The bodies the simulation owns: bullets, asteroids, explosion debris and
//! thruster exhaust, together with their well-formedness invariants and the
//! per-entity update steps.

use vstd::prelude::*;
use crate::config::{
    ASTEROID_SIZE, BULLET_SPEED, DAMPING_MILLI, DEF_VEL_LIMIT, DT_MAX, MAX_DEFORMATION_MILLI,
    MIN_ASTEROID_SIZE, PARTICLE_LIFETIME, PARTICLE_SPEED, POS_LIMIT, SPRING_MILLI,
    THRUSTER_VEL_LIMIT, VEL_LIMIT, WINDOW_HEIGHT, WINDOW_WIDTH,
};
use crate::num::{clamp_i64, clamp_spec, div_floor};

verus! {

/// A planar point or velocity in milli-pixels.
#[derive(Clone, Copy, PartialEq, Eq, Structural, Debug)]
pub struct Vec2 {
    pub x: i64,
    pub y: i64,
}

/// An 8-bit-per-channel color.
#[derive(Clone, Copy, PartialEq, Eq, Structural, Debug)]
pub struct Rgba {
    pub r: u8,
    pub g: u8,
    pub b: u8,
    pub a: u8,
}

/// A projectile: position and velocity only, no forces act on it.
#[derive(Clone, Copy, PartialEq, Eq, Structural, Debug)]
pub struct Bullet {
    pub pos: Vec2,
    pub vel: Vec2,
}

/// A gravitating, deformable body.
#[derive(Clone, Copy, PartialEq, Eq, Structural, Debug)]
pub struct Asteroid {
    pub pos: Vec2,
    pub vel: Vec2,
    pub size: i64,
    pub is_destroyed: bool,
    pub mass: i64,
    pub deformation: i64,
    pub deformation_vel: i64,
}

/// Explosion debris: expires when its remaining life reaches zero.
#[derive(Clone, Copy, PartialEq, Eq, Structural, Debug)]
pub struct Particle {
    pub pos: Vec2,
    pub vel: Vec2,
    pub life: i64,
    pub color: Rgba,
}

/// Engine exhaust: keeps its initial life so its age fraction, and from it
/// its display color, can be recomputed every step.
#[derive(Clone, Copy, PartialEq, Eq, Structural, Debug)]
pub struct ThrusterParticle {
    pub pos: Vec2,
    pub vel: Vec2,
    pub color: Rgba,
    pub life: i64,
    pub initial_life: i64,
}

/// Mass of an asteroid of radius `size`: the disc area times a density of
/// one tenth, with pi/10 taken as 314 thousandths.
pub open spec fn mass_of(size: int) -> int {
    size * size / 1000 * 314 / 1000
}

/// Largest deformation an asteroid of radius `size` may carry.
pub open spec fn deformation_limit(size: int) -> int {
    size * MAX_DEFORMATION_MILLI / 1000
}

/// Mass is monotone in the radius and bounded on the live range.
pub proof fn lemma_mass_of_bounds(s: int)
    requires
        MIN_ASTEROID_SIZE <= s <= ASTEROID_SIZE,
    ensures
        31_400 <= mass_of(s) <= 502_400,
{
    assert(100_000_000 <= s * s <= 1_600_000_000) by (nonlinear_arith)
        requires
            10_000 <= s <= 40_000,
    ;
    vstd::arithmetic::div_mod::lemma_div_is_ordered(100_000_000, s * s, 1000);
    vstd::arithmetic::div_mod::lemma_div_is_ordered(s * s, 1_600_000_000, 1000);
    vstd::arithmetic::div_mod::lemma_div_is_ordered(31_400_000, s * s / 1000 * 314, 1000);
    vstd::arithmetic::div_mod::lemma_div_is_ordered(s * s / 1000 * 314, 502_400_000, 1000);
}

/// Mass of an asteroid of radius `size`.
pub fn mass_for(size: i64) -> (m: i64)
    requires
        0 <= size <= 100_000,
    ensures
        m == mass_of(size as int),
{
    proof {
        assert(0 <= size as int * size as int <= 10_000_000_000) by (nonlinear_arith)
            requires
                0 <= size <= 100_000,
        ;
    }
    size * size / 1000 * 314 / 1000
}

impl Bullet {
    /// Bullets live inside the closed playfield box and never outrun the
    /// muzzle speed.
    pub open spec fn wf(self) -> bool {
        &&& 0 <= self.pos.x <= WINDOW_WIDTH
        &&& 0 <= self.pos.y <= WINDOW_HEIGHT
        &&& -BULLET_SPEED <= self.vel.x <= BULLET_SPEED
        &&& -BULLET_SPEED <= self.vel.y <= BULLET_SPEED
    }
}

impl Asteroid {
    /// A live asteroid: wrapped position, guarded velocity, radius within
    /// the seeded range, mass derived from the radius, and a deformation
    /// state inside its clamp law.
    pub open spec fn wf(self) -> bool {
        &&& 0 <= self.pos.x < WINDOW_WIDTH
        &&& 0 <= self.pos.y < WINDOW_HEIGHT
        &&& -VEL_LIMIT <= self.vel.x <= VEL_LIMIT
        &&& -VEL_LIMIT <= self.vel.y <= VEL_LIMIT
        &&& MIN_ASTEROID_SIZE <= self.size <= ASTEROID_SIZE
        &&& self.mass == mass_of(self.size as int)
        &&& -deformation_limit(self.size as int) <= self.deformation
            <= deformation_limit(self.size as int)
        &&& -DEF_VEL_LIMIT <= self.deformation_vel <= DEF_VEL_LIMIT
    }

    /// A fresh asteroid at `pos` with velocity `vel` and radius `size`: the
    /// mass follows from the radius, the deformation state starts at rest.
    pub fn new(pos: Vec2, vel: Vec2, size: i64) -> (a: Asteroid)
        requires
            0 <= size <= 100_000,
        ensures
            a == (Asteroid {
                pos,
                vel,
                size,
                is_destroyed: false,
                mass: mass_of(size as int) as i64,
                deformation: 0i64,
                deformation_vel: 0i64,
            }),
    {
        let mass: i64 = mass_for(size);
        Asteroid { pos, vel, size, is_destroyed: false, mass, deformation: 0, deformation_vel: 0 }
    }

    /// One spring-damper step of the deformation oscillator, `dt`
    /// milliseconds long, ending in the clamp law.
    pub fn update_deformation(&mut self, dt: i64)
        requires
            old(self).wf(),
            0 <= dt <= DT_MAX,
        ensures
            final(self).deformation_vel == deformation_step(
                old(self).deformation as int,
                old(self).deformation_vel as int,
                old(self).size as int,
                dt as int,
            ).0,
            final(self).deformation == deformation_step(
                old(self).deformation as int,
                old(self).deformation_vel as int,
                old(self).size as int,
                dt as int,
            ).1,
            *final(self) == (Asteroid {
                deformation: final(self).deformation,
                deformation_vel: final(self).deformation_vel,
                ..*old(self)
            }),
            final(self).wf(),
    {
        proof {
            let s = self.size as int;
            assert(0 <= s * MAX_DEFORMATION_MILLI <= 32_000_000) by (nonlinear_arith)
                requires
                    0 <= s <= 40_000,
                    MAX_DEFORMATION_MILLI == 800,
            ;
            vstd::arithmetic::div_mod::lemma_div_is_ordered(0, s * MAX_DEFORMATION_MILLI, 1000);
            vstd::arithmetic::div_mod::lemma_div_is_ordered(
                s * MAX_DEFORMATION_MILLI,
                32_000_000,
                1000,
            );
            assert(0 <= deformation_limit(s) <= 32_000);
            assert(-501_000_000_000 <= -(SPRING_MILLI as int) * self.deformation
                - (DAMPING_MILLI as int) * self.deformation_vel <= 501_000_000_000)
                by (nonlinear_arith)
                requires
                    SPRING_MILLI == 900,
                    DAMPING_MILLI == 500,
                    -32_000 <= self.deformation <= 32_000,
                    -1_000_000_000 <= self.deformation_vel <= 1_000_000_000,
            ;
        }
        let force: i64 = div_floor(
            -SPRING_MILLI * self.deformation - DAMPING_MILLI * self.deformation_vel,
            1000,
        );
        proof {
            assert(-40_000_000_000_000 <= force as int * dt as int <= 40_000_000_000_000)
                by (nonlinear_arith)
                requires
                    -600_000_000 <= force <= 600_000_000,
                    0 <= dt <= 60_000,
            ;
        }
        let delta_v: i64 = div_floor(force * dt, 1000);
        self.deformation_vel = clamp_i64(
            self.deformation_vel + delta_v,
            -DEF_VEL_LIMIT,
            DEF_VEL_LIMIT,
        );
        proof {
            assert(-60_000_000_000_000 <= self.deformation_vel as int * dt as int
                <= 60_000_000_000_000) by (nonlinear_arith)
                requires
                    -1_000_000_000 <= self.deformation_vel <= 1_000_000_000,
                    0 <= dt <= 60_000,
            ;
        }
        let delta_d: i64 = div_floor(self.deformation_vel * dt, 1000);
        let lim: i64 = self.size * MAX_DEFORMATION_MILLI / 1000;
        self.deformation = clamp_i64(self.deformation + delta_d, -lim, lim);
    }
}

/// The deformation spring-damper step: restoring force from the current
/// state, velocity then position integration, then the clamp law.
pub open spec fn deformation_step(d: int, dv: int, size: int, dt: int) -> (int, int) {
    let force = (-SPRING_MILLI * d - DAMPING_MILLI * dv) / 1000;
    let dv2 = clamp_spec(dv + force * dt / 1000, -DEF_VEL_LIMIT as int, DEF_VEL_LIMIT as int);
    let d2 = clamp_spec(d + dv2 * dt / 1000, -deformation_limit(size), deformation_limit(size));
    (dv2, d2)
}

impl Particle {
    /// Debris stays inside the saturation box, never outruns the burst
    /// speed, and is pruned before its life runs out entirely.
    pub open spec fn wf(self) -> bool {
        &&& -POS_LIMIT <= self.pos.x <= POS_LIMIT
        &&& -POS_LIMIT <= self.pos.y <= POS_LIMIT
        &&& -PARTICLE_SPEED <= self.vel.x <= PARTICLE_SPEED
        &&& -PARTICLE_SPEED <= self.vel.y <= PARTICLE_SPEED
        &&& 0 < self.life <= PARTICLE_LIFETIME
    }
}

/// One Euler step of a free particle: the position moves by `vel · dt` and
/// saturates at the coordinate guard, the life shrinks by `dt`.
pub open spec fn particle_step(pos: Vec2, vel: Vec2, life: int, dt: int) -> (Vec2, int) {
    let p = Vec2 {
        x: clamp_spec(pos.x + vel.x * dt / 1000, -POS_LIMIT as int, POS_LIMIT as int) as i64,
        y: clamp_spec(pos.y + vel.y * dt / 1000, -POS_LIMIT as int, POS_LIMIT as int) as i64,
    };
    (p, life - dt)
}

impl ThrusterParticle {
    /// Exhaust stays inside the saturation box, keeps its emission speed
    /// bound, and its remaining life never exceeds its initial life.
    pub open spec fn wf(self) -> bool {
        &&& -POS_LIMIT <= self.pos.x <= POS_LIMIT
        &&& -POS_LIMIT <= self.pos.y <= POS_LIMIT
        &&& -THRUSTER_VEL_LIMIT <= self.vel.x <= THRUSTER_VEL_LIMIT
        &&& -THRUSTER_VEL_LIMIT <= self.vel.y <= THRUSTER_VEL_LIMIT
        &&& 0 < self.life <= self.initial_life
        &&& self.initial_life <= 1_400
    }

    /// A fresh exhaust particle with its full life still ahead.
    pub fn new(pos: Vec2, vel: Vec2, color: Rgba, lifetime: i64) -> (p: ThrusterParticle)
        ensures
            p == (ThrusterParticle { pos, vel, color, life: lifetime, initial_life: lifetime }),
    {
        ThrusterParticle { pos, vel, color, life: lifetime, initial_life: lifetime }
    }

    /// One Euler step: move by `vel · dt`, age by `dt`.
    pub fn update(&mut self, dt: i64)
        requires
            old(self).wf(),
            0 <= dt <= DT_MAX,
        ensures
            final(self).pos == particle_step(
                old(self).pos,
                old(self).vel,
                old(self).life as int,
                dt as int,
            ).0,
            final(self).life == particle_step(
                old(self).pos,
                old(self).vel,
                old(self).life as int,
                dt as int,
            ).1,
            *final(self) == (ThrusterParticle {
                pos: final(self).pos,
                life: final(self).life,
                ..*old(self)
            }),
    {
        proof {
            assert(-6_000_000_000 <= self.vel.x as int * dt as int <= 6_000_000_000
                && -6_000_000_000 <= self.vel.y as int * dt as int <= 6_000_000_000)
                by (nonlinear_arith)
                requires
                    -100_000 <= self.vel.x <= 100_000,
                    -100_000 <= self.vel.y <= 100_000,
                    0 <= dt <= 60_000,
            ;
        }
        let dx: i64 = div_floor(self.vel.x * dt, 1000);
        let dy: i64 = div_floor(self.vel.y * dt, 1000);
        self.pos.x = clamp_i64(self.pos.x + dx, -POS_LIMIT, POS_LIMIT);
        self.pos.y = clamp_i64(self.pos.y + dy, -POS_LIMIT, POS_LIMIT);
        self.life = self.life - dt;
    }
}

/// The five-stop flame palette over the age fraction `t` in thousandths:
/// blue, white, yellow, orange, then red.
pub open spec fn flame_color_spec(t: int) -> Rgba {
    if t < 200 {
        Rgba { r: 0, g: 0, b: 255, a: 255 }
    } else if t < 400 {
        Rgba { r: 255, g: 255, b: 255, a: 255 }
    } else if t < 600 {
        Rgba { r: 255, g: 255, b: 0, a: 255 }
    } else if t < 800 {
        Rgba { r: 255, g: 165, b: 0, a: 255 }
    } else {
        Rgba { r: 255, g: 0, b: 0, a: 255 }
    }
}

/// The flame palette color for the age fraction `t` in thousandths.
pub fn flame_color_for(t: i64) -> (c: Rgba)
    ensures
        c == flame_color_spec(t as int),
{
    if t < 200 {
        Rgba { r: 0, g: 0, b: 255, a: 255 }
    } else if t < 400 {
        Rgba { r: 255, g: 255, b: 255, a: 255 }
    } else if t < 600 {
        Rgba { r: 255, g: 255, b: 0, a: 255 }
    } else if t < 800 {
        Rgba { r: 255, g: 165, b: 0, a: 255 }
    } else {
        Rgba { r: 255, g: 0, b: 0, a: 255 }
    }
}

} // verus!
