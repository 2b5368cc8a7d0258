//! The simulation context: the player, every entity population, the score
//! keeping, and the per-tick update passes.

use vstd::prelude::*;
use crate::config::{
    ASTEROID_COUNT, ASTEROID_EXPLOSION_COUNT, ASTEROID_SIZE, BULLET_SPEED, DT_MAX,
    FRAGMENT_THRESHOLD, LEVEL_UP_THRESHOLD, MAX_SPEED, MAX_THRUSTER_PARTICLES, MIN_SEED_SIZE,
    MIN_THRUSTER_LIFETIME, PARTICLE_LIFETIME, PARTICLE_SPEED, PLAYER_EXPLOSION_COUNT, PLAYER_SIZE,
    POS_LIMIT, THRUSTER_PARTICLE_LIFETIME, THRUSTER_VEL_LIMIT, THRUST_IMPULSE, VEL_LIMIT,
    WINDOW_HEIGHT, WINDOW_WIDTH,
};
use crate::entities::{
    flame_color_for, flame_color_spec, particle_step, Asteroid, Bullet, Particle, Rgba,
    ThrusterParticle, Vec2,
};
use crate::num::{clamp_i64, div_floor, wrap_into};
use crate::physics::{clamp_speed, clamp_speed_spec, norm, norm_spec};
use crate::rng::rand_range;
use crate::seqs::stepped_kept;
use crate::trig::{cos_milli, cos_milli_spec, sin_milli, sin_milli_spec, PI_MRAD, TAU_MRAD};

verus! {

/// The whole simulation state. All fields are plain values; the spec
/// functions beside each update pass say exactly how they move.
pub struct AsteroidsGame {
    pub player_pos: Vec2,
    pub player_vel: Vec2,
    pub player_angle: i64,
    pub bullets: Vec<Bullet>,
    pub asteroids: Vec<Asteroid>,
    pub is_game_over: bool,
    pub destroyed_count: u64,
    pub particles: Vec<Particle>,
    pub level: u32,
    pub score: u64,
    pub thruster_particles: Vec<ThrusterParticle>,
}

impl AsteroidsGame {
    /// The store invariant: the player is on the wrapped playfield with a
    /// clamped speed and a wrapped facing angle, every owned entity is
    /// well-formed, and the exhaust population respects its cap.
    pub open spec fn wf(self) -> bool {
        &&& 0 <= self.player_pos.x < WINDOW_WIDTH
        &&& 0 <= self.player_pos.y < WINDOW_HEIGHT
        &&& -MAX_SPEED <= self.player_vel.x <= MAX_SPEED
        &&& -MAX_SPEED <= self.player_vel.y <= MAX_SPEED
        &&& 0 <= self.player_angle < TAU_MRAD
        &&& forall|i: int| 0 <= i < self.bullets@.len() ==> (#[trigger] self.bullets@[i]).wf()
        &&& forall|i: int| 0 <= i < self.asteroids@.len() ==> (#[trigger] self.asteroids@[i]).wf()
        &&& forall|i: int| 0 <= i < self.particles@.len() ==> (#[trigger] self.particles@[i]).wf()
        &&& forall|i: int|
            0 <= i < self.thruster_particles@.len()
                ==> (#[trigger] self.thruster_particles@[i]).wf()
        &&& self.thruster_particles@.len() <= MAX_THRUSTER_PARTICLES
        &&& self.level >= 1
    }

    /// The flame palette color for a remaining-life fraction `f` in
    /// thousandths: age runs opposite to remaining life.
    pub fn generate_flame_color(&self, f: i64) -> (c: Rgba)
        requires
            -1_000_000_000 <= f <= 1_000_000_000,
        ensures
            c == flame_color_spec(1000 - f),
    {
        flame_color_for(1000 - f)
    }

    /// Fire a bullet from the player's position along the facing angle.
    /// Effective only while the game runs.
    pub fn shoot(&mut self)
        requires
            old(self).wf(),
        ensures
            old(self).is_game_over ==> *final(self) == *old(self),
            !old(self).is_game_over ==> final(self).bullets@ == old(self).bullets@.push(
                bullet_of(old(self).player_pos, old(self).player_angle as int),
            ),
            *final(self) == (AsteroidsGame { bullets: final(self).bullets, ..*old(self) }),
            final(self).wf(),
    {
        if self.is_game_over {
            return ;
        }
        let c: i64 = cos_milli(self.player_angle);
        let s: i64 = sin_milli(self.player_angle);
        proof {
            assert(-400_000 <= c as int * (BULLET_SPEED / 1000) <= 400_000 && -400_000 <= s as int
                * (BULLET_SPEED / 1000) <= 400_000) by (nonlinear_arith)
                requires
                    -1000 <= c <= 1000,
                    -1000 <= s <= 1000,
                    BULLET_SPEED == 400_000,
            ;
        }
        let vel = Vec2 { x: c * (BULLET_SPEED / 1000), y: s * (BULLET_SPEED / 1000) };
        self.bullets.push(Bullet { pos: self.player_pos, vel });
    }

    /// Turn the facing angle by `delta` milliradians, wrapped into a full
    /// turn. Effective only while the game runs.
    pub fn rotate(&mut self, delta: i64)
        requires
            old(self).wf(),
            -1_000_000 <= delta <= 1_000_000,
        ensures
            old(self).is_game_over ==> *final(self) == *old(self),
            !old(self).is_game_over ==> final(self).player_angle == (old(self).player_angle
                + delta) % (TAU_MRAD as int),
            *final(self) == (AsteroidsGame { player_angle: final(self).player_angle, ..*old(self) }),
            final(self).wf(),
    {
        if self.is_game_over {
            return ;
        }
        self.player_angle = wrap_into(self.player_angle + delta, TAU_MRAD);
    }

    /// Add one thrust impulse along the facing direction, then clamp the
    /// speed. Effective only while the game runs.
    pub fn apply_thrust(&mut self)
        requires
            old(self).wf(),
        ensures
            old(self).is_game_over ==> *final(self) == *old(self),
            !old(self).is_game_over ==> final(self).player_vel == clamp_speed_spec(
                thrusted_vel(old(self).player_vel, old(self).player_angle as int),
                MAX_SPEED as int,
            ),
            *final(self) == (AsteroidsGame { player_vel: final(self).player_vel, ..*old(self) }),
            final(self).wf(),
    {
        if self.is_game_over {
            return ;
        }
        let c: i64 = cos_milli(self.player_angle);
        let s: i64 = sin_milli(self.player_angle);
        proof {
            assert(-10_000 <= c as int * (THRUST_IMPULSE / 1000) <= 10_000 && -10_000 <= s as int
                * (THRUST_IMPULSE / 1000) <= 10_000) by (nonlinear_arith)
                requires
                    -1000 <= c <= 1000,
                    -1000 <= s <= 1000,
                    THRUST_IMPULSE == 10_000,
            ;
        }
        let cand = Vec2 {
            x: self.player_vel.x + c * (THRUST_IMPULSE / 1000),
            y: self.player_vel.y + s * (THRUST_IMPULSE / 1000),
        };
        self.player_vel = clamp_speed(cand, MAX_SPEED);
    }

    /// Move every bullet by `vel · dt` and drop the ones that left the
    /// closed playfield box.
    pub fn update_bullets(&mut self, dt: i64)
        requires
            old(self).wf(),
            0 <= dt <= DT_MAX,
        ensures
            final(self).bullets@ == bullets_after(
                old(self).bullets@,
                dt as int,
                old(self).bullets@.len() as int,
            ),
            *final(self) == (AsteroidsGame { bullets: final(self).bullets, ..*old(self) }),
            final(self).wf(),
    {
        let ghost s0 = self.bullets@;
        let n: usize = self.bullets.len();
        let mut kept: Vec<Bullet> = Vec::new();
        let mut i: usize = 0;
        while i < n
            invariant
                *self == *old(self),
                self.wf(),
                n == s0.len(),
                s0 == self.bullets@,
                0 <= i <= n,
                0 <= dt <= DT_MAX,
                kept@ == bullets_after(s0, dt as int, i as int),
                forall|k: int| 0 <= k < kept@.len() ==> (#[trigger] kept@[k]).wf(),
            decreases n - i,
        {
            let b: Bullet = self.bullets[i];
            proof {
                assert(-24_000_000_000 <= b.vel.x as int * dt <= 24_000_000_000 && -24_000_000_000
                    <= b.vel.y as int * dt <= 24_000_000_000) by (nonlinear_arith)
                    requires
                        -400_000 <= b.vel.x <= 400_000,
                        -400_000 <= b.vel.y <= 400_000,
                        0 <= dt <= 60_000,
                ;
            }
            let nb = Bullet {
                pos: Vec2 {
                    x: b.pos.x + div_floor(b.vel.x * dt, 1000),
                    y: b.pos.y + div_floor(b.vel.y * dt, 1000),
                },
                vel: b.vel,
            };
            if nb.pos.x >= 0 && nb.pos.x <= WINDOW_WIDTH && nb.pos.y >= 0 && nb.pos.y
                <= WINDOW_HEIGHT {
                kept.push(nb);
            }
            proof {
                assert(nb == bullet_step(s0[i as int], dt as int));
                assert(kept@ == bullets_after(s0, dt as int, i + 1 as int));
            }
            i = i + 1;
        }
        self.bullets = kept;
    }

    /// Move every debris particle, age it by `dt`, and prune the expired.
    pub fn update_particles(&mut self, dt: i64)
        requires
            old(self).wf(),
            0 <= dt <= DT_MAX,
        ensures
            final(self).particles@ == particles_after(
                old(self).particles@,
                dt as int,
                old(self).particles@.len() as int,
            ),
            *final(self) == (AsteroidsGame { particles: final(self).particles, ..*old(self) }),
            final(self).wf(),
    {
        let ghost s0 = self.particles@;
        let n: usize = self.particles.len();
        let mut kept: Vec<Particle> = Vec::new();
        let mut i: usize = 0;
        while i < n
            invariant
                *self == *old(self),
                self.wf(),
                n == s0.len(),
                s0 == self.particles@,
                0 <= i <= n,
                0 <= dt <= DT_MAX,
                kept@ == particles_after(s0, dt as int, i as int),
                forall|k: int| 0 <= k < kept@.len() ==> (#[trigger] kept@[k]).wf(),
            decreases n - i,
        {
            let p: Particle = self.particles[i];
            proof {
                assert(-4_800_000_000 <= p.vel.x as int * dt <= 4_800_000_000 && -4_800_000_000
                    <= p.vel.y as int * dt <= 4_800_000_000) by (nonlinear_arith)
                    requires
                        -80_000 <= p.vel.x <= 80_000,
                        -80_000 <= p.vel.y <= 80_000,
                        0 <= dt <= 60_000,
                ;
            }
            let np = Particle {
                pos: Vec2 {
                    x: clamp_i64(p.pos.x + div_floor(p.vel.x * dt, 1000), -POS_LIMIT, POS_LIMIT),
                    y: clamp_i64(p.pos.y + div_floor(p.vel.y * dt, 1000), -POS_LIMIT, POS_LIMIT),
                },
                vel: p.vel,
                life: p.life - dt,
                color: p.color,
            };
            if np.life > 0 {
                kept.push(np);
            }
            proof {
                assert(np == debris_step(s0[i as int], dt as int));
                assert(kept@ == particles_after(s0, dt as int, i + 1 as int));
            }
            i = i + 1;
        }
        self.particles = kept;
    }

    /// Queue `num` debris particles at `pos`: random directions, random
    /// speeds below the burst speed, full lifetime, one shared color.
    pub fn generate_explosion(&mut self, pos: Vec2, num: usize, color: Rgba)
        requires
            forall|i: int| 0 <= i < old(self).particles@.len() ==> (#[trigger] old(
                self,
            ).particles@[i]).wf(),
            -POS_LIMIT <= pos.x <= POS_LIMIT,
            -POS_LIMIT <= pos.y <= POS_LIMIT,
            num <= 10_000,
        ensures
            final(self).particles@.len() == old(self).particles@.len() + num,
            forall|j: int|
                0 <= j < old(self).particles@.len() ==> final(self).particles@[j] == old(
                    self,
                ).particles@[j],
            forall|k: int|
                old(self).particles@.len() <= k < final(self).particles@.len() ==> {
                    &&& (#[trigger] final(self).particles@[k]).wf()
                    &&& final(self).particles@[k].pos == pos
                    &&& final(self).particles@[k].life == PARTICLE_LIFETIME
                    &&& final(self).particles@[k].color == color
                    &&& exists|ang: int, spv: int|
                        0 <= ang < TAU_MRAD && 0 <= spv < PARTICLE_SPEED
                            && final(self).particles@[k].vel == burst_vel_of(ang, spv)
                },
            *final(self) == (AsteroidsGame { particles: final(self).particles, ..*old(self) }),
    {
        let ghost s0 = self.particles@;
        let mut k: usize = 0;
        while k < num
            invariant
                *old(self) == (AsteroidsGame { particles: old(self).particles, ..*self }),
                s0 == old(self).particles@,
                0 <= k <= num,
                -POS_LIMIT <= pos.x <= POS_LIMIT,
                -POS_LIMIT <= pos.y <= POS_LIMIT,
                self.particles@.len() == s0.len() + k,
                forall|j: int| 0 <= j < s0.len() ==> self.particles@[j] == s0[j],
                forall|j: int|
                    s0.len() <= j < self.particles@.len() ==> {
                        &&& (#[trigger] self.particles@[j]).wf()
                        &&& self.particles@[j].pos == pos
                        &&& self.particles@[j].life == PARTICLE_LIFETIME
                        &&& self.particles@[j].color == color
                        &&& exists|ang: int, spv: int|
                            0 <= ang < TAU_MRAD && 0 <= spv < PARTICLE_SPEED && self
                                .particles@[j].vel == burst_vel_of(ang, spv)
                    },
            decreases num - k,
        {
            let ang: i64 = rand_range(0, TAU_MRAD);
            let sp: i64 = rand_range(0, PARTICLE_SPEED);
            let c: i64 = cos_milli(ang);
            let s: i64 = sin_milli(ang);
            proof {
                lemma_dir_component_bounded(c as int, sp as int);
                lemma_dir_component_bounded(s as int, sp as int);
            }
            let vel = Vec2 { x: div_floor(c * sp, 1000), y: div_floor(s * sp, 1000) };
            self.particles.push(Particle { pos, vel, life: PARTICLE_LIFETIME, color });
            proof {
                assert(exists|a2: int, spv: int|
                    0 <= a2 < TAU_MRAD && 0 <= spv < PARTICLE_SPEED && self.particles@.last().vel
                        == burst_vel_of(a2, spv)) by {
                    assert(self.particles@.last().vel == burst_vel_of(ang as int, sp as int));
                }
            }
            k = k + 1;
        }
    }
}

impl AsteroidsGame {
    /// Move and age every exhaust particle, recolor each by its new age
    /// fraction, and prune the burnt-out.
    pub fn update_thruster_particles(&mut self, dt: i64)
        requires
            forall|i: int|
                0 <= i < old(self).thruster_particles@.len() ==> (#[trigger] old(
                    self,
                ).thruster_particles@[i]).wf(),
            0 <= dt <= DT_MAX,
        ensures
            final(self).thruster_particles@ == thrusters_after(
                old(self).thruster_particles@,
                dt as int,
                old(self).thruster_particles@.len() as int,
            ),
            final(self).thruster_particles@.len() <= old(self).thruster_particles@.len(),
            forall|k: int|
                0 <= k < final(self).thruster_particles@.len() ==> (#[trigger] final(self).thruster_particles@[k]).wf(),
            *final(self) == (AsteroidsGame {
                thruster_particles: final(self).thruster_particles,
                ..*old(self)
            }),
    {
        let ghost s0 = self.thruster_particles@;
        let n: usize = self.thruster_particles.len();
        let mut kept: Vec<ThrusterParticle> = Vec::new();
        let mut i: usize = 0;
        while i < n
            invariant
                *self == *old(self),
                forall|j: int| 0 <= j < s0.len() ==> (#[trigger] s0[j]).wf(),
                n == s0.len(),
                s0 == self.thruster_particles@,
                0 <= i <= n,
                0 <= dt <= DT_MAX,
                kept@ == thrusters_after(s0, dt as int, i as int),
                kept@.len() <= i,
                forall|k: int| 0 <= k < kept@.len() ==> (#[trigger] kept@[k]).wf(),
            decreases n - i,
        {
            let mut p: ThrusterParticle = self.thruster_particles[i];
            p.update(dt);
            let q: i64 = div_floor(p.life * 1000, p.initial_life);
            proof {
                vstd::arithmetic::div_mod::lemma_fundamental_div_mod(
                    p.life as int * 1000,
                    p.initial_life as int,
                );
                vstd::arithmetic::div_mod::lemma_mod_bound(
                    p.life as int * 1000,
                    p.initial_life as int,
                );
                assert(-70_000_000 <= q <= 2_000_000) by (nonlinear_arith)
                    requires
                        p.life as int * 1000 == p.initial_life as int * (q as int) + (p.life as int
                            * 1000) % (p.initial_life as int),
                        0 <= (p.life as int * 1000) % (p.initial_life as int)
                            < p.initial_life as int,
                        1 <= p.initial_life <= 1400,
                        -61_000_000 <= p.life as int * 1000 <= 2_000_000,
                ;
            }
            p.color = flame_color_for(1000 - q);
            if p.life > 0 {
                kept.push(p);
            }
            proof {
                assert(p == thruster_step(s0[i as int], dt as int));
                assert(kept@ == thrusters_after(s0, dt as int, i + 1 as int));
            }
            i = i + 1;
        }
        self.thruster_particles = kept;
    }

    /// Emit one exhaust particle behind the player: the emission angle is
    /// the reversed facing direction with a random jitter, the start point
    /// sits one player radius behind the nose.
    fn emit_thruster(&mut self, sp: i64, life: i64)
        requires
            forall|i: int|
                0 <= i < old(self).thruster_particles@.len() ==> (#[trigger] old(
                    self,
                ).thruster_particles@[i]).wf(),
            0 <= old(self).player_pos.x < WINDOW_WIDTH,
            0 <= old(self).player_pos.y < WINDOW_HEIGHT,
            0 <= old(self).player_angle < TAU_MRAD,
            0 < sp <= THRUSTER_VEL_LIMIT,
            0 < life <= 1_400,
        ensures
            final(self).thruster_particles@.len() == old(self).thruster_particles@.len() + 1,
            forall|j: int|
                0 <= j < old(self).thruster_particles@.len() ==> final(self).thruster_particles@[j]
                    == old(self).thruster_particles@[j],
            ({
                let p = final(self).thruster_particles@.last();
                &&& p.wf()
                &&& p.pos == exhaust_origin(old(self).player_pos, old(self).player_angle as int)
                &&& p.life == life
                &&& p.initial_life == life
                &&& p.color == flame_color_spec(0)
                &&& exists|jit: int|
                    -200 <= jit < 200 && p.vel == exhaust_vel_of(
                        old(self).player_angle as int,
                        jit,
                        sp as int,
                    )
            }),
            *final(self) == (AsteroidsGame {
                thruster_particles: final(self).thruster_particles,
                ..*old(self)
            }),
    {
        let jitter: i64 = rand_range(-200, 200);
        let ang: i64 = wrap_into(self.player_angle + PI_MRAD + jitter, TAU_MRAD);
        let c: i64 = cos_milli(ang);
        let s: i64 = sin_milli(ang);
        proof {
            lemma_dir_component_bounded(c as int, sp as int);
            lemma_dir_component_bounded(s as int, sp as int);
        }
        let vel = Vec2 { x: div_floor(c * sp, 1000), y: div_floor(s * sp, 1000) };
        let c0: i64 = cos_milli(self.player_angle);
        let s0: i64 = sin_milli(self.player_angle);
        proof {
            assert(-14_000 <= c0 as int * (PLAYER_SIZE / 1000) <= 14_000 && -14_000 <= s0 as int
                * (PLAYER_SIZE / 1000) <= 14_000) by (nonlinear_arith)
                requires
                    -1000 <= c0 <= 1000,
                    -1000 <= s0 <= 1000,
                    PLAYER_SIZE == 14_000,
            ;
        }
        let pos = Vec2 {
            x: self.player_pos.x - c0 * (PLAYER_SIZE / 1000),
            y: self.player_pos.y - s0 * (PLAYER_SIZE / 1000),
        };
        let color = flame_color_for(0);
        self.thruster_particles.push(ThrusterParticle::new(pos, vel, color, life));
        proof {
            assert(exists|jit: int|
                -200 <= jit < 200 && self.thruster_particles@.last().vel == exhaust_vel_of(
                    old(self).player_angle as int,
                    jit,
                    sp as int,
                )) by {
                assert(self.thruster_particles@.last().vel == exhaust_vel_of(
                    old(self).player_angle as int,
                    jitter as int,
                    sp as int,
                ));
            }
        }
    }

    /// The continuous exhaust stream: the spawn count follows the current
    /// speed, at most five per pass.
    pub fn generate_thruster_particles(&mut self)
        requires
            forall|i: int|
                0 <= i < old(self).thruster_particles@.len() ==> (#[trigger] old(
                    self,
                ).thruster_particles@[i]).wf(),
            0 <= old(self).player_pos.x < WINDOW_WIDTH,
            0 <= old(self).player_pos.y < WINDOW_HEIGHT,
            0 <= old(self).player_angle < TAU_MRAD,
            -MAX_SPEED <= old(self).player_vel.x <= MAX_SPEED,
            -MAX_SPEED <= old(self).player_vel.y <= MAX_SPEED,
        ensures
            final(self).thruster_particles@.len() == old(self).thruster_particles@.len()
                + speed_spawn_count(old(self).player_vel),
            forall|j: int|
                0 <= j < old(self).thruster_particles@.len() ==> final(self).thruster_particles@[j]
                    == old(self).thruster_particles@[j],
            forall|k: int|
                old(self).thruster_particles@.len() <= k < final(self).thruster_particles@.len()
                    ==> {
                    let p = #[trigger] final(self).thruster_particles@[k];
                    &&& p.wf()
                    &&& p.pos == exhaust_origin(
                        old(self).player_pos,
                        old(self).player_angle as int,
                    )
                    &&& MIN_THRUSTER_LIFETIME <= p.life < THRUSTER_PARTICLE_LIFETIME
                    &&& p.initial_life == p.life
                    &&& p.color == flame_color_spec(0)
                    &&& exists|jit: int, spv: int|
                        -200 <= jit < 200 && 50_000 <= spv < 100_000 && p.vel == exhaust_vel_of(
                            old(self).player_angle as int,
                            jit,
                            spv,
                        )
                },
            *final(self) == (AsteroidsGame {
                thruster_particles: final(self).thruster_particles,
                ..*old(self)
            }),
    {
        let speed: i64 = norm(self.player_vel);
        let quota: i64 = speed / 10_000;
        let num: usize = if quota > 5 {
            5
        } else {
            quota as usize
        };
        proof {
            assert(num == speed_spawn_count(old(self).player_vel));
        }
        let ghost base = self.thruster_particles@;
        let mut k: usize = 0;
        while k < num
            invariant
                *old(self) == (AsteroidsGame {
                    thruster_particles: old(self).thruster_particles,
                    ..*self
                }),
                base == old(self).thruster_particles@,
                0 <= old(self).player_pos.x < WINDOW_WIDTH,
                0 <= old(self).player_pos.y < WINDOW_HEIGHT,
                0 <= old(self).player_angle < TAU_MRAD,
                self.player_pos == old(self).player_pos,
                self.player_angle == old(self).player_angle,
                0 <= k <= num,
                self.thruster_particles@.len() == base.len() + k,
                forall|j: int|
                    0 <= j < base.len() ==> self.thruster_particles@[j] == base[j],
                forall|j: int|
                    0 <= j < self.thruster_particles@.len() ==> (#[trigger] self
                        .thruster_particles@[j]).wf(),
                forall|j: int|
                    base.len() <= j < self.thruster_particles@.len() ==> {
                        let p = #[trigger] self.thruster_particles@[j];
                        &&& p.pos == exhaust_origin(
                            old(self).player_pos,
                            old(self).player_angle as int,
                        )
                        &&& MIN_THRUSTER_LIFETIME <= p.life < THRUSTER_PARTICLE_LIFETIME
                        &&& p.initial_life == p.life
                        &&& p.color == flame_color_spec(0)
                        &&& exists|jit: int, spv: int|
                            -200 <= jit < 200 && 50_000 <= spv < 100_000 && p.vel
                                == exhaust_vel_of(old(self).player_angle as int, jit, spv)
                    },
            decreases num - k,
        {
            let sp: i64 = rand_range(50_000, 100_000);
            let life: i64 = rand_range(MIN_THRUSTER_LIFETIME, THRUSTER_PARTICLE_LIFETIME);
            let ghost pre = self.thruster_particles@;
            self.emit_thruster(sp, life);
            proof {
                assert forall|j: int| 0 <= j < self.thruster_particles@.len() implies (
                #[trigger] self.thruster_particles@[j]).wf() by {
                    if j < pre.len() {
                        assert(self.thruster_particles@[j] == pre[j]);
                    }
                }
                assert forall|j: int|
                    base.len() <= j < self.thruster_particles@.len() implies {
                        let p = #[trigger] self.thruster_particles@[j];
                        &&& p.pos == exhaust_origin(
                            old(self).player_pos,
                            old(self).player_angle as int,
                        )
                        &&& MIN_THRUSTER_LIFETIME <= p.life < THRUSTER_PARTICLE_LIFETIME
                        &&& p.initial_life == p.life
                        &&& p.color == flame_color_spec(0)
                        &&& exists|jit: int, spv: int|
                            -200 <= jit < 200 && 50_000 <= spv < 100_000 && p.vel
                                == exhaust_vel_of(old(self).player_angle as int, jit, spv)
                    } by {
                    if j < pre.len() {
                        assert(self.thruster_particles@[j] == pre[j]);
                    } else {
                        let p = self.thruster_particles@.last();
                        assert(self.thruster_particles@[j] == p);
                        let jit = choose|jit: int|
                            -200 <= jit < 200 && p.vel == exhaust_vel_of(
                                old(self).player_angle as int,
                                jit,
                                sp as int,
                            );
                        assert(exists|jit2: int, spv: int|
                            -200 <= jit2 < 200 && 50_000 <= spv < 100_000 && p.vel
                                == exhaust_vel_of(old(self).player_angle as int, jit2, spv)) by {
                            assert(-200 <= jit < 200 && 50_000 <= sp < 100_000 && p.vel
                                == exhaust_vel_of(old(self).player_angle as int, jit, sp as int));
                        }
                    }
                }
            }
            k = k + 1;
        }
    }

    /// Evict from the front — oldest first — until the exhaust population
    /// is back at its cap.
    pub fn enforce_thruster_cap(&mut self)
        ensures
            final(self).thruster_particles@ == capped_thrusters(old(self).thruster_particles@),
            final(self).thruster_particles@.len() <= MAX_THRUSTER_PARTICLES,
            *final(self) == (AsteroidsGame {
                thruster_particles: final(self).thruster_particles,
                ..*old(self)
            }),
    {
        let ghost s0 = self.thruster_particles@;
        proof {
            assert(s0.skip(0) =~= s0);
        }
        while self.thruster_particles.len() > MAX_THRUSTER_PARTICLES
            invariant
                *old(self) == (AsteroidsGame {
                    thruster_particles: old(self).thruster_particles,
                    ..*self
                }),
                s0 == old(self).thruster_particles@,
                self.thruster_particles@.len() <= s0.len(),
                self.thruster_particles@ == s0.skip(s0.len() - self.thruster_particles@.len()),
                s0.len() <= MAX_THRUSTER_PARTICLES ==> self.thruster_particles@ == s0,
                s0.len() > MAX_THRUSTER_PARTICLES ==> self.thruster_particles@.len()
                    >= MAX_THRUSTER_PARTICLES,
            decreases self.thruster_particles@.len(),
        {
            let ghost pre = self.thruster_particles@;
            self.thruster_particles.remove(0);
            proof {
                assert(self.thruster_particles@ =~= s0.skip(
                    s0.len() - self.thruster_particles@.len(),
                ));
            }
        }
    }
}

impl AsteroidsGame {
    /// One player pass: accumulate the pull of every asteroid (the player
    /// is gravitationally passive toward them by design — they pull the
    /// player, never the reverse), integrate velocity and position with
    /// wrap, apply friction, then run the exhaust pipeline: stream spawn,
    /// move and recolor, speed-keyed burst, cap eviction.
    #[verifier::rlimit(60)]
    pub fn update_player(&mut self, dt: i64)
        requires
            old(self).wf(),
            0 <= dt <= DT_MAX,
        ensures
            final(self).player_pos == player_after(*old(self), dt as int).0,
            final(self).player_vel == player_after(*old(self), dt as int).1,
            *final(self) == (AsteroidsGame {
                player_pos: final(self).player_pos,
                player_vel: final(self).player_vel,
                thruster_particles: final(self).thruster_particles,
                ..*old(self)
            }),
            final(self).wf(),
            ({
                let v2 = player_after(*old(self), dt as int).1;
                let p2 = player_after(*old(self), dt as int).0;
                exists|s1: Seq<ThrusterParticle>, s2: Seq<ThrusterParticle>|
                    #![trigger s1.len(), s2.len()]
                    {
                        &&& s1.len() == speed_spawn_count(v2)
                        &&& s2.len() == burst_spawn_count(v2)
                        &&& (forall|k: int|
                            0 <= k < s1.len() ==> {
                                let p = #[trigger] s1[k];
                                &&& p.pos == exhaust_origin(p2, old(self).player_angle as int)
                                &&& MIN_THRUSTER_LIFETIME <= p.life < THRUSTER_PARTICLE_LIFETIME
                                &&& p.initial_life == p.life
                                &&& p.color == flame_color_spec(0)
                                &&& exists|jit: int, spv: int|
                                    -200 <= jit < 200 && 50_000 <= spv < 100_000 && p.vel
                                        == exhaust_vel_of(old(self).player_angle as int, jit, spv)
                            })
                        &&& (forall|k: int|
                            0 <= k < s2.len() ==> {
                                let p = #[trigger] s2[k];
                                &&& p.pos == exhaust_origin(p2, old(self).player_angle as int)
                                &&& 0 < p.life <= 1_400
                                &&& p.initial_life == p.life
                                &&& p.color == flame_color_spec(0)
                                &&& exists|bl: int|
                                    300 <= bl < 700 && p.life == scaled_milli(bl, burst_factor(v2))
                                &&& exists|jit: int, bsp: int|
                                    -200 <= jit < 200 && 20_000 <= bsp < 50_000 && p.vel
                                        == exhaust_vel_of(
                                        old(self).player_angle as int,
                                        jit,
                                        scaled_milli(bsp, burst_factor(v2)),
                                    )
                            })
                        &&& final(self).thruster_particles@ == capped_thrusters(
                            thrusters_after(
                                old(self).thruster_particles@ + s1,
                                dt as int,
                                old(self).thruster_particles@.len() + s1.len() as int,
                            ) + s2,
                        )
                    }
            }),
    {
        let ghost s0 = self.asteroids@;
        let n: usize = self.asteroids.len();
        let mut gx: i128 = 0;
        let mut gy: i128 = 0;
        let mut i: usize = 0;
        while i < n
            invariant
                *self == *old(self),
                self.wf(),
                n == s0.len(),
                s0 == self.asteroids@,
                0 <= i <= n,
                gx as int == player_gravity_upto(s0, self.player_pos, i as int).0,
                gy as int == player_gravity_upto(s0, self.player_pos, i as int).1,
                -(i as int) * 70_000_000 <= gx as int <= (i as int) * 70_000_000,
                -(i as int) * 70_000_000 <= gy as int <= (i as int) * 70_000_000,
            decreases n - i,
        {
            let a: Asteroid = self.asteroids[i];
            proof {
                crate::entities::lemma_mass_of_bounds(a.size as int);
            }
            let f: (i64, i64) = crate::physics::gravity_term(
                crate::config::PLAYER_MASS,
                a.mass,
                self.player_pos,
                a.pos,
            );
            gx = gx + f.0 as i128;
            gy = gy + f.1 as i128;
            i = i + 1;
        }
        let fx_c: i64 = if gx > (crate::config::FORCE_LIMIT as i128) {
            crate::config::FORCE_LIMIT
        } else if gx < -(crate::config::FORCE_LIMIT as i128) {
            -crate::config::FORCE_LIMIT
        } else {
            gx as i64
        };
        let fy_c: i64 = if gy > (crate::config::FORCE_LIMIT as i128) {
            crate::config::FORCE_LIMIT
        } else if gy < -(crate::config::FORCE_LIMIT as i128) {
            -crate::config::FORCE_LIMIT
        } else {
            gy as i64
        };
        proof {
            assert(-600_000_000_000_000_000 <= fx_c as int * dt <= 600_000_000_000_000_000
                && -600_000_000_000_000_000 <= fy_c as int * dt <= 600_000_000_000_000_000)
                by (nonlinear_arith)
                requires
                    -10_000_000_000_000 <= fx_c <= 10_000_000_000_000,
                    -10_000_000_000_000 <= fy_c <= 10_000_000_000_000,
                    0 <= dt <= 60_000,
            ;
        }
        let dvx: i64 = clamp_i64(div_floor(fx_c * dt, 100), -VEL_LIMIT, VEL_LIMIT);
        let dvy: i64 = clamp_i64(div_floor(fy_c * dt, 100), -VEL_LIMIT, VEL_LIMIT);
        let cand = Vec2 { x: self.player_vel.x + dvx, y: self.player_vel.y + dvy };
        let v1: Vec2 = clamp_speed(cand, MAX_SPEED);
        proof {
            assert(-12_000_000_000 <= v1.x as int * dt <= 12_000_000_000 && -12_000_000_000
                <= v1.y as int * dt <= 12_000_000_000) by (nonlinear_arith)
                requires
                    -200_000 <= v1.x <= 200_000,
                    -200_000 <= v1.y <= 200_000,
                    0 <= dt <= 60_000,
            ;
        }
        self.player_pos = Vec2 {
            x: wrap_into(self.player_pos.x + div_floor(v1.x * dt, 1000), WINDOW_WIDTH),
            y: wrap_into(self.player_pos.y + div_floor(v1.y * dt, 1000), WINDOW_HEIGHT),
        };
        self.player_vel = Vec2 { x: div_floor(v1.x * 99, 100), y: div_floor(v1.y * 99, 100) };
        let ghost tp0 = self.thruster_particles@;
        proof {
            assert(self.player_vel.x * self.player_vel.x + self.player_vel.y * self.player_vel.y
                >= 0) by (nonlinear_arith);
            crate::physics::lemma_isqrt_exists(
                self.player_vel.x * self.player_vel.x + self.player_vel.y * self.player_vel.y,
            );
            vstd::arithmetic::div_mod::lemma_div_pos_is_pos(norm_spec(self.player_vel), 10_000);
        }
        self.generate_thruster_particles();
        let ghost sp1 = self.thruster_particles@.subrange(
            tp0.len() as int,
            self.thruster_particles@.len() as int,
        );
        proof {
            assert forall|j: int|
                0 <= j < self.thruster_particles@.len() implies (tp0 + sp1)[j] == self
                .thruster_particles@[j] by {
                if j < tp0.len() {
                    assert(self.thruster_particles@[j] == tp0[j]);
                } else {
                    assert((tp0 + sp1)[j] == sp1[j - tp0.len()]);
                }
            }
            assert(self.thruster_particles@ =~= tp0 + sp1);
            assert forall|j: int| 0 <= j < self.thruster_particles@.len() implies (
            #[trigger] self.thruster_particles@[j]).wf() by {
                if j < tp0.len() {
                    assert(self.thruster_particles@[j] == tp0[j]);
                }
            }
        }
        self.update_thruster_particles(dt);
        let ghost mid = self.thruster_particles@;
        proof {
            assert(self.player_vel.x * self.player_vel.x + self.player_vel.y * self.player_vel.y
                >= 0) by (nonlinear_arith);
            crate::physics::lemma_isqrt_exists(
                self.player_vel.x * self.player_vel.x + self.player_vel.y * self.player_vel.y,
            );
            vstd::arithmetic::div_mod::lemma_div_pos_is_pos(norm_spec(self.player_vel), 10_000);
        }
        let speed: i64 = norm(self.player_vel);
        proof {
            assert(speed <= 282_000) by (nonlinear_arith)
                requires
                    0 <= speed,
                    speed as int * speed as int <= self.player_vel.x as int * self.player_vel.x
                        + self.player_vel.y as int * self.player_vel.y,
                    -199_000 <= self.player_vel.x <= 199_000,
                    -199_000 <= self.player_vel.y <= 199_000,
            ;
        }
        let inv: i64 = 1000 - speed / 200;
        let factor: i64 = 1000 + inv;
        let quota: i64 = div_floor(inv, 100);
        let num: usize = if quota < 1 {
            1
        } else {
            quota as usize
        };
        proof {
            assert(num as int == burst_spawn_count(self.player_vel));
            assert(factor as int == burst_factor(self.player_vel));
        }
        let mut k: usize = 0;
        while k < num
            invariant
                0 <= k <= num,
                0 <= self.player_pos.x < WINDOW_WIDTH,
                0 <= self.player_pos.y < WINDOW_HEIGHT,
                0 <= self.player_angle < TAU_MRAD,
                self.player_angle == old(self).player_angle,
                590 <= factor <= 2000,
                self.thruster_particles@.len() == mid.len() + k,
                forall|j: int| 0 <= j < mid.len() ==> self.thruster_particles@[j] == mid[j],
                factor as int == burst_factor(player_after(*old(self), dt as int).1),
                forall|j: int|
                    mid.len() <= j < self.thruster_particles@.len() ==> {
                        let p = #[trigger] self.thruster_particles@[j];
                        &&& p.pos == exhaust_origin(
                            self.player_pos,
                            old(self).player_angle as int,
                        )
                        &&& 0 < p.life <= 1_400
                        &&& p.initial_life == p.life
                        &&& p.color == flame_color_spec(0)
                        &&& exists|bl: int|
                            300 <= bl < 700 && p.life == scaled_milli(bl, factor as int)
                        &&& exists|jit: int, bsp: int|
                            -200 <= jit < 200 && 20_000 <= bsp < 50_000 && p.vel
                                == exhaust_vel_of(
                                old(self).player_angle as int,
                                jit,
                                scaled_milli(bsp, factor as int),
                            )
                    },
                forall|j: int|
                    0 <= j < self.thruster_particles@.len() ==> (#[trigger] self
                        .thruster_particles@[j]).wf(),
                *old(self) == (AsteroidsGame {
                    player_pos: old(self).player_pos,
                    player_vel: old(self).player_vel,
                    thruster_particles: old(self).thruster_particles,
                    ..*self
                }),
                self.player_pos == player_after(*old(self), dt as int).0,
                self.player_vel == player_after(*old(self), dt as int).1,
            decreases num - k,
        {
            let base_sp: i64 = rand_range(20_000, 50_000);
            let base_life: i64 = rand_range(MIN_THRUSTER_LIFETIME, THRUSTER_PARTICLE_LIFETIME);
            proof {
                assert(11_000_000 <= base_sp as int * factor <= 100_000_000 && 170_000
                    <= base_life as int * factor <= 1_400_000) by (nonlinear_arith)
                    requires
                        20_000 <= base_sp < 50_000,
                        300 <= base_life < 700,
                        590 <= factor <= 2000,
                ;
            }
            let sp: i64 = base_sp * factor / 1000;
            let life: i64 = base_life * factor / 1000;
            let ghost pre = self.thruster_particles@;
            self.emit_thruster(sp, life);
            proof {
                assert forall|j: int| 0 <= j < self.thruster_particles@.len() implies (
                #[trigger] self.thruster_particles@[j]).wf() by {
                    if j < pre.len() {
                        assert(self.thruster_particles@[j] == pre[j]);
                    }
                }
                assert forall|j: int|
                    mid.len() <= j < self.thruster_particles@.len() implies {
                        let p = #[trigger] self.thruster_particles@[j];
                        &&& p.pos == exhaust_origin(
                            self.player_pos,
                            old(self).player_angle as int,
                        )
                        &&& 0 < p.life <= 1_400
                        &&& p.initial_life == p.life
                        &&& p.color == flame_color_spec(0)
                        &&& exists|bl: int|
                            300 <= bl < 700 && p.life == scaled_milli(bl, factor as int)
                        &&& exists|jit: int, bsp: int|
                            -200 <= jit < 200 && 20_000 <= bsp < 50_000 && p.vel
                                == exhaust_vel_of(
                                old(self).player_angle as int,
                                jit,
                                scaled_milli(bsp, factor as int),
                            )
                    } by {
                    if j < pre.len() {
                        assert(self.thruster_particles@[j] == pre[j]);
                    } else {
                        let p = self.thruster_particles@.last();
                        assert(self.thruster_particles@[j] == p);
                        assert(life == scaled_milli(base_life as int, factor as int));
                        assert(sp == scaled_milli(base_sp as int, factor as int));
                        assert(exists|bl: int|
                            300 <= bl < 700 && p.life == scaled_milli(bl, factor as int)) by {
                            assert(p.life == scaled_milli(base_life as int, factor as int));
                        }
                        let jit = choose|jit: int|
                            -200 <= jit < 200 && p.vel == exhaust_vel_of(
                                old(self).player_angle as int,
                                jit,
                                sp as int,
                            );
                        assert(exists|jit2: int, bsp: int|
                            -200 <= jit2 < 200 && 20_000 <= bsp < 50_000 && p.vel
                                == exhaust_vel_of(
                                old(self).player_angle as int,
                                jit2,
                                scaled_milli(bsp, factor as int),
                            )) by {
                            assert(-200 <= jit < 200 && 20_000 <= base_sp < 50_000 && p.vel
                                == exhaust_vel_of(
                                old(self).player_angle as int,
                                jit,
                                scaled_milli(base_sp as int, factor as int),
                            ));
                        }
                    }
                }
            }
            k = k + 1;
        }
        let ghost sp2 = self.thruster_particles@.subrange(
            mid.len() as int,
            self.thruster_particles@.len() as int,
        );
        proof {
            assert forall|j: int|
                0 <= j < self.thruster_particles@.len() implies (mid + sp2)[j] == self
                .thruster_particles@[j] by {
                if j < mid.len() {
                    assert(self.thruster_particles@[j] == mid[j]);
                } else {
                    assert((mid + sp2)[j] == sp2[j - mid.len()]);
                }
            }
            assert(self.thruster_particles@ =~= mid + sp2);
        }
        self.enforce_thruster_cap();
        proof {
            let v2 = player_after(*old(self), dt as int).1;
            let p2 = player_after(*old(self), dt as int).0;
            assert(exists|s1: Seq<ThrusterParticle>, s2: Seq<ThrusterParticle>|
                #![trigger s1.len(), s2.len()]
                {
                    &&& s1.len() == speed_spawn_count(v2)
                    &&& s2.len() == burst_spawn_count(v2)
                    &&& (forall|kk: int|
                        0 <= kk < s1.len() ==> {
                            let p = #[trigger] s1[kk];
                            &&& p.pos == exhaust_origin(p2, old(self).player_angle as int)
                            &&& MIN_THRUSTER_LIFETIME <= p.life < THRUSTER_PARTICLE_LIFETIME
                            &&& p.initial_life == p.life
                            &&& p.color == flame_color_spec(0)
                            &&& exists|jit: int, spv: int|
                                -200 <= jit < 200 && 50_000 <= spv < 100_000 && p.vel
                                    == exhaust_vel_of(old(self).player_angle as int, jit, spv)
                        })
                    &&& (forall|kk: int|
                        0 <= kk < s2.len() ==> {
                            let p = #[trigger] s2[kk];
                            &&& p.pos == exhaust_origin(p2, old(self).player_angle as int)
                            &&& 0 < p.life <= 1_400
                            &&& p.initial_life == p.life
                            &&& p.color == flame_color_spec(0)
                            &&& exists|bl: int|
                                300 <= bl < 700 && p.life == scaled_milli(bl, burst_factor(v2))
                            &&& exists|jit: int, bsp: int|
                                -200 <= jit < 200 && 20_000 <= bsp < 50_000 && p.vel
                                    == exhaust_vel_of(
                                    old(self).player_angle as int,
                                    jit,
                                    scaled_milli(bsp, burst_factor(v2)),
                                )
                        })
                    &&& self.thruster_particles@ == capped_thrusters(
                        thrusters_after(
                            old(self).thruster_particles@ + sp1,
                            dt as int,
                            old(self).thruster_particles@.len() + sp1.len() as int,
                        ) + sp2,
                    )
                }) by {
                assert(sp1.len() == speed_spawn_count(v2));
                assert(sp2.len() == burst_spawn_count(v2));
                assert(self.thruster_particles@ == capped_thrusters(
                    thrusters_after(
                        old(self).thruster_particles@ + sp1,
                        dt as int,
                        old(self).thruster_particles@.len() + sp1.len() as int,
                    ) + sp2,
                ));
            }
        }
    }
}

impl AsteroidsGame {
    /// One asteroid pass: pairwise gravity with the per-axis acceleration
    /// clamp, velocity and position integration with wrap, the deformation
    /// oscillator step, and then the collision pass.
    pub fn update_asteroids(&mut self, dt: i64)
        requires
            old(self).wf(),
            0 <= dt <= DT_MAX,
        ensures
            final(self).asteroids@ == crate::collide::resolved(
                crate::collide::integrate_all(old(self).asteroids@, dt as int),
            ),
            *final(self) == (AsteroidsGame { asteroids: final(self).asteroids, ..*old(self) }),
            final(self).wf(),
    {
        let ghost s0 = self.asteroids@;
        let n: usize = self.asteroids.len();
        let mut accels: Vec<(i64, i64)> = Vec::new();
        let mut k: usize = 0;
        while k < n
            invariant
                *self == *old(self),
                self.wf(),
                n == s0.len(),
                s0 == self.asteroids@,
                0 <= k <= n,
                accels@.len() == k,
                forall|t: int| 0 <= t < k ==> #[trigger] accels@[t] == accel_of(s0, t),
            decreases n - k,
        {
            let here: Asteroid = self.asteroids[k];
            proof {
                crate::entities::lemma_mass_of_bounds(here.size as int);
            }
            let mut gx: i128 = 0;
            let mut gy: i128 = 0;
            let mut j: usize = 0;
            while j < n
                invariant
                    *self == *old(self),
                    self.wf(),
                    n == s0.len(),
                    s0 == self.asteroids@,
                    0 <= k < n,
                    here == s0[k as int],
                    0 <= j <= n,
                    gx as int == crate::collide::asteroid_gravity_upto(
                        s0,
                        k as int,
                        j as int,
                    ).0,
                    gy as int == crate::collide::asteroid_gravity_upto(
                        s0,
                        k as int,
                        j as int,
                    ).1,
                    -(j as int) * 70_000_000 <= gx as int <= (j as int) * 70_000_000,
                    -(j as int) * 70_000_000 <= gy as int <= (j as int) * 70_000_000,
                decreases n - j,
            {
                if j != k {
                    let other: Asteroid = self.asteroids[j];
                    proof {
                        crate::entities::lemma_mass_of_bounds(other.size as int);
                        crate::entities::lemma_mass_of_bounds(here.size as int);
                    }
                    if j > k {
                        let f: (i64, i64) = crate::physics::gravity_term(
                            here.mass,
                            other.mass,
                            here.pos,
                            other.pos,
                        );
                        gx = gx + f.0 as i128;
                        gy = gy + f.1 as i128;
                    } else {
                        let f: (i64, i64) = crate::physics::gravity_term(
                            other.mass,
                            here.mass,
                            other.pos,
                            here.pos,
                        );
                        gx = gx - f.0 as i128;
                        gy = gy - f.1 as i128;
                    }
                }
                j = j + 1;
            }
            let ax: i64 = if gx > (crate::config::MAX_ACCELERATION as i128) {
                crate::config::MAX_ACCELERATION
            } else if gx < -(crate::config::MAX_ACCELERATION as i128) {
                -crate::config::MAX_ACCELERATION
            } else {
                gx as i64
            };
            let ay: i64 = if gy > (crate::config::MAX_ACCELERATION as i128) {
                crate::config::MAX_ACCELERATION
            } else if gy < -(crate::config::MAX_ACCELERATION as i128) {
                -crate::config::MAX_ACCELERATION
            } else {
                gy as i64
            };
            accels.push((ax, ay));
            k = k + 1;
        }
        let mut k: usize = 0;
        while k < n
            invariant
                n == s0.len(),
                self.asteroids@.len() == n,
                0 <= k <= n,
                0 <= dt <= DT_MAX,
                accels@.len() == n,
                forall|t: int| 0 <= t < n ==> #[trigger] accels@[t] == accel_of(s0, t),
                forall|t: int|
                    0 <= t < k ==> #[trigger] self.asteroids@[t]
                        == crate::collide::asteroid_integrate_spec(s0, t, dt as int),
                forall|t: int| k <= t < n ==> #[trigger] self.asteroids@[t] == s0[t],
                forall|t: int| 0 <= t < n ==> (#[trigger] self.asteroids@[t]).wf(),
                *old(self) == (AsteroidsGame { asteroids: old(self).asteroids, ..*self }),
            decreases n - k,
        {
            let acc: (i64, i64) = accels[k];
            let a: Asteroid = self.asteroids[k];
            proof {
                assert(-3_000_000_000 <= acc.0 as int * dt <= 3_000_000_000 && -3_000_000_000
                    <= acc.1 as int * dt <= 3_000_000_000) by (nonlinear_arith)
                    requires
                        -50_000 <= acc.0 <= 50_000,
                        -50_000 <= acc.1 <= 50_000,
                        0 <= dt <= 60_000,
                ;
            }
            let v1 = Vec2 {
                x: a.vel.x + div_floor(acc.0 * dt, 1000),
                y: a.vel.y + div_floor(acc.1 * dt, 1000),
            };
            let v2: Vec2 = clamp_speed(v1, MAX_SPEED);
            proof {
                assert(-12_000_000_000 <= v2.x as int * dt <= 12_000_000_000 && -12_000_000_000
                    <= v2.y as int * dt <= 12_000_000_000) by (nonlinear_arith)
                    requires
                        -200_000 <= v2.x <= 200_000,
                        -200_000 <= v2.y <= 200_000,
                        0 <= dt <= 60_000,
                ;
            }
            let mut a2 = Asteroid {
                pos: Vec2 {
                    x: wrap_into(a.pos.x + div_floor(v2.x * dt, 1000), WINDOW_WIDTH),
                    y: wrap_into(a.pos.y + div_floor(v2.y * dt, 1000), WINDOW_HEIGHT),
                },
                vel: v2,
                ..a
            };
            a2.update_deformation(dt);
            self.asteroids[k] = a2;
            proof {
                assert(a2 == crate::collide::asteroid_integrate_spec(s0, k as int, dt as int));
            }
            k = k + 1;
        }
        proof {
            assert(self.asteroids@ =~= crate::collide::integrate_all(s0, dt as int));
        }
        self.handle_asteroid_collisions();
    }

    /// One collision pass: detect every overlapping pair on the incoming
    /// state, then resolve the pairs in order.
    pub fn handle_asteroid_collisions(&mut self)
        requires
            forall|i: int| 0 <= i < old(self).asteroids@.len() ==> (#[trigger] old(
                self,
            ).asteroids@[i]).wf(),
        ensures
            final(self).asteroids@ == crate::collide::resolved(old(self).asteroids@),
            final(self).asteroids@.len() == old(self).asteroids@.len(),
            forall|i: int|
                0 <= i < final(self).asteroids@.len()
                    ==> (#[trigger] final(self).asteroids@[i]).wf(),
            *final(self) == (AsteroidsGame { asteroids: final(self).asteroids, ..*old(self) }),
    {
        let ghost s0 = self.asteroids@;
        let n: usize = self.asteroids.len();
        let mut pairs: Vec<(usize, usize)> = Vec::new();
        let mut i: usize = 0;
        proof {
            assert(pairs@ =~= crate::collide::all_pairs_upto(s0, 0));
        }
        while i < n
            invariant
                *self == *old(self),
                forall|t: int| 0 <= t < s0.len() ==> (#[trigger] s0[t]).wf(),
                n == s0.len(),
                s0 == self.asteroids@,
                0 <= i <= n,
                pairs@ == crate::collide::all_pairs_upto(s0, i as int),
                forall|t: int|
                    0 <= t < pairs@.len() ==> (#[trigger] pairs@[t]).0 < pairs@[t].1
                        && (pairs@[t].1 as int) < n,
            decreases n - i,
        {
            let mut j: usize = i + 1;
            proof {
                assert(pairs@ =~= crate::collide::all_pairs_upto(s0, i as int)
                    + crate::collide::row_pairs(s0, i as int, (i + 1) as int));
            }
            while j < n
                invariant
                    *self == *old(self),
                    forall|t: int| 0 <= t < s0.len() ==> (#[trigger] s0[t]).wf(),
                    n == s0.len(),
                    s0 == self.asteroids@,
                    0 <= i < n,
                    i < j <= n,
                    pairs@ == crate::collide::all_pairs_upto(s0, i as int)
                        + crate::collide::row_pairs(s0, i as int, j as int),
                    forall|t: int|
                        0 <= t < pairs@.len() ==> (#[trigger] pairs@[t]).0 < pairs@[t].1
                            && (pairs@[t].1 as int) < n,
                decreases n - j,
            {
                let a: Asteroid = self.asteroids[i];
                let b: Asteroid = self.asteroids[j];
                let dd: i64 = norm(Vec2 { x: a.pos.x - b.pos.x, y: a.pos.y - b.pos.y });
                if dd < a.size + b.size {
                    pairs.push((i, j));
                }
                proof {
                    assert(pairs@ =~= crate::collide::all_pairs_upto(s0, i as int)
                        + crate::collide::row_pairs(s0, i as int, (j + 1) as int));
                }
                j = j + 1;
            }
            i = i + 1;
        }
        let m: usize = pairs.len();
        let ghost ps = pairs@;
        proof {
            assert(ps == crate::collide::collision_pairs(s0));
        }
        let mut t: usize = 0;
        while t < m
            invariant
                forall|u: int| 0 <= u < s0.len() ==> (#[trigger] s0[u]).wf(),
                m == ps.len(),
                ps == pairs@,
                n == s0.len(),
                self.asteroids@.len() == n,
                0 <= t <= m,
                forall|u: int|
                    0 <= u < ps.len() ==> (#[trigger] ps[u]).0 < ps[u].1 && (ps[u].1 as int) < n,
                self.asteroids@ == crate::collide::resolve_upto(s0, ps, t as int),
                forall|u: int| 0 <= u < n ==> (#[trigger] self.asteroids@[u]).wf(),
                *old(self) == (AsteroidsGame { asteroids: old(self).asteroids, ..*self }),
            decreases m - t,
        {
            let p: (usize, usize) = pairs[t];
            crate::collide::resolve_collision_pair(&mut self.asteroids, p.0, p.1);
            t = t + 1;
        }
    }
}

impl AsteroidsGame {
    /// Seed one random asteroid: position anywhere on the playfield, base
    /// velocity up to fifty pixels per second scaled by `factor`
    /// thousandths, radius in the seeded range, and the given deformation
    /// state.
    fn spawn_seeded(&mut self, deformation: i64, deformation_vel: i64, factor: i64)
        requires
            forall|i: int| 0 <= i < old(self).asteroids@.len() ==> (#[trigger] old(
                self,
            ).asteroids@[i]).wf(),
            0 <= deformation <= 8_000,
            0 <= deformation_vel <= 6_000,
            1_000 <= factor <= 500_000_000_000,
        ensures
            final(self).asteroids@.len() == old(self).asteroids@.len() + 1,
            forall|j: int|
                0 <= j < old(self).asteroids@.len() ==> final(self).asteroids@[j] == old(
                    self,
                ).asteroids@[j],
            ({
                let a = final(self).asteroids@.last();
                &&& a.wf()
                &&& !a.is_destroyed
                &&& MIN_SEED_SIZE <= a.size < ASTEROID_SIZE
                &&& a.deformation == deformation
                &&& a.deformation_vel == deformation_vel
                &&& -seed_vel_bound(factor as int) <= a.vel.x <= seed_vel_bound(factor as int)
                &&& -seed_vel_bound(factor as int) <= a.vel.y <= seed_vel_bound(factor as int)
                &&& (factor == 1000 ==> -50_000 <= a.vel.x < 50_000 && -50_000 <= a.vel.y
                    < 50_000)
            }),
            *final(self) == (AsteroidsGame { asteroids: final(self).asteroids, ..*old(self) }),
    {
        let x: i64 = rand_range(0, WINDOW_WIDTH);
        let y: i64 = rand_range(0, WINDOW_HEIGHT);
        let bvx: i64 = rand_range(-50_000, 50_000);
        let bvy: i64 = rand_range(-50_000, 50_000);
        proof {
            assert(-25_000_000_000_000_000 <= bvx as int * factor <= 25_000_000_000_000_000
                && -25_000_000_000_000_000 <= bvy as int * factor <= 25_000_000_000_000_000)
                by (nonlinear_arith)
                requires
                    -50_000 <= bvx <= 50_000,
                    -50_000 <= bvy <= 50_000,
                    0 < factor <= 500_000_000_000,
            ;
        }
        proof {
            lemma_seed_scale_bounded(bvx as int, factor as int);
            lemma_seed_scale_bounded(bvy as int, factor as int);
        }
        let vx: i64 = clamp_i64(div_floor(bvx * factor, 1000), -VEL_LIMIT, VEL_LIMIT);
        let vy: i64 = clamp_i64(div_floor(bvy * factor, 1000), -VEL_LIMIT, VEL_LIMIT);
        let size: i64 = rand_range(MIN_SEED_SIZE, ASTEROID_SIZE);
        let mass: i64 = crate::entities::mass_for(size);
        proof {
            crate::entities::lemma_mass_of_bounds(size as int);
            vstd::arithmetic::div_mod::lemma_div_pos_is_pos(
                size as int * crate::config::MAX_DEFORMATION_MILLI,
                1000,
            );
            vstd::arithmetic::div_mod::lemma_div_is_ordered(
                12_000_000,
                size as int * crate::config::MAX_DEFORMATION_MILLI,
                1000,
            );
            assert(size as int * crate::config::MAX_DEFORMATION_MILLI >= 12_000_000)
                by (nonlinear_arith)
                requires
                    size >= 15_000,
                    crate::config::MAX_DEFORMATION_MILLI == 800,
            ;
        }
        self.asteroids.push(
            Asteroid {
                pos: Vec2 { x, y },
                vel: Vec2 { x: vx, y: vy },
                size,
                is_destroyed: false,
                mass,
                deformation,
                deformation_vel,
            },
        );
    }

    /// A fresh game: the player centered, still and facing right; empty
    /// bullet and particle populations; zeroed counters at level one; the
    /// fixed count of randomly seeded asteroids.
    pub fn new() -> (g: AsteroidsGame)
        ensures
            g.wf(),
            g.player_pos == (Vec2 { x: (WINDOW_WIDTH / 2) as i64, y: (WINDOW_HEIGHT / 2) as i64 }),
            g.player_vel == (Vec2 { x: 0i64, y: 0i64 }),
            g.player_angle == 0,
            g.bullets@.len() == 0,
            g.particles@.len() == 0,
            g.thruster_particles@.len() == 0,
            g.asteroids@.len() == ASTEROID_COUNT,
            !g.is_game_over,
            g.destroyed_count == 0,
            g.level == 1,
            g.score == 0,
            forall|i: int|
                0 <= i < g.asteroids@.len() ==> {
                    &&& (#[trigger] g.asteroids@[i]).wf()
                    &&& !g.asteroids@[i].is_destroyed
                    &&& MIN_SEED_SIZE <= g.asteroids@[i].size < ASTEROID_SIZE
                    &&& g.asteroids@[i].deformation == 4_000
                    &&& g.asteroids@[i].deformation_vel == 1_000
                    &&& -50_000 <= g.asteroids@[i].vel.x < 50_000
                    &&& -50_000 <= g.asteroids@[i].vel.y < 50_000
                },
    {
        let mut g = AsteroidsGame {
            player_pos: Vec2 { x: (WINDOW_WIDTH / 2) as i64, y: (WINDOW_HEIGHT / 2) as i64 },
            player_vel: Vec2 { x: 0, y: 0 },
            player_angle: 0,
            bullets: Vec::new(),
            asteroids: Vec::new(),
            is_game_over: false,
            destroyed_count: 0,
            particles: Vec::new(),
            level: 1,
            score: 0,
            thruster_particles: Vec::new(),
        };
        let mut k: usize = 0;
        while k < ASTEROID_COUNT
            invariant
                0 <= k <= ASTEROID_COUNT,
                g.asteroids@.len() == k,
                g == (AsteroidsGame {
                    player_pos: Vec2 { x: (WINDOW_WIDTH / 2) as i64, y: (WINDOW_HEIGHT / 2) as i64 },
                    player_vel: Vec2 { x: 0i64, y: 0i64 },
                    player_angle: 0i64,
                    bullets: g.bullets,
                    asteroids: g.asteroids,
                    is_game_over: false,
                    destroyed_count: 0u64,
                    particles: g.particles,
                    level: 1u32,
                    score: 0u64,
                    thruster_particles: g.thruster_particles,
                }),
                g.bullets@.len() == 0,
                g.particles@.len() == 0,
                g.thruster_particles@.len() == 0,
                forall|i: int|
                    0 <= i < g.asteroids@.len() ==> {
                        &&& (#[trigger] g.asteroids@[i]).wf()
                        &&& !g.asteroids@[i].is_destroyed
                        &&& MIN_SEED_SIZE <= g.asteroids@[i].size < ASTEROID_SIZE
                        &&& g.asteroids@[i].deformation == 4_000
                        &&& g.asteroids@[i].deformation_vel == 1_000
                        &&& -50_000 <= g.asteroids@[i].vel.x < 50_000
                        &&& -50_000 <= g.asteroids@[i].vel.y < 50_000
                    },
            decreases ASTEROID_COUNT - k,
        {
            let ghost pre = g.asteroids@;
            g.spawn_seeded(4_000, 1_000, 1_000);
            proof {
                assert forall|i: int| 0 <= i < g.asteroids@.len() implies {
                    &&& (#[trigger] g.asteroids@[i]).wf()
                    &&& !g.asteroids@[i].is_destroyed
                    &&& MIN_SEED_SIZE <= g.asteroids@[i].size < ASTEROID_SIZE
                    &&& g.asteroids@[i].deformation == 4_000
                    &&& g.asteroids@[i].deformation_vel == 1_000
                    &&& -50_000 <= g.asteroids@[i].vel.x < 50_000
                    &&& -50_000 <= g.asteroids@[i].vel.y < 50_000
                } by {
                    if i < pre.len() {
                        assert(g.asteroids@[i] == pre[i]);
                    }
                }
            }
            k = k + 1;
        }
        g
    }

    /// Back to initial conditions: the same reset and reseed a fresh game
    /// gets, with the restart deformation seed.
    pub fn restart_game(&mut self)
        ensures
            final(self).wf(),
            final(self).player_pos == (Vec2 { x: (WINDOW_WIDTH / 2) as i64, y: (WINDOW_HEIGHT / 2) as i64 }),
            final(self).player_vel == (Vec2 { x: 0i64, y: 0i64 }),
            final(self).player_angle == 0,
            final(self).bullets@.len() == 0,
            final(self).particles@.len() == 0,
            final(self).thruster_particles@.len() == 0,
            final(self).asteroids@.len() == ASTEROID_COUNT,
            !final(self).is_game_over,
            final(self).destroyed_count == 0,
            final(self).level == 1,
            final(self).score == 0,
            forall|i: int|
                0 <= i < final(self).asteroids@.len() ==> {
                    &&& (#[trigger] final(self).asteroids@[i]).wf()
                    &&& !final(self).asteroids@[i].is_destroyed
                    &&& MIN_SEED_SIZE <= final(self).asteroids@[i].size < ASTEROID_SIZE
                    &&& final(self).asteroids@[i].deformation == 2_000
                    &&& final(self).asteroids@[i].deformation_vel == 3_000
                    &&& -50_000 <= final(self).asteroids@[i].vel.x < 50_000
                    &&& -50_000 <= final(self).asteroids@[i].vel.y < 50_000
                },
    {
        self.player_pos = Vec2 { x: (WINDOW_WIDTH / 2) as i64, y: (WINDOW_HEIGHT / 2) as i64 };
        self.player_vel = Vec2 { x: 0, y: 0 };
        self.player_angle = 0;
        self.bullets = Vec::new();
        self.asteroids = Vec::new();
        self.particles = Vec::new();
        self.thruster_particles = Vec::new();
        self.is_game_over = false;
        self.destroyed_count = 0;
        self.level = 1;
        self.score = 0;
        let mut k: usize = 0;
        while k < ASTEROID_COUNT
            invariant
                0 <= k <= ASTEROID_COUNT,
                self.asteroids@.len() == k,
                self.player_pos == (Vec2 { x: (WINDOW_WIDTH / 2) as i64, y: (WINDOW_HEIGHT / 2) as i64 }),
                self.player_vel == (Vec2 { x: 0i64, y: 0i64 }),
                self.player_angle == 0,
                self.bullets@.len() == 0,
                self.particles@.len() == 0,
                self.thruster_particles@.len() == 0,
                !self.is_game_over,
                self.destroyed_count == 0,
                self.level == 1,
                self.score == 0,
                forall|i: int|
                    0 <= i < self.asteroids@.len() ==> {
                        &&& (#[trigger] self.asteroids@[i]).wf()
                        &&& !self.asteroids@[i].is_destroyed
                        &&& MIN_SEED_SIZE <= self.asteroids@[i].size < ASTEROID_SIZE
                        &&& self.asteroids@[i].deformation == 2_000
                        &&& self.asteroids@[i].deformation_vel == 3_000
                        &&& -50_000 <= self.asteroids@[i].vel.x < 50_000
                        &&& -50_000 <= self.asteroids@[i].vel.y < 50_000
                    },
            decreases ASTEROID_COUNT - k,
        {
            let ghost pre = self.asteroids@;
            self.spawn_seeded(2_000, 3_000, 1_000);
            proof {
                assert forall|i: int| 0 <= i < self.asteroids@.len() implies {
                    &&& (#[trigger] self.asteroids@[i]).wf()
                    &&& !self.asteroids@[i].is_destroyed
                    &&& MIN_SEED_SIZE <= self.asteroids@[i].size < ASTEROID_SIZE
                    &&& self.asteroids@[i].deformation == 2_000
                    &&& self.asteroids@[i].deformation_vel == 3_000
                    &&& -50_000 <= self.asteroids@[i].vel.x < 50_000
                    &&& -50_000 <= self.asteroids@[i].vel.y < 50_000
                } by {
                    if i < pre.len() {
                        assert(self.asteroids@[i] == pre[i]);
                    }
                }
            }
            k = k + 1;
        }
    }

    /// The restart command: effective only after a game over.
    pub fn restart(&mut self)
        ensures
            !old(self).is_game_over ==> *final(self) == *old(self),
            old(self).is_game_over ==> {
                &&& final(self).wf()
                &&& final(self).score == 0
                &&& final(self).level == 1
                &&& final(self).destroyed_count == 0
                &&& final(self).asteroids@.len() == ASTEROID_COUNT
                &&& !final(self).is_game_over
            },
    {
        if self.is_game_over {
            self.restart_game();
        }
    }

    /// Raise the difficulty: one more level, and as many freshly seeded
    /// asteroids as the new level, their speed scaled by one tenth per
    /// level.
    pub fn level_up(&mut self)
        requires
            forall|i: int| 0 <= i < old(self).asteroids@.len() ==> (#[trigger] old(
                self,
            ).asteroids@[i]).wf(),
        ensures
            final(self).level == sat32_spec(old(self).level + 1),
            final(self).asteroids@.len() == old(self).asteroids@.len() + final(self).level,
            forall|j: int|
                0 <= j < old(self).asteroids@.len() ==> final(self).asteroids@[j] == old(
                    self,
                ).asteroids@[j],
            forall|j: int|
                old(self).asteroids@.len() <= j < final(self).asteroids@.len() ==> {
                    &&& (#[trigger] final(self).asteroids@[j]).wf()
                    &&& !final(self).asteroids@[j].is_destroyed
                    &&& MIN_SEED_SIZE <= final(self).asteroids@[j].size < ASTEROID_SIZE
                    &&& final(self).asteroids@[j].deformation == 5_000
                    &&& final(self).asteroids@[j].deformation_vel == 6_000
                    &&& -seed_vel_bound(1000 + final(self).level * 100)
                        <= final(self).asteroids@[j].vel.x
                        <= seed_vel_bound(1000 + final(self).level * 100)
                    &&& -seed_vel_bound(1000 + final(self).level * 100)
                        <= final(self).asteroids@[j].vel.y
                        <= seed_vel_bound(1000 + final(self).level * 100)
                },
            *final(self) == (AsteroidsGame {
                asteroids: final(self).asteroids,
                level: final(self).level,
                ..*old(self)
            }),
    {
        self.level = crate::num::sat_add_u32(self.level, 1);
        let count: usize = self.level as usize;
        let factor: i64 = 1000 + (self.level as i64) * 100;
        let ghost base = self.asteroids@;
        let mut k: usize = 0;
        while k < count
            invariant
                0 <= k <= count,
                self.asteroids@.len() == base.len() + k,
                1_000 <= factor <= 500_000_000_000,
                forall|j: int| 0 <= j < base.len() ==> self.asteroids@[j] == base[j],
                factor == 1000 + (self.level as int) * 100,
                forall|j: int|
                    base.len() <= j < self.asteroids@.len() ==> {
                        &&& (#[trigger] self.asteroids@[j]).wf()
                        &&& !self.asteroids@[j].is_destroyed
                        &&& MIN_SEED_SIZE <= self.asteroids@[j].size < ASTEROID_SIZE
                        &&& self.asteroids@[j].deformation == 5_000
                        &&& self.asteroids@[j].deformation_vel == 6_000
                        &&& -seed_vel_bound(factor as int) <= self.asteroids@[j].vel.x
                            <= seed_vel_bound(factor as int)
                        &&& -seed_vel_bound(factor as int) <= self.asteroids@[j].vel.y
                            <= seed_vel_bound(factor as int)
                    },
                *old(self) == (AsteroidsGame {
                    asteroids: old(self).asteroids,
                    level: old(self).level,
                    ..*self
                }),
                base == old(self).asteroids@,
                forall|i: int| 0 <= i < base.len() ==> (#[trigger] base[i]).wf(),
                self.level == sat32_spec(old(self).level + 1),
            decreases count - k,
        {
            let ghost pre = self.asteroids@;
            proof {
                assert forall|i: int| 0 <= i < self.asteroids@.len() implies (#[trigger] self
                    .asteroids@[i]).wf() by {
                    if i < base.len() {
                        assert(self.asteroids@[i] == base[i]);
                    } else {
                        assert(self.asteroids@[i].wf() && !self.asteroids@[i].is_destroyed);
                    }
                }
            }
            self.spawn_seeded(5_000, 6_000, factor);
            proof {
                assert forall|j: int|
                    base.len() <= j < self.asteroids@.len() implies {
                        &&& (#[trigger] self.asteroids@[j]).wf()
                        &&& !self.asteroids@[j].is_destroyed
                        &&& MIN_SEED_SIZE <= self.asteroids@[j].size < ASTEROID_SIZE
                        &&& self.asteroids@[j].deformation == 5_000
                        &&& self.asteroids@[j].deformation_vel == 6_000
                        &&& -seed_vel_bound(factor as int) <= self.asteroids@[j].vel.x
                            <= seed_vel_bound(factor as int)
                        &&& -seed_vel_bound(factor as int) <= self.asteroids@[j].vel.y
                            <= seed_vel_bound(factor as int)
                    } by {
                    if j < pre.len() {
                        assert(self.asteroids@[j] == pre[j]);
                    }
                }
            }
            k = k + 1;
        }
    }
}

/// The player is struck when an asteroid is closer than the two radii
/// combined.
pub open spec fn player_hits(a: Asteroid, ppos: Vec2) -> bool {
    norm_spec(Vec2 { x: (ppos.x - a.pos.x) as i64, y: (ppos.y - a.pos.y) as i64 }) < a.size
        + PLAYER_SIZE
}

/// Whether any asteroid strikes the player.
pub open spec fn player_hit(s: Seq<Asteroid>, ppos: Vec2) -> bool {
    exists|i: int| 0 <= i < s.len() && player_hits(#[trigger] s[i], ppos)
}

/// A bullet strikes an asteroid when it is inside the asteroid's radius.
pub open spec fn bullet_hits(b: Bullet, a: Asteroid) -> bool {
    norm_spec(Vec2 { x: (b.pos.x - a.pos.x) as i64, y: (b.pos.y - a.pos.y) as i64 }) < a.size
}

/// One bullet swept over the first `j` asteroids: every live asteroid in
/// range is flagged destroyed, and the struck values are collected in
/// order. Later hits on an already-flagged asteroid are skipped.
pub open spec fn bullet_sweep(asts: Seq<Asteroid>, b: Bullet, j: int) -> (
    Seq<Asteroid>,
    Seq<Asteroid>,
)
    decreases j,
{
    if j <= 0 {
        (asts, Seq::empty())
    } else {
        let prev = bullet_sweep(asts, b, j - 1);
        let a = prev.0[j - 1];
        if !a.is_destroyed && bullet_hits(b, a) {
            (prev.0.update(j - 1, Asteroid { is_destroyed: true, ..a }), prev.1.push(a))
        } else {
            prev
        }
    }
}

/// The first `i` bullets swept in order: the evolving asteroid flags, the
/// per-bullet removal marks, and every kill in order.
pub open spec fn sweep_bullets(asts: Seq<Asteroid>, bs: Seq<Bullet>, i: int) -> (
    Seq<Asteroid>,
    Seq<bool>,
    Seq<Asteroid>,
)
    decreases i,
{
    if i <= 0 {
        (asts, Seq::empty(), Seq::empty())
    } else {
        let prev = sweep_bullets(asts, bs, i - 1);
        let sw = bullet_sweep(prev.0, bs[i - 1], prev.0.len() as int);
        (sw.0, prev.1.push(sw.1.len() > 0), prev.2 + sw.1)
    }
}

/// Points for one kill: one hundred pixels divided by the radius, floored,
/// times the level.
pub open spec fn points_for(size: int, level: int) -> int {
    100_000int / size * level
}

/// The score after a run of kills, each added with saturation in order.
pub open spec fn score_after(score: int, killed: Seq<Asteroid>, level: int) -> int
    decreases killed.len(),
{
    if killed.len() == 0 {
        score
    } else {
        sat64_spec(
            score_after(score, killed.drop_last(), level) + points_for(
                killed.last().size as int,
                level,
            ),
        )
    }
}

/// The fragments of a destroyed asteroid: above the fragmentation
/// threshold, two children at the parent's position with half the radius,
/// one flying opposite the parent, one along it, both freshly deformed;
/// at or below it, none.
pub open spec fn children_of(a: Asteroid) -> Seq<Asteroid> {
    if a.size > FRAGMENT_THRESHOLD {
        seq![
            Asteroid {
                pos: a.pos,
                vel: Vec2 { x: (-a.vel.x) as i64, y: (-a.vel.y) as i64 },
                size: (a.size / 2) as i64,
                is_destroyed: false,
                mass: crate::entities::mass_of(a.size as int / 2) as i64,
                deformation: 8_000i64,
                deformation_vel: 1_000i64,
            },
            Asteroid {
                pos: a.pos,
                vel: a.vel,
                size: (a.size / 2) as i64,
                is_destroyed: false,
                mass: crate::entities::mass_of(a.size as int / 2) as i64,
                deformation: 8_000i64,
                deformation_vel: 1_000i64,
            },
        ]
    } else {
        Seq::empty()
    }
}

/// The fragments of a run of kills, in kill order.
pub open spec fn children_all(killed: Seq<Asteroid>) -> Seq<Asteroid>
    decreases killed.len(),
{
    if killed.len() == 0 {
        Seq::empty()
    } else {
        children_all(killed.drop_last()) + children_of(killed.last())
    }
}

/// The asteroids that survive the mark pass, in order.
pub open spec fn survivors(s: Seq<Asteroid>, i: int) -> Seq<Asteroid> {
    stepped_kept(s, |a: Asteroid| a, |a: Asteroid| !a.is_destroyed, i)
}

/// The bullets whose removal mark is clear, in order.
pub open spec fn keep_unmarked(bs: Seq<Bullet>, marks: Seq<bool>, i: int) -> Seq<Bullet>
    decreases i,
{
    if i <= 0 {
        Seq::empty()
    } else {
        let rest = keep_unmarked(bs, marks, i - 1);
        if marks[i - 1] {
            rest
        } else {
            rest.push(bs[i - 1])
        }
    }
}

/// Fragments of a live asteroid above the threshold are well-formed.
proof fn lemma_children_wf(a: Asteroid)
    requires
        a.wf(),
        a.size > FRAGMENT_THRESHOLD,
    ensures
        children_of(a).len() == 2,
        children_of(a)[0].wf(),
        children_of(a)[1].wf(),
        !children_of(a)[0].is_destroyed,
        !children_of(a)[1].is_destroyed,
{
    let h = a.size as int / 2;
    assert(10_000 <= h <= 20_000);
    crate::entities::lemma_mass_of_bounds(h);
    assert(h * crate::config::MAX_DEFORMATION_MILLI >= 8_000_000) by (nonlinear_arith)
        requires
            h >= 10_000,
            crate::config::MAX_DEFORMATION_MILLI == 800,
    ;
    vstd::arithmetic::div_mod::lemma_div_is_ordered(
        8_000_000,
        h * crate::config::MAX_DEFORMATION_MILLI,
        1000,
    );
}

impl AsteroidsGame {
    /// The full collision and fragmentation pass. A player strike ends the
    /// game at once with one large burst and nothing else resolved.
    /// Otherwise every bullet sweeps the asteroid flags in order; kills
    /// award points and count toward the level; struck bullets leave;
    /// survivors keep their order and fragments are appended; one burst is
    /// queued per kill; and the level rises when the kill count crossed
    /// its threshold during a pass with at least one kill.
    pub fn check_collisions(&mut self)
        requires
            old(self).wf(),
        ensures
            final(self).wf(),
            player_hit(old(self).asteroids@, old(self).player_pos) ==> ({
                &&& final(self).is_game_over
                &&& final(self).particles@.len() == old(self).particles@.len()
                    + PLAYER_EXPLOSION_COUNT
                &&& forall|j: int|
                    0 <= j < old(self).particles@.len() ==> final(self).particles@[j] == old(
                        self,
                    ).particles@[j]
                &&& forall|k: int|
                    old(self).particles@.len() <= k < final(self).particles@.len() ==> {
                        let p = #[trigger] final(self).particles@[k];
                        &&& p.pos == old(self).player_pos
                        &&& p.life == PARTICLE_LIFETIME
                        &&& p.color == (Rgba { r: 255, g: 0, b: 0, a: 255 })
                    }
                &&& *final(self) == (AsteroidsGame {
                    is_game_over: true,
                    particles: final(self).particles,
                    ..*old(self)
                })
            }),
            !player_hit(old(self).asteroids@, old(self).player_pos) ==> ({
                let sw = sweep_bullets(
                    old(self).asteroids@,
                    old(self).bullets@,
                    old(self).bullets@.len() as int,
                );
                let killed = sw.2;
                let lvl_up = killed.len() > 0 && sat64_spec(
                    old(self).destroyed_count + killed.len(),
                ) >= LEVEL_UP_THRESHOLD * old(self).level;
                let newasts = survivors(sw.0, sw.0.len() as int) + children_all(killed);
                &&& final(self).is_game_over == old(self).is_game_over
                &&& final(self).bullets@ == keep_unmarked(
                    old(self).bullets@,
                    sw.1,
                    old(self).bullets@.len() as int,
                )
                &&& final(self).destroyed_count == sat64_spec(
                    old(self).destroyed_count + killed.len(),
                )
                &&& final(self).score == score_after(
                    old(self).score as int,
                    killed,
                    old(self).level as int,
                )
                &&& final(self).level == (if lvl_up {
                    sat32_spec(old(self).level + 1)
                } else {
                    old(self).level as int
                })
                &&& final(self).asteroids@.len() == newasts.len() + (if lvl_up {
                    final(self).level as int
                } else {
                    0
                })
                &&& forall|j: int| 0 <= j < newasts.len() ==> final(self).asteroids@[j] == newasts[j]
                &&& forall|j: int|
                    0 <= j < final(self).asteroids@.len()
                        ==> !(#[trigger] final(self).asteroids@[j]).is_destroyed
                &&& final(self).particles@.len() == old(self).particles@.len() + killed.len() * (
                ASTEROID_EXPLOSION_COUNT as int)
                &&& forall|j: int|
                    0 <= j < old(self).particles@.len() ==> final(self).particles@[j] == old(
                        self,
                    ).particles@[j]
                &&& forall|k: int|
                    old(self).particles@.len() <= k < final(self).particles@.len() ==> {
                        let p = #[trigger] final(self).particles@[k];
                        &&& p.life == PARTICLE_LIFETIME
                        &&& p.color == (Rgba { r: 0, g: 255, b: 0, a: 255 })
                        &&& p.pos == killed[(k - old(self).particles@.len()) / (
                        ASTEROID_EXPLOSION_COUNT as int)].pos
                    }
                &&& *final(self) == (AsteroidsGame {
                    bullets: final(self).bullets,
                    asteroids: final(self).asteroids,
                    particles: final(self).particles,
                    destroyed_count: final(self).destroyed_count,
                    score: final(self).score,
                    level: final(self).level,
                    ..*old(self)
                })
            }),
    {
        let ghost s0 = self.asteroids@;
        let ghost bs0 = self.bullets@;
        let ghost d0 = self.destroyed_count;
        let ghost sc0 = self.score;
        let ghost lvl0 = self.level;
        let n: usize = self.asteroids.len();
        let mut i: usize = 0;
        while i < n
            invariant
                *self == *old(self),
                self.wf(),
                n == s0.len(),
                s0 == self.asteroids@,
                0 <= i <= n,
                forall|t: int| 0 <= t < i ==> !player_hits(#[trigger] s0[t], self.player_pos),
            decreases n - i,
        {
            let a: Asteroid = self.asteroids[i];
            let dd: i64 = norm(
                Vec2 { x: self.player_pos.x - a.pos.x, y: self.player_pos.y - a.pos.y },
            );
            if dd < a.size + PLAYER_SIZE {
                self.is_game_over = true;
                let ghost p0 = self.particles@;
                self.generate_explosion(
                    self.player_pos,
                    PLAYER_EXPLOSION_COUNT,
                    Rgba { r: 255, g: 0, b: 0, a: 255 },
                );
                proof {
                    assert(player_hits(s0[i as int], old(self).player_pos));
                    assert(player_hit(s0, old(self).player_pos));
                    assert forall|j: int| 0 <= j < self.particles@.len() implies (#[trigger] self
                        .particles@[j]).wf() by {
                        if j < p0.len() {
                            assert(self.particles@[j] == p0[j]);
                        }
                    }
                }
                return ;
            }
            i = i + 1;
        }
        let nb: usize = self.bullets.len();
        let mut removed: Vec<bool> = Vec::new();
        let mut bursts: Vec<Vec2> = Vec::new();
        let mut fragments: Vec<Asteroid> = Vec::new();
        let ghost mut killed: Seq<Asteroid> = Seq::empty();
        let mut should_level_up: bool = false;
        let mut bi: usize = 0;
        while bi < nb
            invariant
                0 <= bi <= nb,
                nb == bs0.len(),
                n == s0.len(),
                self.asteroids@.len() == n,
                self.bullets@ == bs0,
                self.asteroids@ == sweep_bullets(s0, bs0, bi as int).0,
                removed@ == sweep_bullets(s0, bs0, bi as int).1,
                removed@.len() == bi as int,
                killed == sweep_bullets(s0, bs0, bi as int).2,
                bursts@.len() == killed.len(),
                forall|t: int| 0 <= t < killed.len() ==> bursts@[t] == (#[trigger] killed[t]).pos,
                fragments@ == children_all(killed),
                forall|t: int| 0 <= t < fragments@.len() ==> (#[trigger] fragments@[t]).wf()
                    && !fragments@[t].is_destroyed,
                forall|t: int| 0 <= t < killed.len() ==> (#[trigger] killed[t]).wf(),
                self.destroyed_count == sat64_spec(d0 + killed.len()),
                self.score == score_after(sc0 as int, killed, lvl0 as int),
                should_level_up == (killed.len() > 0 && self.destroyed_count >= LEVEL_UP_THRESHOLD
                    * lvl0),
                forall|t: int| 0 <= t < self.asteroids@.len() ==> (#[trigger] self
                    .asteroids@[t]).wf(),
                forall|t: int| 0 <= t < bs0.len() ==> (#[trigger] bs0[t]).wf(),
                *old(self) == (AsteroidsGame {
                    asteroids: old(self).asteroids,
                    destroyed_count: old(self).destroyed_count,
                    score: old(self).score,
                    ..*self
                }),
                lvl0 == self.level,
                d0 == old(self).destroyed_count,
                sc0 == old(self).score,
                s0 == old(self).asteroids@,
                bs0 == old(self).bullets@,
                self.level >= 1,
            decreases nb - bi,
        {
            let b: Bullet = self.bullets[bi];
            let ghost astart = self.asteroids@;
            let ghost kstart = killed;
            let mut hit: bool = false;
            let mut ai: usize = 0;
            while ai < n
                invariant
                    0 <= ai <= n,
                    n == s0.len(),
                    self.asteroids@.len() == n,
                    astart.len() == n,
                    b.wf(),
                    self.asteroids@ == bullet_sweep(astart, b, ai as int).0,
                    killed == kstart + bullet_sweep(astart, b, ai as int).1,
                    hit == (bullet_sweep(astart, b, ai as int).1.len() > 0),
                    bursts@.len() == killed.len(),
                    forall|t: int| 0 <= t < killed.len() ==> bursts@[t] == (
                    #[trigger] killed[t]).pos,
                    fragments@ == children_all(killed),
                    forall|t: int| 0 <= t < fragments@.len() ==> (#[trigger] fragments@[t]).wf()
                        && !fragments@[t].is_destroyed,
                    forall|t: int| 0 <= t < killed.len() ==> (#[trigger] killed[t]).wf(),
                    self.destroyed_count == sat64_spec(d0 + killed.len()),
                    self.score == score_after(sc0 as int, killed, lvl0 as int),
                    should_level_up == (killed.len() > 0 && self.destroyed_count
                        >= LEVEL_UP_THRESHOLD * lvl0),
                    forall|t: int| 0 <= t < self.asteroids@.len() ==> (#[trigger] self
                        .asteroids@[t]).wf(),
                    *old(self) == (AsteroidsGame {
                        asteroids: old(self).asteroids,
                        destroyed_count: old(self).destroyed_count,
                        score: old(self).score,
                        ..*self
                    }),
                    lvl0 == self.level,
                    self.level >= 1,
                decreases n - ai,
            {
                let a: Asteroid = self.asteroids[ai];
                if !a.is_destroyed {
                    let dd: i64 = norm(Vec2 { x: b.pos.x - a.pos.x, y: b.pos.y - a.pos.y });
                    if dd < a.size {
                        hit = true;
                        self.asteroids[ai] = Asteroid { is_destroyed: true, ..a };
                        self.destroyed_count = crate::num::sat_add_u64(self.destroyed_count, 1);
                        proof {
                            vstd::arithmetic::div_mod::lemma_div_pos_is_pos(100_000, a.size as int);
                            vstd::arithmetic::div_mod::lemma_div_is_ordered_by_denominator(
                                100_000,
                                10_000,
                                a.size as int,
                            );
                        }
                        let q: i64 = 100_000 / a.size;
                        proof {
                            assert(0 <= q as int * (self.level as int) <= 42_949_672_950)
                                by (nonlinear_arith)
                                requires
                                    0 <= q <= 10,
                                    1 <= self.level <= 4_294_967_295,
                            ;
                        }
                        let points: u64 = (q as u64) * (self.level as u64);
                        self.score = crate::num::sat_add_u64(self.score, points);
                        bursts.push(a.pos);
                        proof {
                            killed = killed.push(a);
                            assert(killed.drop_last() =~= kstart + bullet_sweep(
                                astart,
                                b,
                                ai as int,
                            ).1);
                            assert(score_after(sc0 as int, killed, lvl0 as int) == sat64_spec(
                                score_after(sc0 as int, killed.drop_last(), lvl0 as int)
                                    + points_for(a.size as int, lvl0 as int),
                            ));
                        }
                        if a.size > FRAGMENT_THRESHOLD {
                            proof {
                                lemma_children_wf(a);
                            }
                            let half: i64 = a.size / 2;
                            let m: i64 = crate::entities::mass_for(half);
                            fragments.push(
                                Asteroid {
                                    pos: a.pos,
                                    vel: Vec2 { x: -a.vel.x, y: -a.vel.y },
                                    size: half,
                                    is_destroyed: false,
                                    mass: m,
                                    deformation: 8_000,
                                    deformation_vel: 1_000,
                                },
                            );
                            fragments.push(
                                Asteroid {
                                    pos: a.pos,
                                    vel: a.vel,
                                    size: half,
                                    is_destroyed: false,
                                    mass: m,
                                    deformation: 8_000,
                                    deformation_vel: 1_000,
                                },
                            );
                            proof {
                                assert(fragments@ =~= children_all(killed.drop_last())
                                    + children_of(a));
                                assert(fragments@ =~= children_all(killed));
                            }
                        } else {
                            proof {
                                assert(fragments@ =~= children_all(killed.drop_last())
                                    + children_of(a));
                                assert(fragments@ =~= children_all(killed));
                            }
                        }
                        proof {
                            assert(LEVEL_UP_THRESHOLD as int * (lvl0 as int) <= 42_949_672_950)
                                by (nonlinear_arith)
                                requires
                                    LEVEL_UP_THRESHOLD == 10,
                                    1 <= lvl0 <= 4_294_967_295,
                            ;
                        }
                        if self.destroyed_count >= LEVEL_UP_THRESHOLD * (self.level as u64) {
                            should_level_up = true;
                        }
                    }
                }
                ai = ai + 1;
            }
            removed.push(hit);
            bi = bi + 1;
        }
        let mut kept: Vec<Bullet> = Vec::new();
        let mut t: usize = 0;
        while t < nb
            invariant
                0 <= t <= nb,
                nb == bs0.len(),
                self.bullets@ == bs0,
                removed@ == sweep_bullets(s0, bs0, nb as int).1,
                removed@.len() == nb,
                kept@ == keep_unmarked(bs0, removed@, t as int),
                forall|u: int| 0 <= u < kept@.len() ==> (#[trigger] kept@[u]).wf(),
                forall|u: int| 0 <= u < bs0.len() ==> (#[trigger] bs0[u]).wf(),
            decreases nb - t,
        {
            if !removed[t] {
                let b: Bullet = self.bullets[t];
                kept.push(b);
            }
            t = t + 1;
        }
        self.bullets = kept;
        let ghost swept = self.asteroids@;
        let mut surv: Vec<Asteroid> = Vec::new();
        let mut t: usize = 0;
        while t < n
            invariant
                0 <= t <= n,
                n == swept.len(),
                swept == self.asteroids@,
                surv@ == survivors(swept, t as int),
                forall|u: int| 0 <= u < surv@.len() ==> (#[trigger] surv@[u]).wf(),
                forall|u: int| 0 <= u < surv@.len() ==> !(#[trigger] surv@[u]).is_destroyed,
                forall|u: int| 0 <= u < swept.len() ==> (#[trigger] swept[u]).wf(),
            decreases n - t,
        {
            let a: Asteroid = self.asteroids[t];
            if !a.is_destroyed {
                surv.push(a);
            }
            t = t + 1;
        }
        let ghost sv = surv@;
        let ghost fg = fragments@;
        surv.append(&mut fragments);
        self.asteroids = surv;
        proof {
            assert forall|u: int|
                0 <= u < self.asteroids@.len() implies (#[trigger] self.asteroids@[u]).wf()
                    && !self.asteroids@[u].is_destroyed by {
                if u < sv.len() {
                    assert(self.asteroids@[u] == sv[u]);
                } else {
                    assert(self.asteroids@[u] == fg[u - sv.len()]);
                }
            }
        }
        let ghost pbase = self.particles@;
        let ghost gpre = *self;
        let nburst: usize = bursts.len();
        let mut t: usize = 0;
        while t < nburst
            invariant
                0 <= t <= nburst,
                nburst == killed.len(),
                bursts@.len() == killed.len(),
                forall|u: int| 0 <= u < killed.len() ==> bursts@[u] == (#[trigger] killed[u]).pos,
                forall|u: int| 0 <= u < killed.len() ==> (#[trigger] killed[u]).wf(),
                self.particles@.len() == pbase.len() + t * (ASTEROID_EXPLOSION_COUNT as int),
                forall|j: int| 0 <= j < pbase.len() ==> self.particles@[j] == pbase[j],
                forall|j: int| 0 <= j < pbase.len() ==> (#[trigger] pbase[j]).wf(),
                forall|k: int|
                    pbase.len() <= k < self.particles@.len() ==> {
                        let p = #[trigger] self.particles@[k];
                        &&& p.wf()
                        &&& p.life == PARTICLE_LIFETIME
                        &&& p.color == (Rgba { r: 0, g: 255, b: 0, a: 255 })
                        &&& p.pos == killed[(k - pbase.len()) / (ASTEROID_EXPLOSION_COUNT as int)].pos
                    },
                gpre == (AsteroidsGame { particles: gpre.particles, ..*self }),
            decreases nburst - t,
        {
            let pos: Vec2 = bursts[t];
            let ghost pre = self.particles@;
            proof {
                assert(bursts@[t as int] == killed[t as int].pos && (killed[t as int]).wf());
                assert forall|j: int| 0 <= j < self.particles@.len() implies (#[trigger] self
                    .particles@[j]).wf() by {
                    if j < pbase.len() {
                        assert(self.particles@[j] == pbase[j]);
                    } else {
                        assert(self.particles@[j].wf());
                    }
                }
            }
            self.generate_explosion(
                pos,
                ASTEROID_EXPLOSION_COUNT,
                Rgba { r: 0, g: 255, b: 0, a: 255 },
            );
            proof {
                assert forall|k: int|
                    pbase.len() <= k < self.particles@.len() implies {
                        let p = #[trigger] self.particles@[k];
                        &&& p.wf()
                        &&& p.life == PARTICLE_LIFETIME
                        &&& p.color == (Rgba { r: 0, g: 255, b: 0, a: 255 })
                        &&& p.pos == killed[(k - pbase.len()) / (ASTEROID_EXPLOSION_COUNT as int)].pos
                    } by {
                    if k < pre.len() {
                        assert(self.particles@[k] == pre[k]);
                    } else {
                        assert((k - pbase.len()) / (ASTEROID_EXPLOSION_COUNT as int) == t as int);
                    }
                }
            }
            t = t + 1;
        }
        proof {
            assert forall|j: int| 0 <= j < self.particles@.len() implies (#[trigger] self
                .particles@[j]).wf() by {
                if j < pbase.len() {
                    assert(self.particles@[j] == pbase[j]);
                } else {
                    assert(self.particles@[j].life == PARTICLE_LIFETIME);
                }
            }
        }
        if should_level_up {
            let ghost abase = self.asteroids@;
            self.level_up();
            proof {
                assert forall|u: int|
                    0 <= u < self.asteroids@.len() implies (#[trigger] self
                        .asteroids@[u]).wf() && !self.asteroids@[u].is_destroyed by {
                    if u < abase.len() {
                        assert(self.asteroids@[u] == abase[u]);
                    } else {
                        assert(self.asteroids@[u].wf() && !self.asteroids@[u].is_destroyed);
                    }
                }
            }
        }
    }

    /// One frame: no motion after a game over; otherwise the player pass,
    /// the bullet pass, the asteroid pass with its collisions, the debris
    /// pass, and the full collision and fragmentation resolution.
    pub fn update(&mut self, dt: i64)
        requires
            old(self).wf(),
            0 <= dt <= DT_MAX,
        ensures
            final(self).wf(),
            old(self).is_game_over ==> *final(self) == *old(self),
            !old(self).is_game_over ==> ({
                &&& final(self).player_pos == player_after(*old(self), dt as int).0
                &&& final(self).player_vel == player_after(*old(self), dt as int).1
                &&& final(self).player_angle == old(self).player_angle
            }),
            !old(self).is_game_over ==> ({
                let a1 = crate::collide::resolved(
                    crate::collide::integrate_all(old(self).asteroids@, dt as int),
                );
                let b1 = bullets_after(
                    old(self).bullets@,
                    dt as int,
                    old(self).bullets@.len() as int,
                );
                let hit = player_hit(a1, player_after(*old(self), dt as int).0);
                &&& (hit ==> ({
                    &&& final(self).is_game_over
                    &&& final(self).asteroids@ == a1
                    &&& final(self).bullets@ == b1
                    &&& final(self).score == old(self).score
                    &&& final(self).level == old(self).level
                    &&& final(self).destroyed_count == old(self).destroyed_count
                }))
                &&& (!hit ==> ({
                    let sw = sweep_bullets(a1, b1, b1.len() as int);
                    let killed = sw.2;
                    let lvl_up = killed.len() > 0 && sat64_spec(
                        old(self).destroyed_count + killed.len(),
                    ) >= LEVEL_UP_THRESHOLD * old(self).level;
                    let newasts = survivors(sw.0, sw.0.len() as int) + children_all(killed);
                    let p1 = particles_after(
                        old(self).particles@,
                        dt as int,
                        old(self).particles@.len() as int,
                    );
                    &&& !final(self).is_game_over
                    &&& final(self).bullets@ == keep_unmarked(b1, sw.1, b1.len() as int)
                    &&& final(self).destroyed_count == sat64_spec(
                        old(self).destroyed_count + killed.len(),
                    )
                    &&& final(self).score == score_after(
                        old(self).score as int,
                        killed,
                        old(self).level as int,
                    )
                    &&& final(self).level == (if lvl_up {
                        sat32_spec(old(self).level + 1)
                    } else {
                        old(self).level as int
                    })
                    &&& final(self).asteroids@.len() == newasts.len() + (if lvl_up {
                        final(self).level as int
                    } else {
                        0
                    })
                    &&& forall|j: int|
                        0 <= j < newasts.len() ==> final(self).asteroids@[j] == newasts[j]
                    &&& forall|j: int|
                        0 <= j < final(self).asteroids@.len()
                            ==> !(#[trigger] final(self).asteroids@[j]).is_destroyed
                    &&& final(self).particles@.len() == p1.len() + killed.len() * (
                    ASTEROID_EXPLOSION_COUNT as int)
                    &&& forall|j: int| 0 <= j < p1.len() ==> final(self).particles@[j] == p1[j]
                    &&& forall|k: int|
                        p1.len() <= k < final(self).particles@.len() ==> {
                            let p = #[trigger] final(self).particles@[k];
                            &&& p.life == PARTICLE_LIFETIME
                            &&& p.color == (Rgba { r: 0, g: 255, b: 0, a: 255 })
                            &&& p.pos == killed[(k - p1.len()) / (
                            ASTEROID_EXPLOSION_COUNT as int)].pos
                        }
                }))
            }),
    {
        if self.is_game_over {
            return ;
        }
        self.update_player(dt);
        self.update_bullets(dt);
        self.update_asteroids(dt);
        self.update_particles(dt);
        self.check_collisions();
    }
}

/// A `u32` sum that sticks at the largest representable value.
pub open spec fn sat32_spec(x: int) -> int {
    if x > u32::MAX {
        u32::MAX as int
    } else {
        x
    }
}

/// A `u64` sum that sticks at the largest representable value.
pub open spec fn sat64_spec(x: int) -> int {
    if x > u64::MAX {
        u64::MAX as int
    } else {
        x
    }
}

/// The clamped acceleration asteroid `k` receives from the whole
/// population.
pub open spec fn accel_of(s: Seq<Asteroid>, k: int) -> (i64, i64) {
    let tot = crate::collide::asteroid_gravity_upto(s, k, s.len() as int);
    (
        crate::num::clamp_spec(
            tot.0,
            -crate::config::MAX_ACCELERATION as int,
            crate::config::MAX_ACCELERATION as int,
        ) as i64,
        crate::num::clamp_spec(
            tot.1,
            -crate::config::MAX_ACCELERATION as int,
            crate::config::MAX_ACCELERATION as int,
        ) as i64,
    )
}

/// The summed pull of the first `i` asteroids on the player.
pub open spec fn player_gravity_upto(s: Seq<Asteroid>, ppos: Vec2, i: int) -> (int, int)
    decreases i,
{
    if i <= 0 {
        (0, 0)
    } else {
        let prev = player_gravity_upto(s, ppos, i - 1);
        let t = crate::physics::gravity_term_spec(
            crate::config::PLAYER_MASS as int,
            s[i - 1].mass as int,
            ppos,
            s[i - 1].pos,
        );
        (prev.0 + t.0, prev.1 + t.1)
    }
}

/// Where the player ends one pass: total gravity, saturated and turned
/// into a velocity change, the speed clamp, the Euler move with wrap, and
/// the friction decay, as `(position, velocity)`.
pub open spec fn player_after(g: AsteroidsGame, dt: int) -> (Vec2, Vec2) {
    let tot = player_gravity_upto(g.asteroids@, g.player_pos, g.asteroids@.len() as int);
    let dvx = crate::num::clamp_spec(
        crate::num::clamp_spec(
            tot.0,
            -crate::config::FORCE_LIMIT as int,
            crate::config::FORCE_LIMIT as int,
        ) * dt / 100,
        -VEL_LIMIT as int,
        VEL_LIMIT as int,
    );
    let dvy = crate::num::clamp_spec(
        crate::num::clamp_spec(
            tot.1,
            -crate::config::FORCE_LIMIT as int,
            crate::config::FORCE_LIMIT as int,
        ) * dt / 100,
        -VEL_LIMIT as int,
        VEL_LIMIT as int,
    );
    let v1 = clamp_speed_spec(
        Vec2 { x: (g.player_vel.x + dvx) as i64, y: (g.player_vel.y + dvy) as i64 },
        MAX_SPEED as int,
    );
    let px = (g.player_pos.x + v1.x * dt / 1000) % (WINDOW_WIDTH as int);
    let py = (g.player_pos.y + v1.y * dt / 1000) % (WINDOW_HEIGHT as int);
    (
        Vec2 { x: px as i64, y: py as i64 },
        Vec2 { x: (v1.x * 99 / 100) as i64, y: (v1.y * 99 / 100) as i64 },
    )
}

/// One exhaust step: the Euler move, then the recolor by the fresh age
/// fraction `1 − life / initial_life`, in thousandths.
pub open spec fn thruster_step(p: ThrusterParticle, dt: int) -> ThrusterParticle {
    let moved = particle_step(p.pos, p.vel, p.life as int, dt);
    let t = 1000 - moved.1 * 1000 / (p.initial_life as int);
    ThrusterParticle {
        pos: moved.0,
        vel: p.vel,
        color: flame_color_spec(t),
        life: moved.1 as i64,
        initial_life: p.initial_life,
    }
}

/// An exhaust particle stays only while life remains.
pub open spec fn thruster_alive(p: ThrusterParticle) -> bool {
    p.life > 0
}

/// The exhaust population after one pass.
pub open spec fn thrusters_after(s: Seq<ThrusterParticle>, dt: int, i: int) -> Seq<
    ThrusterParticle,
> {
    stepped_kept(s, |p: ThrusterParticle| thruster_step(p, dt), |p: ThrusterParticle|
        thruster_alive(p), i)
}

/// A burst velocity: the drawn direction, in milliradians, scaled by the
/// drawn speed.
pub open spec fn burst_vel_of(ang: int, sp: int) -> Vec2 {
    Vec2 {
        x: (cos_milli_spec(ang) * sp / 1000) as i64,
        y: (sin_milli_spec(ang) * sp / 1000) as i64,
    }
}

/// An exhaust velocity: the reversed facing direction jittered by `jit`
/// milliradians, scaled by the emission speed `sp`.
pub open spec fn exhaust_vel_of(angle: int, jit: int, sp: int) -> Vec2 {
    let a = (angle + PI_MRAD + jit) % (TAU_MRAD as int);
    Vec2 {
        x: (cos_milli_spec(a) * sp / 1000) as i64,
        y: (sin_milli_spec(a) * sp / 1000) as i64,
    }
}

/// Where exhaust appears: one player radius behind the nose.
pub open spec fn exhaust_origin(pos: Vec2, angle: int) -> Vec2 {
    Vec2 {
        x: (pos.x - cos_milli_spec(angle) * (PLAYER_SIZE / 1000)) as i64,
        y: (pos.y - sin_milli_spec(angle) * (PLAYER_SIZE / 1000)) as i64,
    }
}

/// The exhaust population with its cap enforced: when over the cap, the
/// front — the oldest-inserted particles — is evicted first.
pub open spec fn capped_thrusters(s: Seq<ThrusterParticle>) -> Seq<ThrusterParticle> {
    if s.len() <= MAX_THRUSTER_PARTICLES {
        s
    } else {
        s.skip(s.len() - MAX_THRUSTER_PARTICLES)
    }
}

/// How many exhaust particles the inverse-speed burst rule emits: ten per
/// whole inverse-speed tenth, at least one.
pub open spec fn burst_spawn_count(vel: Vec2) -> int {
    let inv = 1000 - norm_spec(vel) / 200;
    let q = inv / 100;
    if q < 1 {
        1
    } else {
        q
    }
}

/// The burst rule's scale factor, `1 + inverse-speed fraction` in
/// thousandths: slower flight makes faster, longer-lived exhaust.
pub open spec fn burst_factor(vel: Vec2) -> int {
    2000 - norm_spec(vel) / 200
}

/// A base draw scaled by a factor in thousandths.
pub open spec fn scaled_milli(base: int, factor: int) -> int {
    base * factor / 1000
}

/// How many exhaust particles the speed-keyed rule emits: one per ten
/// pixels of speed, at most five.
pub open spec fn speed_spawn_count(vel: Vec2) -> int {
    let q = norm_spec(vel) / 10_000;
    if q > 5 {
        5
    } else {
        q
    }
}

/// A direction component in thousandths scaled by a speed stays within
/// that speed.
proof fn lemma_dir_component_bounded(c: int, sp: int)
    requires
        -1000 <= c <= 1000,
        0 <= sp <= 1_000_000,
    ensures
        -sp <= c * sp / 1000 <= sp,
        -1_000_000_000 <= c * sp,
        c * sp <= 1_000_000_000,
{
    assert(1000 * (-sp) <= c * sp <= 1000 * sp && -1_000_000_000 <= c * sp <= 1_000_000_000)
        by (nonlinear_arith)
        requires
            -1000 <= c <= 1000,
            0 <= sp <= 1_000_000,
    ;
    vstd::arithmetic::div_mod::lemma_div_is_ordered(1000 * (-sp), c * sp, 1000);
    vstd::arithmetic::div_mod::lemma_div_is_ordered(c * sp, 1000 * sp, 1000);
    vstd::arithmetic::div_mod::lemma_div_multiples_vanish(sp, 1000);
    vstd::arithmetic::div_mod::lemma_div_multiples_vanish(-sp, 1000);
}

/// The largest velocity component a seeded asteroid can carry: the fifty
/// pixels-per-second base draw scaled by `factor` thousandths, saturated
/// at the velocity guard.
pub open spec fn seed_vel_bound(factor: int) -> int {
    if 50 * factor > VEL_LIMIT {
        VEL_LIMIT as int
    } else {
        50 * factor
    }
}

/// The scaled seed draw stays within `seed_vel_bound`, and an unscaled
/// draw passes through exactly.
proof fn lemma_seed_scale_bounded(bv: int, factor: int)
    requires
        -50_000 <= bv < 50_000,
        1_000 <= factor <= 500_000_000_000,
    ensures
        -seed_vel_bound(factor) <= crate::num::clamp_spec(
            bv * factor / 1000,
            -VEL_LIMIT as int,
            VEL_LIMIT as int,
        ) <= seed_vel_bound(factor),
        factor == 1000 ==> crate::num::clamp_spec(
            bv * factor / 1000,
            -VEL_LIMIT as int,
            VEL_LIMIT as int,
        ) == bv,
{
    assert(1000 * (-50 * factor) <= bv * factor <= 1000 * (50 * factor)) by (nonlinear_arith)
        requires
            -50_000 <= bv < 50_000,
            0 < factor,
    ;
    vstd::arithmetic::div_mod::lemma_div_is_ordered(1000 * (-50 * factor), bv * factor, 1000);
    vstd::arithmetic::div_mod::lemma_div_is_ordered(bv * factor, 1000 * (50 * factor), 1000);
    vstd::arithmetic::div_mod::lemma_div_multiples_vanish(50 * factor, 1000);
    vstd::arithmetic::div_mod::lemma_div_multiples_vanish(-50 * factor, 1000);
    if factor == 1000 {
        assert(bv * factor == 1000 * bv) by (nonlinear_arith)
            requires
                factor == 1000,
        ;
        vstd::arithmetic::div_mod::lemma_div_multiples_vanish(bv, 1000);
    }
}

/// The bullet the player fires: muzzle position, velocity along the
/// facing direction at full bullet speed.
pub open spec fn bullet_of(pos: Vec2, angle: int) -> Bullet {
    Bullet {
        pos,
        vel: Vec2 {
            x: (cos_milli_spec(angle) * (BULLET_SPEED / 1000)) as i64,
            y: (sin_milli_spec(angle) * (BULLET_SPEED / 1000)) as i64,
        },
    }
}

/// The player's velocity right after one thrust impulse, before the clamp.
pub open spec fn thrusted_vel(vel: Vec2, angle: int) -> Vec2 {
    Vec2 {
        x: (vel.x + cos_milli_spec(angle) * (THRUST_IMPULSE / 1000)) as i64,
        y: (vel.y + sin_milli_spec(angle) * (THRUST_IMPULSE / 1000)) as i64,
    }
}

/// One Euler step of a bullet.
pub open spec fn bullet_step(b: Bullet, dt: int) -> Bullet {
    Bullet {
        pos: Vec2 {
            x: (b.pos.x + b.vel.x * dt / 1000) as i64,
            y: (b.pos.y + b.vel.y * dt / 1000) as i64,
        },
        vel: b.vel,
    }
}

/// A bullet stays only while inside the closed playfield box.
pub open spec fn bullet_in_bounds(b: Bullet) -> bool {
    0 <= b.pos.x <= WINDOW_WIDTH && 0 <= b.pos.y <= WINDOW_HEIGHT
}

/// The bullet population after one pass: every bullet moved, the ones
/// that left the box dropped.
pub open spec fn bullets_after(s: Seq<Bullet>, dt: int, i: int) -> Seq<Bullet> {
    stepped_kept(s, |b: Bullet| bullet_step(b, dt), |b: Bullet| bullet_in_bounds(b), i)
}

/// One Euler step of a debris particle.
pub open spec fn debris_step(p: Particle, dt: int) -> Particle {
    let moved = particle_step(p.pos, p.vel, p.life as int, dt);
    Particle { pos: moved.0, vel: p.vel, life: moved.1 as i64, color: p.color }
}

/// A debris particle stays only while life remains.
pub open spec fn debris_alive(p: Particle) -> bool {
    p.life > 0
}

/// The debris population after one pass: every particle moved and aged,
/// the expired pruned.
pub open spec fn particles_after(s: Seq<Particle>, dt: int, i: int) -> Seq<Particle> {
    stepped_kept(s, |p: Particle| debris_step(p, dt), |p: Particle| debris_alive(p), i)
}

} // verus!
