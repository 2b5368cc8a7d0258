//! The general laws of the simulation, each proved once and for all over
//! the same spec functions the update passes are specified with.

use vstd::prelude::*;
use crate::config::{ASTEROID_SIZE, FRAGMENT_THRESHOLD, MIN_DISTANCE, VEL_LIMIT};
use crate::entities::{deformation_limit, deformation_step, mass_of, Asteroid, Particle};
use crate::collide::resolve_pair_spec;
use crate::game::{debris_step, particles_after};
use crate::physics::lemma_sqrt_floor_of;
use crate::num::is_isqrt;

verus! {

/// Law: wrap invariant. Euler integration followed by the toroidal wrap
/// lands inside `[0, w)` for every position, velocity and time step; every
/// wrapped position in the update passes has exactly this form.
pub proof fn lemma_wrap_invariant(x: int, v: int, dt: int, w: int)
    requires
        0 < w,
    ensures
        0 <= (x + v * dt / 1000) % w < w,
{
    vstd::arithmetic::div_mod::lemma_mod_bound(x + v * dt / 1000, w);
}

/// Law: mass monotonicity. A destroyed asteroid above the fragmentation
/// threshold leaves two children of half its radius whose combined mass
/// is strictly below the parent's, since mass grows with the square of
/// the radius.
pub proof fn lemma_fragment_mass(r: int)
    requires
        FRAGMENT_THRESHOLD < r <= ASTEROID_SIZE,
    ensures
        2 * mass_of(r / 2) < mass_of(r),
{
    let h = r / 2;
    let y1 = r * r / 1000;
    let m1v = y1 * 314 / 1000;
    let y2 = h * h / 1000;
    let m2v = y2 * 314 / 1000;
    vstd::arithmetic::div_mod::lemma_fundamental_div_mod(r, 2);
    vstd::arithmetic::div_mod::lemma_mod_bound(r, 2);
    vstd::arithmetic::div_mod::lemma_fundamental_div_mod(r * r, 1000);
    vstd::arithmetic::div_mod::lemma_mod_bound(r * r, 1000);
    vstd::arithmetic::div_mod::lemma_fundamental_div_mod(y1 * 314, 1000);
    vstd::arithmetic::div_mod::lemma_mod_bound(y1 * 314, 1000);
    vstd::arithmetic::div_mod::lemma_fundamental_div_mod(h * h, 1000);
    vstd::arithmetic::div_mod::lemma_mod_bound(h * h, 1000);
    vstd::arithmetic::div_mod::lemma_fundamental_div_mod(y2 * 314, 1000);
    vstd::arithmetic::div_mod::lemma_mod_bound(y2 * 314, 1000);
    assert(2 * m2v < m1v) by (nonlinear_arith)
        requires
            20_000 < r <= 40_000,
            r == 2 * h + r % 2,
            0 <= r % 2 < 2,
            r * r == 1000 * y1 + (r * r) % 1000,
            0 <= (r * r) % 1000 < 1000,
            y1 * 314 == 1000 * m1v + (y1 * 314) % 1000,
            0 <= (y1 * 314) % 1000 < 1000,
            h * h == 1000 * y2 + (h * h) % 1000,
            0 <= (h * h) % 1000 < 1000,
            y2 * 314 == 1000 * m2v + (y2 * 314) % 1000,
            0 <= (y2 * 314) % 1000 < 1000,
    ;
}

/// Law: collision symmetry. Two asteroids of equal mass colliding head-on
/// along an axis-aligned normal swap their velocities exactly: the
/// impulse cancels the relative velocity completely.
pub proof fn lemma_collision_symmetry(s: Seq<Asteroid>, i: int, j: int)
    requires
        0 <= i < s.len(),
        0 <= j < s.len(),
        i != j,
        s[i].wf(),
        s[j].wf(),
        s[i].mass == s[j].mass,
        s[i].pos.y == s[j].pos.y,
        s[j].pos.x - s[i].pos.x >= MIN_DISTANCE,
        s[i].vel.y == s[j].vel.y,
    ensures
        resolve_pair_spec(s, i, j)[i].vel.x == s[j].vel.x,
        resolve_pair_spec(s, i, j)[j].vel.x == s[i].vel.x,
        resolve_pair_spec(s, i, j)[i].vel.y == s[i].vel.y,
        resolve_pair_spec(s, i, j)[j].vel.y == s[j].vel.y,
{
    let a = s[i];
    let b = s[j];
    let dx = b.pos.x - a.pos.x;
    let m = a.mass as int;
    assert(is_isqrt(dx * dx, dx)) by (nonlinear_arith)
        requires
            0 <= dx,
    ;
    lemma_sqrt_floor_of(dx * dx, dx);
    assert(dx * 1000 == 1000 * dx) by (nonlinear_arith);
    vstd::arithmetic::div_mod::lemma_div_multiples_vanish(1000, dx);
    assert(dx * 1000 / dx == 1000);
    vstd::arithmetic::div_mod::lemma_div_of0(dx);
    let dvx = b.vel.x - a.vel.x;
    assert(dvx * 1000 == 1000 * dvx) by (nonlinear_arith);
    vstd::arithmetic::div_mod::lemma_div_multiples_vanish(dvx, 1000);
    let reln = (dvx * 1000 + (b.vel.y - a.vel.y) * 0) / 1000;
    assert((b.vel.y - a.vel.y) * 0 == 0) by (nonlinear_arith);
    assert(reln == dvx);
    assert(2 * reln * m == (m + m) * dvx) by (nonlinear_arith)
        requires
            reln == dvx,
    ;
    lemma_mass_positive(a);
    vstd::arithmetic::div_mod::lemma_div_multiples_vanish(dvx, m + m);
    let qa = 2 * reln * m / (m + m);
    assert(qa == dvx);
    assert(qa * 1000 == 1000 * qa && qa * 0 == 0) by (nonlinear_arith);
    vstd::arithmetic::div_mod::lemma_div_multiples_vanish(qa, 1000);
    vstd::arithmetic::div_mod::lemma_div_of0(1000);
    assert(crate::num::clamp_spec(
        a.vel.x + dvx,
        -VEL_LIMIT as int,
        VEL_LIMIT as int,
    ) == b.vel.x);
    assert(crate::num::clamp_spec(
        b.vel.x - dvx,
        -VEL_LIMIT as int,
        VEL_LIMIT as int,
    ) == a.vel.x);
}

/// Law: collision symmetry along the vertical axis: the same exact swap
/// when the collision normal is vertical.
pub proof fn lemma_collision_symmetry_vertical(s: Seq<Asteroid>, i: int, j: int)
    requires
        0 <= i < s.len(),
        0 <= j < s.len(),
        i != j,
        s[i].wf(),
        s[j].wf(),
        s[i].mass == s[j].mass,
        s[i].pos.x == s[j].pos.x,
        s[j].pos.y - s[i].pos.y >= MIN_DISTANCE,
        s[i].vel.x == s[j].vel.x,
    ensures
        resolve_pair_spec(s, i, j)[i].vel.y == s[j].vel.y,
        resolve_pair_spec(s, i, j)[j].vel.y == s[i].vel.y,
        resolve_pair_spec(s, i, j)[i].vel.x == s[i].vel.x,
        resolve_pair_spec(s, i, j)[j].vel.x == s[j].vel.x,
{
    let a = s[i];
    let b = s[j];
    let dy = b.pos.y - a.pos.y;
    let m = a.mass as int;
    assert(is_isqrt(dy * dy, dy)) by (nonlinear_arith)
        requires
            0 <= dy,
    ;
    lemma_sqrt_floor_of(dy * dy, dy);
    assert(dy * 1000 == 1000 * dy) by (nonlinear_arith);
    vstd::arithmetic::div_mod::lemma_div_multiples_vanish(1000, dy);
    assert(dy * 1000 / dy == 1000);
    vstd::arithmetic::div_mod::lemma_div_of0(dy);
    let dvy = b.vel.y - a.vel.y;
    assert(dvy * 1000 == 1000 * dvy) by (nonlinear_arith);
    vstd::arithmetic::div_mod::lemma_div_multiples_vanish(dvy, 1000);
    let reln = ((b.vel.x - a.vel.x) * 0 + dvy * 1000) / 1000;
    assert((b.vel.x - a.vel.x) * 0 == 0) by (nonlinear_arith);
    assert(reln == dvy);
    assert(2 * reln * m == (m + m) * dvy) by (nonlinear_arith)
        requires
            reln == dvy,
    ;
    lemma_mass_positive(a);
    vstd::arithmetic::div_mod::lemma_div_multiples_vanish(dvy, m + m);
    let qa = 2 * reln * m / (m + m);
    assert(qa == dvy);
    assert(qa * 1000 == 1000 * qa && qa * 0 == 0) by (nonlinear_arith);
    vstd::arithmetic::div_mod::lemma_div_multiples_vanish(qa, 1000);
    vstd::arithmetic::div_mod::lemma_div_of0(1000);
    assert(crate::num::clamp_spec(
        a.vel.y + dvy,
        -VEL_LIMIT as int,
        VEL_LIMIT as int,
    ) == b.vel.y);
    assert(crate::num::clamp_spec(
        b.vel.y - dvy,
        -VEL_LIMIT as int,
        VEL_LIMIT as int,
    ) == a.vel.y);
}

/// A well-formed asteroid has positive mass.
proof fn lemma_mass_positive(a: Asteroid)
    requires
        a.wf(),
    ensures
        a.mass > 0,
{
    crate::entities::lemma_mass_of_bounds(a.size as int);
}

/// Law: deformation clamp. One oscillator step never leaves the band
/// `[-size · MAX_DEFORMATION, size · MAX_DEFORMATION]`, whatever the
/// incoming state and time step.
pub proof fn lemma_deformation_clamped(d: int, dv: int, size: int, dt: int)
    requires
        0 < size,
    ensures
        -deformation_limit(size) <= deformation_step(d, dv, size, dt).1 <= deformation_limit(size),
{
    vstd::arithmetic::div_mod::lemma_div_pos_is_pos(
        size * crate::config::MAX_DEFORMATION_MILLI,
        1000,
    );
}

/// Law: deformation relaxation from rest. With no oscillator velocity and
/// no forcing, a step never pushes a non-negative deformation upward: the
/// restoring force only pulls it back toward zero.
pub proof fn lemma_deformation_no_growth_from_rest(d: int, size: int, dt: int)
    requires
        0 < size,
        0 <= d,
        0 <= dt,
    ensures
        deformation_step(d, 0, size, dt).1 <= d,
{
    let force = (-crate::config::SPRING_MILLI * d - crate::config::DAMPING_MILLI * 0int) / 1000;
    assert(-(crate::config::SPRING_MILLI as int) * d <= 0 && crate::config::DAMPING_MILLI as int
        * 0 == 0) by (nonlinear_arith)
        requires
            0 <= d,
            crate::config::SPRING_MILLI == 900,
            crate::config::DAMPING_MILLI == 500,
    ;
    vstd::arithmetic::div_mod::lemma_div_is_ordered(
        -(crate::config::SPRING_MILLI as int) * d,
        0,
        1000,
    );
    vstd::arithmetic::div_mod::lemma_div_of0(1000);
    assert(force <= 0);
    assert(force * dt <= 0) by (nonlinear_arith)
        requires
            force <= 0,
            0 <= dt,
    ;
    vstd::arithmetic::div_mod::lemma_div_is_ordered(force * dt, 0, 1000);
    let dv2 = crate::num::clamp_spec(
        0 + force * dt / 1000,
        -crate::config::DEF_VEL_LIMIT as int,
        crate::config::DEF_VEL_LIMIT as int,
    );
    assert(dv2 <= 0);
    assert(dv2 * dt <= 0) by (nonlinear_arith)
        requires
            dv2 <= 0,
            0 <= dt,
    ;
    vstd::arithmetic::div_mod::lemma_div_is_ordered(dv2 * dt, 0, 1000);
    vstd::arithmetic::div_mod::lemma_div_pos_is_pos(
        size * crate::config::MAX_DEFORMATION_MILLI,
        1000,
    );
}

/// Law: particle expiry, the survival half. Every particle still in the
/// population after an update has life remaining, and each lost exactly
/// the elapsed time from some incoming particle.
pub proof fn lemma_particles_alive(s: Seq<Particle>, dt: int, i: int)
    requires
        0 <= i <= s.len(),
    ensures
        forall|k: int|
            0 <= k < particles_after(s, dt, i).len() ==> (#[trigger] particles_after(
                s,
                dt,
                i,
            )[k]).life > 0,
    decreases i,
{
    if i > 0 {
        lemma_particles_alive(s, dt, i - 1);
        let prev = particles_after(s, dt, i - 1);
        let cur = particles_after(s, dt, i);
        let x = debris_step(s[i - 1], dt);
        assert(cur == if crate::game::debris_alive(x) {
            prev.push(x)
        } else {
            prev
        });
        assert forall|k: int| 0 <= k < cur.len() implies (#[trigger] cur[k]).life > 0 by {
            if k < prev.len() {
                assert(cur[k] == prev[k]);
            } else {
                assert(cur[k] == x);
            }
        }
    }
}

/// Law: particle expiry, the removal half. When the step spends at least
/// the remaining life of every particle, the population empties: a
/// particle whose cumulative elapsed time reaches its initial life is
/// gone.
pub proof fn lemma_particles_expire(s: Seq<Particle>, dt: int, i: int)
    requires
        0 <= i <= s.len(),
        0 <= dt <= crate::config::DT_MAX,
        forall|k: int| 0 <= k < s.len() ==> (#[trigger] s[k]).wf(),
        forall|k: int| 0 <= k < s.len() ==> (#[trigger] s[k]).life <= dt,
    ensures
        particles_after(s, dt, i).len() == 0,
    decreases i,
{
    if i > 0 {
        lemma_particles_expire(s, dt, i - 1);
        let x = debris_step(s[i - 1], dt);
        assert(s[i - 1].life <= dt);
        assert(!crate::game::debris_alive(x));
        assert(particles_after(s, dt, i) == particles_after(s, dt, i - 1));
    }
}

} // verus!
