//! Asteroid–asteroid interaction: pair detection, the elastic impulse with
//! overlap separation and deformation energy injection, and the pairwise
//! gravity sums that drive the integration pass.

use vstd::prelude::*;
use crate::config::{
    DEF_VEL_LIMIT, MAX_ACCELERATION, MAX_SPEED, MIN_DISTANCE, VEL_LIMIT, WINDOW_HEIGHT,
    WINDOW_WIDTH,
};
use crate::entities::{deformation_step, lemma_mass_of_bounds, Asteroid, Vec2};
use crate::num::{clamp_i64, clamp_spec, div_floor, isqrt_u64, lemma_div_bound, wrap_into};
use crate::physics::{
    clamp_speed_spec, gravity_term_spec, lemma_sqrt_floor_of, norm, norm_spec, sqrt_floor,
};

verus! {

/// Two asteroids collide when their centers are closer than the sum of
/// their radii.
pub open spec fn asteroids_collide(a: Asteroid, b: Asteroid) -> bool {
    norm_spec(Vec2 { x: (a.pos.x - b.pos.x) as i64, y: (a.pos.y - b.pos.y) as i64 }) < a.size
        + b.size
}

/// The colliding pairs `(i, jj)` with `i < jj < j`, in ascending `jj`.
pub open spec fn row_pairs(s: Seq<Asteroid>, i: int, j: int) -> Seq<(usize, usize)>
    decreases j - i,
{
    if j <= i + 1 {
        Seq::empty()
    } else {
        let rest = row_pairs(s, i, j - 1);
        if asteroids_collide(s[i], s[j - 1]) {
            rest.push((i as usize, (j - 1) as usize))
        } else {
            rest
        }
    }
}

/// All colliding pairs with first index below `i`, row by row.
pub open spec fn all_pairs_upto(s: Seq<Asteroid>, i: int) -> Seq<(usize, usize)>
    decreases i,
{
    if i <= 0 {
        Seq::empty()
    } else {
        all_pairs_upto(s, i - 1) + row_pairs(s, i - 1, s.len() as int)
    }
}

/// Every colliding pair, each pair once, ordered.
pub open spec fn collision_pairs(s: Seq<Asteroid>) -> Seq<(usize, usize)> {
    all_pairs_upto(s, s.len() as int)
}

/// One resolved collision between the asteroids at `i` and `j`: the
/// equal-and-opposite elastic impulse along the unit collision normal
/// (distance floored at `MIN_DISTANCE`), symmetric separation by half the
/// penetration depth with wrap, and the deformation energy injection
/// `sqrt(m_i · m_j) / 100` scaled inversely by each body's own mass.
pub open spec fn resolve_pair_spec(s: Seq<Asteroid>, i: int, j: int) -> Seq<Asteroid> {
    let a = s[i];
    let b = s[j];
    let dx = b.pos.x - a.pos.x;
    let dy = b.pos.y - a.pos.y;
    let d0 = sqrt_floor(dx * dx + dy * dy);
    let d = if d0 < MIN_DISTANCE {
        MIN_DISTANCE as int
    } else {
        d0
    };
    let nx = dx * 1000 / d;
    let ny = dy * 1000 / d;
    let dvx = b.vel.x - a.vel.x;
    let dvy = b.vel.y - a.vel.y;
    let reln = (dvx * nx + dvy * ny) / 1000;
    let qa = 2 * reln * b.mass / (a.mass + b.mass);
    let qb = 2 * reln * a.mass / (a.mass + b.mass);
    let sep = (a.size + b.size - d) / 2;
    let sq = sqrt_floor(a.mass * b.mass);
    let a2 = Asteroid {
        pos: Vec2 {
            x: ((a.pos.x - sep * nx / 1000) % (WINDOW_WIDTH as int)) as i64,
            y: ((a.pos.y - sep * ny / 1000) % (WINDOW_HEIGHT as int)) as i64,
        },
        vel: Vec2 {
            x: clamp_spec(a.vel.x + qa * nx / 1000, -VEL_LIMIT as int, VEL_LIMIT as int) as i64,
            y: clamp_spec(a.vel.y + qa * ny / 1000, -VEL_LIMIT as int, VEL_LIMIT as int) as i64,
        },
        deformation_vel: clamp_spec(
            a.deformation_vel + 10 * sq / (a.mass as int),
            -DEF_VEL_LIMIT as int,
            DEF_VEL_LIMIT as int,
        ) as i64,
        ..a
    };
    let b2 = Asteroid {
        pos: Vec2 {
            x: ((b.pos.x + sep * nx / 1000) % (WINDOW_WIDTH as int)) as i64,
            y: ((b.pos.y + sep * ny / 1000) % (WINDOW_HEIGHT as int)) as i64,
        },
        vel: Vec2 {
            x: clamp_spec(b.vel.x - qb * nx / 1000, -VEL_LIMIT as int, VEL_LIMIT as int) as i64,
            y: clamp_spec(b.vel.y - qb * ny / 1000, -VEL_LIMIT as int, VEL_LIMIT as int) as i64,
        },
        deformation_vel: clamp_spec(
            b.deformation_vel + 10 * sq / (b.mass as int),
            -DEF_VEL_LIMIT as int,
            DEF_VEL_LIMIT as int,
        ) as i64,
        ..b
    };
    s.update(i, a2).update(j, b2)
}

/// The first `n` pairs resolved in order, each against the state the
/// previous resolutions left behind.
pub open spec fn resolve_upto(s: Seq<Asteroid>, ps: Seq<(usize, usize)>, n: int) -> Seq<Asteroid>
    decreases n,
{
    if n <= 0 {
        s
    } else {
        let prev = resolve_upto(s, ps, n - 1);
        let p = ps[n - 1];
        if p.0 < p.1 && (p.1 as int) < prev.len() {
            resolve_pair_spec(prev, p.0 as int, p.1 as int)
        } else {
            prev
        }
    }
}

/// The asteroid population after one full collision pass: pairs detected
/// on the incoming state, then resolved in order.
pub open spec fn resolved(s: Seq<Asteroid>) -> Seq<Asteroid> {
    resolve_upto(s, collision_pairs(s), collision_pairs(s).len() as int)
}

/// The summed pull of the first `i` asteroids on asteroid `k`: each pair
/// is computed once, in the orientation of the lower index, and applied
/// with opposite signs to its two members.
pub open spec fn asteroid_gravity_upto(s: Seq<Asteroid>, k: int, i: int) -> (int, int)
    decreases i,
{
    if i <= 0 {
        (0, 0)
    } else {
        let prev = asteroid_gravity_upto(s, k, i - 1);
        let j = i - 1;
        if j == k {
            prev
        } else if j > k {
            let t = gravity_term_spec(s[k].mass as int, s[j].mass as int, s[k].pos, s[j].pos);
            (prev.0 + t.0, prev.1 + t.1)
        } else {
            let t = gravity_term_spec(s[j].mass as int, s[k].mass as int, s[j].pos, s[k].pos);
            (prev.0 - t.0, prev.1 - t.1)
        }
    }
}

/// Where asteroid `k` ends one integration pass: total pairwise gravity,
/// the per-axis acceleration clamp, velocity then the speed clamp, the
/// Euler move with wrap, and one deformation oscillator step.
pub open spec fn asteroid_integrate_spec(s: Seq<Asteroid>, k: int, dt: int) -> Asteroid {
    let a = s[k];
    let tot = asteroid_gravity_upto(s, k, s.len() as int);
    let ax = clamp_spec(tot.0, -MAX_ACCELERATION as int, MAX_ACCELERATION as int);
    let ay = clamp_spec(tot.1, -MAX_ACCELERATION as int, MAX_ACCELERATION as int);
    let v1 = Vec2 { x: (a.vel.x + ax * dt / 1000) as i64, y: (a.vel.y + ay * dt / 1000) as i64 };
    let v2 = clamp_speed_spec(v1, MAX_SPEED as int);
    let px = (a.pos.x + v2.x * dt / 1000) % (WINDOW_WIDTH as int);
    let py = (a.pos.y + v2.y * dt / 1000) % (WINDOW_HEIGHT as int);
    let def = deformation_step(a.deformation as int, a.deformation_vel as int, a.size as int, dt);
    Asteroid {
        pos: Vec2 { x: px as i64, y: py as i64 },
        vel: v2,
        deformation: def.1 as i64,
        deformation_vel: def.0 as i64,
        ..a
    }
}

/// The whole population, integrated.
pub open spec fn integrate_all(s: Seq<Asteroid>, dt: int) -> Seq<Asteroid> {
    Seq::new(s.len(), |k: int| asteroid_integrate_spec(s, k, dt))
}

/// Resolve one detected collision in place.
pub(crate) fn resolve_collision_pair(v: &mut Vec<Asteroid>, i: usize, j: usize)
    requires
        i < j,
        (j as int) < old(v)@.len(),
        forall|k: int| 0 <= k < old(v)@.len() ==> (#[trigger] old(v)@[k]).wf(),
    ensures
        final(v)@ == resolve_pair_spec(old(v)@, i as int, j as int),
        final(v)@.len() == old(v)@.len(),
        forall|k: int| 0 <= k < final(v)@.len() ==> (#[trigger] final(v)@[k]).wf(),
{
    let a: Asteroid = v[i];
    let b: Asteroid = v[j];
    proof {
        lemma_mass_of_bounds(a.size as int);
        lemma_mass_of_bounds(b.size as int);
    }
    let dx: i64 = b.pos.x - a.pos.x;
    let dy: i64 = b.pos.y - a.pos.y;
    let d0: i64 = norm(Vec2 { x: dx, y: dy });
    proof {
        assert(d0 <= 1_900_000) by (nonlinear_arith)
            requires
                0 <= d0,
                d0 as int * d0 as int <= dx as int * dx as int + dy as int * dy as int,
                -1_300_000 <= dx <= 1_300_000,
                -1_300_000 <= dy <= 1_300_000,
        ;
    }
    let d: i64 = if d0 < MIN_DISTANCE {
        MIN_DISTANCE
    } else {
        d0
    };
    let nx: i64 = div_floor(dx * 1000, d);
    let ny: i64 = div_floor(dy * 1000, d);
    proof {
        crate::physics::lemma_scaled_component_bounded(dx as int, 1000, d as int);
        crate::physics::lemma_scaled_component_bounded(dy as int, 1000, d as int);
    }
    let dvx: i64 = b.vel.x - a.vel.x;
    let dvy: i64 = b.vel.y - a.vel.y;
    proof {
        assert(-2_100_000_000_000 <= dvx as int * nx <= 2_100_000_000_000 && -2_100_000_000_000
            <= dvy as int * ny <= 2_100_000_000_000) by (nonlinear_arith)
            requires
                -2_000_000_001 <= dvx <= 2_000_000_001,
                -2_000_000_001 <= dvy <= 2_000_000_001,
                -1000 <= nx <= 1000,
                -1000 <= ny <= 1000,
        ;
    }
    let reln: i64 = div_floor(dvx * nx + dvy * ny, 1000);
    let jn: i64 = 2 * reln;
    let msum: i64 = a.mass + b.mass;
    proof {
        assert(-(9_000_000_000 * msum as int) <= jn as int * b.mass && jn as int * b.mass
            <= 9_000_000_000 * msum as int && -(9_000_000_000 * msum as int) <= jn as int * a.mass
            && jn as int * a.mass <= 9_000_000_000 * msum as int && -4_600_000_000_000_000
            <= jn as int * b.mass <= 4_600_000_000_000_000 && -4_600_000_000_000_000 <= jn as int
            * a.mass <= 4_600_000_000_000_000) by (nonlinear_arith)
            requires
                -8_500_000_000 <= jn <= 8_500_000_000,
                0 < a.mass <= 502_400,
                0 < b.mass <= 502_400,
                msum == a.mass + b.mass,
        ;
        lemma_div_bound(jn as int * b.mass as int, msum as int, 9_000_000_000);
        lemma_div_bound(jn as int * a.mass as int, msum as int, 9_000_000_000);
    }
    let qa: i64 = div_floor(jn * b.mass, msum);
    let qb: i64 = div_floor(jn * a.mass, msum);
    proof {
        assert(-9_000_000_000_000 <= qa as int * nx <= 9_000_000_000_000 && -9_000_000_000_000
            <= qa as int * ny <= 9_000_000_000_000 && -9_000_000_000_000 <= qb as int * nx
            <= 9_000_000_000_000 && -9_000_000_000_000 <= qb as int * ny <= 9_000_000_000_000)
            by (nonlinear_arith)
            requires
                -9_000_000_000 <= qa <= 9_000_000_000,
                -9_000_000_000 <= qb <= 9_000_000_000,
                -1000 <= nx <= 1000,
                -1000 <= ny <= 1000,
        ;
    }
    let sep: i64 = div_floor(a.size + b.size - d, 2);
    proof {
        assert(-1_000_000_000 <= sep as int * nx <= 1_000_000_000 && -1_000_000_000 <= sep as int
            * ny <= 1_000_000_000) by (nonlinear_arith)
            requires
                -1_000_000 <= sep <= 1_000_000,
                -1000 <= nx <= 1000,
                -1000 <= ny <= 1000,
        ;
        assert(0 < a.mass as int * b.mass as int <= 260_000_000_000) by (nonlinear_arith)
            requires
                0 < a.mass <= 502_400,
                0 < b.mass <= 502_400,
        ;
    }
    let sq_r: u64 = isqrt_u64((a.mass * b.mass) as u64);
    proof {
        lemma_sqrt_floor_of(a.mass as int * b.mass as int, sq_r as int);
        assert(sq_r <= 600_000) by (nonlinear_arith)
            requires
                0 <= sq_r,
                sq_r as int * sq_r as int <= 260_000_000_000,
        ;
    }
    let sq: i64 = sq_r as i64;
    proof {
        assert(6_000_000 * a.mass as int >= 10 * sq as int && 6_000_000 * b.mass as int >= 10
            * sq as int && -(6_000_000 * a.mass as int) <= 10 * sq as int && -(6_000_000
            * b.mass as int) <= 10 * sq as int) by (nonlinear_arith)
            requires
                0 <= sq <= 600_000,
                31_400 <= a.mass,
                31_400 <= b.mass,
        ;
        lemma_div_bound(10 * sq as int, a.mass as int, 6_000_000);
        lemma_div_bound(10 * sq as int, b.mass as int, 6_000_000);
    }
    let inj_a: i64 = div_floor(10 * sq, a.mass);
    let inj_b: i64 = div_floor(10 * sq, b.mass);
    let a2 = Asteroid {
        pos: Vec2 {
            x: wrap_into(a.pos.x - div_floor(sep * nx, 1000), WINDOW_WIDTH),
            y: wrap_into(a.pos.y - div_floor(sep * ny, 1000), WINDOW_HEIGHT),
        },
        vel: Vec2 {
            x: clamp_i64(a.vel.x + div_floor(qa * nx, 1000), -VEL_LIMIT, VEL_LIMIT),
            y: clamp_i64(a.vel.y + div_floor(qa * ny, 1000), -VEL_LIMIT, VEL_LIMIT),
        },
        deformation_vel: clamp_i64(a.deformation_vel + inj_a, -DEF_VEL_LIMIT, DEF_VEL_LIMIT),
        ..a
    };
    let b2 = Asteroid {
        pos: Vec2 {
            x: wrap_into(b.pos.x + div_floor(sep * nx, 1000), WINDOW_WIDTH),
            y: wrap_into(b.pos.y + div_floor(sep * ny, 1000), WINDOW_HEIGHT),
        },
        vel: Vec2 {
            x: clamp_i64(b.vel.x - div_floor(qb * nx, 1000), -VEL_LIMIT, VEL_LIMIT),
            y: clamp_i64(b.vel.y - div_floor(qb * ny, 1000), -VEL_LIMIT, VEL_LIMIT),
        },
        deformation_vel: clamp_i64(b.deformation_vel + inj_b, -DEF_VEL_LIMIT, DEF_VEL_LIMIT),
        ..b
    };
    v[i] = a2;
    v[j] = b2;
}

} // verus!
