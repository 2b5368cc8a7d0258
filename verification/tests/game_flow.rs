//! Scenario tests for the simulation: kills, level-ups, restarts, the
//! particle lifecycles, the thruster cap, and the wrap invariant.

use bubbleroid::config::{
    ASTEROID_COUNT, MAX_THRUSTER_PARTICLES, PARTICLE_LIFETIME, WINDOW_HEIGHT, WINDOW_WIDTH,
};
use bubbleroid::entities::{Asteroid, Bullet, Particle, Rgba, ThrusterParticle, Vec2};
use bubbleroid::game::AsteroidsGame;

fn asteroid_at(x: i64, y: i64, vx: i64, vy: i64, size: i64) -> Asteroid {
    Asteroid::new(Vec2 { x, y }, Vec2 { x: vx, y: vy }, size)
}

#[test]
fn new_game_is_seeded_inside_the_playfield() {
    let g = AsteroidsGame::new();
    assert_eq!(g.score, 0);
    assert_eq!(g.level, 1);
    assert_eq!(g.destroyed_count, 0);
    assert!(!g.is_game_over);
    assert_eq!(g.asteroids.len(), ASTEROID_COUNT);
    assert_eq!(g.player_pos, Vec2 { x: WINDOW_WIDTH / 2, y: WINDOW_HEIGHT / 2 });
    for a in &g.asteroids {
        assert!(15_000 <= a.size && a.size < 40_000);
        assert!(0 <= a.pos.x && a.pos.x < WINDOW_WIDTH);
        assert!(0 <= a.pos.y && a.pos.y < WINDOW_HEIGHT);
        assert_eq!(a.deformation, 4_000);
        assert_eq!(a.deformation_vel, 1_000);
        assert!(-50_000 <= a.vel.x && a.vel.x < 50_000);
        assert!(-50_000 <= a.vel.y && a.vel.y < 50_000);
        assert!(!a.is_destroyed);
    }
}

#[test]
fn single_kill_awards_points_and_splits() {
    let mut g = AsteroidsGame::new();
    g.asteroids = vec![asteroid_at(100_000, 100_000, 30_000, -20_000, 30_000)];
    g.bullets = vec![Bullet { pos: Vec2 { x: 100_000, y: 100_000 }, vel: Vec2 { x: 0, y: 0 } }];
    g.particles = Vec::new();
    g.check_collisions();
    assert_eq!(g.score, 3);
    assert_eq!(g.destroyed_count, 1);
    assert_eq!(g.bullets.len(), 0);
    assert_eq!(g.asteroids.len(), 2);
    assert_eq!(g.asteroids[0].size, 15_000);
    assert_eq!(g.asteroids[1].size, 15_000);
    assert_eq!(g.asteroids[0].pos, Vec2 { x: 100_000, y: 100_000 });
    assert_eq!(g.asteroids[0].vel, Vec2 { x: -30_000, y: 20_000 });
    assert_eq!(g.asteroids[1].vel, Vec2 { x: 30_000, y: -20_000 });
    assert_eq!(g.particles.len(), 20);
    for p in &g.particles {
        assert_eq!(p.pos, Vec2 { x: 100_000, y: 100_000 });
        assert_eq!(p.life, PARTICLE_LIFETIME);
        assert_eq!(p.color, Rgba { r: 0, g: 255, b: 0, a: 255 });
    }
    assert_eq!(g.level, 1);
}

#[test]
fn terminal_fragmentation_below_threshold() {
    let mut g = AsteroidsGame::new();
    g.asteroids = vec![asteroid_at(100_000, 100_000, 0, 0, 18_000)];
    g.bullets = vec![Bullet { pos: Vec2 { x: 100_000, y: 100_000 }, vel: Vec2 { x: 0, y: 0 } }];
    g.check_collisions();
    assert_eq!(g.asteroids.len(), 0);
    assert_eq!(g.destroyed_count, 1);
    assert_eq!(g.score, 100 / 18);
}

#[test]
fn level_up_crossing_the_threshold() {
    let mut g = AsteroidsGame::new();
    g.asteroids = vec![asteroid_at(100_000, 100_000, 0, 0, 30_000)];
    g.bullets = vec![Bullet { pos: Vec2 { x: 100_000, y: 100_000 }, vel: Vec2 { x: 0, y: 0 } }];
    g.destroyed_count = 9;
    g.check_collisions();
    assert_eq!(g.destroyed_count, 10);
    assert_eq!(g.level, 2);
    assert_eq!(g.asteroids.len(), 4);
    assert!(!g.asteroids[2].is_destroyed);
    assert!(!g.asteroids[3].is_destroyed);
}

#[test]
fn no_level_up_without_a_kill() {
    let mut g = AsteroidsGame::new();
    g.asteroids = vec![asteroid_at(100_000, 100_000, 0, 0, 30_000)];
    g.bullets = Vec::new();
    g.destroyed_count = 25;
    g.check_collisions();
    assert_eq!(g.level, 1);
    assert_eq!(g.asteroids.len(), 1);
}

#[test]
fn player_strike_ends_the_game() {
    let mut g = AsteroidsGame::new();
    let px = g.player_pos.x;
    let py = g.player_pos.y;
    g.asteroids = vec![asteroid_at(px + 10_000, py, 0, 0, 30_000)];
    g.bullets = vec![Bullet { pos: Vec2 { x: 0, y: 0 }, vel: Vec2 { x: 0, y: 0 } }];
    g.particles = Vec::new();
    g.check_collisions();
    assert!(g.is_game_over);
    assert_eq!(g.particles.len(), 50);
    for p in &g.particles {
        assert_eq!(p.pos, Vec2 { x: px, y: py });
        assert_eq!(p.color, Rgba { r: 255, g: 0, b: 0, a: 255 });
    }
    assert_eq!(g.bullets.len(), 1);
    assert_eq!(g.asteroids.len(), 1);
    assert_eq!(g.score, 0);
}

#[test]
fn restart_resets_after_game_over() {
    let mut g = AsteroidsGame::new();
    g.is_game_over = true;
    g.score = 777;
    g.level = 9;
    g.destroyed_count = 55;
    g.restart();
    assert!(!g.is_game_over);
    assert_eq!(g.score, 0);
    assert_eq!(g.level, 1);
    assert_eq!(g.destroyed_count, 0);
    assert_eq!(g.asteroids.len(), ASTEROID_COUNT);
    for a in &g.asteroids {
        assert_eq!(a.deformation, 2_000);
        assert_eq!(a.deformation_vel, 3_000);
    }
}

#[test]
fn restart_ignored_while_running() {
    let mut g = AsteroidsGame::new();
    g.score = 42;
    g.restart();
    assert_eq!(g.score, 42);
    assert!(!g.is_game_over);
}

#[test]
fn thruster_cap_evicts_oldest_first() {
    let mut g = AsteroidsGame::new();
    let mut pop = Vec::new();
    let mut t: i64 = 0;
    while t < 45 {
        pop.push(ThrusterParticle::new(
            Vec2 { x: 0, y: 0 },
            Vec2 { x: 0, y: 0 },
            Rgba { r: 0, g: 0, b: 255, a: 255 },
            100 + t,
        ));
        t += 1;
    }
    g.thruster_particles = pop;
    g.enforce_thruster_cap();
    assert_eq!(g.thruster_particles.len(), MAX_THRUSTER_PARTICLES);
    assert_eq!(g.thruster_particles[0].life, 105);
    assert_eq!(g.thruster_particles[MAX_THRUSTER_PARTICLES - 1].life, 144);
}

#[test]
fn particle_expires_once_its_life_is_spent() {
    let mut g = AsteroidsGame::new();
    g.particles = vec![Particle {
        pos: Vec2 { x: 0, y: 0 },
        vel: Vec2 { x: 1_000, y: 0 },
        life: 2_000,
        color: Rgba { r: 0, g: 255, b: 0, a: 255 },
    }];
    g.update_particles(1_500);
    assert_eq!(g.particles.len(), 1);
    assert_eq!(g.particles[0].life, 500);
    g.update_particles(500);
    assert_eq!(g.particles.len(), 0);
}

#[test]
fn equal_mass_head_on_collision_swaps_velocities() {
    let mut g = AsteroidsGame::new();
    let a = asteroid_at(600_000, 360_000, 50_000, 7_000, 30_000);
    let b = asteroid_at(640_000, 360_000, -50_000, 7_000, 30_000);
    g.asteroids = vec![a, b];
    g.handle_asteroid_collisions();
    assert_eq!(g.asteroids[0].vel.x, -50_000);
    assert_eq!(g.asteroids[1].vel.x, 50_000);
    assert_eq!(g.asteroids[0].vel.y, 7_000);
    assert_eq!(g.asteroids[1].vel.y, 7_000);
}

#[test]
fn deformation_stays_clamped_and_decays() {
    let mut a = asteroid_at(100_000, 100_000, 0, 0, 30_000);
    a.deformation = 24_000;
    let limit = 30_000 * 800 / 1000;
    let mut step: i64 = 0;
    while step < 300 {
        a.update_deformation(16);
        assert!(a.deformation.abs() <= limit);
        step += 1;
    }
    assert!(a.deformation.abs() < 24_000);
}

#[test]
fn wrap_invariant_after_a_full_update() {
    let mut g = AsteroidsGame::new();
    g.player_vel = Vec2 { x: 200_000, y: -200_000 };
    g.update(60_000);
    assert!(0 <= g.player_pos.x && g.player_pos.x < WINDOW_WIDTH);
    assert!(0 <= g.player_pos.y && g.player_pos.y < WINDOW_HEIGHT);
    for a in &g.asteroids {
        assert!(0 <= a.pos.x && a.pos.x < WINDOW_WIDTH);
        assert!(0 <= a.pos.y && a.pos.y < WINDOW_HEIGHT);
    }
}

#[test]
fn bullets_leave_at_the_border() {
    let mut g = AsteroidsGame::new();
    g.asteroids = Vec::new();
    g.bullets = vec![
        Bullet { pos: Vec2 { x: 1_279_000, y: 100_000 }, vel: Vec2 { x: 400_000, y: 0 } },
        Bullet { pos: Vec2 { x: 500_000, y: 500_000 }, vel: Vec2 { x: 0, y: 0 } },
    ];
    g.update_bullets(5_000);
    assert_eq!(g.bullets.len(), 1);
    assert_eq!(g.bullets[0].pos, Vec2 { x: 500_000, y: 500_000 });
}

#[test]
fn shoot_spawns_one_bullet_along_the_facing() {
    let mut g = AsteroidsGame::new();
    g.shoot();
    assert_eq!(g.bullets.len(), 1);
    assert_eq!(g.bullets[0].pos, g.player_pos);
    assert_eq!(g.bullets[0].vel, Vec2 { x: 400_000, y: 0 });
    g.is_game_over = true;
    g.shoot();
    assert_eq!(g.bullets.len(), 1);
}

#[test]
fn thrust_and_rotate() {
    let mut g = AsteroidsGame::new();
    g.apply_thrust();
    assert_eq!(g.player_vel, Vec2 { x: 10_000, y: 0 });
    g.rotate(200);
    assert_eq!(g.player_angle, 200);
    g.rotate(-400);
    assert_eq!(g.player_angle, 6_084);
}

#[test]
fn update_is_frozen_after_game_over() {
    let mut g = AsteroidsGame::new();
    g.is_game_over = true;
    g.score = 5;
    let pos = g.player_pos;
    g.update(16);
    assert_eq!(g.score, 5);
    assert_eq!(g.player_pos, pos);
    assert!(g.is_game_over);
}

#[test]
fn flame_palette_runs_blue_to_red() {
    let g = AsteroidsGame::new();
    assert_eq!(g.generate_flame_color(1000), Rgba { r: 0, g: 0, b: 255, a: 255 });
    assert_eq!(g.generate_flame_color(700), Rgba { r: 255, g: 255, b: 255, a: 255 });
    assert_eq!(g.generate_flame_color(500), Rgba { r: 255, g: 255, b: 0, a: 255 });
    assert_eq!(g.generate_flame_color(300), Rgba { r: 255, g: 165, b: 0, a: 255 });
    assert_eq!(g.generate_flame_color(50), Rgba { r: 255, g: 0, b: 0, a: 255 });
}

#[test]
fn empty_populations_tick_quietly() {
    let mut g = AsteroidsGame::new();
    g.asteroids = Vec::new();
    g.bullets = Vec::new();
    g.particles = Vec::new();
    g.thruster_particles = Vec::new();
    g.update(16);
    assert!(!g.is_game_over);
    assert_eq!(g.asteroids.len(), 0);
    assert_eq!(g.bullets.len(), 0);
    assert_eq!(g.score, 0);
}

#[test]
fn score_saturates_instead_of_overflowing() {
    let mut g = AsteroidsGame::new();
    g.asteroids = vec![asteroid_at(100_000, 100_000, 0, 0, 18_000)];
    g.bullets = vec![Bullet { pos: Vec2 { x: 100_000, y: 100_000 }, vel: Vec2 { x: 0, y: 0 } }];
    g.score = u64::MAX - 1;
    g.destroyed_count = u64::MAX;
    g.check_collisions();
    assert_eq!(g.score, u64::MAX);
    assert_eq!(g.destroyed_count, u64::MAX);
}

#[test]
fn equal_mass_vertical_collision_swaps_velocities() {
    let mut g = AsteroidsGame::new();
    let a = asteroid_at(640_000, 340_000, 4_000, 60_000, 30_000);
    let b = asteroid_at(640_000, 380_000, 4_000, -60_000, 30_000);
    g.asteroids = vec![a, b];
    g.handle_asteroid_collisions();
    assert_eq!(g.asteroids[0].vel.y, -60_000);
    assert_eq!(g.asteroids[1].vel.y, 60_000);
    assert_eq!(g.asteroids[0].vel.x, 4_000);
    assert_eq!(g.asteroids[1].vel.x, 4_000);
}
