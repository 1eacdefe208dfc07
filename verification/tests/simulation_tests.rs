use particles::fixed::{fx_add, fx_mul, fx_sub};
use particles::particle::Particle;
use particles::simulation::Simulation;
use particles::vec3::V3;

#[test]
fn reset_yields_exactly_n_particles_with_valid_radii() {
    let mut sim = Simulation::new_seeded(1);
    sim.reset(50);
    assert_eq!(sim.particles.len(), 50);
    assert_eq!(sim.particle_count, 50);
    for p in sim.particles.iter() {
        assert!(sim.min_radius <= p.radius && p.radius <= sim.max_radius);
        let cube = fx_mul(fx_mul(p.radius, p.radius), p.radius);
        assert_eq!(p.mass, if cube < 1 { 1 } else { cube });
        assert!(0 <= p.color.x && p.color.x < 1_000_000);
        assert!(0 <= p.color.y && p.color.y < 1_000_000);
        assert!(0 <= p.color.z && p.color.z < 1_000_000);
    }
}

#[test]
fn reset_zero_is_legal_and_empty() {
    let mut sim = Simulation::new_seeded(1);
    sim.reset(0);
    assert_eq!(sim.particles.len(), 0);
    assert_eq!(sim.fps(), 60_000_000);
    sim.advance(1_000_000);
    sim.advance(2_000_000);
    assert_eq!(sim.particles.len(), 0);
}

#[test]
fn radius_range_scales_as_inverse_square_root() {
    let mut sim = Simulation::new_seeded(1);
    sim.reset(50);
    let max50 = sim.max_radius;
    assert_eq!(sim.min_radius, 84_852);
    assert_eq!(max50, 339_408);
    sim.reset(200);
    let max200 = sim.max_radius;
    assert_eq!(sim.min_radius, 42_426);
    assert_eq!(max200, 169_704);
    // quadrupling the count exactly halves the range here
    assert_eq!(2 * max200, max50);
    // perfect squares come out exactly
    sim.reset(100);
    assert_eq!(sim.min_radius, 60_000);
    sim.reset(400);
    assert_eq!(sim.min_radius, 30_000);
}

#[test]
fn first_advance_after_reset_changes_nothing_physical() {
    let mut sim = Simulation::new_seeded(3);
    sim.reset(1);
    sim.particles[0] = Particle {
        position: V3 { x: 0, y: 0, z: 0 },
        velocity: V3 { x: 300_000, y: 400_000, z: 0 },
        radius: 200_000,
        mass: 8_000,
        color: V3 { x: 0, y: 0, z: 0 },
    };
    sim.advance(5_000_000);
    let p = sim.particles[0];
    assert_eq!((p.position.x, p.position.y, p.position.z), (0, 0, 0));
    assert_eq!((p.velocity.x, p.velocity.y, p.velocity.z), (300_000, 400_000, 0));
    // the first call only establishes the baseline: no frame counted
    assert_eq!(sim.fps(), 60_000_000);
}

#[test]
fn first_advance_keeps_all_positions() {
    let mut sim = Simulation::new_seeded(11);
    sim.reset(40);
    let before: Vec<(i64, i64, i64)> = sim
        .particles
        .iter()
        .map(|p| (p.position.x, p.position.y, p.position.z))
        .collect();
    sim.advance(2_000_000);
    let after: Vec<(i64, i64, i64)> = sim
        .particles
        .iter()
        .map(|p| (p.position.x, p.position.y, p.position.z))
        .collect();
    assert_eq!(before, after);
}

#[test]
fn wall_bounce_reflects_and_scales_velocity() {
    let mut sim = Simulation::new_seeded(5);
    sim.reset(1);
    sim.particles[0] = Particle {
        position: V3 { x: 1_799_999, y: 0, z: 0 },
        velocity: V3 { x: 1_000_000, y: 0, z: 0 },
        radius: 200_000,
        mass: 8_000,
        color: V3 { x: 0, y: 0, z: 0 },
    };
    // the baseline frame has a zero delta and the particle is one
    // micro-unit short of touching, so nothing changes yet
    sim.advance(1_000_000);
    assert_eq!(sim.particles[0].velocity.x, 1_000_000);
    sim.advance(1_016_667);
    let p = sim.particles[0];
    // dt = 16_667: the centre moved into wall contact, drag shaved the
    // outward speed, and the wall reflected it scaled by 0.6
    assert_eq!(p.position.x, 1_816_666);
    assert_eq!(p.velocity.x, -597_500);
}

#[test]
fn fps_is_sixty_on_a_fresh_reset() {
    let mut sim = Simulation::new_seeded(9);
    sim.reset(20);
    assert_eq!(sim.fps(), 60_000_000);
}

#[test]
fn fps_reports_frames_over_time() {
    let mut sim = Simulation::new_seeded(9);
    sim.reset(2);
    sim.advance(1_000_000);
    sim.advance(1_500_000);
    sim.advance(2_000_000);
    // two frames over one second
    assert_eq!(sim.fps(), 2_000_000);
}

#[test]
fn identical_runs_are_bit_identical() {
    let mut a = Simulation::new_seeded(42);
    let mut b = Simulation::new_seeded(42);
    a.reset(30);
    b.reset(30);
    for t in [1_000_000i64, 1_016_667, 1_033_334, 1_050_001, 1_066_668] {
        a.advance(t);
        b.advance(t);
    }
    assert_eq!(a.particles, b.particles);
    assert_eq!(a.fps(), b.fps());
}

#[test]
fn different_seeds_give_different_scenes() {
    let mut a = Simulation::new_seeded(1);
    let mut b = Simulation::new_seeded(2);
    a.reset(10);
    b.reset(10);
    assert_ne!(a.particles, b.particles);
}

#[test]
fn repeat_keeps_the_count_and_rerandomizes() {
    let mut sim = Simulation::new_seeded(8);
    sim.reset(25);
    sim.advance(1_000_000);
    sim.advance(1_500_000);
    let before = sim.particles.clone();
    sim.repeat();
    assert_eq!(sim.particles.len(), 25);
    assert_eq!(sim.particle_count, 25);
    assert_eq!(sim.fps(), 60_000_000);
    assert_ne!(sim.particles, before);
}

#[test]
fn dropped_particle_falls_and_bounces() {
    let mut sim = Simulation::new_seeded(7);
    sim.reset(1);
    sim.particles[0] = Particle {
        position: V3 { x: 0, y: 0, z: 0 },
        velocity: V3 { x: 0, y: 0, z: 0 },
        radius: 200_000,
        mass: 8_000,
        color: V3 { x: 0, y: 0, z: 0 },
    };
    let dt: i64 = 16_667;
    let mut t: i64 = 1_000_000;
    sim.advance(t);
    // gravity pulls the particle down
    t += dt;
    sim.advance(t);
    assert!(sim.particles[0].velocity.z < 0);
    assert_eq!(sim.particles[0].velocity.x, 0);
    assert_eq!(sim.particles[0].velocity.y, 0);
    let mut bounced = false;
    for _ in 0..600 {
        let before = sim.particles[0];
        t += dt;
        sim.advance(t);
        let after = sim.particles[0];
        if before.velocity.z < 0 && after.velocity.z > 0 {
            // reconstruct the pre-wall velocity of that frame: gravity,
            // then drag, on the velocity the frame started with
            let k = fx_mul(
                50_000,
                particles::fixed::fx_div(fx_mul(before.radius, before.radius), before.mass),
            );
            let vz1 = fx_add(before.velocity.z, fx_mul(-9_806_650, dt));
            let dragged = fx_sub(vz1, fx_mul(fx_mul(k, vz1), dt));
            assert_eq!(after.velocity.z, fx_mul(-600_000, dragged));
            assert!(after.position.z <= -1_600_000);
            bounced = true;
            break;
        }
    }
    assert!(bounced);
    // a single particle never collides with anything
    assert_eq!(sim.particles.len(), 1);
    assert_eq!(sim.particles[0].velocity.x, 0);
    assert_eq!(sim.particles[0].velocity.y, 0);
}

#[test]
fn masses_are_exact_cubes_up_to_the_documented_count() {
    let mut sim = Simulation::new_seeded(13);
    sim.reset(3600);
    assert!(sim.min_radius >= 10_000);
    for p in sim.particles.iter() {
        assert_eq!(p.mass, fx_mul(fx_mul(p.radius, p.radius), p.radius));
        assert!(p.mass >= 1);
    }
    sim.advance(1_000_000);
    sim.advance(1_016_667);
    assert_eq!(sim.particles.len(), 3600);
}

#[test]
fn masses_stay_positive_beyond_the_precision_floor() {
    // at this count the cube of the smallest radii truncates to zero,
    // and the mass floor of one micro-unit takes over
    let mut sim = Simulation::new_seeded(17);
    sim.reset(100_000);
    assert!(sim.min_radius < 10_000);
    for p in sim.particles.iter() {
        assert!(p.mass >= 1);
    }
}

#[test]
fn fps_falls_back_to_sixty_on_zero_elapsed_time() {
    // two frames at one repeated timestamp count a frame with a zero
    // delta; the ratio has no finite value, so the fallback applies
    let mut sim = Simulation::new_seeded(21);
    sim.reset(2);
    sim.advance(1_000_000);
    sim.advance(1_000_000);
    assert_eq!(sim.fps(), 60_000_000);
}
