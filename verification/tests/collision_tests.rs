use particles::collision::collide;
use particles::particle::Particle;
use particles::vec3::V3;

fn head_on_pair() -> Vec<Particle> {
    let p1 = Particle {
        position: V3 { x: -150_000, y: 0, z: 0 },
        velocity: V3 { x: 1_000_000, y: 0, z: 0 },
        radius: 200_000,
        mass: 8_000,
        color: V3 { x: 0, y: 0, z: 0 },
    };
    let p2 = Particle {
        position: V3 { x: 150_000, y: 0, z: 0 },
        velocity: V3 { x: -1_000_000, y: 0, z: 0 },
        radius: 200_000,
        mass: 8_000,
        color: V3 { x: 0, y: 0, z: 0 },
    };
    vec![p1, p2]
}

#[test]
fn overlapping_approaching_pair_exchanges_impulse() {
    let mut ps = head_on_pair();
    collide(&mut ps, 0, 1);
    assert_eq!(ps[0].velocity.x, -900_000);
    assert_eq!(ps[1].velocity.x, 900_000);
    assert_eq!(ps[0].velocity.y, 0);
    assert_eq!(ps[0].velocity.z, 0);
    // positions are never corrected
    assert_eq!(ps[0].position.x, -150_000);
    assert_eq!(ps[1].position.x, 150_000);
}

#[test]
fn momentum_is_conserved_for_equal_masses() {
    let mut ps = head_on_pair();
    let before = ps[0].velocity.x + ps[1].velocity.x;
    collide(&mut ps, 0, 1);
    let after = ps[0].velocity.x + ps[1].velocity.x;
    assert_eq!(before, after);
}

#[test]
fn closing_speed_becomes_nonpositive() {
    let mut ps = head_on_pair();
    collide(&mut ps, 0, 1);
    // the line of centres is the x axis, so the closing speed along it
    // is v1.x - v2.x; it must not be positive after resolution
    assert!(ps[0].velocity.x - ps[1].velocity.x <= 0);
}

#[test]
fn second_pass_over_resolved_pair_is_a_no_op() {
    let mut ps = head_on_pair();
    collide(&mut ps, 0, 1);
    let snapshot = ps.clone();
    collide(&mut ps, 0, 1);
    assert_eq!(ps, snapshot);
    collide(&mut ps, 1, 0);
    assert_eq!(ps, snapshot);
}

#[test]
fn colliding_a_particle_with_itself_is_a_no_op() {
    let mut ps = head_on_pair();
    let snapshot = ps.clone();
    collide(&mut ps, 0, 0);
    assert_eq!(ps, snapshot);
}

#[test]
fn separated_pair_is_untouched() {
    let mut ps = head_on_pair();
    ps[1].position.x = 1_500_000;
    let snapshot = ps.clone();
    collide(&mut ps, 0, 1);
    assert_eq!(ps, snapshot);
}

#[test]
fn receding_pair_is_untouched() {
    let mut ps = head_on_pair();
    ps[0].velocity.x = -1_000_000;
    ps[1].velocity.x = 1_000_000;
    let snapshot = ps.clone();
    collide(&mut ps, 0, 1);
    assert_eq!(ps, snapshot);
}
