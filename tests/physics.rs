use particle_physics::body::{Bond, Particle, Rectangle};
use particle_physics::contact::{collide_particles, particle_hits_wall, particles_in_contact};
use particle_physics::element::{Color, Element};
use particle_physics::geometry::{Vec2, COORD_LIMIT};
use particle_physics::solver::MAX_ITERATIONS;
use particle_physics::step::update_particles;

fn v(x: i64, y: i64) -> Vec2 {
    Vec2 { x, y }
}

fn particle(element: Element, position: Vec2, velocity: Vec2) -> Particle {
    Particle { position, velocity, element }
}

fn wall(position: Vec2, size: Vec2) -> Rectangle {
    Rectangle { position, color: Color { r: 25, g: 25, b: 25 }, size }
}

fn momentum(ps: &[Particle]) -> (i128, i128) {
    let mut m = (0i128, 0i128);
    for p in ps {
        m.0 += p.mass() as i128 * p.velocity.x as i128;
        m.1 += p.mass() as i128 * p.velocity.y as i128;
    }
    m
}

fn energy(ps: &[Particle]) -> f64 {
    ps.iter()
        .map(|p| {
            let (x, y) = (p.velocity.x as f64, p.velocity.y as f64);
            0.5 * p.mass() as f64 * (x * x + y * y)
        })
        .sum()
}

#[test]
fn head_on_equal_masses_swap_velocities() {
    let mut ps = vec![
        particle(Element::Hydrogen, v(-1, 0), v(1, 0)),
        particle(Element::Hydrogen, v(1, 0), v(-1, 0)),
    ];
    let mut bonds = vec![];
    let report = update_particles(&mut ps, &mut bonds, &[], 3);
    assert_eq!(ps[0].velocity, v(-1, 0));
    assert_eq!(ps[1].velocity, v(1, 0));
    assert_eq!(ps[0].position, v(-4, 0));
    assert_eq!(ps[1].position, v(4, 0));
    assert!(report.converged);
    assert_eq!(report.iterations, 2);
}

#[test]
fn collision_keeps_momentum() {
    let p = particle(Element::Hydrogen, v(0, 0), v(30000, 5000));
    let q = particle(Element::Oxygen, v(1500, 800), v(-2000, 0));
    assert!(particles_in_contact(&p, &q));
    let (a, b) = collide_particles(&p, &q);
    assert_ne!(a.velocity, p.velocity);
    let (before, after) = (momentum(&[p, q]), momentum(&[a, b]));
    assert!((after.0 - before.0).abs() < 17 && (after.1 - before.1).abs() < 17);
    assert_eq!(a.position, p.position);
    assert_eq!(b.position, q.position);
}

#[test]
fn collision_keeps_energy_within_rounding() {
    let p = particle(Element::Hydrogen, v(0, 0), v(30000, 5000));
    let q = particle(Element::Oxygen, v(1500, 800), v(-2000, 0));
    let (a, b) = collide_particles(&p, &q);
    let before = energy(&[p, q]);
    let after = energy(&[a, b]);
    assert!((after - before).abs() <= before * 1e-3, "{before} {after}");
}

#[test]
fn step_keeps_momentum_of_isolated_pair() {
    let mut ps = vec![
        particle(Element::Oxygen, v(0, 0), v(700, -300)),
        particle(Element::Hydrogen, v(2000, 1000), v(-9000, -4000)),
    ];
    let before = momentum(&ps);
    let mut bonds = vec![];
    let report = update_particles(&mut ps, &mut bonds, &[], 0);
    assert!(report.converged);
    assert_ne!(ps[1].velocity, v(-9000, -4000));
    let after = momentum(&ps);
    let slack = 17 * report.iterations as i128;
    assert!((after.0 - before.0).abs() < slack && (after.1 - before.1).abs() < slack);
}

#[test]
fn wall_reverses_head_on_particle() {
    let walls = [wall(v(800, 0), v(1000, 10000))];
    let mut ps = vec![particle(Element::Hydrogen, v(0, 0), v(5000, 0))];
    let mut bonds = vec![];
    let report = update_particles(&mut ps, &mut bonds, &walls, 1);
    assert_eq!(ps[0].velocity, v(-5000, 0));
    assert_eq!(ps[0].position, v(-5000, 0));
    assert!(report.converged);
    assert_eq!(report.iterations, 2);
}

#[test]
fn wall_reverses_vertical_axis_and_keeps_the_other() {
    let walls = [wall(v(0, -800), v(10000, 1000))];
    let mut ps = vec![particle(Element::Hydrogen, v(0, 0), v(300, -5000))];
    let mut bonds = vec![];
    update_particles(&mut ps, &mut bonds, &walls, 0);
    assert_eq!(ps[0].velocity, v(300, 5000));
}

#[test]
fn particle_sliding_along_wall_is_unaffected() {
    let walls = [wall(v(800, 0), v(1000, 10000))];
    let p = particle(Element::Hydrogen, v(0, 0), v(0, 5000));
    assert!(!particle_hits_wall(&p, &walls[0]));
    let mut ps = vec![p];
    let mut bonds = vec![];
    let report = update_particles(&mut ps, &mut bonds, &walls, 2);
    assert_eq!(ps[0].velocity, v(0, 5000));
    assert_eq!(ps[0].position, v(0, 10000));
    assert_eq!(report.iterations, 1);
}

#[test]
fn scene_without_overlap_converges_at_once() {
    let walls = [wall(v(0, -20000), v(40000, 1000))];
    let mut ps = vec![
        particle(Element::Hydrogen, v(-5000, 0), v(100, 0)),
        particle(Element::Oxygen, v(5000, 0), v(-100, 0)),
    ];
    let mut bonds = vec![];
    let report = update_particles(&mut ps, &mut bonds, &walls, 1);
    assert_eq!(report.iterations, 1);
    assert!(report.converged);
    assert_eq!(ps[0].velocity, v(100, 0));
    assert_eq!(ps[1].velocity, v(-100, 0));
}

#[test]
fn squeezed_stack_reaches_iteration_cap() {
    // Three mutually overlapping particles in a channel narrower than they are.
    let walls = [wall(v(-700, 0), v(400, 100000)), wall(v(700, 0), v(400, 100000))];
    let mut ps = vec![
        particle(Element::Hydrogen, v(0, -400), v(1000, 300)),
        particle(Element::Hydrogen, v(0, 0), v(1000, 0)),
        particle(Element::Hydrogen, v(0, 400), v(1000, -300)),
    ];
    let mut bonds = vec![];
    let report = update_particles(&mut ps, &mut bonds, &walls, 0);
    assert!(!report.converged);
    assert_eq!(report.iterations, MAX_ITERATIONS);
    for p in &ps {
        assert!(p.velocity.x.abs() <= COORD_LIMIT && p.velocity.y.abs() <= COORD_LIMIT);
    }
    let again = update_particles(&mut ps, &mut bonds, &walls, 0);
    assert!(!again.converged);
}

#[test]
fn stretched_bond_breaks() {
    let mut ps = vec![
        particle(Element::Hydrogen, v(0, 0), v(0, 0)),
        particle(Element::Hydrogen, v(5000, 0), v(0, 0)),
    ];
    let mut bonds = vec![Bond { a: 0, b: 1 }];
    update_particles(&mut ps, &mut bonds, &[], 10);
    assert!(bonds.is_empty());
    assert_eq!(ps[0].velocity, v(0, 0));
    assert_eq!(ps[1].velocity, v(0, 0));
    update_particles(&mut ps, &mut bonds, &[], 10);
    assert!(bonds.is_empty());
    assert_eq!(ps[1].position, v(5000, 0));
}

#[test]
fn holding_bond_pulls_pair_together() {
    let mut ps = vec![
        particle(Element::Hydrogen, v(0, 0), v(0, 0)),
        particle(Element::Hydrogen, v(1700, 0), v(0, 0)),
    ];
    let mut bonds = vec![Bond { a: 0, b: 1 }];
    update_particles(&mut ps, &mut bonds, &[], 1000);
    assert_eq!(bonds, vec![Bond { a: 0, b: 1 }]);
    assert_eq!(ps[0].velocity, v(4, 0));
    assert_eq!(ps[1].velocity, v(-4, 0));
    assert_eq!(ps[0].position, v(4000, 0));
    assert_eq!(ps[1].position, v(-2300, 0));
}

#[test]
fn only_breaking_bonds_are_removed_in_order() {
    let mut ps = vec![
        particle(Element::Hydrogen, v(0, 0), v(0, 0)),
        particle(Element::Oxygen, v(0, 100000), v(0, 0)),
        particle(Element::Hydrogen, v(1700, 0), v(0, 0)),
        particle(Element::Hydrogen, v(-100000, 0), v(0, 0)),
    ];
    let mut bonds = vec![Bond { a: 0, b: 1 }, Bond { a: 0, b: 2 }, Bond { a: 3, b: 1 }, Bond { a: 2, b: 3 }];
    update_particles(&mut ps, &mut bonds, &[], 1);
    assert_eq!(bonds, vec![Bond { a: 0, b: 2 }]);
}

#[test]
fn free_motion_is_exact() {
    let mut ps = vec![
        particle(Element::Hydrogen, v(-10000, 3), v(7, -11)),
        particle(Element::Oxygen, v(10000, -5), v(-13, 17)),
    ];
    let mut bonds = vec![];
    let report = update_particles(&mut ps, &mut bonds, &[], 250);
    assert_eq!(ps[0].position, v(-10000 + 7 * 250, 3 - 11 * 250));
    assert_eq!(ps[1].position, v(10000 - 13 * 250, -5 + 17 * 250));
    assert_eq!(ps[0].velocity, v(7, -11));
    assert_eq!(report.iterations, 1);
}

#[test]
fn coincident_centres_are_left_alone() {
    let mut ps = vec![
        particle(Element::Hydrogen, v(0, 0), v(10, 0)),
        particle(Element::Hydrogen, v(0, 0), v(-10, 0)),
    ];
    let mut bonds = vec![];
    let report = update_particles(&mut ps, &mut bonds, &[], 0);
    assert_eq!(ps[0].velocity, v(10, 0));
    assert_eq!(ps[1].velocity, v(-10, 0));
    assert_eq!(report.iterations, 1);
}

#[test]
fn positions_stay_within_limits() {
    let mut ps = vec![particle(Element::Hydrogen, v(COORD_LIMIT - 5, 0), v(COORD_LIMIT, 0))];
    let mut bonds = vec![];
    update_particles(&mut ps, &mut bonds, &[], 1000);
    assert_eq!(ps[0].position, v(COORD_LIMIT, 0));
}

#[test]
fn empty_scene_converges() {
    let mut ps: Vec<Particle> = vec![];
    let mut bonds = vec![];
    let report = update_particles(&mut ps, &mut bonds, &[], 5);
    assert_eq!(report.iterations, 1);
    assert!(report.converged);
}

#[test]
fn bond_between_unequal_masses_keeps_momentum() {
    let mut ps = vec![
        particle(Element::Hydrogen, v(0, 0), v(0, 0)),
        particle(Element::Oxygen, v(3500, 0), v(0, 0)),
    ];
    let mut bonds = vec![Bond { a: 0, b: 1 }];
    update_particles(&mut ps, &mut bonds, &[], 1000);
    assert_eq!(bonds.len(), 1);
    assert_eq!(ps[0].velocity, v(32, 0));
    assert_eq!(ps[1].velocity, v(-2, 0));
    assert_eq!(momentum(&ps), (0, 0));
}

fn kinetic2(p: &Particle) -> i128 {
    let (x, y) = (p.velocity.x as i128, p.velocity.y as i128);
    p.mass() as i128 * (x * x + y * y)
}

#[test]
fn collision_changes_follow_the_elastic_rule() {
    let p = particle(Element::Hydrogen, v(0, 0), v(30000, 5000));
    let q = particle(Element::Oxygen, v(1500, 800), v(-2000, 0));
    let (a, b) = collide_particles(&p, &q);
    assert_eq!(a.velocity, v(-20803, -22095));
    assert_eq!(b.velocity, v(1175, 1693));
}

#[test]
fn oxygen_head_on_swaps_velocities() {
    let mut ps = vec![
        particle(Element::Oxygen, v(-1000, 0), v(1, 0)),
        particle(Element::Oxygen, v(1000, 0), v(-1, 0)),
    ];
    let mut bonds = vec![];
    let report = update_particles(&mut ps, &mut bonds, &[], 500);
    assert_eq!(ps[0].velocity, v(-1, 0));
    assert_eq!(ps[1].velocity, v(1, 0));
    assert_eq!(ps[0].position, v(-1500, 0));
    assert_eq!(ps[1].position, v(1500, 0));
    assert!(report.converged);
    assert_eq!(report.iterations, 2);
}

#[test]
fn hydrogen_oxygen_slow_contact_is_resolved() {
    let mut ps = vec![
        particle(Element::Hydrogen, v(-1500, 0), v(1, 0)),
        particle(Element::Oxygen, v(1000, 0), v(0, 0)),
    ];
    let mut bonds = vec![];
    let report = update_particles(&mut ps, &mut bonds, &[], 0);
    assert!(report.converged);
    assert_eq!(ps[0].velocity, v(0, 0));
    assert_eq!(ps[1].velocity, v(0, 0));
}

#[test]
fn contact_below_velocity_resolution_converges() {
    let mut ps = vec![
        particle(Element::Hydrogen, v(0, 0), v(1, 0)),
        particle(Element::Hydrogen, v(1, 1000), v(0, 0)),
    ];
    let mut bonds = vec![];
    let report = update_particles(&mut ps, &mut bonds, &[], 0);
    assert!(report.converged);
    assert_eq!(report.iterations, 1);
    assert_eq!(ps[0].velocity, v(1, 0));
}
