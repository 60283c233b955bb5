use particle_physics::arith::floor_sqrt;
use particle_physics::body::{Particle, Rectangle};
use particle_physics::element::{Color, Element};
use particle_physics::geometry::Vec2;
use particle_physics::picking::{pick_object, SelectedObject};

fn at(x: i64, y: i64, element: Element) -> Particle {
    Particle { position: Vec2 { x, y }, velocity: Vec2 { x: 0, y: 0 }, element }
}

#[test]
fn element_table() {
    assert_eq!(Element::Hydrogen.mass(), 1);
    assert_eq!(Element::Oxygen.mass(), 16);
    assert_eq!(Element::Hydrogen.radius(), 564);
    assert_eq!(Element::Oxygen.radius(), 2256);
    assert_eq!(Element::Hydrogen.color(), Color { r: 255, g: 255, b: 255 });
    assert_eq!(Element::Oxygen.color(), Color { r: 255, g: 0, b: 0 });
    assert_eq!(Element::Hydrogen.electrons_to_share(), 1);
    assert_eq!(Element::Oxygen.electrons_to_share(), 2);
}

#[test]
fn particle_properties_follow_element() {
    let p = at(1, 2, Element::Oxygen);
    assert_eq!(p.mass(), 16);
    assert_eq!(p.radius(), 2256);
    assert_eq!(p.color(), Color { r: 255, g: 0, b: 0 });
    assert_eq!(p.electrons_to_share(), 2);
}

#[test]
fn square_roots_round_down() {
    assert_eq!(floor_sqrt(0), 0);
    assert_eq!(floor_sqrt(1), 1);
    assert_eq!(floor_sqrt(15), 3);
    assert_eq!(floor_sqrt(16), 4);
    assert_eq!(floor_sqrt(u64::MAX), 4294967295);
}

#[test]
fn picking_prefers_particles_then_walls() {
    let ps = [at(0, 0, Element::Hydrogen), at(300, 0, Element::Oxygen)];
    let ws = [Rectangle {
        position: Vec2 { x: 5000, y: 0 },
        color: Color { r: 0, g: 0, b: 0 },
        size: Vec2 { x: 1000, y: 2000 },
    }];
    assert_eq!(pick_object(&ps, &ws, Vec2 { x: 100, y: 0 }), Some(SelectedObject::Particle(0)));
    assert_eq!(pick_object(&ps, &ws, Vec2 { x: 2000, y: 0 }), Some(SelectedObject::Particle(1)));
    assert_eq!(pick_object(&ps, &ws, Vec2 { x: 5500, y: 1000 }), Some(SelectedObject::Rectangle(0)));
    assert_eq!(pick_object(&ps, &ws, Vec2 { x: 5501, y: 0 }), None);
    assert_eq!(pick_object(&ps, &ws, Vec2 { x: 0, y: 564 }), Some(SelectedObject::Particle(0)));
}
