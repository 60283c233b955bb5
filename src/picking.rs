use vstd::prelude::*;
use crate::body::{Particle, Rectangle, particles_wf, walls_wf};
use crate::geometry::{Vec2, dist2, in_limits, lemma_mul_within};

verus! {

/// An object of the scene, by its index in its store.
#[derive(Clone, Copy, Debug, PartialEq, Eq, Structural)]
pub enum SelectedObject {
    Particle(usize),
    Rectangle(usize),
}

/// The point lies on the particle's disk, its rim included.
pub open spec fn particle_covers(p: Particle, point: Vec2) -> bool {
    dist2(point, p.position) <= p.radius_spec() * p.radius_spec()
}

/// The point lies on the wall, its edges included.
pub open spec fn rectangle_covers(w: Rectangle, point: Vec2) -> bool {
    let rx = 2 * (point.x - w.position.x);
    let ry = 2 * (point.y - w.position.y);
    -w.size.x <= rx <= w.size.x && -w.size.y <= ry <= w.size.y
}

/// The first particle that covers the point, else the first wall that does.
pub open spec fn pick(ps: Seq<Particle>, ws: Seq<Rectangle>, point: Vec2) -> Option<
    SelectedObject,
> {
    if exists|i: int| 0 <= i < ps.len() && particle_covers(#[trigger] ps[i], point) {
        let i = choose|i: int|
            0 <= i < ps.len() && particle_covers(#[trigger] ps[i], point) && forall|k: int|
                0 <= k < i ==> !particle_covers(#[trigger] ps[k], point);
        Some(SelectedObject::Particle(i as usize))
    } else if exists|i: int| 0 <= i < ws.len() && rectangle_covers(#[trigger] ws[i], point) {
        let i = choose|i: int|
            0 <= i < ws.len() && rectangle_covers(#[trigger] ws[i], point) && forall|k: int|
                0 <= k < i ==> !rectangle_covers(#[trigger] ws[k], point);
        Some(SelectedObject::Rectangle(i as usize))
    } else {
        None
    }
}

/// Finds the object under `point`: the first particle whose disk holds it,
/// else the first wall that holds it.
pub fn pick_object(particles: &[Particle], rectangles: &[Rectangle], point: Vec2) -> (r: Option<
    SelectedObject,
>)
    requires
        particles_wf(particles@),
        walls_wf(rectangles@),
        in_limits(point),
    ensures
        r == pick(particles@, rectangles@, point),
{
    let mut i: usize = 0;
    while i < particles.len()
        invariant
            0 <= i <= particles@.len(),
            particles_wf(particles@),
            in_limits(point),
            forall|k: int| 0 <= k < i ==> !particle_covers(#[trigger] particles@[k], point),
        decreases particles@.len() - i,
    {
        let p = &particles[i];
        assert(p.wf());
        let dx = point.x as i128 - p.position.x as i128;
        let dy = point.y as i128 - p.position.y as i128;
        proof {
            let l = 0x8000_0000int;
            lemma_mul_within(dx as int, dx as int, l, l);
            lemma_mul_within(dy as int, dy as int, l, l);
        }
        let r = p.radius() as i128;
        if dx * dx + dy * dy <= r * r {
            proof {
                let ps = particles@;
                assert(particle_covers(ps[i as int], point));
                let c = choose|c: int|
                    0 <= c < ps.len() && particle_covers(#[trigger] ps[c], point) && forall|k: int|
                        0 <= k < c ==> !particle_covers(#[trigger] ps[k], point);
                assert(c == i) by {
                    if c < i {
                        assert(!particle_covers(ps[c], point));
                    }
                    if c > i {
                        assert(!particle_covers(ps[i as int], point));
                    }
                }
            }
            return Some(SelectedObject::Particle(i));
        }
        i += 1;
    }
    let mut k: usize = 0;
    while k < rectangles.len()
        invariant
            0 <= k <= rectangles@.len(),
            i == particles@.len(),
            walls_wf(rectangles@),
            in_limits(point),
            forall|m: int| 0 <= m < i ==> !particle_covers(#[trigger] particles@[m], point),
            forall|m: int| 0 <= m < k ==> !rectangle_covers(#[trigger] rectangles@[m], point),
        decreases rectangles@.len() - k,
    {
        let w = &rectangles[k];
        assert(w.wf());
        let rx = 2 * (point.x as i128 - w.position.x as i128);
        let ry = 2 * (point.y as i128 - w.position.y as i128);
        let sx = w.size.x as i128;
        let sy = w.size.y as i128;
        if -sx <= rx && rx <= sx && -sy <= ry && ry <= sy {
            proof {
                let ws = rectangles@;
                assert(rectangle_covers(ws[k as int], point));
                let c = choose|c: int|
                    0 <= c < ws.len() && rectangle_covers(#[trigger] ws[c], point) && forall|m: int|
                        0 <= m < c ==> !rectangle_covers(#[trigger] ws[m], point);
                assert(c == k) by {
                    if c < k {
                        assert(!rectangle_covers(ws[c], point));
                    }
                    if c > k {
                        assert(!rectangle_covers(ws[k as int], point));
                    }
                }
            }
            return Some(SelectedObject::Rectangle(k));
        }
        k += 1;
    }
    None
}

} // verus!
