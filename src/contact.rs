use vstd::prelude::*;
use crate::body::{Particle, Rectangle};
use crate::element::{mass_of, radius_of};
use crate::geometry::{
    COORD_LIMIT, Vec2, clamp_i128, clamp_spec, coord_in_limits, dist2, dot, lemma_mul_within, lemma_trunc_div_bound, norm2, trunc_div,
    trunc_div_i128,
};

verus! {

/// The centres differ and lie closer than the sum of the radii. Particles
/// with coincident centres have no direction between them and are never in
/// contact.
pub open spec fn overlapping(p: Particle, q: Particle) -> bool {
    let d2 = dist2(p.position, q.position);
    0 < d2 && d2 < (p.radius_spec() + q.radius_spec()) * (p.radius_spec() + q.radius_spec())
}

/// The two particles approach each other along the line of their centres.
pub open spec fn closing(p: Particle, q: Particle) -> bool {
    dot(
        p.velocity.x - q.velocity.x,
        p.velocity.y - q.velocity.y,
        p.position.x - q.position.x,
        p.position.y - q.position.y,
    ) < 0
}

/// An overlapping, closing pair, which the solver resolves.
pub open spec fn in_contact(p: Particle, q: Particle) -> bool {
    overlapping(p, q) && closing(p, q)
}

/// The velocity changes of an elastic collision between point masses, each
/// rounded toward zero on its own: with `d = x_p - x_q`, `a = (v_p - v_q) . d`
/// and `D = (m_p + m_q) |d|^2`, `p` loses `m_q 2 d a / D` and `q` gains
/// `m_p 2 d a / D`. Gives the loss of `p` and the gain of `q`, per axis.
pub open spec fn velocity_changes(p: Particle, q: Particle) -> (int, int, int, int) {
    let dx = p.position.x - q.position.x;
    let dy = p.position.y - q.position.y;
    let a = dot(p.velocity.x - q.velocity.x, p.velocity.y - q.velocity.y, dx, dy);
    let den = (p.mass_spec() + q.mass_spec()) * norm2(dx, dy);
    (
        trunc_div(q.mass_spec() * (2 * dx * a), den),
        trunc_div(q.mass_spec() * (2 * dy * a), den),
        trunc_div(p.mass_spec() * (2 * dx * a), den),
        trunc_div(p.mass_spec() * (2 * dy * a), den),
    )
}

pub open spec fn with_velocity(p: Particle, vx: int, vy: int) -> Particle {
    Particle { velocity: Vec2 { x: vx as i64, y: vy as i64 }, ..p }
}

/// The pair after an elastic collision, or unchanged where a resulting
/// velocity would leave the coordinate limits.
pub open spec fn collide(p: Particle, q: Particle) -> (Particle, Particle) {
    let (dpx, dpy, dqx, dqy) = velocity_changes(p, q);
    let pvx = p.velocity.x - dpx;
    let pvy = p.velocity.y - dpy;
    let qvx = q.velocity.x + dqx;
    let qvy = q.velocity.y + dqy;
    if coord_in_limits(pvx) && coord_in_limits(pvy) && coord_in_limits(qvx) && coord_in_limits(
        qvy,
    ) {
        (with_velocity(p, pvx, pvy), with_velocity(q, qvx, qvy))
    } else {
        (p, q)
    }
}

/// Whether `p` and `q` overlap and approach each other.
pub fn particles_in_contact(p: &Particle, q: &Particle) -> (r: bool)
    requires
        p.wf(),
        q.wf(),
    ensures
        r == in_contact(*p, *q),
{
    let dx = p.position.x as i128 - q.position.x as i128;
    let dy = p.position.y as i128 - q.position.y as i128;
    let rx = p.velocity.x as i128 - q.velocity.x as i128;
    let ry = p.velocity.y as i128 - q.velocity.y as i128;
    proof {
        let l = 0x8000_0000int;
        lemma_mul_within(dx as int, dx as int, l, l);
        lemma_mul_within(dy as int, dy as int, l, l);
        lemma_mul_within(rx as int, dx as int, l, l);
        lemma_mul_within(ry as int, dy as int, l, l);
    }
    let d2 = dx * dx + dy * dy;
    let reach = p.radius() as i128 + q.radius() as i128;
    if d2 == 0 || d2 >= reach * reach {
        return false;
    }
    rx * dx + ry * dy < 0
}

/// Bounds on the factors of an elastic exchange between particles in limits.
proof fn lemma_exchange_bounds(p: Particle, q: Particle)
    requires
        p.wf(),
        q.wf(),
    ensures
        ({
            let dx = p.position.x - q.position.x;
            let dy = p.position.y - q.position.y;
            let a = dot(p.velocity.x - q.velocity.x, p.velocity.y - q.velocity.y, dx, dy);
            &&& -0x1_0000_0000_0000_0000 < a < 0x1_0000_0000_0000_0000
            &&& -0x1_0000_0000_0000_0000_0000_0000 < 2 * dx * a
                < 0x1_0000_0000_0000_0000_0000_0000
            &&& -0x1_0000_0000_0000_0000_0000_0000 < 2 * dy * a
                < 0x1_0000_0000_0000_0000_0000_0000
            &&& 0 <= norm2(dx, dy) < 0x1_0000_0000_0000_0000
        }),
{
    let dx = p.position.x - q.position.x;
    let dy = p.position.y - q.position.y;
    let rx = p.velocity.x - q.velocity.x;
    let ry = p.velocity.y - q.velocity.y;
    let l = 0x8000_0000int;
    assert(-l <= dx <= l && -l <= dy <= l && -l <= rx <= l && -l <= ry <= l);
    assert(-l * l <= rx * dx <= l * l) by (nonlinear_arith)
        requires -l <= dx <= l, -l <= rx <= l, l > 0;
    assert(-l * l <= ry * dy <= l * l) by (nonlinear_arith)
        requires -l <= dy <= l, -l <= ry <= l, l > 0;
    let a = rx * dx + ry * dy;
    assert(-2 * l * l <= a <= 2 * l * l);
    assert(-2 * l * l * l <= dx * a <= 2 * l * l * l) by (nonlinear_arith)
        requires -l <= dx <= l, -2 * l * l <= a <= 2 * l * l, l > 0;
    assert(-2 * l * l * l <= dy * a <= 2 * l * l * l) by (nonlinear_arith)
        requires -l <= dy <= l, -2 * l * l <= a <= 2 * l * l, l > 0;
    assert(0 <= dx * dx <= l * l) by (nonlinear_arith)
        requires -l <= dx <= l;
    assert(0 <= dy * dy <= l * l) by (nonlinear_arith)
        requires -l <= dy <= l;
    assert(2 * dx * a == 2 * (dx * a)) by (nonlinear_arith);
    assert(2 * dy * a == 2 * (dy * a)) by (nonlinear_arith);
}

/// Resolves an elastic collision between two particles in contact.
pub fn collide_particles(p: &Particle, q: &Particle) -> (r: (Particle, Particle))
    requires
        p.wf(),
        q.wf(),
        in_contact(*p, *q),
    ensures
        r == collide(*p, *q),
        r.0.wf(),
        r.1.wf(),
{
    proof {
        lemma_exchange_bounds(*p, *q);
    }
    let mp = p.mass() as i128;
    let mq = q.mass() as i128;
    let dx = p.position.x as i128 - q.position.x as i128;
    let dy = p.position.y as i128 - q.position.y as i128;
    let rx = p.velocity.x as i128 - q.velocity.x as i128;
    let ry = p.velocity.y as i128 - q.velocity.y as i128;
    proof {
        let l = 0x8000_0000int;
        lemma_mul_within(dx as int, dx as int, l, l);
        lemma_mul_within(dy as int, dy as int, l, l);
        lemma_mul_within(rx as int, dx as int, l, l);
        lemma_mul_within(ry as int, dy as int, l, l);
    }
    let a = rx * dx + ry * dy;
    let d2 = dx * dx + dy * dy;
    assert((mp + mq) * d2 <= 32 * d2) by (nonlinear_arith)
        requires mp + mq <= 32, d2 >= 0;
    let den = (mp + mq) * d2;
    assert(den >= 1) by (nonlinear_arith)
        requires mp + mq >= 2, d2 >= 1, den == (mp + mq) * d2;
    let big = 0x1_0000_0000_0000_0000_0000_0000i128;
    let nx = 2 * dx * a;
    let ny = 2 * dy * a;
    assert(-16 * big <= mq * nx <= 16 * big && -16 * big <= mp * nx <= 16 * big) by (
    nonlinear_arith)
        requires 1 <= mq <= 16, 1 <= mp <= 16, -big <= nx <= big;
    assert(-16 * big <= mq * ny <= 16 * big && -16 * big <= mp * ny <= 16 * big) by (
    nonlinear_arith)
        requires 1 <= mq <= 16, 1 <= mp <= 16, -big <= ny <= big;
    let dpx = trunc_div_i128(mq * nx, den);
    let dpy = trunc_div_i128(mq * ny, den);
    let dqx = trunc_div_i128(mp * nx, den);
    let dqy = trunc_div_i128(mp * ny, den);
    proof {
        lemma_trunc_div_bound(mq * nx, den as int);
        lemma_trunc_div_bound(mq * ny, den as int);
        lemma_trunc_div_bound(mp * nx, den as int);
        lemma_trunc_div_bound(mp * ny, den as int);
    }
    let pvx = p.velocity.x as i128 - dpx;
    let pvy = p.velocity.y as i128 - dpy;
    let qvx = q.velocity.x as i128 + dqx;
    let qvy = q.velocity.y as i128 + dqy;
    let limit = COORD_LIMIT as i128;
    if -limit <= pvx && pvx <= limit && -limit <= pvy && pvy <= limit && -limit <= qvx && qvx
        <= limit && -limit <= qvy && qvy <= limit {
        let np = Particle { velocity: Vec2 { x: pvx as i64, y: pvy as i64 }, ..*p };
        let nq = Particle { velocity: Vec2 { x: qvx as i64, y: qvy as i64 }, ..*q };
        (np, nq)
    } else {
        (*p, *q)
    }
}


/// Twice the vector from the particle's centre to the nearest point of the
/// wall (doubling keeps half sizes whole).
pub open spec fn wall_normal(p: Particle, w: Rectangle) -> (int, int) {
    let rx = 2 * (p.position.x - w.position.x);
    let ry = 2 * (p.position.y - w.position.y);
    (clamp_spec(rx, w.size.x as int) - rx, clamp_spec(ry, w.size.y as int) - ry)
}

/// The nearest point of the wall lies strictly inside the particle's disk.
pub open spec fn touching_wall(p: Particle, w: Rectangle) -> bool {
    let (nx, ny) = wall_normal(p, w);
    norm2(nx, ny) < 4 * p.radius_spec() * p.radius_spec()
}

/// The particle moves toward the nearest point of the wall.
pub open spec fn moving_into_wall(p: Particle, w: Rectangle) -> bool {
    let (nx, ny) = wall_normal(p, w);
    dot(nx, ny, p.velocity.x as int, p.velocity.y as int) > 0
}

pub open spec fn wall_contact(p: Particle, w: Rectangle) -> bool {
    touching_wall(p, w) && moving_into_wall(p, w)
}

/// The particle with its velocity mirrored across the wall's surface:
/// `v - 2 (v . n) n / |n|^2`, each axis of the correction rounded toward
/// zero; unchanged where the result would leave the coordinate limits.
pub open spec fn reflect(p: Particle, w: Rectangle) -> Particle {
    let (nx, ny) = wall_normal(p, w);
    let k = 2 * dot(nx, ny, p.velocity.x as int, p.velocity.y as int);
    let n2 = norm2(nx, ny);
    let vx = p.velocity.x - trunc_div(k * nx, n2);
    let vy = p.velocity.y - trunc_div(k * ny, n2);
    if coord_in_limits(vx) && coord_in_limits(vy) {
        with_velocity(p, vx, vy)
    } else {
        p
    }
}

/// Twice the nearest point of the wall minus twice the particle's centre,
/// relative to the wall's centre.
fn compute_wall_normal(p: &Particle, w: &Rectangle) -> (r: (i128, i128))
    requires
        p.wf(),
        w.wf(),
    ensures
        (r.0 as int, r.1 as int) == wall_normal(*p, *w),
        -0x2_0000_0000 <= r.0 <= 0x2_0000_0000,
        -0x2_0000_0000 <= r.1 <= 0x2_0000_0000,
{
    let rx = 2 * (p.position.x as i128 - w.position.x as i128);
    let ry = 2 * (p.position.y as i128 - w.position.y as i128);
    let cx = clamp_i128(rx, w.size.x as i128);
    let cy = clamp_i128(ry, w.size.y as i128);
    (cx - rx, cy - ry)
}

/// Whether the particle penetrates the wall and moves into it.
pub fn particle_hits_wall(p: &Particle, w: &Rectangle) -> (r: bool)
    requires
        p.wf(),
        w.wf(),
    ensures
        r == wall_contact(*p, *w),
{
    let (nx, ny) = compute_wall_normal(p, w);
    let rad = p.radius() as i128;
    proof {
        let l = 0x2_0000_0000int;
        lemma_mul_within(nx as int, nx as int, l, l);
        lemma_mul_within(ny as int, ny as int, l, l);
        lemma_mul_within(nx as int, p.velocity.x as int, l, l);
        lemma_mul_within(ny as int, p.velocity.y as int, l, l);
    }
    let n2 = nx * nx + ny * ny;
    if n2 >= 4 * rad * rad {
        return false;
    }
    nx * (p.velocity.x as i128) + ny * (p.velocity.y as i128) > 0
}

/// Reflects the velocity of a particle that hits a wall.
pub fn reflect_off_wall(p: &Particle, w: &Rectangle) -> (r: Particle)
    requires
        p.wf(),
        w.wf(),
        wall_contact(*p, *w),
    ensures
        r == reflect(*p, *w),
        r.wf(),
{
    let (nx, ny) = compute_wall_normal(p, w);
    let vx = p.velocity.x as i128;
    let vy = p.velocity.y as i128;
    let l = 0x2_0000_0000i128;
    proof {
        lemma_mul_within(nx as int, nx as int, l as int, l as int);
        lemma_mul_within(ny as int, ny as int, l as int, l as int);
        lemma_mul_within(nx as int, vx as int, l as int, l as int);
        lemma_mul_within(ny as int, vy as int, l as int, l as int);
    }
    let k = 2 * (nx * vx + ny * vy);
    let n2 = nx * nx + ny * ny;
    proof {
        let kl = 4 * l * l;
        lemma_mul_within(k as int, nx as int, kl as int, l as int);
        lemma_mul_within(k as int, ny as int, kl as int, l as int);
        if nx == 0 && ny == 0 {
            assert(nx * vx + ny * vy == 0) by (nonlinear_arith)
                requires nx == 0, ny == 0;
        }
        if nx != 0 {
            assert(nx * nx >= 1) by (nonlinear_arith)
                requires nx != 0;
        }
        if ny != 0 {
            assert(ny * ny >= 1) by (nonlinear_arith)
                requires ny != 0;
        }
    }
    let cx = trunc_div_i128(k * nx, n2);
    let cy = trunc_div_i128(k * ny, n2);
    proof {
        lemma_trunc_div_bound(k * nx, n2 as int);
        lemma_trunc_div_bound(k * ny, n2 as int);
    }
    let rvx = vx - cx;
    let rvy = vy - cy;
    let limit = COORD_LIMIT as i128;
    if -limit <= rvx && rvx <= limit && -limit <= rvy && rvy <= limit {
        Particle { velocity: Vec2 { x: rvx as i64, y: rvy as i64 }, ..*p }
    } else {
        *p
    }
}

} // verus!
