//! Conservation laws of the contact and bond rules: momentum is kept
//! up to the rounding of the velocity changes, and the exact rule keeps
//! kinetic energy.
use vstd::prelude::*;
use crate::body::{Bond, Particle};
use crate::bonds::{bond_impulse, bond_pull};
use crate::contact::{collide, in_contact, overlapping, velocity_changes};
use crate::geometry::{dot, norm2, trunc_div};

verus! {

/// The momentum of a colliding pair is kept up to the rounding of the two
/// velocity changes: on each axis it moves by less than `m_p + m_q`. Positions
/// and elements stay as they are.
pub proof fn lemma_collision_momentum_within_rounding(p: Particle, q: Particle)
    requires
        overlapping(p, q),
    ensures
        ({
            let (a, b) = collide(p, q);
            let m = p.mass_spec() + q.mass_spec();
            &&& -m < p.mass_spec() * a.velocity.x + q.mass_spec() * b.velocity.x - (p.mass_spec()
                * p.velocity.x + q.mass_spec() * q.velocity.x) < m
            &&& -m < p.mass_spec() * a.velocity.y + q.mass_spec() * b.velocity.y - (p.mass_spec()
                * p.velocity.y + q.mass_spec() * q.velocity.y) < m
        }),
{
    let (mp, mq) = (p.mass_spec(), q.mass_spec());
    let dx = p.position.x - q.position.x;
    let dy = p.position.y - q.position.y;
    let a = dot(p.velocity.x - q.velocity.x, p.velocity.y - q.velocity.y, dx, dy);
    let n2 = norm2(dx, dy);
    let den = (mp + mq) * n2;
    assert(den > 0) by (nonlinear_arith)
        requires den == (mp + mq) * n2, n2 > 0, mp + mq > 0;
    let (dpx, dpy, dqx, dqy) = velocity_changes(p, q);
    lemma_momentum_axis(mp, mq, den, 2 * dx * a, dpx, dqx);
    lemma_momentum_axis(mp, mq, den, 2 * dy * a, dpy, dqy);
}

/// On one axis: changes rounded from `m_q n / D` and `m_p n / D` move the
/// momentum `m_q dq - m_p dp` by less than `m_p + m_q`.
proof fn lemma_momentum_axis(mp: int, mq: int, den: int, n: int, dp: int, dq: int)
    requires
        mp >= 1,
        mq >= 1,
        den > 0,
        dp == trunc_div(mq * n, den),
        dq == trunc_div(mp * n, den),
    ensures
        -(mp + mq) < mq * dq - mp * dp < mp + mq,
{
    lemma_trunc_div_within(mq * n, den);
    lemma_trunc_div_within(mp * n, den);
    let s1 = den * dp - mq * n;
    let s2 = den * dq - mp * n;
    assert(den * (mq * dq - mp * dp) == mq * s2 - mp * s1) by (nonlinear_arith)
        requires s1 == den * dp - mq * n, s2 == den * dq - mp * n;
    assert(-(mp + mq) * den < mq * s2 - mp * s1 < (mp + mq) * den) by (nonlinear_arith)
        requires -den < s1 < den, -den < s2 < den, mp >= 1, mq >= 1;
    assert(-(mp + mq) < mq * dq - mp * dp < mp + mq) by (nonlinear_arith)
        requires
            -(mp + mq) * den < den * (mq * dq - mp * dp) < (mp + mq) * den,
            den > 0,
    ;
}

/// Each velocity change that a collision applies lies within one unit of
/// the exact rule whose energy balance `lemma_elastic_rule_keeps_energy`
/// states: `|D dp - m_q E| < D` and `|D dq - m_p E| < D` on each axis, with
/// `E = 2 d a`.
pub proof fn lemma_changes_follow_rule(p: Particle, q: Particle)
    requires
        overlapping(p, q),
    ensures
        ({
            let dx = p.position.x - q.position.x;
            let dy = p.position.y - q.position.y;
            let a = dot(p.velocity.x - q.velocity.x, p.velocity.y - q.velocity.y, dx, dy);
            let den = (p.mass_spec() + q.mass_spec()) * norm2(dx, dy);
            let (dpx, dpy, dqx, dqy) = velocity_changes(p, q);
            &&& den > 0
            &&& -den < den * dpx - q.mass_spec() * (2 * dx * a) < den
            &&& -den < den * dpy - q.mass_spec() * (2 * dy * a) < den
            &&& -den < den * dqx - p.mass_spec() * (2 * dx * a) < den
            &&& -den < den * dqy - p.mass_spec() * (2 * dy * a) < den
        }),
{
    let dx = p.position.x - q.position.x;
    let dy = p.position.y - q.position.y;
    let n2 = norm2(dx, dy);
    let den = (p.mass_spec() + q.mass_spec()) * n2;
    assert(den > 0) by (nonlinear_arith)
        requires den == (p.mass_spec() + q.mass_spec()) * n2, n2 > 0, p.mass_spec() + q.mass_spec()
            > 0;
    let a = dot(p.velocity.x - q.velocity.x, p.velocity.y - q.velocity.y, dx, dy);
    lemma_trunc_div_within(q.mass_spec() * (2 * dx * a), den);
    lemma_trunc_div_within(q.mass_spec() * (2 * dy * a), den);
    lemma_trunc_div_within(p.mass_spec() * (2 * dx * a), den);
    lemma_trunc_div_within(p.mass_spec() * (2 * dy * a), den);
}

/// Two particles of equal mass that meet with their centres on one
/// horizontal line exchange their horizontal velocities exactly and keep
/// their vertical ones; so a head-on collision swaps the velocities.
pub proof fn lemma_equal_masses_swap(p: Particle, q: Particle)
    requires
        p.wf(),
        q.wf(),
        p.element == q.element,
        p.position.y == q.position.y,
        p.position.x != q.position.x,
    ensures
        collide(p, q).0.velocity.x == q.velocity.x,
        collide(p, q).1.velocity.x == p.velocity.x,
        collide(p, q).0.velocity.y == p.velocity.y,
        collide(p, q).1.velocity.y == q.velocity.y,
{
    let m = p.mass_spec();
    let dx = p.position.x - q.position.x;
    let rx = p.velocity.x - q.velocity.x;
    let ry = p.velocity.y - q.velocity.y;
    let a = dot(rx, ry, dx, 0);
    assert(a == rx * dx) by (nonlinear_arith)
        requires a == rx * dx + ry * 0;
    let den = (m + m) * norm2(dx, 0);
    assert(norm2(dx, 0) == dx * dx) by (nonlinear_arith);
    assert(dx * dx > 0) by (nonlinear_arith)
        requires dx != 0;
    assert(m * (2 * dx * a) == rx * den) by (nonlinear_arith)
        requires a == rx * dx, den == (m + m) * (dx * dx);
    assert(m * (2 * 0 * a) == 0 * den) by (nonlinear_arith);
    assert(den > 0) by (nonlinear_arith)
        requires den == (m + m) * (dx * dx), dx * dx > 0, m >= 1;
    lemma_exact_quotient(rx, den);
    lemma_exact_quotient(0, den);
}

/// A multiple of a positive number divides exactly, rounding toward zero.
proof fn lemma_exact_quotient(c: int, d: int)
    requires
        d > 0,
    ensures
        trunc_div(c * d, d) == c,
{
    vstd::arithmetic::div_mod::lemma_div_multiples_vanish(c, d);
    vstd::arithmetic::div_mod::lemma_div_multiples_vanish(-c, d);
    assert(c * d == d * c) by (nonlinear_arith);
    assert(-(c * d) == d * (-c)) by (nonlinear_arith);
}

/// The elastic collision rule, before rounding, keeps kinetic energy. With
/// `d` the offset of the centres, `D = (m_p + m_q) |d|^2` and
/// `E = 2 d ((v_p - v_q) . d)`, the exact velocities after the collision are
/// `v_p - m_q E / D` and `v_q + m_p E / D`; scaled by `D` they satisfy
/// `m_p |D v_p - m_q E|^2 + m_q |D v_q + m_p E|^2 = D^2 (m_p |v_p|^2 + m_q |v_q|^2)`.
pub proof fn lemma_elastic_rule_keeps_energy(
    mp: int,
    mq: int,
    vpx: int,
    vpy: int,
    vqx: int,
    vqy: int,
    dx: int,
    dy: int,
)
    ensures
        ({
            let den = (mp + mq) * norm2(dx, dy);
            let a = dot(vpx - vqx, vpy - vqy, dx, dy);
            let ex = 2 * dx * a;
            let ey = 2 * dy * a;
            mp * norm2(den * vpx - mq * ex, den * vpy - mq * ey) + mq * norm2(
                den * vqx + mp * ex,
                den * vqy + mp * ey,
            ) == den * den * (mp * norm2(vpx, vpy) + mq * norm2(vqx, vqy))
        }),
{
    let n2 = dx * dx + dy * dy;
    let den = (mp + mq) * n2;
    let a = (vpx - vqx) * dx + (vpy - vqy) * dy;
    let ex = 2 * dx * a;
    let ey = 2 * dy * a;
    let nq = -mq;
    let vp = vpx * vpx + vpy * vpy;
    let vq = vqx * vqx + vqy * vqy;
    let pe = vpx * ex + vpy * ey;
    let qe = vqx * ex + vqy * ey;
    let ee = ex * ex + ey * ey;
    let dd = den * den;
    // Each squared velocity, expanded.
    lemma_scaled_square(den, vpx, nq, ex);
    lemma_scaled_square(den, vpy, nq, ey);
    lemma_scaled_square(den, vqx, mp, ex);
    lemma_scaled_square(den, vqy, mp, ey);
    assert(nq * ex == -(mq * ex)) by (nonlinear_arith)
        requires nq == -mq;
    assert(nq * ey == -(mq * ey)) by (nonlinear_arith)
        requires nq == -mq;
    let sp = norm2(den * vpx - mq * ex, den * vpy - mq * ey);
    let sq = norm2(den * vqx + mp * ex, den * vqy + mp * ey);
    lemma_sum_distributes(dd, vpx * vpx, vpy * vpy);
    lemma_sum_distributes(den * nq, vpx * ex, vpy * ey);
    lemma_sum_distributes(nq * nq, ex * ex, ey * ey);
    lemma_sum_distributes(dd, vqx * vqx, vqy * vqy);
    lemma_sum_distributes(den * mp, vqx * ex, vqy * ey);
    lemma_sum_distributes(mp * mp, ex * ex, ey * ey);
    assert(sp == dd * vp + 2 * ((den * nq) * pe) + (nq * nq) * ee);
    assert(sq == dd * vq + 2 * ((den * mp) * qe) + (mp * mp) * ee);
    // (v_p - v_q) . E = 2 a^2 and |E|^2 = 4 a^2 |d|^2.
    assert(pe - qe == (vpx - vqx) * ex + (vpy - vqy) * ey) by (nonlinear_arith)
        requires
            pe == vpx * ex + vpy * ey,
            qe == vqx * ex + vqy * ey,
    ;
    assert((vpx - vqx) * ex == (2 * a) * ((vpx - vqx) * dx)) by (nonlinear_arith)
        requires ex == 2 * dx * a;
    assert((vpy - vqy) * ey == (2 * a) * ((vpy - vqy) * dy)) by (nonlinear_arith)
        requires ey == 2 * dy * a;
    lemma_sum_distributes(2 * a, (vpx - vqx) * dx, (vpy - vqy) * dy);
    assert(pe - qe == (2 * a) * a);
    assert(ex * ex == (4 * (a * a)) * (dx * dx)) by (nonlinear_arith)
        requires ex == 2 * dx * a;
    assert(ey * ey == (4 * (a * a)) * (dy * dy)) by (nonlinear_arith)
        requires ey == 2 * dy * a;
    lemma_sum_distributes(4 * (a * a), dx * dx, dy * dy);
    assert(ee == (4 * (a * a)) * n2);
    assert((2 * a) * a == 2 * (a * a)) by (nonlinear_arith);
    lemma_energy_balance(mp, mq, den, n2, a * a, vp, vq, pe, qe, ee);
}

/// The weighted sum of the two expanded squares is the scaled energy before,
/// once the cross terms and the square terms cancel.
proof fn lemma_energy_balance(
    mp: int,
    mq: int,
    den: int,
    n2: int,
    aa: int,
    vp: int,
    vq: int,
    pe: int,
    qe: int,
    ee: int,
)
    requires
        den == (mp + mq) * n2,
        pe - qe == 2 * aa,
        ee == (4 * aa) * n2,
    ensures
        mp * (den * den * vp + 2 * ((den * (-mq)) * pe) + ((-mq) * (-mq)) * ee) + mq * (den * den
            * vq + 2 * ((den * mp) * qe) + (mp * mp) * ee) == den * den * (mp * vp + mq * vq),
{
    let dd = den * den;
    let c = mp * mq;
    let x1 = dd * vp;
    let y1 = 2 * ((den * (-mq)) * pe);
    let z1 = ((-mq) * (-mq)) * ee;
    lemma_three_terms(mp, x1, y1, z1);
    assert(mp * y1 == -2 * (den * (c * pe))) by (nonlinear_arith)
        requires y1 == 2 * ((den * (-mq)) * pe), c == mp * mq;
    assert(mp * z1 == (c * mq) * ee) by (nonlinear_arith)
        requires z1 == ((-mq) * (-mq)) * ee, c == mp * mq;
    let x2 = dd * vq;
    let y2 = 2 * ((den * mp) * qe);
    let z2 = (mp * mp) * ee;
    lemma_three_terms(mq, x2, y2, z2);
    assert(mq * y2 == 2 * (den * (c * qe))) by (nonlinear_arith)
        requires y2 == 2 * ((den * mp) * qe), c == mp * mq;
    assert(mq * z2 == (c * mp) * ee) by (nonlinear_arith)
        requires z2 == (mp * mp) * ee, c == mp * mq;
    assert(den * (c * pe) - den * (c * qe) == den * (c * (2 * aa))) by (nonlinear_arith)
        requires pe - qe == 2 * aa;
    assert((c * mq) * ee + (c * mp) * ee == c * ((mp + mq) * ee)) by (nonlinear_arith);
    assert((mp + mq) * ee == 4 * (aa * den)) by (nonlinear_arith)
        requires den == (mp + mq) * n2, ee == (4 * aa) * n2;
    assert(2 * (den * (c * (2 * aa))) == c * (4 * (aa * den))) by (nonlinear_arith);
    assert(mp * (dd * vp) + mq * (dd * vq) == dd * (mp * vp + mq * vq)) by (nonlinear_arith);
}

/// `(s a + t b)^2 = s^2 a^2 + 2 s t (a b) + t^2 b^2`.
proof fn lemma_scaled_square(s: int, a: int, t: int, b: int)
    ensures
        (s * a + t * b) * (s * a + t * b) == (s * s) * (a * a) + 2 * ((s * t) * (a * b)) + (t
            * t) * (b * b),
{
    let x = s * a;
    let y = t * b;
    assert((x + y) * (x + y) == x * x + 2 * (x * y) + y * y) by (nonlinear_arith);
    assert(2 * (s * t) * (a * b) == 2 * ((s * t) * (a * b))) by (nonlinear_arith);
    lemma_mul_swap(s, a, s, a);
    lemma_mul_swap(s, a, t, b);
    lemma_mul_swap(t, b, t, b);
}

/// `(x y) (u v) = (x u) (y v)`.
proof fn lemma_mul_swap(x: int, y: int, u: int, v: int)
    ensures
        (x * y) * (u * v) == (x * u) * (y * v),
{
    assert((x * y) * (u * v) == (x * u) * (y * v)) by (nonlinear_arith);
}

/// `k (x + y + z) = k x + k y + k z`.
proof fn lemma_three_terms(k: int, x: int, y: int, z: int)
    ensures
        k * (x + y + z) == k * x + k * y + k * z,
{
    assert(k * (x + y + z) == k * x + k * y + k * z) by (nonlinear_arith);
}

/// `k x + k y = k (x + y)`.
proof fn lemma_sum_distributes(k: int, x: int, y: int)
    ensures
        k * x + k * y == k * (x + y),
{
    assert(k * x + k * y == k * (x + y)) by (nonlinear_arith);
}

/// A bond's pull keeps the momentum of its pair, on each axis.
pub proof fn lemma_bond_pull_keeps_momentum(ps: Seq<Particle>, b: Bond, dt: int)
    requires
        b.wf(ps.len() as int),
    ensures
        ({
            let s = bond_pull(ps, b, dt);
            let (p, q) = (ps[b.a as int], ps[b.b as int]);
            &&& p.mass_spec() * s[b.a as int].velocity.x + q.mass_spec() * s[b.b as int].velocity.x
                == p.mass_spec() * p.velocity.x + q.mass_spec() * q.velocity.x
            &&& p.mass_spec() * s[b.a as int].velocity.y + q.mass_spec() * s[b.b as int].velocity.y
                == p.mass_spec() * p.velocity.y + q.mass_spec() * q.velocity.y
        }),
{
    let (p, q) = (ps[b.a as int], ps[b.b as int]);
    let (cx, cy) = bond_impulse(p, q, dt);
    let mp = p.mass_spec();
    let mq = q.mass_spec();
    assert(mp * (p.velocity.x + mq * cx) + mq * (q.velocity.x - mp * cx) == mp * p.velocity.x + mq
        * q.velocity.x) by (nonlinear_arith);
    assert(mp * (p.velocity.y + mq * cy) + mq * (q.velocity.y - mp * cy) == mp * p.velocity.y + mq
        * q.velocity.y) by (nonlinear_arith);
}

/// `d` times a quotient rounded toward zero lies within `d` of the numerator.
proof fn lemma_trunc_div_within(n: int, d: int)
    requires
        d > 0,
    ensures
        -d < d * trunc_div(n, d) - n < d,
{
    if n >= 0 {
        vstd::arithmetic::div_mod::lemma_fundamental_div_mod(n, d);
        vstd::arithmetic::div_mod::lemma_mod_bound(n, d);
    } else {
        vstd::arithmetic::div_mod::lemma_fundamental_div_mod(-n, d);
        vstd::arithmetic::div_mod::lemma_mod_bound(-n, d);
        assert(d * (-((-n) / d)) == -(d * ((-n) / d))) by (nonlinear_arith);
    }
}

} // verus!
