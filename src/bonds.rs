use vstd::prelude::*;
use crate::arith::{floor_sqrt, floor_sqrt_of};
use crate::body::{Bond, Particle, bonds_wf, particles_wf};
use crate::element::Element;
use crate::geometry::{
    COORD_LIMIT, Vec2, coord_in_limits, dist2, lemma_mul_within, lemma_trunc_div_bound, trunc_div,
    trunc_div_i128,
};

verus! {

/// Separation, beyond contact, at which a bond pulls with no force.
pub const REST_DISTANCE: i64 = 500;

/// Force per position unit of stretch.
pub const SPRING_CONSTANT: i64 = 4;

/// Divisor that turns displacement times force times time into velocity.
pub const BOND_IMPULSE_SCALE: i64 = 100000000;

/// The longest time step, in ticks.
pub const DT_LIMIT: u64 = 1048576;

/// The force beyond which a bond between two elements breaks.
pub open spec fn strength_of(e1: Element, e2: Element) -> int {
    match (e1, e2) {
        (Element::Hydrogen, Element::Hydrogen) => 2000,
        (Element::Oxygen, Element::Oxygen) => 3000,
        _ => 4000,
    }
}

/// How far the bond is stretched beyond its rest separation: the distance of
/// the centres, rounded down, less both radii and `REST_DISTANCE`.
pub open spec fn bond_gap(p: Particle, q: Particle) -> int {
    floor_sqrt_of(dist2(p.position, q.position)) - (p.radius_spec() + q.radius_spec()
        + REST_DISTANCE)
}

pub open spec fn bond_force(p: Particle, q: Particle) -> int {
    SPRING_CONSTANT * bond_gap(p, q)
}

pub open spec fn bond_breaks(p: Particle, q: Particle) -> bool {
    bond_force(p, q) > strength_of(p.element, q.element)
}

/// The velocity change per unit of the partner's mass that a bond of force
/// `f` gives to `p` toward `q` over `dt`:
/// `(x_q - x_p) f 2 dt / ((m_p + m_q) BOND_IMPULSE_SCALE)`, each axis rounded
/// toward zero.
pub open spec fn bond_impulse(p: Particle, q: Particle, dt: int) -> (int, int) {
    let f = bond_force(p, q);
    let den = (p.mass_spec() + q.mass_spec()) * BOND_IMPULSE_SCALE;
    (
        trunc_div((q.position.x - p.position.x) * f * 2 * dt, den),
        trunc_div((q.position.y - p.position.y) * f * 2 * dt, den),
    )
}

/// The store after bond `b` pulled its two ends: `a` gains `m_b` times the
/// impulse and `b` loses `m_a` times it, so momentum is kept. Unchanged where
/// a velocity would leave the coordinate limits.
pub open spec fn bond_pull(ps: Seq<Particle>, b: Bond, dt: int) -> Seq<Particle> {
    let p = ps[b.a as int];
    let q = ps[b.b as int];
    let (cx, cy) = bond_impulse(p, q, dt);
    let pvx = p.velocity.x + q.mass_spec() * cx;
    let pvy = p.velocity.y + q.mass_spec() * cy;
    let qvx = q.velocity.x - p.mass_spec() * cx;
    let qvy = q.velocity.y - p.mass_spec() * cy;
    if coord_in_limits(pvx) && coord_in_limits(pvy) && coord_in_limits(qvx) && coord_in_limits(
        qvy,
    ) {
        ps.update(
            b.a as int,
            Particle { velocity: Vec2 { x: pvx as i64, y: pvy as i64 }, ..p },
        ).update(b.b as int, Particle { velocity: Vec2 { x: qvx as i64, y: qvy as i64 }, ..q })
    } else {
        ps
    }
}

/// Bonds `0`, ..., `k - 1` applied in order: each either breaks, and is
/// dropped, or pulls. Gives the store and the bonds kept, in their order.
pub open spec fn bonds_upto(ps: Seq<Particle>, bonds: Seq<Bond>, dt: int, k: int) -> (
    Seq<Particle>,
    Seq<Bond>,
)
    decreases k,
{
    if k <= 0 {
        (ps, Seq::empty())
    } else {
        let (s, kept) = bonds_upto(ps, bonds, dt, k - 1);
        let b = bonds[k - 1];
        if bond_breaks(s[b.a as int], s[b.b as int]) {
            (s, kept)
        } else {
            (bond_pull(s, b, dt), kept.push(b))
        }
    }
}

pub open spec fn apply_bonds(ps: Seq<Particle>, bonds: Seq<Bond>, dt: int) -> (
    Seq<Particle>,
    Seq<Bond>,
) {
    bonds_upto(ps, bonds, dt, bonds.len() as int)
}

/// The force holding a bond between two particles in limits.
fn compute_bond_force(p: &Particle, q: &Particle) -> (f: i128)
    requires
        p.wf(),
        q.wf(),
    ensures
        f == bond_force(*p, *q),
        -0x10000 <= f <= 0x4_0000_0000,
{
    let dx = p.position.x as i128 - q.position.x as i128;
    let dy = p.position.y as i128 - q.position.y as i128;
    proof {
        let l = 0x8000_0000int;
        lemma_mul_within(dx as int, dx as int, l, l);
        lemma_mul_within(dy as int, dy as int, l, l);
    }
    let d2 = dx * dx + dy * dy;
    let d = floor_sqrt(d2 as u64) as i128;
    assert(d <= 0x1_0000_0000) by (nonlinear_arith)
        requires d * d <= d2, d2 <= 0x8000_0000_0000_0000, d >= 0;
    let gap = d - (p.radius() as i128 + q.radius() as i128 + REST_DISTANCE as i128);
    SPRING_CONSTANT as i128 * gap
}

/// Whether a bond between the two particles breaks.
pub fn bond_snaps(p: &Particle, q: &Particle) -> (r: bool)
    requires
        p.wf(),
        q.wf(),
    ensures
        r == bond_breaks(*p, *q),
{
    let f = compute_bond_force(p, q);
    let strength: i128 = match (p.element, q.element) {
        (Element::Hydrogen, Element::Hydrogen) => 2000,
        (Element::Oxygen, Element::Oxygen) => 3000,
        _ => 4000,
    };
    f > strength
}

/// Lets bond `b` pull its ends over `dt`.
fn pull_bond(particles: &mut Vec<Particle>, b: Bond, dt: u64)
    requires
        particles_wf(old(particles)@),
        b.wf(old(particles)@.len() as int),
        dt <= DT_LIMIT,
    ensures
        final(particles)@ == bond_pull(old(particles)@, b, dt as int),
        particles_wf(final(particles)@),
{
    let p = particles[b.a];
    let q = particles[b.b];
    let f = compute_bond_force(&p, &q);
    let mp = p.mass() as i128;
    let mq = q.mass() as i128;
    let dx = q.position.x as i128 - p.position.x as i128;
    let dy = q.position.y as i128 - p.position.y as i128;
    let t = dt as i128;
    assert(2 * 100000000 <= (mp + mq) * 100000000 <= 32 * 100000000) by (nonlinear_arith)
        requires 2 <= mp + mq <= 32;
    let den = (mp + mq) * BOND_IMPULSE_SCALE as i128;
    proof {
        let l = 0x8000_0000int;
        let lf = 0x4_0000_0000int;
        lemma_mul_within(dx as int, f as int, l, lf);
        lemma_mul_within(dy as int, f as int, l, lf);
        lemma_mul_within(dx * f, 2 * t, l * lf, 2 * DT_LIMIT);
        lemma_mul_within(dy * f, 2 * t, l * lf, 2 * DT_LIMIT);
        assert(dx * f * 2 * t == (dx * f) * (2 * t)) by (nonlinear_arith);
        assert(dy * f * 2 * t == (dy * f) * (2 * t)) by (nonlinear_arith);
    }
    let cx = trunc_div_i128(dx * f * 2 * t, den);
    let cy = trunc_div_i128(dy * f * 2 * t, den);
    proof {
        let lc = 0x8000_0000int * 0x4_0000_0000int * 2 * DT_LIMIT;
        lemma_trunc_div_bound(dx * f * 2 * t, den as int);
        lemma_trunc_div_bound(dy * f * 2 * t, den as int);
        lemma_mul_within(mq as int, cx as int, 16, lc);
        lemma_mul_within(mq as int, cy as int, 16, lc);
        lemma_mul_within(mp as int, cx as int, 16, lc);
        lemma_mul_within(mp as int, cy as int, 16, lc);
    }
    let pvx = p.velocity.x as i128 + mq * cx;
    let pvy = p.velocity.y as i128 + mq * cy;
    let qvx = q.velocity.x as i128 - mp * cx;
    let qvy = q.velocity.y as i128 - mp * cy;
    let limit = COORD_LIMIT as i128;
    if -limit <= pvx && pvx <= limit && -limit <= pvy && pvy <= limit && -limit <= qvx && qvx
        <= limit && -limit <= qvy && qvy <= limit {
        particles.set(b.a, Particle { velocity: Vec2 { x: pvx as i64, y: pvy as i64 }, ..p });
        particles.set(b.b, Particle { velocity: Vec2 { x: qvx as i64, y: qvy as i64 }, ..q });
    }
}

/// Applies every bond in order over `dt`: a bond whose force exceeds its
/// strength is removed, and every other one pulls its two particles.
pub fn apply_bond_forces(particles: &mut Vec<Particle>, bonds: &mut Vec<Bond>, dt: u64)
    requires
        particles_wf(old(particles)@),
        bonds_wf(old(bonds)@, old(particles)@.len() as int),
        dt <= DT_LIMIT,
    ensures
        (final(particles)@, final(bonds)@) == apply_bonds(
            old(particles)@,
            old(bonds)@,
            dt as int,
        ),
        particles_wf(final(particles)@),
        final(particles)@.len() == old(particles)@.len(),
        bonds_wf(final(bonds)@, old(particles)@.len() as int),
{
    let ghost orig = particles@;
    let n = bonds.len();
    let mut kept: Vec<Bond> = Vec::new();
    let mut k: usize = 0;
    while k < n
        invariant
            0 <= k <= n,
            n == bonds@.len(),
            bonds@ == old(bonds)@,
            orig == old(particles)@,
            particles@.len() == orig.len(),
            particles_wf(particles@),
            bonds_wf(bonds@, orig.len() as int),
            bonds_wf(kept@, orig.len() as int),
            dt <= DT_LIMIT,
            (particles@, kept@) == bonds_upto(orig, bonds@, dt as int, k as int),
        decreases n - k,
    {
        let b = bonds[k];
        assert(b.wf(orig.len() as int));
        let p = particles[b.a];
        let q = particles[b.b];
        if !bond_snaps(&p, &q) {
            pull_bond(particles, b, dt);
            kept.push(b);
        }
        k += 1;
    }
    *bonds = kept;
}

} // verus!
