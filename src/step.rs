use vstd::prelude::*;
use crate::body::{Bond, Particle, Rectangle, bonds_wf, particles_wf, walls_wf};
use crate::bonds::{DT_LIMIT, apply_bond_forces, apply_bonds};
use crate::geometry::{COORD_LIMIT, Vec2, clamp_i128, clamp_spec};
use crate::solver::{SolverReport, solve, solve_collisions};

verus! {

/// The particle moved by its velocity over `dt`, each coordinate held within
/// the coordinate limits.
pub open spec fn moved(p: Particle, dt: int) -> Particle {
    Particle {
        position: Vec2 {
            x: clamp_spec(p.position.x + p.velocity.x * dt, COORD_LIMIT as int) as i64,
            y: clamp_spec(p.position.y + p.velocity.y * dt, COORD_LIMIT as int) as i64,
        },
        ..p
    }
}

/// Every particle moved by its velocity over `dt`.
pub open spec fn integrate(ps: Seq<Particle>, dt: int) -> Seq<Particle> {
    Seq::new(ps.len(), |i: int| moved(ps[i], dt))
}

/// The whole step: contacts solved, bonds applied, then motion over `dt`.
/// Gives the particles, the bonds kept, the sweeps made and whether the
/// solver converged.
pub open spec fn advance(ps: Seq<Particle>, bonds: Seq<Bond>, walls: Seq<Rectangle>, dt: int) -> (
    Seq<Particle>,
    Seq<Bond>,
    int,
    bool,
) {
    let (solved, iterations, converged) = solve(ps, walls);
    let (pulled, kept) = apply_bonds(solved, bonds, dt);
    (integrate(pulled, dt), kept, iterations, converged)
}

/// Moves every particle by its velocity over `dt`.
pub fn integrate_positions(particles: &mut Vec<Particle>, dt: u64)
    requires
        particles_wf(old(particles)@),
        dt <= DT_LIMIT,
    ensures
        final(particles)@ == integrate(old(particles)@, dt as int),
        particles_wf(final(particles)@),
{
    let ghost orig = particles@;
    let n = particles.len();
    let mut i: usize = 0;
    while i < n
        invariant
            0 <= i <= n,
            n == particles@.len(),
            n == orig.len(),
            dt <= DT_LIMIT,
            particles_wf(orig),
            forall|k: int| 0 <= k < i ==> particles@[k] == moved(orig[k], dt as int),
            forall|k: int| i <= k < n ==> particles@[k] == orig[k],
        decreases n - i,
    {
        let p = particles[i];
        assert(p.wf());
        let t = dt as i128;
        assert(-0x4000_0000 * 0x10_0000 <= p.velocity.x * t <= 0x4000_0000 * 0x10_0000)
            by (nonlinear_arith)
            requires -0x4000_0000 <= p.velocity.x <= 0x4000_0000, 0 <= t <= 0x10_0000;
        assert(-0x4000_0000 * 0x10_0000 <= p.velocity.y * t <= 0x4000_0000 * 0x10_0000)
            by (nonlinear_arith)
            requires -0x4000_0000 <= p.velocity.y <= 0x4000_0000, 0 <= t <= 0x10_0000;
        let limit = COORD_LIMIT as i128;
        let x = clamp_i128(p.position.x as i128 + p.velocity.x as i128 * t, limit);
        let y = clamp_i128(p.position.y as i128 + p.velocity.y as i128 * t, limit);
        particles.set(i, Particle { position: Vec2 { x: x as i64, y: y as i64 }, ..p });
        i += 1;
    }
    assert(particles@ == integrate(orig, dt as int));
}

/// Advances the scene by one physics step over `dt` ticks: resolves
/// contacts by repeated sweeps, applies and breaks bonds, then moves every
/// particle. Walls never change. The report says how many sweeps were made
/// and whether the solver converged within `MAX_ITERATIONS`.
pub fn update_particles(
    particles: &mut Vec<Particle>,
    bonds: &mut Vec<Bond>,
    rectangles: &[Rectangle],
    dt: u64,
) -> (report: SolverReport)
    requires
        particles_wf(old(particles)@),
        walls_wf(rectangles@),
        bonds_wf(old(bonds)@, old(particles)@.len() as int),
        dt <= DT_LIMIT,
    ensures
        (final(particles)@, final(bonds)@, report.iterations as int, report.converged) == advance(
            old(particles)@,
            old(bonds)@,
            rectangles@,
            dt as int,
        ),
        particles_wf(final(particles)@),
        final(particles)@.len() == old(particles)@.len(),
        bonds_wf(final(bonds)@, old(particles)@.len() as int),
{
    let report = solve_collisions(particles, rectangles);
    apply_bond_forces(particles, bonds, dt);
    integrate_positions(particles, dt);
    report
}

} // verus!
