use vstd::prelude::*;
use crate::body::{Particle, Rectangle, particles_wf, walls_wf};
use crate::contact::{
    collide, collide_particles, in_contact, particle_hits_wall, particles_in_contact, reflect, reflect_off_wall,
    wall_contact,
};

verus! {

/// The most sweeps that one solve makes.
pub const MAX_ITERATIONS: usize = 100;

/// How a solve ended.
#[derive(Clone, Copy, Debug, PartialEq, Eq, Structural)]
pub struct SolverReport {
    /// Sweeps made, the last one included.
    pub iterations: usize,
    /// Whether the last sweep changed no velocity. When it is false the
    /// sweep limit was reached and the state may be unstable.
    pub converged: bool,
}

/// The pair `(i, j)` resolved if it is in contact; `hit` records whether a
/// resolution in the sweep so far changed a velocity. A contact whose closing
/// speed is below the velocity resolution, so that rounding leaves both
/// velocities as they are, counts as resolved.
pub open spec fn pair_step(ps: Seq<Particle>, hit: bool, i: int, j: int) -> (Seq<Particle>, bool) {
    if in_contact(ps[i], ps[j]) {
        let (a, b) = collide(ps[i], ps[j]);
        (ps.update(i, a).update(j, b), hit || a != ps[i] || b != ps[j])
    } else {
        (ps, hit)
    }
}

/// The pairs `(i, i + 1)`, ..., `(i, j - 1)` resolved in that order.
pub open spec fn pairs_upto(ps: Seq<Particle>, hit: bool, i: int, j: int) -> (Seq<Particle>, bool)
    decreases j - i,
{
    if j <= i + 1 {
        (ps, hit)
    } else {
        let (s, h) = pairs_upto(ps, hit, i, j - 1);
        pair_step(s, h, i, j - 1)
    }
}

/// Particle `i` reflected off wall `w` if it hits it.
pub open spec fn wall_step(ps: Seq<Particle>, hit: bool, i: int, w: Rectangle) -> (
    Seq<Particle>,
    bool,
) {
    if wall_contact(ps[i], w) {
        (ps.update(i, reflect(ps[i], w)), hit || reflect(ps[i], w) != ps[i])
    } else {
        (ps, hit)
    }
}

/// Particle `i` against walls `0`, ..., `k - 1` in that order.
pub open spec fn walls_upto(
    ps: Seq<Particle>,
    hit: bool,
    walls: Seq<Rectangle>,
    i: int,
    k: int,
) -> (Seq<Particle>, bool)
    decreases k,
{
    if k <= 0 {
        (ps, hit)
    } else {
        let (s, h) = walls_upto(ps, hit, walls, i, k - 1);
        wall_step(s, h, i, walls[k - 1])
    }
}

/// The part of a sweep that belongs to particle `i`: its pairs with every
/// later particle, then every wall.
pub open spec fn particle_round(ps: Seq<Particle>, hit: bool, walls: Seq<Rectangle>, i: int) -> (
    Seq<Particle>,
    bool,
) {
    let (s, h) = pairs_upto(ps, hit, i, ps.len() as int);
    walls_upto(s, h, walls, i, walls.len() as int)
}

/// The rounds of particles `0`, ..., `i - 1` of one sweep.
pub open spec fn sweep_upto(ps: Seq<Particle>, walls: Seq<Rectangle>, i: int) -> (
    Seq<Particle>,
    bool,
)
    decreases i,
{
    if i <= 0 {
        (ps, false)
    } else {
        let (s, h) = sweep_upto(ps, walls, i - 1);
        particle_round(s, h, walls, i - 1)
    }
}

/// One sweep over every pair of particles and every particle and wall, and
/// whether it changed a velocity.
pub open spec fn sweep(ps: Seq<Particle>, walls: Seq<Rectangle>) -> (Seq<Particle>, bool) {
    sweep_upto(ps, walls, ps.len() as int)
}

/// Sweeps after `done` of them were made: until one changes no velocity, or
/// until `MAX_ITERATIONS` in all. Gives the state, the number of sweeps and
/// whether the last changed no velocity.
pub open spec fn solve_from(ps: Seq<Particle>, walls: Seq<Rectangle>, done: int) -> (
    Seq<Particle>,
    int,
    bool,
)
    decreases MAX_ITERATIONS - done,
{
    if done >= MAX_ITERATIONS {
        (ps, MAX_ITERATIONS as int, false)
    } else {
        let (s, hit) = sweep(ps, walls);
        if !hit {
            (s, done + 1, true)
        } else {
            solve_from(s, walls, done + 1)
        }
    }
}

pub open spec fn solve(ps: Seq<Particle>, walls: Seq<Rectangle>) -> (Seq<Particle>, int, bool) {
    solve_from(ps, walls, 0)
}

/// Makes one sweep; returns whether it changed a velocity.
pub fn sweep_contacts(particles: &mut Vec<Particle>, walls: &[Rectangle]) -> (hit: bool)
    requires
        particles_wf(old(particles)@),
        walls_wf(walls@),
    ensures
        (final(particles)@, hit) == sweep(old(particles)@, walls@),
        particles_wf(final(particles)@),
        final(particles)@.len() == old(particles)@.len(),
{
    let ghost orig = particles@;
    let n = particles.len();
    let mut hit = false;
    let mut i: usize = 0;
    while i < n
        invariant
            0 <= i <= n,
            n == particles@.len(),
            n == orig.len(),
            particles_wf(particles@),
            walls_wf(walls@),
            (particles@, hit) == sweep_upto(orig, walls@, i as int),
        decreases n - i,
    {
        let ghost start = particles@;
        let ghost start_hit = hit;
        let mut j: usize = i + 1;
        while j < n
            invariant
                i < n,
                i + 1 <= j <= n,
                n == particles@.len(),
                n == start.len(),
                particles_wf(particles@),
                (particles@, hit) == pairs_upto(start, start_hit, i as int, j as int),
            decreases n - j,
        {
            let p = particles[i];
            let q = particles[j];
            if particles_in_contact(&p, &q) {
                let (a, b) = collide_particles(&p, &q);
                particles.set(i, a);
                particles.set(j, b);
                if a != p || b != q {
                    hit = true;
                }
            }
            j += 1;
        }
        let ghost mid = particles@;
        let ghost mid_hit = hit;
        let mut k: usize = 0;
        while k < walls.len()
            invariant
                i < n,
                0 <= k <= walls@.len(),
                n == particles@.len(),
                n == mid.len(),
                particles_wf(particles@),
                walls_wf(walls@),
                (particles@, hit) == walls_upto(mid, mid_hit, walls@, i as int, k as int),
            decreases walls@.len() - k,
        {
            let p = particles[i];
            if particle_hits_wall(&p, &walls[k]) {
                let r = reflect_off_wall(&p, &walls[k]);
                particles.set(i, r);
                if r != p {
                    hit = true;
                }
            }
            k += 1;
        }
        i += 1;
    }
    hit
}

/// Resolves contacts by repeated sweeps until a sweep changes no velocity or
/// `MAX_ITERATIONS` sweeps were made. Only velocities change.
pub fn solve_collisions(particles: &mut Vec<Particle>, walls: &[Rectangle]) -> (report:
    SolverReport)
    requires
        particles_wf(old(particles)@),
        walls_wf(walls@),
    ensures
        (final(particles)@, report.iterations as int, report.converged) == solve(
            old(particles)@,
            walls@,
        ),
        particles_wf(final(particles)@),
        final(particles)@.len() == old(particles)@.len(),
{
    let ghost orig = particles@;
    let mut done: usize = 0;
    while done < MAX_ITERATIONS
        invariant
            0 <= done <= MAX_ITERATIONS,
            particles_wf(particles@),
            walls_wf(walls@),
            orig == old(particles)@,
            particles@.len() == orig.len(),
            solve_from(particles@, walls@, done as int) == solve(orig, walls@),
        decreases MAX_ITERATIONS - done,
    {
        let ghost prev = particles@;
        let hit = sweep_contacts(particles, walls);
        assert(sweep(prev, walls@) == (particles@, hit));
        done += 1;
        if !hit {
            assert(solve_from(prev, walls@, done - 1) == (particles@, done as int, true));
            return SolverReport { iterations: done, converged: true };
        }
    }
    SolverReport { iterations: MAX_ITERATIONS, converged: false }
}

} // verus!
