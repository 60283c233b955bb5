//! Laws of the solver, the bond step and the whole step.
use vstd::prelude::*;
use crate::body::{Bond, Particle, Rectangle, bonds_unique, bonds_wf, same_pair};
use crate::bonds::{apply_bonds, bond_breaks, bonds_upto};
use crate::conservation::lemma_equal_masses_swap;
use crate::contact::{
    closing, collide,
    in_contact, moving_into_wall, overlapping, reflect, touching_wall, wall_contact, wall_normal,
};
use crate::geometry::{coord_in_limits, dist2, dot, norm2};
use crate::solver::{
    MAX_ITERATIONS, pair_step, pairs_upto, particle_round, solve, solve_from, sweep, sweep_upto, wall_step, walls_upto,
};
use crate::step::{advance, moved};

verus! {

/// A particle that meets a wall head-on along an axis leaves with the
/// velocity on that axis reversed and the other kept: its speed is kept.
pub proof fn lemma_axis_reflection(p: Particle, w: Rectangle)
    requires
        p.wf(),
        w.wf(),
        wall_contact(p, w),
    ensures
        wall_normal(p, w).1 == 0 ==> reflect(p, w).velocity.x == -p.velocity.x
            && reflect(p, w).velocity.y == p.velocity.y,
        wall_normal(p, w).0 == 0 ==> reflect(p, w).velocity.x == p.velocity.x
            && reflect(p, w).velocity.y == -p.velocity.y,
{
    let (nx, ny) = wall_normal(p, w);
    let vx = p.velocity.x as int;
    let vy = p.velocity.y as int;
    if ny == 0 {
        assert(nx != 0) by (nonlinear_arith)
            requires ny == 0, nx * vx + ny * vy > 0;
        let k = 2 * dot(nx, ny, vx, vy);
        assert(k * nx == (2 * vx) * (nx * nx)) by (nonlinear_arith)
            requires k == 2 * (nx * vx + ny * vy), ny == 0;
        assert(k * ny == 0) by (nonlinear_arith)
            requires ny == 0;
        assert(nx * nx > 0) by (nonlinear_arith)
            requires nx != 0;
        assert(norm2(nx, ny) == nx * nx);
        lemma_div_exact(2 * vx, nx * nx);
    }
    if nx == 0 {
        assert(ny != 0) by (nonlinear_arith)
            requires nx == 0, nx * vx + ny * vy > 0;
        let k = 2 * dot(nx, ny, vx, vy);
        assert(k * ny == (2 * vy) * (ny * ny)) by (nonlinear_arith)
            requires k == 2 * (nx * vx + ny * vy), nx == 0;
        assert(k * nx == 0) by (nonlinear_arith)
            requires nx == 0;
        assert(ny * ny > 0) by (nonlinear_arith)
            requires ny != 0;
        assert(norm2(nx, ny) == ny * ny);
        lemma_div_exact(2 * vy, ny * ny);
    }
}

/// A multiple of a positive number divides exactly, rounding toward zero.
proof fn lemma_div_exact(c: int, d: int)
    requires
        d > 0,
    ensures
        crate::geometry::trunc_div(c * d, d) == c,
{
    vstd::arithmetic::div_mod::lemma_div_multiples_vanish(c, d);
    vstd::arithmetic::div_mod::lemma_div_multiples_vanish(-c, d);
    assert(c * d == d * c) by (nonlinear_arith);
    assert(-(c * d) == d * (-c)) by (nonlinear_arith);
}

/// A particle that does not move into a wall, such as one that slides along
/// it while touching it, is left as it is.
pub proof fn lemma_no_reflection_unless_moving_in(
    ps: Seq<Particle>,
    hit: bool,
    i: int,
    w: Rectangle,
)
    requires
        0 <= i < ps.len(),
        !moving_into_wall(ps[i], w),
    ensures
        wall_step(ps, hit, i, w) == (ps, hit),
{
}

/// No pair of particles overlaps and no particle touches a wall.
pub open spec fn no_overlaps(ps: Seq<Particle>, walls: Seq<Rectangle>) -> bool {
    &&& forall|i: int, j: int|
        0 <= i < j < ps.len() ==> !overlapping(#[trigger] ps[i], #[trigger] ps[j])
    &&& forall|i: int, k: int|
        0 <= i < ps.len() && 0 <= k < walls.len() ==> !touching_wall(
            #[trigger] ps[i],
            #[trigger] walls[k],
        )
}

/// No pair of particles and no particle and wall is in contact.
pub open spec fn no_contacts(ps: Seq<Particle>, walls: Seq<Rectangle>) -> bool {
    &&& forall|i: int, j: int|
        0 <= i < j < ps.len() ==> !in_contact(#[trigger] ps[i], #[trigger] ps[j])
    &&& forall|i: int, k: int|
        0 <= i < ps.len() && 0 <= k < walls.len() ==> !wall_contact(
            #[trigger] ps[i],
            #[trigger] walls[k],
        )
}

/// The two stores hold the same bodies at the same places: only velocities
/// may differ.
pub open spec fn same_bodies(a: Seq<Particle>, b: Seq<Particle>) -> bool {
    a.len() == b.len() && forall|i: int|
        0 <= i < a.len() ==> (#[trigger] a[i]).position == b[i].position && a[i].element
            == b[i].element
}

proof fn lemma_pairs_quiet(ps: Seq<Particle>, hit: bool, i: int, j: int)
    requires
        0 <= i,
        j <= ps.len(),
        no_contacts(ps, Seq::empty()),
    ensures
        pairs_upto(ps, hit, i, j) == (ps, hit),
    decreases j - i,
{
    if j > i + 1 {
        lemma_pairs_quiet(ps, hit, i, j - 1);
        assert(!in_contact(ps[i], ps[j - 1]));
    }
}

proof fn lemma_walls_quiet(ps: Seq<Particle>, hit: bool, walls: Seq<Rectangle>, i: int, k: int)
    requires
        0 <= i < ps.len(),
        k <= walls.len(),
        no_contacts(ps, walls),
    ensures
        walls_upto(ps, hit, walls, i, k) == (ps, hit),
    decreases k,
{
    if k > 0 {
        lemma_walls_quiet(ps, hit, walls, i, k - 1);
        assert(!wall_contact(ps[i], walls[k - 1]));
    }
}

proof fn lemma_sweep_quiet(ps: Seq<Particle>, walls: Seq<Rectangle>, i: int)
    requires
        i <= ps.len(),
        no_contacts(ps, walls),
    ensures
        sweep_upto(ps, walls, i) == (ps, false),
    decreases i,
{
    if i > 0 {
        lemma_sweep_quiet(ps, walls, i - 1);
        assert(no_contacts(ps, Seq::empty()));
        lemma_pairs_quiet(ps, false, i - 1, ps.len() as int);
        lemma_walls_quiet(ps, false, walls, i - 1, walls.len() as int);
    }
}

/// A scene without contacts is left as it is by the first sweep, which ends
/// the solve.
pub proof fn lemma_no_contacts_converge_at_once(ps: Seq<Particle>, walls: Seq<Rectangle>)
    requires
        no_contacts(ps, walls),
    ensures
        solve(ps, walls) == (ps, 1int, true),
{
    lemma_sweep_quiet(ps, walls, ps.len() as int);
}

/// A scene with no overlap converges after a single sweep, which changes
/// nothing: no further sweep is made and the solve reports convergence.
pub proof fn lemma_no_overlap_converges_at_once(ps: Seq<Particle>, walls: Seq<Rectangle>)
    requires
        no_overlaps(ps, walls),
    ensures
        solve(ps, walls) == (ps, 1int, true),
{
    assert(no_contacts(ps, walls)) by {
        assert forall|i: int, j: int| 0 <= i < j < ps.len() implies !in_contact(
            #[trigger] ps[i],
            #[trigger] ps[j],
        ) by {
            assert(!overlapping(ps[i], ps[j]));
        }
        assert forall|i: int, k: int| 0 <= i < ps.len() && 0 <= k < walls.len() implies !wall_contact(
            #[trigger] ps[i],
            #[trigger] walls[k],
        ) by {
            assert(!touching_wall(ps[i], walls[k]));
        }
    }
    lemma_no_contacts_converge_at_once(ps, walls);
}

proof fn lemma_solve_from_outcome(ps: Seq<Particle>, walls: Seq<Rectangle>, done: int)
    requires
        0 <= done,
    ensures
        ({
            let (s, iterations, converged) = solve_from(ps, walls, done);
            &&& 1 <= iterations <= MAX_ITERATIONS
            &&& !converged ==> iterations == MAX_ITERATIONS
        }),
    decreases MAX_ITERATIONS - done,
{
    if done < MAX_ITERATIONS {
        let (s, hit) = sweep(ps, walls);
        if hit {
            lemma_solve_from_outcome(s, walls, done + 1);
        }
    }
}

/// A solve makes between one and `MAX_ITERATIONS` sweeps, and reports no
/// convergence only when it made all of them.
pub proof fn lemma_solve_outcome(ps: Seq<Particle>, walls: Seq<Rectangle>)
    ensures
        ({
            let (s, iterations, converged) = solve(ps, walls);
            &&& 1 <= iterations <= MAX_ITERATIONS
            &&& !converged ==> iterations == MAX_ITERATIONS
        }),
{
    lemma_solve_from_outcome(ps, walls, 0);
}

proof fn lemma_pairs_keep_bodies(ps: Seq<Particle>, hit: bool, i: int, j: int)
    requires
        0 <= i,
        j <= ps.len(),
    ensures
        same_bodies(ps, pairs_upto(ps, hit, i, j).0),
    decreases j - i,
{
    if j > i + 1 {
        lemma_pairs_keep_bodies(ps, hit, i, j - 1);
    }
}

proof fn lemma_walls_keep_bodies(
    ps: Seq<Particle>,
    hit: bool,
    walls: Seq<Rectangle>,
    i: int,
    k: int,
)
    requires
        0 <= i < ps.len(),
    ensures
        same_bodies(ps, walls_upto(ps, hit, walls, i, k).0),
    decreases k,
{
    if k > 0 {
        lemma_walls_keep_bodies(ps, hit, walls, i, k - 1);
    }
}

proof fn lemma_sweep_keeps_bodies(ps: Seq<Particle>, walls: Seq<Rectangle>, i: int)
    requires
        i <= ps.len(),
    ensures
        same_bodies(ps, sweep_upto(ps, walls, i).0),
    decreases i,
{
    if i > 0 {
        lemma_sweep_keeps_bodies(ps, walls, i - 1);
        let (s, h) = sweep_upto(ps, walls, i - 1);
        lemma_pairs_keep_bodies(s, h, i - 1, s.len() as int);
        let (t, g) = pairs_upto(s, h, i - 1, s.len() as int);
        lemma_walls_keep_bodies(t, g, walls, i - 1, walls.len() as int);
    }
}

proof fn lemma_solve_from_keeps_bodies(ps: Seq<Particle>, walls: Seq<Rectangle>, done: int)
    ensures
        same_bodies(ps, solve_from(ps, walls, done).0),
    decreases MAX_ITERATIONS - done,
{
    if done < MAX_ITERATIONS {
        lemma_sweep_keeps_bodies(ps, walls, ps.len() as int);
        let (s, hit) = sweep(ps, walls);
        if hit {
            lemma_solve_from_keeps_bodies(s, walls, done + 1);
        }
    }
}

/// Solving contacts changes velocities only: every particle keeps its
/// position and its element.
pub proof fn lemma_solve_keeps_bodies(ps: Seq<Particle>, walls: Seq<Rectangle>)
    ensures
        same_bodies(ps, solve(ps, walls).0),
{
    lemma_solve_from_keeps_bodies(ps, walls, 0);
}

proof fn lemma_bonds_keep_bodies(ps: Seq<Particle>, bonds: Seq<Bond>, dt: int, k: int)
    requires
        bonds_wf(bonds, ps.len() as int),
        k <= bonds.len(),
    ensures
        ({
            let (s, kept) = bonds_upto(ps, bonds, dt, k);
            &&& same_bodies(ps, s)
            &&& forall|m: int|
                0 <= m < kept.len() ==> !bond_breaks(
                    ps[(#[trigger] kept[m]).a as int],
                    ps[kept[m].b as int],
                ) && kept[m].wf(ps.len() as int)
        }),
    decreases k,
{
    if k > 0 {
        lemma_bonds_keep_bodies(ps, bonds, dt, k - 1);
        let b = bonds[k - 1];
        assert(b.wf(ps.len() as int));
    }
}

/// A bond whose force at the start of a step exceeds its strength is gone
/// after the step, so it pulls on its pair no more; and every bond that is
/// kept held at the start of the step.
pub proof fn lemma_broken_bond_removed(
    ps: Seq<Particle>,
    bonds: Seq<Bond>,
    walls: Seq<Rectangle>,
    dt: int,
    b: Bond,
)
    requires
        bonds_wf(bonds, ps.len() as int),
        b.wf(ps.len() as int),
        bond_breaks(ps[b.a as int], ps[b.b as int]),
    ensures
        !advance(ps, bonds, walls, dt).1.contains(b),
        forall|m: int|
            0 <= m < advance(ps, bonds, walls, dt).1.len() ==> !bond_breaks(
                ps[(#[trigger] advance(ps, bonds, walls, dt).1[m]).a as int],
                ps[advance(ps, bonds, walls, dt).1[m].b as int],
            ),
{
    lemma_solve_keeps_bodies(ps, walls);
    let (solved, iterations, converged) = solve(ps, walls);
    lemma_bonds_keep_bodies(solved, bonds, dt, bonds.len() as int);
    let kept = apply_bonds(solved, bonds, dt).1;
    assert(advance(ps, bonds, walls, dt).1 == kept);
    assert forall|m: int| 0 <= m < kept.len() implies !bond_breaks(
        ps[(#[trigger] kept[m]).a as int],
        ps[kept[m].b as int],
    ) by {
        assert(!bond_breaks(solved[kept[m].a as int], solved[kept[m].b as int]));
        assert(kept[m].wf(ps.len() as int));
    }
    if kept.contains(b) {
        let m = choose|m: int| 0 <= m < kept.len() && kept[m] == b;
        assert(!bond_breaks(ps[kept[m].a as int], ps[kept[m].b as int]));
    }
}

/// With no contact and no bond, a step moves every particle by exactly its
/// velocity times `dt` (where that stays within the coordinate limits) and
/// changes nothing else.
pub proof fn lemma_free_motion(ps: Seq<Particle>, walls: Seq<Rectangle>, dt: int)
    requires
        no_contacts(ps, walls),
        forall|i: int|
            0 <= i < ps.len() ==> coord_in_limits(
                (#[trigger] ps[i]).position.x + ps[i].velocity.x * dt,
            ) && coord_in_limits(ps[i].position.y + ps[i].velocity.y * dt),
    ensures
        ({
            let (r, kept, iterations, converged) = advance(ps, Seq::empty(), walls, dt);
            &&& r.len() == ps.len()
            &&& forall|i: int|
                0 <= i < ps.len() ==> (#[trigger] r[i]).position.x == ps[i].position.x
                    + ps[i].velocity.x * dt && r[i].position.y == ps[i].position.y
                    + ps[i].velocity.y * dt && r[i].velocity == ps[i].velocity && r[i].element
                    == ps[i].element
            &&& kept.len() == 0
            &&& iterations == 1 && converged
        }),
{
    lemma_no_contacts_converge_at_once(ps, walls);
    assert(apply_bonds(ps, Seq::empty(), dt) == (ps, Seq::<Bond>::empty()));
}

proof fn lemma_kept_bonds_come_from(ps: Seq<Particle>, bonds: Seq<Bond>, dt: int, k: int)
    requires
        0 <= k <= bonds.len(),
    ensures
        ({
            let kept = bonds_upto(ps, bonds, dt, k).1;
            &&& forall|m: int|
                0 <= m < kept.len() ==> exists|j: int| 0 <= j < k && #[trigger] kept[m] == bonds[j]
            &&& bonds_unique(bonds) ==> bonds_unique(kept)
        }),
    decreases k,
{
    if k > 0 {
        lemma_kept_bonds_come_from(ps, bonds, dt, k - 1);
        let (s, prev) = bonds_upto(ps, bonds, dt, k - 1);
        let kept = bonds_upto(ps, bonds, dt, k).1;
        let b = bonds[k - 1];
        if !bond_breaks(s[b.a as int], s[b.b as int]) {
            assert(kept == prev.push(b));
            assert forall|m: int| 0 <= m < kept.len() implies exists|j: int|
                0 <= j < k && #[trigger] kept[m] == bonds[j] by {
                if m < prev.len() {
                    assert(kept[m] == prev[m]);
                    let j = choose|j: int| 0 <= j < k - 1 && prev[m] == bonds[j];
                    assert(kept[m] == bonds[j]);
                } else {
                    assert(kept[m] == bonds[k - 1]);
                }
            }
            if bonds_unique(bonds) {
                assert forall|m1: int, m2: int| 0 <= m1 < m2 < kept.len() implies !same_pair(
                    #[trigger] kept[m1],
                    #[trigger] kept[m2],
                ) by {
                    if m2 < prev.len() {
                        assert(kept[m1] == prev[m1] && kept[m2] == prev[m2]);
                    } else {
                        assert(kept[m1] == prev[m1]);
                        let j = choose|j: int| 0 <= j < k - 1 && prev[m1] == bonds[j];
                        assert(!same_pair(bonds[j], bonds[k - 1]));
                    }
                }
            }
        }
    }
}

/// A step only removes bonds: every bond after it was there before, and a
/// graph with at most one bond per pair keeps that property.
pub proof fn lemma_bonds_only_shrink(
    ps: Seq<Particle>,
    bonds: Seq<Bond>,
    walls: Seq<Rectangle>,
    dt: int,
)
    ensures
        forall|m: int|
            0 <= m < advance(ps, bonds, walls, dt).1.len() ==> bonds.contains(
                #[trigger] advance(ps, bonds, walls, dt).1[m],
            ),
        bonds_unique(bonds) ==> bonds_unique(advance(ps, bonds, walls, dt).1),
{
    let solved = solve(ps, walls).0;
    lemma_kept_bonds_come_from(solved, bonds, dt, bonds.len() as int);
    let kept = advance(ps, bonds, walls, dt).1;
    assert(kept == apply_bonds(solved, bonds, dt).1);
    assert forall|m: int| 0 <= m < kept.len() implies bonds.contains(#[trigger] kept[m]) by {
        let j = choose|j: int| 0 <= j < bonds.len() && kept[m] == bonds[j];
    }
}

/// A step moves every particle by exactly its new velocity times `dt`
/// wherever that stays within the coordinate limits (beyond them the
/// coordinate is held at the limit), and keeps every element.
pub proof fn lemma_step_moves_by_velocity(
    ps: Seq<Particle>,
    bonds: Seq<Bond>,
    walls: Seq<Rectangle>,
    dt: int,
)
    requires
        bonds_wf(bonds, ps.len() as int),
    ensures
        ({
            let r = advance(ps, bonds, walls, dt).0;
            &&& r.len() == ps.len()
            &&& forall|k: int|
                0 <= k < ps.len() ==> (#[trigger] r[k]).element == ps[k].element && (
                coord_in_limits(ps[k].position.x + r[k].velocity.x * dt) ==> r[k].position.x
                    == ps[k].position.x + r[k].velocity.x * dt) && (coord_in_limits(
                    ps[k].position.y + r[k].velocity.y * dt,
                ) ==> r[k].position.y == ps[k].position.y + r[k].velocity.y * dt)
        }),
{
    lemma_solve_keeps_bodies(ps, walls);
    let solved = solve(ps, walls).0;
    lemma_bonds_keep_bodies(solved, bonds, dt, bonds.len() as int);
    let pulled = apply_bonds(solved, bonds, dt).0;
    let r = advance(ps, bonds, walls, dt).0;
    assert forall|k: int| 0 <= k < ps.len() implies (#[trigger] r[k]).element == ps[k].element
        && (coord_in_limits(ps[k].position.x + r[k].velocity.x * dt) ==> r[k].position.x
        == ps[k].position.x + r[k].velocity.x * dt) && (coord_in_limits(
        ps[k].position.y + r[k].velocity.y * dt,
    ) ==> r[k].position.y == ps[k].position.y + r[k].velocity.y * dt) by {
        assert(r[k] == moved(pulled[k], dt));
        assert(pulled[k].position == ps[k].position);
    }
}

/// A step over a scene with no overlap and no bond makes a single sweep,
/// converges, and keeps every velocity.
pub proof fn lemma_no_overlap_step(ps: Seq<Particle>, walls: Seq<Rectangle>, dt: int)
    requires
        no_overlaps(ps, walls),
    ensures
        ({
            let (r, kept, iterations, converged) = advance(ps, Seq::empty(), walls, dt);
            &&& iterations == 1 && converged
            &&& r.len() == ps.len()
            &&& forall|k: int| 0 <= k < ps.len() ==> (#[trigger] r[k]).velocity == ps[k].velocity
        }),
{
    lemma_no_overlap_converges_at_once(ps, walls);
    assert(apply_bonds(ps, Seq::empty(), dt) == (ps, Seq::<Bond>::empty()));
}

/// A bond that breaks when its turn comes gives no impulse: the particles
/// stay as they were and the bond is not kept.
pub proof fn lemma_broken_bond_gives_no_impulse(
    ps: Seq<Particle>,
    bonds: Seq<Bond>,
    dt: int,
    k: int,
)
    requires
        0 <= k < bonds.len(),
        ({
            let s = bonds_upto(ps, bonds, dt, k).0;
            bond_breaks(s[bonds[k].a as int], s[bonds[k].b as int])
        }),
    ensures
        bonds_upto(ps, bonds, dt, k + 1) == bonds_upto(ps, bonds, dt, k),
{
}

/// Two particles of one element, alone and without bonds, meeting head-on
/// along a horizontal line, leave a step with their velocities swapped; the
/// solver converges after its second sweep.
pub proof fn lemma_head_on_step_swaps(p: Particle, q: Particle, dt: int)
    requires
        p.wf(),
        q.wf(),
        p.element == q.element,
        p.position.y == q.position.y,
        p.velocity.y == q.velocity.y,
        in_contact(p, q),
    ensures
        ({
            let (r, kept, iterations, converged) = advance(
                seq![p, q],
                Seq::empty(),
                Seq::empty(),
                dt,
            );
            &&& r.len() == 2
            &&& r[0].velocity == q.velocity && r[1].velocity == p.velocity
            &&& iterations == 2 && converged
        }),
{
    let ps = seq![p, q];
    let walls = Seq::<Rectangle>::empty();
    assert(p.position.x != q.position.x) by {
        if p.position.x == q.position.x {
            assert(dist2(p.position, q.position) == 0) by (nonlinear_arith)
                requires p.position.x == q.position.x, p.position.y == q.position.y;
        }
    }
    lemma_equal_masses_swap(p, q);
    let (a, b) = collide(p, q);
    assert(a.velocity == q.velocity && b.velocity == p.velocity);
    let rx = p.velocity.x - q.velocity.x;
    let dx = p.position.x - q.position.x;
    assert(rx * dx < 0) by (nonlinear_arith)
        requires rx * dx + (p.velocity.y - q.velocity.y) * (p.position.y - q.position.y) < 0,
            p.velocity.y == q.velocity.y;
    assert(rx != 0) by (nonlinear_arith)
        requires rx * dx < 0;
    assert(a != p);
    let s = ps.update(0, a).update(1, b);
    assert(ps.len() == 2 && s.len() == 2);
    assert(pair_step(ps, false, 0, 1) == (s, true));
    assert(pairs_upto(ps, false, 0, 1) == (ps, false));
    assert(pairs_upto(ps, false, 0, 2) == (s, true));
    assert(sweep_upto(ps, walls, 0) == (ps, false));
    assert(walls_upto(s, true, walls, 0, 0) == (s, true));
    assert(particle_round(ps, false, walls, 0) == (s, true));
    assert(sweep_upto(ps, walls, 1) == (s, true));
    assert(walls_upto(s, true, walls, 1, 0) == (s, true));
    assert(pairs_upto(s, true, 1, 2) == (s, true));
    assert(sweep(ps, walls) == (s, true));
    // After the swap the pair separates.
    assert(s[0] == a && s[1] == b);
    assert((-rx) * dx > 0) by (nonlinear_arith)
        requires rx * dx < 0;
    assert(!closing(a, b)) by (nonlinear_arith)
        requires
            a.velocity.x - b.velocity.x == -rx,
            a.velocity.y - b.velocity.y == 0,
            a.position.x - b.position.x == dx,
            (-rx) * dx > 0,
            !closing(a, b) <==> (a.velocity.x - b.velocity.x) * (a.position.x - b.position.x) + (
            a.velocity.y - b.velocity.y) * (a.position.y - b.position.y) >= 0;
    assert(pair_step(s, false, 0, 1) == (s, false));
    assert(pairs_upto(s, false, 0, 1) == (s, false));
    assert(pairs_upto(s, false, 0, 2) == (s, false));
    assert(sweep_upto(s, walls, 0) == (s, false));
    assert(walls_upto(s, false, walls, 0, 0) == (s, false));
    assert(particle_round(s, false, walls, 0) == (s, false));
    assert(sweep_upto(s, walls, 1) == (s, false));
    assert(walls_upto(s, false, walls, 1, 0) == (s, false));
    assert(pairs_upto(s, false, 1, 2) == (s, false));
    assert(sweep(s, walls) == (s, false));
    assert(solve_from(s, walls, 1) == (s, 2int, true));
    assert(solve(ps, walls) == (s, 2int, true));
    assert(apply_bonds(s, Seq::empty(), dt) == (s, Seq::<Bond>::empty()));
}

/// A lone particle that moves into a wall face whose normal is horizontal
/// leaves a step with its horizontal velocity reversed and its vertical one
/// kept, so with the same speed; the solver converges after its second sweep.
pub proof fn lemma_wall_face_step_reverses(p: Particle, w: Rectangle, dt: int)
    requires
        p.wf(),
        w.wf(),
        wall_contact(p, w),
        wall_normal(p, w).1 == 0,
    ensures
        ({
            let (r, kept, iterations, converged) = advance(seq![p], Seq::empty(), seq![w], dt);
            &&& r.len() == 1
            &&& r[0].velocity.x == -p.velocity.x && r[0].velocity.y == p.velocity.y
            &&& iterations == 2 && converged
        }),
{
    let ps = seq![p];
    let walls = seq![w];
    lemma_axis_reflection(p, w);
    let r = reflect(p, w);
    let (nx, ny) = wall_normal(p, w);
    let vx = p.velocity.x as int;
    assert(nx * vx > 0) by (nonlinear_arith)
        requires nx * vx + ny * (p.velocity.y as int) > 0, ny == 0;
    assert(vx != 0) by (nonlinear_arith)
        requires nx * vx > 0;
    assert(r != p);
    let s = ps.update(0, r);
    assert(ps.len() == 1 && s.len() == 1 && walls.len() == 1 && walls[0] == w);
    assert(pairs_upto(ps, false, 0, 1) == (ps, false));
    assert(walls_upto(ps, false, walls, 0, 0) == (ps, false));
    assert(wall_step(ps, false, 0, w) == (s, true));
    assert(walls_upto(ps, false, walls, 0, 1) == (s, true));
    assert(particle_round(ps, false, walls, 0) == (s, true));
    assert(sweep_upto(ps, walls, 0) == (ps, false));
    assert(sweep_upto(ps, walls, 1) == (s, true));
    assert(sweep(ps, walls) == (s, true));
    // Moving out of the wall now.
    assert(s[0] == r);
    assert(wall_normal(r, w) == wall_normal(p, w));
    assert(nx * (-vx) + ny * (p.velocity.y as int) < 0) by (nonlinear_arith)
        requires nx * vx > 0, ny == 0;
    assert(!moving_into_wall(r, w));
    assert(wall_step(s, false, 0, w) == (s, false));
    assert(pairs_upto(s, false, 0, 1) == (s, false));
    assert(walls_upto(s, false, walls, 0, 0) == (s, false));
    assert(walls_upto(s, false, walls, 0, 1) == (s, false));
    assert(particle_round(s, false, walls, 0) == (s, false));
    assert(sweep_upto(s, walls, 0) == (s, false));
    assert(sweep_upto(s, walls, 1) == (s, false));
    assert(sweep(s, walls) == (s, false));
    assert(solve_from(s, walls, 1) == (s, 2int, true));
    assert(solve(ps, walls) == (s, 2int, true));
    assert(apply_bonds(s, Seq::empty(), dt) == (s, Seq::<Bond>::empty()));
}

/// The bond step changes only particles at an end of some bond: a particle
/// that no bond names, for example one whose bonds have all broken in
/// earlier steps, gets no bond force.
pub proof fn lemma_bond_step_touches_only_bonded(
    ps: Seq<Particle>,
    bonds: Seq<Bond>,
    dt: int,
    k: int,
)
    requires
        bonds_wf(bonds, ps.len() as int),
        0 <= k < ps.len(),
        forall|m: int| 0 <= m < bonds.len() ==> (#[trigger] bonds[m]).a != k && bonds[m].b != k,
    ensures
        apply_bonds(ps, bonds, dt).0[k] == ps[k],
{
    lemma_bonds_leave_unbonded(ps, bonds, dt, k, bonds.len() as int);
}

proof fn lemma_bonds_leave_unbonded(ps: Seq<Particle>, bonds: Seq<Bond>, dt: int, k: int, n: int)
    requires
        bonds_wf(bonds, ps.len() as int),
        0 <= k < ps.len(),
        n <= bonds.len(),
        forall|m: int| 0 <= m < bonds.len() ==> (#[trigger] bonds[m]).a != k && bonds[m].b != k,
    ensures
        bonds_upto(ps, bonds, dt, n).0[k] == ps[k],
        bonds_upto(ps, bonds, dt, n).0.len() == ps.len(),
    decreases n,
{
    if n > 0 {
        lemma_bonds_leave_unbonded(ps, bonds, dt, k, n - 1);
        let b = bonds[n - 1];
        assert(b.wf(ps.len() as int) && b.a != k && b.b != k);
    }
}

} // verus!
