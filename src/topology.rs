use vstd::prelude::*;
use crate::grid::{direction, direction_index, gv, in_cube, lex_lt, link_count, vec_add, vec_sub, GridVec};

verus! {

/// `1` if `v + dv` lies in `[0, n)`, else `0`.
pub open spec fn axis_hit(v: int, dv: int, n: int) -> int {
    if 0 <= v + dv < n {
        1
    } else {
        0
    }
}

/// How many `w` in `[0, v)` have `w + dv` in `[0, n)`, for `dv` in
/// `{-1, 0, 1}` and `0 <= v <= n`.
pub open spec fn axis_hits_before(dv: int, v: int, n: int) -> int {
    if dv == 0 {
        v
    } else if dv == 1 {
        if v < n - 1 {
            v
        } else {
            n - 1
        }
    } else if v == 0 {
        0
    } else {
        v - 1
    }
}

/// `1` if the link from `c` along direction `k` stays in the cube.
pub open spec fn hit(c: GridVec, k: int, n: int) -> int {
    if in_cube(vec_add(c, direction(k)), n) {
        1
    } else {
        0
    }
}

/// Links that directions `0..k` give from cell `c`.
pub open spec fn hits_from(c: GridVec, k: int, n: int) -> int
    decreases k,
{
    if k <= 0 {
        0
    } else {
        hits_from(c, k - 1, n) + hit(c, k - 1, n)
    }
}

/// Links along direction `d` from the cells that come before `c` in
/// generation order, for `c` with axes in `[0, n]`.
pub open spec fn dir_hits_before(d: GridVec, c: GridVec, n: int) -> int {
    axis_hits_before(d.z as int, c.z as int, n) * axis_hits_before(d.y as int, n, n)
        * axis_hits_before(d.x as int, n, n) + axis_hit(c.z as int, d.z as int, n)
        * axis_hits_before(d.y as int, c.y as int, n) * axis_hits_before(d.x as int, n, n)
        + axis_hit(c.z as int, d.z as int, n) * axis_hit(c.y as int, d.y as int, n)
        * axis_hits_before(d.x as int, c.x as int, n)
}

/// Links along directions `0..k` from the cells before `c`.
pub open spec fn links_before(c: GridVec, n: int, k: int) -> int
    decreases k,
{
    if k <= 0 {
        0
    } else {
        links_before(c, n, k - 1) + dir_hits_before(direction(k - 1), c, n)
    }
}

/// Links along directions `0..k` from all cells.
pub open spec fn links_all(n: int, k: int) -> int
    decreases k,
{
    if k <= 0 {
        0
    } else {
        links_all(n, k - 1) + axis_hits_before(direction(k - 1).z as int, n, n)
            * axis_hits_before(direction(k - 1).y as int, n, n)
            * axis_hits_before(direction(k - 1).x as int, n, n)
    }
}

/// The direction index of the link `p`, `9` if it is no forward direction.
pub open spec fn link_dir(p: (GridVec, GridVec)) -> int {
    direction_index(vec_sub(p.1, p.0))
}

/// All links of a lattice of `n` nodes per edge, as (from cell, to cell).
pub open spec fn lattice_links(n: int) -> Set<(GridVec, GridVec)> {
    Set::new(|p: (GridVec, GridVec)| in_cube(p.0, n) && in_cube(p.1, n) && link_dir(p) < 9)
}

/// The links produced once every cell before `c`, and directions `0..k`
/// of `c`, have been probed.
pub open spec fn produced(n: int, c: GridVec, k: int) -> Set<(GridVec, GridVec)> {
    Set::new(
        |p: (GridVec, GridVec)|
            lattice_links(n).contains(p) && (lex_lt(p.0, c) || (p.0 == c && link_dir(p) < k)),
    )
}

proof fn lemma_axis_step(dv: int, v: int, n: int)
    requires
        -1 <= dv <= 1,
        0 <= v < n,
    ensures
        axis_hits_before(dv, v + 1, n) == axis_hits_before(dv, v, n) + axis_hit(v, dv, n),
        0 <= axis_hits_before(dv, v, n),
        axis_hits_before(dv, v + 1, n) <= axis_hits_before(dv, n, n),
{
}

/// Each direction has axes in `{-1, 0, 1}` and its own index.
pub proof fn lemma_direction_facts(k: int)
    requires
        0 <= k < 9,
    ensures
        -1 <= direction(k).x <= 1,
        -1 <= direction(k).y <= 1,
        -1 <= direction(k).z <= 1,
        direction_index(direction(k)) == k,
{
}

/// The cube test of one step is the product of the three axis tests.
proof fn lemma_hit_axes(c: GridVec, k: int, n: int)
    requires
        in_cube(c, n),
        n <= 0x7fff_0000,
        0 <= k < 9,
    ensures
        hit(c, k, n) == axis_hit(c.z as int, direction(k).z as int, n) * axis_hit(
            c.y as int,
            direction(k).y as int,
            n,
        ) * axis_hit(c.x as int, direction(k).x as int, n),
{
}

proof fn lemma_dir_step_x(d: GridVec, c: GridVec, n: int)
    requires
        0 <= c.x < n,
        0 <= c.y < n,
        0 <= c.z < n,
        -1 <= d.x <= 1,
        -1 <= d.y <= 1,
        -1 <= d.z <= 1,
        n <= 0x7fff_0000,
    ensures
        dir_hits_before(d, gv(c.x + 1, c.y as int, c.z as int), n) == dir_hits_before(d, c, n)
            + axis_hit(c.z as int, d.z as int, n) * axis_hit(c.y as int, d.y as int, n)
            * axis_hit(c.x as int, d.x as int, n),
{
    lemma_axis_step(d.x as int, c.x as int, n);
    let az = axis_hit(c.z as int, d.z as int, n);
    let ay = axis_hit(c.y as int, d.y as int, n);
    let a0 = axis_hits_before(d.x as int, c.x as int, n);
    let a1 = axis_hits_before(d.x as int, c.x + 1, n);
    let ax = axis_hit(c.x as int, d.x as int, n);
    assert(az * ay * a1 == az * ay * a0 + az * ay * ax) by (nonlinear_arith)
        requires a1 == a0 + ax;
}

/// Probing all directions of cell `c` moves the count to the next cell in the row.
pub proof fn lemma_links_step_x(c: GridVec, n: int, k: int)
    requires
        in_cube(c, n),
        n <= 0x7fff_0000,
        0 <= k <= 9,
    ensures
        links_before(gv(c.x + 1, c.y as int, c.z as int), n, k) == links_before(c, n, k)
            + hits_from(c, k, n),
    decreases k,
{
    if k > 0 {
        lemma_links_step_x(c, n, k - 1);
        lemma_direction_facts(k - 1);
        lemma_dir_step_x(direction(k - 1), c, n);
        lemma_hit_axes(c, k - 1, n);
    }
}

/// The end of row `y` is the start of row `y + 1`.
pub proof fn lemma_links_wrap_x(y: int, z: int, n: int, k: int)
    requires
        0 <= y < n,
        0 <= z < n,
        n <= 0x7fff_0000,
        0 <= k <= 9,
    ensures
        links_before(gv(n, y, z), n, k) == links_before(gv(0, y + 1, z), n, k),
    decreases k,
{
    if k > 0 {
        lemma_links_wrap_x(y, z, n, k - 1);
        let d = direction(k - 1);
        lemma_direction_facts(k - 1);
        lemma_axis_step(d.y as int, y, n);
        let az = axis_hit(z, d.z as int, n);
        let ay = axis_hit(y, d.y as int, n);
        let b0 = axis_hits_before(d.y as int, y, n);
        let b1 = axis_hits_before(d.y as int, y + 1, n);
        let cx = axis_hits_before(d.x as int, n, n);
        assert(az * b0 * cx + az * ay * cx == az * b1 * cx) by (nonlinear_arith)
            requires b1 == b0 + ay;
        assert(axis_hits_before(d.x as int, 0, n) == 0);
    }
}

/// The end of plane `z` is the start of plane `z + 1`.
pub proof fn lemma_links_wrap_y(z: int, n: int, k: int)
    requires
        0 <= z < n,
        n <= 0x7fff_0000,
        0 <= k <= 9,
    ensures
        links_before(gv(0, n, z), n, k) == links_before(gv(0, 0, z + 1), n, k),
    decreases k,
{
    if k > 0 {
        lemma_links_wrap_y(z, n, k - 1);
        let d = direction(k - 1);
        lemma_direction_facts(k - 1);
        lemma_axis_step(d.z as int, z, n);
        let az = axis_hit(z, d.z as int, n);
        let a0 = axis_hits_before(d.z as int, z, n);
        let a1 = axis_hits_before(d.z as int, z + 1, n);
        let cy = axis_hits_before(d.y as int, n, n);
        let cx = axis_hits_before(d.x as int, n, n);
        assert(a0 * cy * cx + az * cy * cx == a1 * cy * cx) by (nonlinear_arith)
            requires a1 == a0 + az;
        let ay = axis_hit(n, d.y as int, n);
        let py = axis_hits_before(d.y as int, n, n);
        let az1 = axis_hit(z + 1, d.z as int, n);
        assert(axis_hits_before(d.x as int, 0, n) == 0);
        assert(axis_hits_before(d.y as int, 0, n) == 0);
        assert(az * ay * 0 == 0 && az1 * 0 * cx == 0 && az1 * ay * 0 == 0) by (nonlinear_arith);
        assert(az * py * cx == az * cy * cx);
    }
}

/// Nothing comes before the first cell.
pub proof fn lemma_links_start(n: int, k: int)
    requires
        1 <= n <= 0x7fff_0000,
        0 <= k <= 9,
    ensures
        links_before(gv(0, 0, 0), n, k) == 0,
    decreases k,
{
    if k > 0 {
        lemma_links_start(n, k - 1);
        lemma_direction_facts(k - 1);
        let d = direction(k - 1);
        assert(axis_hits_before(d.x as int, 0, n) == 0);
        assert(axis_hits_before(d.y as int, 0, n) == 0);
        assert(axis_hits_before(d.z as int, 0, n) == 0);
        let az = axis_hit(0, d.z as int, n);
        let ay = axis_hit(0, d.y as int, n);
        let cy = axis_hits_before(d.y as int, n, n);
        let cx = axis_hits_before(d.x as int, n, n);
        assert(0 * cy * cx == 0 && az * 0 * cx == 0 && az * ay * 0 == 0) by (nonlinear_arith);
    }
}

/// Past the last plane, every cell has been counted.
pub proof fn lemma_links_end(n: int, k: int)
    requires
        1 <= n <= 0x7fff_0000,
        0 <= k <= 9,
    ensures
        links_before(gv(0, 0, n), n, k) == links_all(n, k),
    decreases k,
{
    if k > 0 {
        lemma_links_end(n, k - 1);
        lemma_direction_facts(k - 1);
        let d = direction(k - 1);
        assert(axis_hits_before(d.x as int, 0, n) == 0);
        assert(axis_hits_before(d.y as int, 0, n) == 0);
        let az = axis_hit(n, d.z as int, n);
        let cx = axis_hits_before(d.x as int, n, n);
        let ay = axis_hit(0, d.y as int, n);
        assert(az * 0 * cx == 0 && az * ay * 0 == 0) by (nonlinear_arith);
    }
}

/// All nine directions together give the closed-form link count.
pub proof fn lemma_links_all(n: int)
    requires
        1 <= n,
    ensures
        links_all(n, 9) == link_count(n - 1),
{
    reveal_with_fuel(links_all, 10);
    let d = n - 1;
    assert(links_all(n, 9) == 3 * (n * n * d) + 6 * (n * d * d)) by (nonlinear_arith)
        requires
            links_all(n, 9) == n * n * d + n * d * n + d * n * n + n * d * d + d * d * n + d * n
                * d + n * d * d + d * d * n + d * n * d,
    ;
    assert(3 * (n * n * d) + 6 * (n * d * d) == link_count(d)) by (nonlinear_arith)
        requires n == d + 1;
}

proof fn lemma_dir_bound(d: GridVec, c: GridVec, n: int)
    requires
        in_cube(c, n),
        -1 <= d.x <= 1,
        -1 <= d.y <= 1,
        -1 <= d.z <= 1,
    ensures
        dir_hits_before(d, c, n) + axis_hit(c.z as int, d.z as int, n) * axis_hit(
            c.y as int,
            d.y as int,
            n,
        ) * axis_hit(c.x as int, d.x as int, n) <= axis_hits_before(d.z as int, n, n)
            * axis_hits_before(d.y as int, n, n) * axis_hits_before(d.x as int, n, n),
        0 <= dir_hits_before(d, c, n),
{
    lemma_axis_step(d.x as int, c.x as int, n);
    lemma_axis_step(d.y as int, c.y as int, n);
    lemma_axis_step(d.z as int, c.z as int, n);
    let az = axis_hit(c.z as int, d.z as int, n);
    let ay = axis_hit(c.y as int, d.y as int, n);
    let ax = axis_hit(c.x as int, d.x as int, n);
    let pz = axis_hits_before(d.z as int, c.z as int, n);
    let py = axis_hits_before(d.y as int, c.y as int, n);
    let px = axis_hits_before(d.x as int, c.x as int, n);
    let cz = axis_hits_before(d.z as int, n, n);
    let cy = axis_hits_before(d.y as int, n, n);
    let cx = axis_hits_before(d.x as int, n, n);
    assert(pz * cy * cx + az * py * cx + az * ay * px + az * ay * ax <= cz * cy * cx
        && 0 <= pz * cy * cx + az * py * cx + az * ay * px) by (nonlinear_arith)
        requires
            0 <= az <= 1,
            0 <= ay <= 1,
            0 <= ax <= 1,
            0 <= pz,
            0 <= py,
            0 <= px,
            pz + az <= cz,
            py + ay <= cy,
            px + ax <= cx,
    ;
}

/// The count before a cell plus that cell's links never exceeds the total.
pub proof fn lemma_links_bound(c: GridVec, n: int, k: int)
    requires
        in_cube(c, n),
        n <= 0x7fff_0000,
        0 <= k <= 9,
    ensures
        0 <= links_before(c, n, k),
        links_before(c, n, k) + hits_from(c, k, n) <= links_all(n, k),
    decreases k,
{
    if k > 0 {
        lemma_links_bound(c, n, k - 1);
        lemma_direction_facts(k - 1);
        lemma_dir_bound(direction(k - 1), c, n);
        lemma_hit_axes(c, k - 1, n);
    }
}

proof fn lemma_hits_nonneg(c: GridVec, n: int, k: int)
    ensures
        0 <= hits_from(c, k, n),
    decreases k,
{
    if k > 0 {
        lemma_hits_nonneg(c, n, k - 1);
    }
}

/// `hits_from` grows with `k`.
pub proof fn lemma_hits_mono(c: GridVec, n: int, j: int, k: int)
    requires
        0 <= j <= k,
    ensures
        0 <= hits_from(c, j, n) <= hits_from(c, k, n),
    decreases k,
{
    if j < k {
        lemma_hits_mono(c, n, j, k - 1);
    } else {
        lemma_hits_nonneg(c, n, j);
    }
}


/// Probing direction `k` of cell `c` adds that link when it stays inside.
pub proof fn lemma_produced_step(n: int, c: GridVec, k: int)
    requires
        in_cube(c, n),
        n <= 0x7fff_0000,
        0 <= k < 9,
    ensures
        produced(n, c, k + 1) == (if in_cube(vec_add(c, direction(k)), n) {
            produced(n, c, k).insert((c, vec_add(c, direction(k))))
        } else {
            produced(n, c, k)
        }),
{
    lemma_direction_facts(k);
    let t = vec_add(c, direction(k));
    assert(vec_sub(t, c) == direction(k));
    let rhs = if in_cube(t, n) {
        produced(n, c, k).insert((c, t))
    } else {
        produced(n, c, k)
    };
    assert forall|p: (GridVec, GridVec)| produced(n, c, k + 1).contains(p) == rhs.contains(p) by {
        if p.0 == c && link_dir(p) == k && in_cube(p.1, n) {
            assert(vec_sub(p.1, c) == direction(k));
            assert(p.1 == t);
        }
    }
    assert(produced(n, c, k + 1) =~= rhs);
}

/// After the last direction of a cell comes the next cell of the row.
pub proof fn lemma_produced_next_x(n: int, x: int, y: int, z: int)
    requires
        0 <= x < n,
        0 <= y < n,
        0 <= z < n,
        n <= 0x7fff_0000,
    ensures
        produced(n, gv(x + 1, y, z), 0) == produced(n, gv(x, y, z), 9),
{
    assert(produced(n, gv(x + 1, y, z), 0) =~= produced(n, gv(x, y, z), 9));
}

/// The end of row `y` is the start of row `y + 1`.
pub proof fn lemma_produced_wrap_x(n: int, y: int, z: int)
    requires
        0 <= y < n,
        0 <= z < n,
        n <= 0x7fff_0000,
    ensures
        produced(n, gv(n, y, z), 0) == produced(n, gv(0, y + 1, z), 0),
{
    assert(produced(n, gv(n, y, z), 0) =~= produced(n, gv(0, y + 1, z), 0));
}

/// The end of plane `z` is the start of plane `z + 1`.
pub proof fn lemma_produced_wrap_y(n: int, z: int)
    requires
        0 <= z < n,
        n <= 0x7fff_0000,
    ensures
        produced(n, gv(0, n, z), 0) == produced(n, gv(0, 0, z + 1), 0),
{
    assert(produced(n, gv(0, n, z), 0) =~= produced(n, gv(0, 0, z + 1), 0));
}

/// Nothing is produced before the first cell.
pub proof fn lemma_produced_start(n: int)
    requires
        1 <= n <= 0x7fff_0000,
    ensures
        produced(n, gv(0, 0, 0), 0) == Set::<(GridVec, GridVec)>::empty(),
{
    assert(produced(n, gv(0, 0, 0), 0) =~= Set::<(GridVec, GridVec)>::empty());
}

/// Past the last plane, every link of the lattice has been produced.
pub proof fn lemma_produced_end(n: int)
    requires
        1 <= n <= 0x7fff_0000,
    ensures
        produced(n, gv(0, 0, n), 0) == lattice_links(n),
{
    assert(produced(n, gv(0, 0, n), 0) =~= lattice_links(n));
}

/// The link of direction `k` from `c` is not among those produced before it.
pub proof fn lemma_new_pair_fresh(n: int, c: GridVec, k: int)
    requires
        in_cube(c, n),
        n <= 0x7fff_0000,
        0 <= k < 9,
    ensures
        !produced(n, c, k).contains((c, vec_add(c, direction(k)))),
{
    lemma_direction_facts(k);
    assert(vec_sub(vec_add(c, direction(k)), c) == direction(k));
}

/// Forward directions never hold a vector and its opposite, so no lattice
/// link is the reverse of another: each edge of the lattice appears once.
pub proof fn lemma_forward_only(n: int)
    requires
        n <= 0x7fff_0000,
    ensures
        forall|p: (GridVec, GridVec)|
            lattice_links(n).contains(p) ==> !lattice_links(n).contains((p.1, p.0)),
{
    assert forall|p: (GridVec, GridVec)|
        lattice_links(n).contains(p) implies !lattice_links(n).contains((p.1, p.0)) by {
        let k = link_dir(p);
        lemma_direction_facts(k);
    }
}

} // verus!
