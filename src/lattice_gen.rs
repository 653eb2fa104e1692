use vstd::prelude::*;
use crate::grid::{
    length_sq, vec_sub,
    calc_num_nodes, direction, directions, get_direction_vec, get_static_node_indices, gv,
    flat_index, in_cube, is_corner, is_forward, lex_lt, link_count, link_out_of_bounds,
    node_count, vec_add, GridVec, NUM_DIRECTIONS,
};
use crate::topology::{
    hits_from, lattice_links, lemma_direction_facts, lemma_hits_mono, lemma_links_all,
    lemma_links_bound, lemma_links_end, lemma_links_start, lemma_links_step_x, lemma_links_wrap_x,
    lemma_links_wrap_y, lemma_new_pair_fresh, lemma_produced_end, lemma_produced_next_x, lemma_produced_start,
    lemma_produced_step, lemma_produced_wrap_x, lemma_produced_wrap_y, links_all, links_before,
    produced,
};
use crate::store::{Entity, Store};

verus! {

/// The integer part of a lattice node: its grid cell and whether it is
/// anchored (never moved by the integrator).
#[derive(Clone, Copy, Debug, PartialEq, Eq, Structural)]
pub struct Node {
    pub coord: GridVec,
    pub anchored: bool,
}

/// The integer part of a link: its end nodes, the grid cell of `from` and
/// the grid offset from `from` to `to`. The rest length of the spring is the
/// length of `offset` times the unit length. `to` is `None` only for a link
/// whose far end would lie outside the lattice.
#[derive(Clone, Copy, Debug, PartialEq, Eq, Structural)]
pub struct Link {
    pub from: Entity,
    pub to: Option<Entity>,
    pub from_coord: GridVec,
    pub offset: GridVec,
}

impl Link {
    pub fn new(from_coord: GridVec, offset: GridVec, to: Option<Entity>, from: Entity) -> (r: Link)
        ensures
            r == (Link { from, to, from_coord, offset }),
    {
        Link { from, to, from_coord, offset }
    }
}

/// The node a full lattice holds at cell `c`.
pub open spec fn node_at(c: GridVec, dim: int) -> Node {
    Node { coord: c, anchored: is_corner(c.x as int, c.y as int, c.z as int, dim) }
}

/// Table from grid cells to node handles, x fastest.
pub struct LatticeGen {
    /// Nodes per edge: `lattice_dim + 1`.
    pub nodes_dim: u32,
    /// Cells per edge.
    pub lattice_dim: u32,
    /// Node handles, at `flat_index` of their cell.
    pub data: Vec<Entity>,
}

/// `n^3` stays within `u32` only for `n <= 1625`.
pub proof fn lemma_nodes_dim_bound(dim: int)
    requires
        0 <= dim,
        node_count(dim) <= u32::MAX,
    ensures
        dim + 1 <= 1625,
{
    if dim + 1 > 1625 {
        assert((dim + 1) * (dim + 1) * (dim + 1) >= 1626 * 1626 * 1626) by (nonlinear_arith)
            requires dim + 1 >= 1626;
    }
}

/// A cell inside the cube has a flat offset below `n^3`.
pub proof fn lemma_flat_in_range(c: GridVec, n: int)
    requires
        in_cube(c, n),
    ensures
        0 <= flat_index(c, n) < n * n * n,
{
    assert(0 <= flat_index(c, n) < n * n * n) by (nonlinear_arith)
        requires 0 <= c.x < n, 0 <= c.y < n, 0 <= c.z < n;
}

impl LatticeGen {
    /// Sizes agree and fit `u32`; at most one handle per cell.
    pub open spec fn wf(&self) -> bool {
        &&& self.nodes_dim == self.lattice_dim + 1
        &&& node_count(self.lattice_dim as int) <= u32::MAX
        &&& self.nodes_dim <= 1625
        &&& self.data@.len() <= node_count(self.lattice_dim as int)
    }

    /// The table holds a handle for every cell of the cube.
    pub open spec fn full(&self) -> bool {
        self.wf() && self.data@.len() == node_count(self.lattice_dim as int)
    }

    /// The handle of cell `c`.
    pub open spec fn handle_at(&self, c: GridVec) -> Entity {
        self.data@[flat_index(c, self.nodes_dim as int)]
    }

    /// Every cell's handle resolves, in `nodes`, to the node of that cell.
    pub open spec fn placed(&self, nodes: Map<Entity, Node>) -> bool {
        &&& self.full()
        &&& forall|c: GridVec| #![auto]
            in_cube(c, self.nodes_dim as int) ==> nodes.contains_key(self.handle_at(c))
                && nodes[self.handle_at(c)] == node_at(c, self.lattice_dim as int)
    }

    /// An empty table for a lattice of `lattice_dimension` cells per edge.
    pub fn new(lattice_dimension: u32) -> (r: LatticeGen)
        requires
            node_count(lattice_dimension as int) <= u32::MAX,
        ensures
            r.wf(),
            r.lattice_dim == lattice_dimension,
            r.data@.len() == 0,
    {
        proof {
            lemma_nodes_dim_bound(lattice_dimension as int);
        }
        let cap = calc_num_nodes(lattice_dimension).unwrap();
        LatticeGen {
            nodes_dim: lattice_dimension + 1,
            lattice_dim: lattice_dimension,
            data: Vec::with_capacity(cap as usize),
        }
    }

    /// Flat offset of cell `(x, y, z)`.
    pub fn get_data_idx(&self, x: u32, y: u32, z: u32) -> (r: usize)
        requires
            self.wf(),
            x < self.nodes_dim,
            y < self.nodes_dim,
            z < self.nodes_dim,
        ensures
            r == flat_index(gv(x as int, y as int, z as int), self.nodes_dim as int),
    {
        let n = self.nodes_dim;
        proof {
            lemma_flat_in_range(gv(x as int, y as int, z as int), n as int);
            assert(z * n * n <= z * n * n + y * n) by (nonlinear_arith)
                requires 0 <= y, 0 <= n;
            assert(z * n <= z * n * n) by (nonlinear_arith)
                requires 0 <= z, 1 <= n;
            assert(0 <= y * n <= z * n * n + y * n) by (nonlinear_arith)
                requires 0 <= y, 0 <= n, 0 <= z;
        }
        ((z * n * n) + (y * n) + x) as usize
    }

    /// The handle of cell `c`.
    pub fn get(&self, c: GridVec) -> (r: Entity)
        requires
            self.full(),
            in_cube(c, self.nodes_dim as int),
        ensures
            r == self.handle_at(c),
    {
        proof {
            lemma_flat_in_range(c, self.nodes_dim as int);
        }
        let idx = self.get_data_idx(c.x as u32, c.y as u32, c.z as u32);
        assert(gv(c.x as u32 as int, c.y as u32 as int, c.z as u32 as int) == c);
        self.data[idx]
    }

    /// Appends the handle of the next cell.
    pub fn add(&mut self, node: Entity)
        requires
            old(self).wf(),
            old(self).data@.len() < node_count(old(self).lattice_dim as int),
        ensures
            final(self).wf(),
            final(self).nodes_dim == old(self).nodes_dim,
            final(self).lattice_dim == old(self).lattice_dim,
            final(self).data@ == old(self).data@.push(node),
    {
        self.data.push(node);
    }
}


/// Whether `(x, y, z)` is among `corners`.
fn is_listed(corners: &Vec<(u32, u32, u32)>, x: u32, y: u32, z: u32) -> (r: bool)
    ensures
        r == corners@.contains((x, y, z)),
{
    let mut i: usize = 0;
    while i < corners.len()
        invariant
            i <= corners@.len(),
            forall|k: int| 0 <= k < i ==> corners@[k] != (x, y, z),
        decreases corners@.len() - i,
    {
        if corners[i].0 == x && corners[i].1 == y && corners[i].2 == z {
            assert(corners@[i as int] == (x, y, z));
            return true;
        }
        i += 1;
    }
    false
}

/// Spawns one node per cell of the cube, x fastest, anchoring exactly the
/// eight corners, and records each handle in `lattice_gen` at the cell's
/// flat offset.
pub fn create_all_nodes(lattice_gen: &mut LatticeGen, nodes: &mut Store<Node>)
    requires
        old(lattice_gen).wf(),
        old(lattice_gen).data@.len() == 0,
        old(nodes).wf(),
    ensures
        final(nodes).wf(),
        final(lattice_gen).nodes_dim == old(lattice_gen).nodes_dim,
        final(lattice_gen).lattice_dim == old(lattice_gen).lattice_dim,
        final(lattice_gen).placed(final(nodes)@),
        final(lattice_gen).data@.no_duplicates(),
        forall|e: Entity|
            final(nodes)@.contains_key(e) <==> (old(nodes)@.contains_key(e)
                || final(lattice_gen).data@.contains(e)),
        forall|e: Entity|
            old(nodes)@.contains_key(e) ==> !final(lattice_gen).data@.contains(e)
                && final(nodes)@[e] == old(nodes)@[e],
{
    let ghost nodes0 = nodes@;
    let corners = get_static_node_indices(lattice_gen.lattice_dim);
    let n = lattice_gen.nodes_dim;
    let ghost ni = n as int;
    let ghost dim = lattice_gen.lattice_dim as int;
    let mut z: u32 = 0;
    assert(flat_index(gv(0, 0, 0), ni) == 0) by (nonlinear_arith);
    while z < n
        invariant
            nodes.wf(),
            lattice_gen.wf(),
            n == lattice_gen.nodes_dim,
            dim == lattice_gen.lattice_dim,
            ni == n,
            z <= n,
            corners@.len() == 8,
            forall|a: u32, b: u32, c: u32|
                corners@.contains((a, b, c)) <==> is_corner(a as int, b as int, c as int, dim),
            lattice_gen.data@.len() == flat_index(gv(0, 0, z as int), ni),
            forall|c: GridVec| #![auto]
                in_cube(c, ni) && lex_lt(c, gv(0, 0, z as int)) ==> flat_index(c, ni)
                    < lattice_gen.data@.len() && nodes@.contains_key(
                    lattice_gen.data@[flat_index(c, ni)],
                ) && nodes@[lattice_gen.data@[flat_index(c, ni)]] == node_at(c, dim),
            forall|i: int| #![auto]
                0 <= i < lattice_gen.data@.len() ==> nodes@.contains_key(lattice_gen.data@[i])
                    && !nodes0.contains_key(lattice_gen.data@[i]),
            lattice_gen.data@.no_duplicates(),
            forall|e: Entity|
                nodes@.contains_key(e) <==> (nodes0.contains_key(e) || lattice_gen.data@.contains(e)),
            forall|e: Entity| nodes0.contains_key(e) ==> nodes@[e] == nodes0[e],
        decreases n - z,
    {
        let mut y: u32 = 0;
        while y < n
            invariant
                nodes.wf(),
                lattice_gen.wf(),
                n == lattice_gen.nodes_dim,
                dim == lattice_gen.lattice_dim,
                ni == n,
                z < n,
                y <= n,
                corners@.len() == 8,
                forall|a: u32, b: u32, c: u32|
                    corners@.contains((a, b, c)) <==> is_corner(a as int, b as int, c as int, dim),
                lattice_gen.data@.len() == flat_index(gv(0, y as int, z as int), ni),
                forall|c: GridVec| #![auto]
                    in_cube(c, ni) && lex_lt(c, gv(0, y as int, z as int)) ==> flat_index(c, ni)
                        < lattice_gen.data@.len() && nodes@.contains_key(
                        lattice_gen.data@[flat_index(c, ni)],
                    ) && nodes@[lattice_gen.data@[flat_index(c, ni)]] == node_at(c, dim),
                forall|i: int| #![auto]
                    0 <= i < lattice_gen.data@.len() ==> nodes@.contains_key(lattice_gen.data@[i])
                        && !nodes0.contains_key(lattice_gen.data@[i]),
                lattice_gen.data@.no_duplicates(),
                forall|e: Entity|
                    nodes@.contains_key(e) <==> (nodes0.contains_key(e)
                        || lattice_gen.data@.contains(e)),
                forall|e: Entity| nodes0.contains_key(e) ==> nodes@[e] == nodes0[e],
            decreases n - y,
        {
            let mut x: u32 = 0;
            while x < n
                invariant
                    nodes.wf(),
                    lattice_gen.wf(),
                    n == lattice_gen.nodes_dim,
                    dim == lattice_gen.lattice_dim,
                    ni == n,
                    z < n,
                    y < n,
                    x <= n,
                    corners@.len() == 8,
                    forall|a: u32, b: u32, c: u32|
                        corners@.contains((a, b, c)) <==> is_corner(
                            a as int,
                            b as int,
                            c as int,
                            dim,
                        ),
                    lattice_gen.data@.len() == flat_index(gv(x as int, y as int, z as int), ni),
                    forall|c: GridVec| #![auto]
                        in_cube(c, ni) && lex_lt(c, gv(x as int, y as int, z as int))
                            ==> flat_index(c, ni) < lattice_gen.data@.len() && nodes@.contains_key(
                            lattice_gen.data@[flat_index(c, ni)],
                        ) && nodes@[lattice_gen.data@[flat_index(c, ni)]] == node_at(c, dim),
                    forall|i: int| #![auto]
                        0 <= i < lattice_gen.data@.len() ==> nodes@.contains_key(
                            lattice_gen.data@[i],
                        ) && !nodes0.contains_key(lattice_gen.data@[i]),
                    lattice_gen.data@.no_duplicates(),
                    forall|e: Entity|
                        nodes@.contains_key(e) <==> (nodes0.contains_key(e)
                            || lattice_gen.data@.contains(e)),
                    forall|e: Entity| nodes0.contains_key(e) ==> nodes@[e] == nodes0[e],
                decreases n - x,
            {
                let cur = GridVec::new(x as i32, y as i32, z as i32);
                let ghost c0 = gv(x as int, y as int, z as int);
                assert(cur == c0);
                let anchored = is_listed(&corners, x, y, z);
                let ghost data0 = lattice_gen.data@;
                let ghost m0 = nodes@;
                proof {
                    lemma_flat_in_range(c0, ni);
                }
                let e = nodes.spawn(Node { coord: cur, anchored });
                lattice_gen.add(e);
                proof {
                    let data = lattice_gen.data@;
                    assert(data[data0.len() as int] == e);
                    assert(!data0.contains(e));
                    assert forall|i: int, j: int|
                        0 <= i < data.len() && 0 <= j < data.len() && i != j implies data[i]
                        != data[j] by {
                        if i < data0.len() && j < data0.len() {
                            assert(data[i] == data0[i] && data[j] == data0[j]);
                        } else if i < data0.len() {
                            assert(data[i] == data0[i]);
                            assert(m0.contains_key(data0[i]));
                        } else if j < data0.len() {
                            assert(data[j] == data0[j]);
                            assert(m0.contains_key(data0[j]));
                        }
                    }
                    assert forall|ee: Entity|
                        nodes@.contains_key(ee) <==> (nodes0.contains_key(ee)
                            || data.contains(ee)) by {
                        if data.contains(ee) && ee != e {
                            let k = choose|k: int| 0 <= k < data.len() && data[k] == ee;
                            assert(data0[k] == ee);
                        }
                        if data0.contains(ee) {
                            let k = choose|k: int| 0 <= k < data0.len() && data0[k] == ee;
                            assert(data[k] == ee);
                        }
                    }
                    assert forall|i: int| #![auto]
                        0 <= i < data.len() implies nodes@.contains_key(data[i])
                        && !nodes0.contains_key(data[i]) by {
                        if i < data0.len() {
                            assert(data[i] == data0[i]);
                        }
                    }
                    let c1 = gv(x + 1, y as int, z as int);
                    assert(flat_index(c1, ni) == flat_index(c0, ni) + 1);
                    assert forall|c: GridVec| #![auto]
                        in_cube(c, ni) && lex_lt(c, c1) implies flat_index(c, ni) < data.len()
                        && nodes@.contains_key(data[flat_index(c, ni)])
                        && nodes@[data[flat_index(c, ni)]] == node_at(c, dim) by {
                        if c == c0 {
                            assert(anchored == is_corner(x as int, y as int, z as int, dim));
                        } else {
                            assert(lex_lt(c, c0));
                            assert(data[flat_index(c, ni)] == data0[flat_index(c, ni)]);
                        }
                    }
                }
                x += 1;
            }
            proof {
                let ca = gv(n as int, y as int, z as int);
                let cb = gv(0, y + 1, z as int);
                assert(flat_index(ca, ni) == flat_index(cb, ni)) by (nonlinear_arith)
                    requires ca.x == ni, ca.y == y, cb.y == y + 1, ca.z == cb.z, cb.x == 0;
                assert forall|c: GridVec| in_cube(c, ni) && lex_lt(c, cb) implies lex_lt(c, ca) by {}
            }
            y += 1;
        }
        proof {
            let ca = gv(0, n as int, z as int);
            let cb = gv(0, 0, z + 1);
            assert(flat_index(ca, ni) == flat_index(cb, ni)) by (nonlinear_arith)
                requires ca.y == ni, ca.z == z, cb.z == z + 1, cb.y == 0, ca.x == 0, cb.x == 0;
            assert forall|c: GridVec| in_cube(c, ni) && lex_lt(c, cb) implies lex_lt(c, ca) by {}
        }
        z += 1;
    }
    proof {
        let cend = gv(0, 0, ni);
        assert(flat_index(cend, ni) == node_count(dim)) by (nonlinear_arith)
            requires cend.z == ni, cend.y == 0, cend.x == 0, ni == dim + 1;
        assert forall|c: GridVec| #![auto] in_cube(c, ni) implies lex_lt(c, cend) by {}
    }
}

/// The (from cell, to cell) pair of a link.
pub open spec fn link_pair(l: Link) -> (GridVec, GridVec) {
    (l.from_coord, vec_add(l.from_coord, l.offset))
}

/// The cell pairs of the links in `m` that have a far end.
pub open spec fn link_pairs(m: Map<Entity, Link>) -> Set<(GridVec, GridVec)> {
    Set::new(
        |p: (GridVec, GridVec)|
            exists|e: Entity| #[trigger] m.contains_key(e) && m[e].to is Some && link_pair(m[e]) == p,
    )
}

/// No two links of `m` with a far end join the same two cells.
pub open spec fn distinct_pairs(m: Map<Entity, Link>) -> bool {
    forall|e1: Entity, e2: Entity|
        #![trigger m[e1], m[e2]]
        m.contains_key(e1) && m.contains_key(e2) && e1 != e2 && m[e1].to is Some && m[e2].to is Some
            ==> link_pair(m[e1]) != link_pair(m[e2])
}

/// A link whose pair is new keeps the pairs distinct.
pub proof fn lemma_distinct_insert(m: Map<Entity, Link>, e: Entity, l: Link)
    requires
        distinct_pairs(m),
        !m.contains_key(e),
        l.to is Some ==> !link_pairs(m).contains(link_pair(l)),
    ensures
        distinct_pairs(m.insert(e, l)),
{
    let m2 = m.insert(e, l);
    assert forall|e1: Entity, e2: Entity|
        m2.contains_key(e1) && m2.contains_key(e2) && e1 != e2 && m2[e1].to is Some
            && m2[e2].to is Some implies link_pair(m2[e1]) != link_pair(m2[e2]) by {
        if e1 == e {
            assert(m.contains_key(e2));
            assert(link_pairs(m).contains(link_pair(m[e2])));
        } else if e2 == e {
            assert(m.contains_key(e1));
            assert(link_pairs(m).contains(link_pair(m[e1])));
        } else {
            assert(m[e1] == m2[e1] && m[e2] == m2[e2]);
        }
    }
}

/// Inserting a link under a fresh handle adds its pair, if it has a far end.
pub proof fn lemma_pairs_insert(m: Map<Entity, Link>, e: Entity, l: Link)
    requires
        !m.contains_key(e),
    ensures
        link_pairs(m.insert(e, l)) == (if l.to is Some {
            link_pairs(m).insert(link_pair(l))
        } else {
            link_pairs(m)
        }),
{
    let m2 = m.insert(e, l);
    let rhs = if l.to is Some {
        link_pairs(m).insert(link_pair(l))
    } else {
        link_pairs(m)
    };
    assert forall|p: (GridVec, GridVec)| link_pairs(m2).contains(p) == rhs.contains(p) by {
        if link_pairs(m2).contains(p) {
            let f = choose|f: Entity| #[trigger] m2.contains_key(f) && m2[f].to is Some && link_pair(m2[f]) == p;
            if f != e {
                assert(m.contains_key(f));
            }
        }
        if link_pairs(m).contains(p) {
            let f = choose|f: Entity| #[trigger] m.contains_key(f) && m[f].to is Some && link_pair(m[f]) == p;
            assert(m2.contains_key(f));
        }
        if l.to is Some && p == link_pair(l) {
            assert(m2.contains_key(e));
        }
    }
    assert(link_pairs(m2) =~= rhs);
}

/// Removing a link without a far end leaves the pairs as they are.
pub proof fn lemma_pairs_remove(m: Map<Entity, Link>, e: Entity)
    requires
        m.contains_key(e),
        m[e].to is None,
    ensures
        link_pairs(m.remove(e)) == link_pairs(m),
{
    let m2 = m.remove(e);
    assert forall|p: (GridVec, GridVec)| link_pairs(m2).contains(p) == link_pairs(m).contains(p) by {
        if link_pairs(m2).contains(p) {
            let f = choose|f: Entity| #[trigger] m2.contains_key(f) && m2[f].to is Some && link_pair(m2[f]) == p;
            assert(m.contains_key(f));
        }
        if link_pairs(m).contains(p) {
            let f = choose|f: Entity| #[trigger] m.contains_key(f) && m[f].to is Some && link_pair(m[f]) == p;
            assert(m2.contains_key(f));
        }
    }
    assert(link_pairs(m2) =~= link_pairs(m));
}

impl LatticeGen {
    /// Every link starts at a cell of the cube, runs along a forward
    /// direction, and holds the handles of its cells; its far end is `None`
    /// exactly when that cell lies outside.
    pub open spec fn links_match(&self, links: Map<Entity, Link>) -> bool {
        forall|e: Entity| #[trigger]
            links.contains_key(e) ==> {
                let l = links[e];
                let t = vec_add(l.from_coord, l.offset);
                &&& in_cube(l.from_coord, self.nodes_dim as int)
                &&& is_forward(l.offset)
                &&& l.from == self.handle_at(l.from_coord)
                &&& l.to == (if in_cube(t, self.nodes_dim as int) {
                    Some(self.handle_at(t))
                } else {
                    None
                })
            }
    }
}

/// Spawns, into an empty link table, one link for every cell and forward
/// direction whose far end lies in the cube, and returns how many it spawned.
pub fn generate_lattice(lattice_gen: &LatticeGen, links: &mut Store<Link>) -> (counter: u32)
    requires
        lattice_gen.full(),
        old(links).wf(),
        old(links)@ == Map::<Entity, Link>::empty(),
        link_count(lattice_gen.lattice_dim as int) <= u32::MAX,
    ensures
        final(links).wf(),
        counter == link_count(lattice_gen.lattice_dim as int),
        final(links)@.dom().len() == counter,
        link_pairs(final(links)@) == lattice_links(lattice_gen.nodes_dim as int),
        forall|e: Entity| #[trigger] final(links)@.contains_key(e) ==> final(links)@[e].to is Some,
        distinct_pairs(final(links)@),
        lattice_gen.links_match(final(links)@),
{
    let dir_arr = get_direction_vec();
    let nodes_dim: i32 = lattice_gen.nodes_dim as i32;
    let ghost ni = nodes_dim as int;
    let ghost dim = lattice_gen.lattice_dim as int;
    let mut counter: u32 = 0;
    proof {
        lemma_links_all(ni);
        lemma_links_start(ni, 9);
        lemma_produced_start(ni);
        assert(link_pairs(links@) =~= Set::<(GridVec, GridVec)>::empty());
    }
    let mut z: i32 = 0;
    while z < nodes_dim
        invariant
            lattice_gen.full(),
            links.wf(),
            ni == nodes_dim == lattice_gen.nodes_dim,
            dim == lattice_gen.lattice_dim,
            links_all(ni, 9) == link_count(dim) <= u32::MAX,
            dir_arr@ == directions(),
            0 <= z <= ni,
            counter == links_before(gv(0, 0, z as int), ni, 9),
            links@.dom().len() == counter,
            link_pairs(links@) == produced(ni, gv(0, 0, z as int), 0),
            forall|e: Entity| #[trigger] links@.contains_key(e) ==> links@[e].to is Some,
            lattice_gen.links_match(links@),
            distinct_pairs(links@),
        decreases ni - z,
    {
        let mut y: i32 = 0;
        while y < nodes_dim
            invariant
                lattice_gen.full(),
                links.wf(),
                ni == nodes_dim == lattice_gen.nodes_dim,
                dim == lattice_gen.lattice_dim,
                links_all(ni, 9) == link_count(dim) <= u32::MAX,
                dir_arr@ == directions(),
                0 <= z < ni,
                0 <= y <= ni,
                counter == links_before(gv(0, y as int, z as int), ni, 9),
                links@.dom().len() == counter,
                link_pairs(links@) == produced(ni, gv(0, y as int, z as int), 0),
                forall|e: Entity| #[trigger] links@.contains_key(e) ==> links@[e].to is Some,
                lattice_gen.links_match(links@),
            distinct_pairs(links@),
            decreases ni - y,
        {
            let mut x: i32 = 0;
            while x < nodes_dim
                invariant
                    lattice_gen.full(),
                    links.wf(),
                    ni == nodes_dim == lattice_gen.nodes_dim,
                    dim == lattice_gen.lattice_dim,
                    links_all(ni, 9) == link_count(dim) <= u32::MAX,
                    dir_arr@ == directions(),
                    0 <= z < ni,
                    0 <= y < ni,
                    0 <= x <= ni,
                    counter == links_before(gv(x as int, y as int, z as int), ni, 9),
                    links@.dom().len() == counter,
                    link_pairs(links@) == produced(ni, gv(x as int, y as int, z as int), 0),
                    forall|e: Entity| #[trigger] links@.contains_key(e) ==> links@[e].to is Some,
                    lattice_gen.links_match(links@),
            distinct_pairs(links@),
                decreases ni - x,
            {
                let curr_node_pos = GridVec { x, y, z };
                let ghost c = gv(x as int, y as int, z as int);
                assert(curr_node_pos == c);
                let mut k: usize = 0;
                while k < NUM_DIRECTIONS
                    invariant
                        lattice_gen.full(),
                        links.wf(),
                        ni == nodes_dim == lattice_gen.nodes_dim,
                        dim == lattice_gen.lattice_dim,
                        links_all(ni, 9) == link_count(dim) <= u32::MAX,
                        dir_arr@ == directions(),
                        0 <= z < ni,
                        0 <= y < ni,
                        0 <= x < ni,
                        curr_node_pos == c,
                        c == gv(x as int, y as int, z as int),
                        0 <= k <= 9,
                        counter == links_before(c, ni, 9) + hits_from(c, k as int, ni),
                        links@.dom().len() == counter,
                        link_pairs(links@) == produced(ni, c, k as int),
                        forall|e: Entity| #[trigger] links@.contains_key(e) ==> links@[e].to is Some,
                        lattice_gen.links_match(links@),
            distinct_pairs(links@),
                    decreases 9 - k,
                {
                    let dir = dir_arr[k];
                    proof {
                        lemma_direction_facts(k as int);
                        lemma_produced_step(ni, c, k as int);
                        links.lemma_view_finite();
                    }
                    let to_node_pos = curr_node_pos.add(dir);
                    if !link_out_of_bounds(to_node_pos, nodes_dim) {
                        let to_node = lattice_gen.get(to_node_pos);
                        let from_node = lattice_gen.get(curr_node_pos);
                        let link = Link::new(curr_node_pos, dir, Some(to_node), from_node);
                        proof {
                            lemma_hits_mono(c, ni, k + 1, 9);
                            lemma_links_bound(c, ni, 9);
                        }
                        let ghost m0 = links@;
                        let e = links.spawn(link);
                        proof {
                            lemma_new_pair_fresh(ni, c, k as int);
                            lemma_distinct_insert(m0, e, link);
                            lemma_pairs_insert(m0, e, link);
                            assert(links@.dom() =~= m0.dom().insert(e));
                        }
                        counter += 1;
                    }
                    k += 1;
                }
                proof {
                    lemma_links_step_x(c, ni, 9);
                    lemma_produced_next_x(ni, x as int, y as int, z as int);
                }
                x += 1;
            }
            proof {
                lemma_links_wrap_x(y as int, z as int, ni, 9);
                lemma_produced_wrap_x(ni, y as int, z as int);
            }
            y += 1;
        }
        proof {
            lemma_links_wrap_y(z as int, ni, 9);
            lemma_produced_wrap_y(ni, z as int);
        }
        z += 1;
    }
    proof {
        lemma_links_end(ni, 9);
        lemma_produced_end(ni);
    }
    counter
}

/// Phase of the step-by-step generator.
#[derive(Clone, Copy, Debug, PartialEq, Eq, Structural)]
pub enum LatticeGenState {
    /// Remove the link just spawned towards a cell outside the cube.
    DespawnOutOfBound,
    /// Probe the next direction of the current cell.
    CheckingDirections,
    /// Move the cursor to the next cell.
    NewPosition,
    /// Every cell has been probed.
    FinalCheck,
    /// Terminal; further steps change nothing.
    Done,
}

/// Step-by-step link generation: one state transition per call of
/// `generate_lattice_animated`, so that a host can show partial progress.
pub struct LatticeGenAnim {
    /// Cursor cell.
    pub x: i32,
    pub y: i32,
    pub z: i32,
    /// Next direction to probe at the cursor.
    pub dir_idx: usize,
    /// The forward directions, in probing order.
    pub dir_arr: Vec<GridVec>,
    pub state: LatticeGenState,
    /// Links spawned so far and still live.
    pub links_counter: u32,
    /// The link spawned last.
    pub curr_link: Option<Entity>,
}

/// The cell after `c` in generation order, x fastest.
pub open spec fn next_cell(c: GridVec, n: int) -> GridVec {
    if c.x < n - 1 {
        gv(c.x + 1, c.y as int, c.z as int)
    } else if c.y < n - 1 {
        gv(0, c.y + 1, c.z as int)
    } else {
        gv(0, 0, c.z + 1)
    }
}

/// The last cell in generation order.
pub open spec fn last_cell(n: int) -> GridVec {
    gv(n - 1, n - 1, n - 1)
}

/// Every link in `m` has a far end.
pub open spec fn all_linked(m: Map<Entity, Link>) -> bool {
    forall|e: Entity| #[trigger] m.contains_key(e) ==> m[e].to is Some
}

impl LatticeGen {
    /// The link that probing direction `k` from cell `c` spawns.
    pub open spec fn probe_link(&self, c: GridVec, k: int) -> Link {
        let t = vec_add(c, direction(k));
        Link {
            from: self.handle_at(c),
            to: if in_cube(t, self.nodes_dim as int) {
                Some(self.handle_at(t))
            } else {
                None
            },
            from_coord: c,
            offset: direction(k),
        }
    }
}

impl LatticeGenAnim {
    /// A generator at its start: first cell, first direction, nothing spawned.
    pub fn new() -> (r: LatticeGenAnim)
        ensures
            r.fresh(),
    {
        LatticeGenAnim {
            x: 0,
            y: 0,
            z: 0,
            dir_arr: get_direction_vec(),
            dir_idx: 0,
            state: LatticeGenState::CheckingDirections,
            links_counter: 0,
            curr_link: None,
        }
    }

    /// At the first cell and direction, with nothing spawned.
    pub open spec fn fresh(&self) -> bool {
        &&& self.x == 0 && self.y == 0 && self.z == 0
        &&& self.dir_idx == 0
        &&& self.dir_arr@ == directions()
        &&& self.state == LatticeGenState::CheckingDirections
        &&& self.links_counter == 0
        &&& self.curr_link is None
    }

    /// The cell being probed.
    pub open spec fn cursor(&self) -> GridVec {
        GridVec { x: self.x, y: self.y, z: self.z }
    }

    /// The generator's state agrees with the link table `links` of the
    /// lattice `lattice_gen`: the live links are exactly those of the cells
    /// and directions probed so far (plus, right after a probe that left
    /// the cube, that one provisional link), and the counter counts them.
    pub open spec fn inv(&self, lattice_gen: &LatticeGen, links: Map<Entity, Link>) -> bool {
        let n = lattice_gen.nodes_dim as int;
        let c = self.cursor();
        let k = self.dir_idx as int;
        &&& lattice_gen.full()
        &&& link_count(lattice_gen.lattice_dim as int) < u32::MAX
        &&& self.dir_arr@ == directions()
        &&& in_cube(c, n)
        &&& lattice_gen.links_match(links)
        &&& distinct_pairs(links)
        &&& links.dom().finite()
        &&& links.dom().len() == self.links_counter
        &&& match self.state {
            LatticeGenState::CheckingDirections => {
                &&& 0 <= k <= 9
                &&& self.links_counter == links_before(c, n, 9) + hits_from(c, k, n)
                &&& link_pairs(links) == produced(n, c, k)
                &&& all_linked(links)
            },
            LatticeGenState::DespawnOutOfBound => {
                &&& 1 <= k <= 9
                &&& !in_cube(vec_add(c, direction(k - 1)), n)
                &&& self.curr_link is Some
                &&& links.contains_key(self.curr_link->0)
                &&& links[self.curr_link->0].to is None
                &&& all_linked(links.remove(self.curr_link->0))
                &&& self.links_counter == links_before(c, n, 9) + hits_from(c, k, n) + 1
                &&& link_pairs(links) == produced(n, c, k)
            },
            LatticeGenState::NewPosition => {
                &&& k == 0
                &&& self.links_counter == links_before(c, n, 9) + hits_from(c, 9, n)
                &&& link_pairs(links) == produced(n, c, 9)
                &&& all_linked(links)
            },
            _ => {
                &&& self.links_counter == link_count(lattice_gen.lattice_dim as int)
                &&& link_pairs(links) == lattice_links(n)
                &&& all_linked(links)
            },
        }
    }

    fn reset_direction(&mut self)
        ensures
            *final(self) == (LatticeGenAnim { dir_idx: 0, ..*old(self) }),
    {
        self.dir_idx = 0;
    }
}

/// A fresh generator agrees with an empty link table.
pub proof fn lemma_fresh_inv(anim: &LatticeGenAnim, lattice_gen: &LatticeGen, links: Map<Entity, Link>)
    requires
        anim.fresh(),
        lattice_gen.full(),
        link_count(lattice_gen.lattice_dim as int) < u32::MAX,
        links == Map::<Entity, Link>::empty(),
    ensures
        anim.inv(lattice_gen, links),
{
    let n = lattice_gen.nodes_dim as int;
    lemma_links_start(n, 9);
    lemma_produced_start(n);
    assert(anim.cursor() == gv(0, 0, 0));
    assert(link_pairs(links) =~= Set::<(GridVec, GridVec)>::empty());
    assert(links.dom() =~= Set::<Entity>::empty());
}

/// Performs one transition of the step-by-step generator on the link table.
pub fn generate_lattice_animated(
    anim: &mut LatticeGenAnim,
    lattice_gen: &LatticeGen,
    links: &mut Store<Link>,
)
    requires
        old(links).wf(),
        old(anim).inv(lattice_gen, old(links)@),
    ensures
        final(links).wf(),
        final(anim).inv(lattice_gen, final(links)@),
        final(anim).dir_arr == old(anim).dir_arr,
        old(anim).state == LatticeGenState::Done ==> *final(anim) == *old(anim) && final(links)@
            == old(links)@,
        old(anim).state == LatticeGenState::FinalCheck ==> final(anim).state
            == LatticeGenState::Done && final(anim).links_counter == old(anim).links_counter
            && final(links)@ == old(links)@,
        old(anim).state == LatticeGenState::NewPosition ==> {
            &&& final(links)@ == old(links)@
            &&& final(anim).links_counter == old(anim).links_counter
            &&& final(anim).dir_idx == 0
            &&& if old(anim).cursor() == last_cell(lattice_gen.nodes_dim as int) {
                final(anim).state == LatticeGenState::FinalCheck && final(anim).cursor()
                    == old(anim).cursor()
            } else {
                final(anim).state == LatticeGenState::CheckingDirections && final(anim).cursor()
                    == next_cell(old(anim).cursor(), lattice_gen.nodes_dim as int)
            }
        },
        old(anim).state == LatticeGenState::DespawnOutOfBound ==> {
            &&& old(anim).curr_link is Some
            &&& final(links)@ == old(links)@.remove(old(anim).curr_link->0)
            &&& !final(links)@.contains_key(old(anim).curr_link->0)
            &&& final(anim).state == LatticeGenState::CheckingDirections
            &&& final(anim).links_counter == old(anim).links_counter - 1
            &&& final(anim).links_counter == links_before(
                old(anim).cursor(),
                lattice_gen.nodes_dim as int,
                9,
            ) + hits_from(old(anim).cursor(), old(anim).dir_idx as int, lattice_gen.nodes_dim as int)
            &&& final(anim).cursor() == old(anim).cursor()
            &&& final(anim).dir_idx == old(anim).dir_idx
            &&& all_linked(final(links)@)
            &&& final(links)@.dom().len() == final(anim).links_counter
            &&& link_pairs(final(links)@) == produced(
                lattice_gen.nodes_dim as int,
                old(anim).cursor(),
                old(anim).dir_idx as int,
            )
        },
        old(anim).state == LatticeGenState::CheckingDirections && old(anim).dir_idx == 9 ==> {
            &&& final(links)@ == old(links)@
            &&& final(anim).state == LatticeGenState::NewPosition
            &&& final(anim).dir_idx == 0
            &&& final(anim).cursor() == old(anim).cursor()
            &&& final(anim).links_counter == old(anim).links_counter
        },
        old(anim).state == LatticeGenState::CheckingDirections && old(anim).dir_idx < 9 ==> {
            let link = lattice_gen.probe_link(old(anim).cursor(), old(anim).dir_idx as int);
            &&& final(anim).curr_link is Some
            &&& !old(links)@.contains_key(final(anim).curr_link->0)
            &&& final(links)@ == old(links)@.insert(final(anim).curr_link->0, link)
            &&& final(anim).links_counter == old(anim).links_counter + 1
            &&& final(anim).dir_idx == old(anim).dir_idx + 1
            &&& final(anim).cursor() == old(anim).cursor()
            &&& final(anim).state == (if link.to is Some {
                LatticeGenState::CheckingDirections
            } else {
                LatticeGenState::DespawnOutOfBound
            })
        },
{
    let nodes_dim = lattice_gen.nodes_dim as i32;
    let ghost n = nodes_dim as int;
    let ghost c = old(anim).cursor();
    let ghost k = old(anim).dir_idx as int;
    proof {
        links.lemma_view_finite();
    }
    match anim.state {
        LatticeGenState::CheckingDirections => {
            if anim.dir_idx == anim.dir_arr.len() {
                anim.state = LatticeGenState::NewPosition;
                anim.reset_direction();
            } else {
                let curr_node_pos = GridVec { x: anim.x, y: anim.y, z: anim.z };
                let dir = anim.dir_arr[anim.dir_idx];
                proof {
                    lemma_direction_facts(k);
                    lemma_produced_step(n, c, k);
                }
                let to_node_pos = curr_node_pos.add(dir);
                let from_node = lattice_gen.get(curr_node_pos);
                let mut to_node: Option<Entity> = None;
                if link_out_of_bounds(to_node_pos, nodes_dim) {
                    anim.state = LatticeGenState::DespawnOutOfBound;
                } else {
                    to_node = Some(lattice_gen.get(to_node_pos));
                }
                let link = Link::new(curr_node_pos, dir, to_node, from_node);
                proof {
                    lemma_hits_mono(c, n, k, 9);
                    lemma_links_bound(c, n, 9);
                    lemma_links_all(n);
                }
                let ghost m0 = links@;
                let e = links.spawn(link);
                proof {
                    lemma_new_pair_fresh(n, c, k);
                    lemma_distinct_insert(m0, e, link);
                    lemma_pairs_insert(m0, e, link);
                    assert(links@.dom() =~= m0.dom().insert(e));
                    if link.to is None {
                        assert(links@.remove(e) =~= m0);
                    }
                }
                anim.curr_link = Some(e);
                anim.links_counter += 1;
                anim.dir_idx += 1;
            }
        },
        LatticeGenState::NewPosition => {
            let final_pos = nodes_dim - 1;
            proof {
                lemma_links_step_x(c, n, 9);
                lemma_produced_next_x(n, c.x as int, c.y as int, c.z as int);
            }
            anim.state = LatticeGenState::CheckingDirections;
            if anim.x == final_pos && anim.y == final_pos && anim.z == final_pos {
                proof {
                    lemma_links_wrap_x(c.y as int, c.z as int, n, 9);
                    lemma_produced_wrap_x(n, c.y as int, c.z as int);
                    lemma_links_wrap_y(c.z as int, n, 9);
                    lemma_produced_wrap_y(n, c.z as int);
                    lemma_links_end(n, 9);
                    lemma_produced_end(n);
                    lemma_links_all(n);
                }
                anim.state = LatticeGenState::FinalCheck;
            } else if anim.x < final_pos {
                anim.x += 1;
            } else {
                proof {
                    lemma_links_wrap_x(c.y as int, c.z as int, n, 9);
                    lemma_produced_wrap_x(n, c.y as int, c.z as int);
                }
                anim.x = 0;
                if anim.y < final_pos {
                    anim.y += 1;
                } else {
                    proof {
                        lemma_links_wrap_y(c.z as int, n, 9);
                        lemma_produced_wrap_y(n, c.z as int);
                    }
                    anim.y = 0;
                    anim.z += 1;
                }
            }
        },
        LatticeGenState::DespawnOutOfBound => {
            anim.state = LatticeGenState::CheckingDirections;
            match anim.curr_link {
                Some(ent) => {
                    let ghost m0 = links@;
                    links.despawn(ent);
                    proof {
                        lemma_pairs_remove(m0, ent);
                        assert(links@.dom() =~= m0.dom().remove(ent));
                    }
                    anim.links_counter -= 1;
                },
                None => {},
            }
        },
        LatticeGenState::FinalCheck => {
            anim.state = LatticeGenState::Done;
        },
        LatticeGenState::Done => {},
    }
}

/// Once the step-by-step generator is done, its table holds exactly the
/// links of the lattice, `link_count(dim)` of them, and its counter says so.
pub proof fn lemma_drained_generator(
    anim: &LatticeGenAnim,
    lattice_gen: &LatticeGen,
    links: Map<Entity, Link>,
)
    requires
        anim.inv(lattice_gen, links),
        anim.state == LatticeGenState::Done,
    ensures
        anim.links_counter == link_count(lattice_gen.lattice_dim as int),
        links.dom().len() == link_count(lattice_gen.lattice_dim as int),
        link_pairs(links) == lattice_links(lattice_gen.nodes_dim as int),
        all_linked(links),
        distinct_pairs(links),
{
}

impl LatticeGenAnim {
    /// An upper bound on the transitions left before `Done`.
    pub open spec fn steps_left(&self, n: int) -> int {
        let rest = n * n * n - 1 - flat_index(self.cursor(), n);
        match self.state {
            LatticeGenState::CheckingDirections => rest * 30 + 2 * (9 - self.dir_idx) + 4,
            LatticeGenState::DespawnOutOfBound => rest * 30 + 2 * (9 - self.dir_idx) + 5,
            LatticeGenState::NewPosition => rest * 30 + 3,
            LatticeGenState::FinalCheck => 1,
            LatticeGenState::Done => 0,
        }
    }
}

/// The next cell follows at the next flat offset.
proof fn lemma_flat_next(c: GridVec, n: int)
    requires
        in_cube(c, n),
        c != last_cell(n),
        n <= 1625,
    ensures
        flat_index(next_cell(c, n), n) == flat_index(c, n) + 1,
        in_cube(next_cell(c, n), n),
{
    let d = next_cell(c, n);
    if c.x < n - 1 {
    } else if c.y < n - 1 {
        assert(flat_index(d, n) == flat_index(c, n) + 1) by (nonlinear_arith)
            requires d.x == 0, d.y == c.y + 1, d.z == c.z, c.x == n - 1;
    } else {
        assert(c.z < n - 1);
        assert(flat_index(d, n) == flat_index(c, n) + 1) by (nonlinear_arith)
            requires d.x == 0, d.y == 0, d.z == c.z + 1, c.x == n - 1, c.y == n - 1;
    }
}

/// Runs the step-by-step generator from its start until it is done, on an
/// empty link table, and hands back the finished generator.
pub fn generate_lattice_stepwise(lattice_gen: &LatticeGen, links: &mut Store<Link>) -> (anim:
    LatticeGenAnim)
    requires
        lattice_gen.full(),
        old(links).wf(),
        old(links)@ == Map::<Entity, Link>::empty(),
        link_count(lattice_gen.lattice_dim as int) < u32::MAX,
    ensures
        final(links).wf(),
        anim.state == LatticeGenState::Done,
        anim.inv(lattice_gen, final(links)@),
        anim.links_counter == link_count(lattice_gen.lattice_dim as int),
        final(links)@.dom().len() == link_count(lattice_gen.lattice_dim as int),
        link_pairs(final(links)@) == lattice_links(lattice_gen.nodes_dim as int),
        distinct_pairs(final(links)@),
        lattice_gen.links_match(final(links)@),
{
    let ghost n = lattice_gen.nodes_dim as int;
    let mut anim = LatticeGenAnim::new();
    proof {
        lemma_fresh_inv(&anim, lattice_gen, links@);
        lemma_flat_in_range(anim.cursor(), n);
    }
    while anim.state != LatticeGenState::Done
        invariant
            links.wf(),
            anim.inv(lattice_gen, links@),
            n == lattice_gen.nodes_dim,
            0 <= flat_index(anim.cursor(), n) < n * n * n,
        decreases anim.steps_left(n),
    {
        let ghost before = anim;
        generate_lattice_animated(&mut anim, lattice_gen, links);
        proof {
            lemma_flat_in_range(anim.cursor(), n);
            if before.state == LatticeGenState::NewPosition && before.cursor() != last_cell(n) {
                lemma_flat_next(before.cursor(), n);
            }
        }
    }
    proof {
        lemma_drained_generator(&anim, lattice_gen, links@);
    }
    anim
}

/// The (from cell, to cell, squared rest length in units) triple of a link.
pub open spec fn link_triple(l: Link) -> (GridVec, GridVec, int) {
    (l.from_coord, vec_add(l.from_coord, l.offset), length_sq(l.offset))
}

/// The triples of the links in `m` that have a far end.
pub open spec fn link_triples(m: Map<Entity, Link>) -> Set<(GridVec, GridVec, int)> {
    Set::new(
        |t: (GridVec, GridVec, int)|
            exists|e: Entity| #[trigger] m.contains_key(e) && m[e].to is Some && link_triple(m[e]) == t,
    )
}

/// The triple of a link pair: the rest length follows from the two cells.
pub open spec fn pair_triple(p: (GridVec, GridVec)) -> (GridVec, GridVec, int) {
    (p.0, p.1, length_sq(vec_sub(p.1, p.0)))
}

proof fn lemma_triples_of_pairs(lattice_gen: &LatticeGen, m: Map<Entity, Link>)
    requires
        lattice_gen.wf(),
        lattice_gen.links_match(m),
    ensures
        link_triples(m) == link_pairs(m).map(|p: (GridVec, GridVec)| pair_triple(p)),
{
    let f = |p: (GridVec, GridVec)| pair_triple(p);
    assert forall|e: Entity| #[trigger] m.contains_key(e) implies link_triple(m[e]) == pair_triple(
        link_pair(m[e]),
    ) by {
        let l = m[e];
        assert(vec_sub(vec_add(l.from_coord, l.offset), l.from_coord) == l.offset);
    }
    assert forall|t: (GridVec, GridVec, int)|
        link_triples(m).contains(t) == link_pairs(m).map(f).contains(t) by {
        if link_triples(m).contains(t) {
            let e = choose|e: Entity| #[trigger] m.contains_key(e) && m[e].to is Some && link_triple(m[e]) == t;
            assert(link_pairs(m).contains(link_pair(m[e])));
        }
        if link_pairs(m).map(f).contains(t) {
            let p = choose|p: (GridVec, GridVec)| link_pairs(m).contains(p) && f(p) == t;
            let e = choose|e: Entity| #[trigger] m.contains_key(e) && m[e].to is Some && link_pair(m[e]) == p;
            assert(link_triple(m[e]) == t);
        }
    }
    assert(link_triples(m) =~= link_pairs(m).map(f));
}

/// The batch generator and the drained step-by-step generator build the
/// same links: equal sets of (from cell, to cell, rest length).
pub proof fn lemma_same_topology(
    lattice_gen: &LatticeGen,
    batch: Map<Entity, Link>,
    anim: &LatticeGenAnim,
    stepwise: Map<Entity, Link>,
)
    requires
        lattice_gen.full(),
        lattice_gen.links_match(batch),
        link_pairs(batch) == lattice_links(lattice_gen.nodes_dim as int),
        anim.inv(lattice_gen, stepwise),
        anim.state == LatticeGenState::Done,
    ensures
        link_triples(batch) == link_triples(stepwise),
{
    lemma_triples_of_pairs(lattice_gen, batch);
    lemma_triples_of_pairs(lattice_gen, stepwise);
}

} // verus!
