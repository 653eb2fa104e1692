use vstd::prelude::*;

verus! {

/// Number of forward link directions probed from every grid cell.
pub const NUM_DIRECTIONS: usize = 9;

/// An integer vector on the lattice grid.
#[derive(Clone, Copy, Debug, PartialEq, Eq, Structural)]
pub struct GridVec {
    pub x: i32,
    pub y: i32,
    pub z: i32,
}

/// Size overflow of a lattice formula in the `u32` width.
#[derive(Clone, Copy, Debug, PartialEq, Eq, Structural)]
pub struct OverflowError;

/// The grid vector with axes `x`, `y`, `z`.
pub open spec fn gv(x: int, y: int, z: int) -> GridVec {
    GridVec { x: x as i32, y: y as i32, z: z as i32 }
}

/// `(dim + 1)^3`: the number of nodes of a lattice with `dim` cells per edge.
pub open spec fn node_count(dim: int) -> int {
    (dim + 1) * (dim + 1) * (dim + 1)
}

/// `3 * dim * (dim + 1) * (3 * dim + 1)`: the number of links of such a lattice.
pub open spec fn link_count(dim: int) -> int {
    3 * dim * (dim + 1) * (3 * dim + 1)
}

/// The `k`-th forward direction.
pub open spec fn direction(k: int) -> GridVec {
    if k == 0 {
        gv(1, 0, 0)
    } else if k == 1 {
        gv(0, 1, 0)
    } else if k == 2 {
        gv(0, 0, 1)
    } else if k == 3 {
        gv(1, 1, 0)
    } else if k == 4 {
        gv(0, 1, 1)
    } else if k == 5 {
        gv(1, 0, 1)
    } else if k == 6 {
        gv(1, -1, 0)
    } else if k == 7 {
        gv(0, 1, -1)
    } else {
        gv(-1, 0, 1)
    }
}

/// The forward directions in probing order.
pub open spec fn directions() -> Seq<GridVec> {
    Seq::new(NUM_DIRECTIONS as nat, |k: int| direction(k))
}

/// Index of `v` among the forward directions, or `9` if it is none of them.
pub open spec fn direction_index(v: GridVec) -> int {
    if v == direction(0) {
        0
    } else if v == direction(1) {
        1
    } else if v == direction(2) {
        2
    } else if v == direction(3) {
        3
    } else if v == direction(4) {
        4
    } else if v == direction(5) {
        5
    } else if v == direction(6) {
        6
    } else if v == direction(7) {
        7
    } else if v == direction(8) {
        8
    } else {
        9
    }
}

/// `v` is one of the forward directions.
pub open spec fn is_forward(v: GridVec) -> bool {
    direction_index(v) < 9
}

/// Component-wise sum.
pub open spec fn vec_add(a: GridVec, b: GridVec) -> GridVec {
    gv(a.x + b.x, a.y + b.y, a.z + b.z)
}

/// Component-wise difference.
pub open spec fn vec_sub(a: GridVec, b: GridVec) -> GridVec {
    gv(a.x - b.x, a.y - b.y, a.z - b.z)
}

/// Every axis of `v` lies in `[0, n)`, `n` being the nodes per edge.
pub open spec fn in_cube(v: GridVec, n: int) -> bool {
    0 <= v.x < n && 0 <= v.y < n && 0 <= v.z < n
}

/// Offset of `v` in a flat table of `n * n * n` entries, x fastest.
pub open spec fn flat_index(v: GridVec, n: int) -> int {
    v.z * n * n + v.y * n + v.x
}

/// Generation order of cells: z slowest, x fastest.
pub open spec fn lex_lt(a: GridVec, b: GridVec) -> bool {
    a.z < b.z || (a.z == b.z && (a.y < b.y || (a.y == b.y && a.x < b.x)))
}

/// Every axis of `c` is `0` or `dim`.
pub open spec fn is_corner(x: int, y: int, z: int, dim: int) -> bool {
    (x == 0 || x == dim) && (y == 0 || y == dim) && (z == 0 || z == dim)
}

/// Squared length of an integer vector.
pub open spec fn length_sq(v: GridVec) -> int {
    v.x * v.x + v.y * v.y + v.z * v.z
}

impl GridVec {
    pub fn new(x: i32, y: i32, z: i32) -> (r: GridVec)
        ensures
            r == (GridVec { x, y, z }),
    {
        GridVec { x, y, z }
    }

    /// Component-wise sum.
    pub fn add(self, o: GridVec) -> (r: GridVec)
        requires
            i32::MIN <= self.x + o.x <= i32::MAX,
            i32::MIN <= self.y + o.y <= i32::MAX,
            i32::MIN <= self.z + o.z <= i32::MAX,
        ensures
            r == vec_add(self, o),
    {
        GridVec { x: self.x + o.x, y: self.y + o.y, z: self.z + o.z }
    }

    /// Squared Euclidean length; the rest length of a link is its square root
    /// times the unit length.
    pub fn length_sq(self) -> (r: u32)
        requires
            -1 <= self.x <= 1,
            -1 <= self.y <= 1,
            -1 <= self.z <= 1,
        ensures
            r == length_sq(self),
    {
        proof {
            assert(self.x * self.x <= 1) by (nonlinear_arith)
                requires -1 <= self.x <= 1;
            assert(self.y * self.y <= 1) by (nonlinear_arith)
                requires -1 <= self.y <= 1;
            assert(self.z * self.z <= 1) by (nonlinear_arith)
                requires -1 <= self.z <= 1;
            assert(self.x * self.x >= 0) by (nonlinear_arith);
            assert(self.y * self.y >= 0) by (nonlinear_arith);
            assert(self.z * self.z >= 0) by (nonlinear_arith);
        }
        (self.x * self.x + self.y * self.y + self.z * self.z) as u32
    }
}

/// The nine forward directions, in probing order.
pub fn get_direction_vec() -> (r: Vec<GridVec>)
    ensures
        r@ == directions(),
{
    let r = vec![
        GridVec::new(1, 0, 0),
        GridVec::new(0, 1, 0),
        GridVec::new(0, 0, 1),
        GridVec::new(1, 1, 0),
        GridVec::new(0, 1, 1),
        GridVec::new(1, 0, 1),
        GridVec::new(1, -1, 0),
        GridVec::new(0, 1, -1),
        GridVec::new(-1, 0, 1),
    ];
    assert(r@ =~= directions());
    r
}

/// Whether `vec` leaves the cube of `bounds` nodes per edge.
pub fn link_out_of_bounds(vec: GridVec, bounds: i32) -> (r: bool)
    ensures
        r == !in_cube(vec, bounds as int),
{
    vec.x < 0 || vec.x >= bounds || vec.y < 0 || vec.y >= bounds || vec.z < 0 || vec.z >= bounds
}

/// The eight corners of a lattice of `dim` cells per edge, as `(x, y, z)`.
pub fn get_static_node_indices(dim: u32) -> (r: Vec<(u32, u32, u32)>)
    ensures
        r@.len() == 8,
        forall|x: u32, y: u32, z: u32|
            r@.contains((x, y, z)) <==> is_corner(x as int, y as int, z as int, dim as int),
{
    let c = dim;
    let r = vec![(0, 0, 0), (c, c, c), (c, 0, 0), (0, c, 0), (0, 0, c), (c, c, 0), (c, 0, c), (0, c, c)];
    assert forall|x: u32, y: u32, z: u32|
        r@.contains((x, y, z)) <==> is_corner(x as int, y as int, z as int, dim as int) by {
        let t = (x, y, z);
        if r@.contains(t) {
            let i = choose|i: int| 0 <= i < r@.len() && r@[i] == t;
            assert(0 <= i < 8);
        }
        if is_corner(x as int, y as int, z as int, dim as int) {
            if x == 0 && y == 0 && z == 0 { assert(r@[0] == t); }
            else if x == c && y == c && z == c { assert(r@[1] == t); }
            else if x == c && y == 0 && z == 0 { assert(r@[2] == t); }
            else if x == 0 && y == c && z == 0 { assert(r@[3] == t); }
            else if x == 0 && y == 0 && z == c { assert(r@[4] == t); }
            else if x == c && y == c && z == 0 { assert(r@[5] == t); }
            else if x == c && y == 0 && z == c { assert(r@[6] == t); }
            else { assert(r@[7] == t); }
        }
    }
    r
}

/// `(dim + 1)^3`, or `OverflowError` when it exceeds `u32`.
pub fn calc_num_nodes(lattice_dim: u32) -> (r: Result<u32, OverflowError>)
    ensures
        r is Ok <==> node_count(lattice_dim as int) <= u32::MAX,
        r matches Ok(v) ==> v == node_count(lattice_dim as int),
{
    let n: u128 = lattice_dim as u128 + 1;
    assert(n * n <= 0x1_0000_0000 * 0x1_0000_0000) by (nonlinear_arith)
        requires n <= 0x1_0000_0000;
    assert(n * n * n <= 0x1_0000_0000 * 0x1_0000_0000 * 0x1_0000_0000) by (nonlinear_arith)
        requires n * n <= 0x1_0000_0000 * 0x1_0000_0000, n <= 0x1_0000_0000;
    let v: u128 = n * n * n;
    if v > u32::MAX as u128 {
        Err(OverflowError)
    } else {
        Ok(v as u32)
    }
}

/// `3 * dim * (dim + 1) * (3 * dim + 1)`, or `OverflowError` when it exceeds `u32`.
pub fn calc_num_links(lattice_dim: u32) -> (r: Result<u32, OverflowError>)
    ensures
        r is Ok <==> link_count(lattice_dim as int) <= u32::MAX,
        r matches Ok(v) ==> v == link_count(lattice_dim as int),
{
    let d: u128 = lattice_dim as u128;
    let a: u128 = 3 * d;
    let b: u128 = d + 1;
    let c: u128 = 3 * d + 1;
    assert(a * b <= 0x4_0000_0000 * 0x1_0000_0000) by (nonlinear_arith)
        requires a <= 0x4_0000_0000, b <= 0x1_0000_0000;
    assert(a * b * c <= 0x4_0000_0000 * 0x1_0000_0000 * 0x4_0000_0000) by (nonlinear_arith)
        requires a * b <= 0x4_0000_0000 * 0x1_0000_0000, c <= 0x4_0000_0000;
    let v: u128 = a * b * c;
    assert(v == link_count(lattice_dim as int)) by (nonlinear_arith)
        requires v == a * b * c, a == 3 * d, b == d + 1, c == 3 * d + 1, d == lattice_dim;
    if v > u32::MAX as u128 {
        Err(OverflowError)
    } else {
        Ok(v as u32)
    }
}

} // verus!
