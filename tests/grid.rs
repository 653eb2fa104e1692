use spring_lattice::grid::{
    calc_num_links, calc_num_nodes, get_direction_vec, get_static_node_indices, link_out_of_bounds,
    GridVec, OverflowError,
};

#[test]
fn node_and_link_count_dim_one() {
    assert_eq!(calc_num_nodes(1), Ok(8));
    assert_eq!(calc_num_links(1), Ok(24));
}

#[test]
fn node_and_link_count_dim_three() {
    assert_eq!(calc_num_nodes(3), Ok(64));
    assert_eq!(calc_num_links(3), Ok(360));
}

#[test]
fn counts_follow_formulas() {
    for d in 1u32..60 {
        let n = (d + 1) as u64;
        assert_eq!(calc_num_nodes(d), Ok((n * n * n) as u32));
        let l = 3 * d as u64 * n * (3 * d as u64 + 1);
        assert_eq!(calc_num_links(d), Ok(l as u32));
    }
}

#[test]
fn node_count_overflow_edge() {
    assert_eq!(calc_num_nodes(1624), Ok(4_291_015_625));
    assert_eq!(calc_num_nodes(1625), Err(OverflowError));
    assert_eq!(calc_num_nodes(u32::MAX), Err(OverflowError));
}

#[test]
fn link_count_overflow_edge() {
    assert_eq!(calc_num_links(781), Ok(4_294_737_744));
    assert_eq!(calc_num_links(782), Err(OverflowError));
    assert_eq!(calc_num_links(u32::MAX), Err(OverflowError));
}

#[test]
fn zero_dim_sizes() {
    assert_eq!(calc_num_nodes(0), Ok(1));
    assert_eq!(calc_num_links(0), Ok(0));
}

#[test]
fn nine_forward_directions() {
    let d = get_direction_vec();
    let want = [
        (1, 0, 0),
        (0, 1, 0),
        (0, 0, 1),
        (1, 1, 0),
        (0, 1, 1),
        (1, 0, 1),
        (1, -1, 0),
        (0, 1, -1),
        (-1, 0, 1),
    ];
    assert_eq!(d.len(), 9);
    for (v, w) in d.iter().zip(want.iter()) {
        assert_eq!(*v, GridVec::new(w.0, w.1, w.2));
    }
}

#[test]
fn direction_lengths() {
    let d = get_direction_vec();
    let lens: Vec<u32> = d.iter().map(|v| v.length_sq()).collect();
    assert_eq!(lens, vec![1, 1, 1, 2, 2, 2, 2, 2, 2]);
}

#[test]
fn out_of_bounds_checks() {
    assert!(!link_out_of_bounds(GridVec::new(0, 0, 0), 2));
    assert!(!link_out_of_bounds(GridVec::new(1, 1, 1), 2));
    assert!(link_out_of_bounds(GridVec::new(2, 1, 1), 2));
    assert!(link_out_of_bounds(GridVec::new(1, -1, 1), 2));
    assert!(link_out_of_bounds(GridVec::new(1, 1, 2), 2));
    assert!(link_out_of_bounds(GridVec::new(-1, 0, 0), 2));
}

#[test]
fn corners_of_cube() {
    let c = get_static_node_indices(4);
    assert_eq!(c.len(), 8);
    for x in 0..=4u32 {
        for y in 0..=4u32 {
            for z in 0..=4u32 {
                let corner = (x == 0 || x == 4) && (y == 0 || y == 4) && (z == 0 || z == 4);
                assert_eq!(c.contains(&(x, y, z)), corner);
            }
        }
    }
}

#[test]
fn vector_add() {
    let a = GridVec::new(2, 3, 4);
    assert_eq!(a.add(GridVec::new(-1, 0, 1)), GridVec::new(1, 3, 5));
}
