use std::collections::BTreeSet;

use spring_lattice::grid::{calc_num_links, calc_num_nodes, GridVec};
use spring_lattice::id_demo;
use spring_lattice::lattice_gen::{
    create_all_nodes, generate_lattice, generate_lattice_animated, generate_lattice_stepwise, Link,
    LatticeGen, LatticeGenAnim, LatticeGenState, Node,
};
use spring_lattice::store::Store;

fn build_nodes(dim: u32) -> (LatticeGen, Store<Node>) {
    let mut lg = LatticeGen::new(dim);
    let mut nodes = Store::new();
    create_all_nodes(&mut lg, &mut nodes);
    (lg, nodes)
}

fn triples(links: &Store<Link>) -> BTreeSet<((i32, i32, i32), (i32, i32, i32), u32)> {
    let mut out = BTreeSet::new();
    for h in links.handles() {
        let l = links.get(h).unwrap();
        assert!(l.to.is_some());
        let f = l.from_coord;
        let t = f.add(l.offset);
        out.insert(((f.x, f.y, f.z), (t.x, t.y, t.z), l.offset.length_sq()));
    }
    out
}

#[test]
fn batch_nodes_dim_one_and_three() {
    for (dim, want) in [(1u32, 8usize), (3, 64)] {
        let (lg, nodes) = build_nodes(dim);
        assert_eq!(lg.data.len(), want);
        assert_eq!(nodes.handles().len(), want);
        assert_eq!(calc_num_nodes(dim), Ok(want as u32));
    }
}

#[test]
fn nodes_sit_at_their_cells() {
    let (lg, nodes) = build_nodes(2);
    for z in 0..3 {
        for y in 0..3 {
            for x in 0..3 {
                let c = GridVec::new(x, y, z);
                let e = lg.get(c);
                assert_eq!(e, lg.data[lg.get_data_idx(x as u32, y as u32, z as u32)]);
                assert_eq!(nodes.get(e).unwrap().coord, c);
            }
        }
    }
    assert_eq!(lg.get_data_idx(1, 2, 1), 9 + 6 + 1);
}

#[test]
fn only_corners_anchored() {
    let dim = 3;
    let (lg, nodes) = build_nodes(dim);
    let mut anchored = 0;
    for e in lg.data.iter() {
        let n = nodes.get(*e).unwrap();
        let d = dim as i32;
        let c = n.coord;
        let corner = (c.x == 0 || c.x == d) && (c.y == 0 || c.y == d) && (c.z == 0 || c.z == d);
        assert_eq!(n.anchored, corner);
        if n.anchored {
            anchored += 1;
        }
    }
    assert_eq!(anchored, 8);
}

#[test]
fn batch_links_dim_one() {
    let (lg, _nodes) = build_nodes(1);
    let mut links = Store::new();
    let count = generate_lattice(&lg, &mut links);
    assert_eq!(count, 24);
    assert_eq!(links.handles().len(), 24);
}

#[test]
fn batch_links_dim_three() {
    let (lg, _nodes) = build_nodes(3);
    let mut links = Store::new();
    let count = generate_lattice(&lg, &mut links);
    assert_eq!(count, 360);
    assert_eq!(Ok(count), calc_num_links(3));
    assert_eq!(links.handles().len(), 360);
}

#[test]
fn batch_link_ends_are_node_handles() {
    let (lg, nodes) = build_nodes(2);
    let mut links = Store::new();
    generate_lattice(&lg, &mut links);
    for h in links.handles() {
        let l = links.get(h).unwrap();
        let from = nodes.get(l.from).unwrap();
        let to = nodes.get(l.to.unwrap()).unwrap();
        assert_eq!(from.coord, l.from_coord);
        assert_eq!(to.coord, l.from_coord.add(l.offset));
    }
}

#[test]
fn rest_lengths_axis_and_diagonal() {
    let (lg, _nodes) = build_nodes(1);
    let mut links = Store::new();
    generate_lattice(&lg, &mut links);
    let t = triples(&links);
    let axis = t.iter().filter(|t| t.2 == 1).count();
    let diag = t.iter().filter(|t| t.2 == 2).count();
    assert_eq!(axis, 12);
    assert_eq!(diag, 12);
}

#[test]
fn stepwise_matches_batch() {
    for dim in 1u32..=3 {
        let (lg, _nodes) = build_nodes(dim);
        let mut batch = Store::new();
        generate_lattice(&lg, &mut batch);
        let mut step = Store::new();
        let anim = generate_lattice_stepwise(&lg, &mut step);
        assert_eq!(anim.state, LatticeGenState::Done);
        assert_eq!(Ok(anim.links_counter), calc_num_links(dim));
        assert_eq!(step.handles().len(), anim.links_counter as usize);
        assert_eq!(triples(&batch), triples(&step));
    }
}

#[test]
fn stepwise_by_hand_counts_and_rollback() {
    let dim = 2;
    let (lg, _nodes) = build_nodes(dim);
    let mut links = Store::new();
    let mut anim = LatticeGenAnim::new();
    let mut despawns = 0;
    let mut steps = 0;
    while anim.state != LatticeGenState::Done {
        let before = anim.state;
        generate_lattice_animated(&mut anim, &lg, &mut links);
        steps += 1;
        if before == LatticeGenState::CheckingDirections && anim.state == LatticeGenState::DespawnOutOfBound {
            let provisional = anim.curr_link.unwrap();
            assert!(links.get(provisional).unwrap().to.is_none());
            let counter = anim.links_counter;
            generate_lattice_animated(&mut anim, &lg, &mut links);
            steps += 1;
            assert!(!links.contains(provisional));
            assert_eq!(anim.links_counter, counter - 1);
            assert_eq!(anim.state, LatticeGenState::CheckingDirections);
            despawns += 1;
        }
        assert_eq!(links.handles().len(), anim.links_counter as usize);
        assert!(steps < 100_000);
    }
    assert_eq!(anim.links_counter, 3 * 2 * 3 * 7);
    // 27 cells times 9 directions, minus the links that stayed.
    assert_eq!(despawns, 27 * 9 - 126);
}

#[test]
fn done_is_a_no_op() {
    let (lg, _nodes) = build_nodes(1);
    let mut links = Store::new();
    let mut anim = generate_lattice_stepwise(&lg, &mut links);
    let before = triples(&links);
    let count = anim.links_counter;
    let cursor = (anim.x, anim.y, anim.z, anim.dir_idx, anim.curr_link);
    for _ in 0..5 {
        generate_lattice_animated(&mut anim, &lg, &mut links);
    }
    assert_eq!(anim.state, LatticeGenState::Done);
    assert_eq!(anim.links_counter, count);
    assert_eq!((anim.x, anim.y, anim.z, anim.dir_idx, anim.curr_link), cursor);
    assert_eq!(triples(&links), before);
}

#[test]
fn new_generator_starts_at_origin() {
    let anim = LatticeGenAnim::new();
    assert_eq!((anim.x, anim.y, anim.z, anim.dir_idx), (0, 0, 0, 0));
    assert_eq!(anim.state, LatticeGenState::CheckingDirections);
    assert_eq!(anim.links_counter, 0);
    assert_eq!(anim.dir_arr.len(), 9);
    assert!(anim.curr_link.is_none());
}

#[test]
fn new_lattice_gen_fields() {
    let lg = LatticeGen::new(6);
    assert_eq!(lg.nodes_dim, 7);
    assert_eq!(lg.lattice_dim, 6);
    assert!(lg.data.is_empty());
}

#[test]
fn ids_are_recorded() {
    let mut nodes = Store::new();
    let mut links = Store::new();
    let (l1, l2) = id_demo::test_ids(&mut nodes, &mut links);
    let a = links.get(l1).unwrap();
    let b = links.get(l2).unwrap();
    assert_eq!(a.to_ent, b.to_ent);
    assert_eq!(a.to, a.to_ent.index);
    assert_eq!(a.from, a.from_ent.index);
    assert_eq!(nodes.get(a.to_ent).unwrap().pos, GridVec::new(3, 3, 3));
    assert_eq!(nodes.get(a.from_ent).unwrap().pos, GridVec::new(6, 6, 6));
    assert_eq!(nodes.get(b.from_ent).unwrap().pos, GridVec::new(5, 5, 5));
    assert_eq!(nodes.handles().len(), 3);
}

#[test]
fn link_ends_are_moved() {
    let mut nodes = Store::new();
    let mut links = Store::new();
    let (l1, _l2) = id_demo::test_ids(&mut nodes, &mut links);
    let lone = nodes.spawn(id_demo::Node::new(GridVec::new(9, 9, 9)));
    id_demo::get_links(&links, &mut nodes);
    let a = links.get(l1).unwrap();
    assert_eq!(nodes.get(a.to_ent).unwrap().pos, GridVec::new(1, 1, 1));
    assert_eq!(nodes.get(a.from_ent).unwrap().pos, GridVec::new(1, 1, 1));
    assert_eq!(nodes.get(lone).unwrap().pos, GridVec::new(9, 9, 9));
}

#[test]
fn each_edge_once() {
    let (lg, _nodes) = build_nodes(3);
    let mut links = Store::new();
    let count = generate_lattice(&lg, &mut links);
    let t = triples(&links);
    assert_eq!(t.len(), count as usize);
    for (a, b, _) in t.iter() {
        assert!(!t.iter().any(|(c, d, _)| c == b && d == a));
    }
}
