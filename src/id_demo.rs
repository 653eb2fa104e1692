use vstd::prelude::*;
use crate::grid::{gv, GridVec};
use crate::store::{Entity, Store};

verus! {

/// A bare point in space, for exercising handles.
#[derive(Clone, Copy, Debug, PartialEq, Eq, Structural)]
pub struct Node {
    pub pos: GridVec,
}

impl Node {
    pub fn new(pos: GridVec) -> (r: Node)
        ensures
            r.pos == pos,
    {
        Node { pos }
    }
}

/// A connection that records its ends both as slot indices and as handles.
#[derive(Clone, Copy, Debug, PartialEq, Eq, Structural)]
pub struct Link {
    pub to: usize,
    pub from: usize,
    pub to_ent: Entity,
    pub from_ent: Entity,
}

impl Link {
    pub fn new(to: usize, from: usize, to_ent: Entity, from_ent: Entity) -> (r: Link)
        ensures
            r == (Link { to, from, to_ent, from_ent }),
    {
        Link { to, from, to_ent, from_ent }
    }
}

/// The link that `test_ids` records between `to_ent` and `from_ent`.
pub open spec fn id_link(to_ent: Entity, from_ent: Entity) -> Link {
    Link { to: to_ent.index, from: from_ent.index, to_ent, from_ent }
}

/// Spawns nodes at `(3, 3, 3)`, `(6, 6, 6)` and `(5, 5, 5)`, then links the
/// first to the second and the first to the third; returns the two link
/// handles.
pub fn test_ids(nodes: &mut Store<Node>, links: &mut Store<Link>) -> (r: (Entity, Entity))
    requires
        old(nodes).wf(),
        old(links).wf(),
    ensures
        final(nodes).wf(),
        final(links).wf(),
        ({
            let (l1, l2) = r;
            let a = final(links)@[l1].to_ent;
            let b = final(links)@[l1].from_ent;
            let c = final(links)@[l2].from_ent;
            &&& !old(nodes)@.contains_key(a) && !old(nodes)@.contains_key(b)
                && !old(nodes)@.contains_key(c)
            &&& a != b && a != c && b != c
            &&& final(nodes)@ == old(nodes)@.insert(a, Node { pos: gv(3, 3, 3) }).insert(
                b,
                Node { pos: gv(6, 6, 6) },
            ).insert(c, Node { pos: gv(5, 5, 5) })
            &&& !old(links)@.contains_key(l1) && !old(links)@.contains_key(l2) && l1 != l2
            &&& final(links)@ == old(links)@.insert(l1, id_link(a, b)).insert(l2, id_link(a, c))
        }),
{
    let node1 = nodes.spawn(Node::new(GridVec::new(3, 3, 3)));
    let node2 = nodes.spawn(Node::new(GridVec::new(6, 6, 6)));
    let node3 = nodes.spawn(Node::new(GridVec::new(5, 5, 5)));
    let link1 = links.spawn(Link::new(node1.index, node2.index, node1, node2));
    let link2 = links.spawn(Link::new(node1.index, node3.index, node1, node3));
    (link1, link2)
}

/// Whether `e` is an end of `l`.
pub open spec fn is_end(l: Link, e: Entity) -> bool {
    l.to_ent == e || l.from_ent == e
}

/// Whether `e` is an end of some link among `hs` in `links`.
pub open spec fn end_among(links: Map<Entity, Link>, hs: Seq<Entity>, e: Entity) -> bool {
    exists|j: int| 0 <= j < hs.len() && #[trigger] is_end(links[hs[j]], e)
}

/// Moves both ends of every link to `(1, 1, 1)`.
pub fn get_links(links: &Store<Link>, nodes: &mut Store<Node>)
    requires
        links.wf(),
        old(nodes).wf(),
        forall|e: Entity| #[trigger]
            links@.contains_key(e) ==> old(nodes)@.contains_key(links@[e].to_ent)
                && old(nodes)@.contains_key(links@[e].from_ent),
    ensures
        final(nodes).wf(),
        final(nodes)@.dom() == old(nodes)@.dom(),
        forall|n: Entity| #[trigger]
            old(nodes)@.contains_key(n) ==> final(nodes)@[n] == (if exists|l: Entity| #[trigger]
                links@.contains_key(l) && is_end(links@[l], n) {
                Node { pos: gv(1, 1, 1) }
            } else {
                old(nodes)@[n]
            }),
{
    let hs = links.handles();
    let ghost m0 = nodes@;
    let mut i: usize = 0;
    while i < hs.len()
        invariant
            links.wf(),
            nodes.wf(),
            i <= hs@.len(),
            forall|e: Entity| hs@.contains(e) <==> links@.contains_key(e),
            forall|e: Entity| #[trigger]
                links@.contains_key(e) ==> m0.contains_key(links@[e].to_ent) && m0.contains_key(
                    links@[e].from_ent,
                ),
            nodes@.dom() == m0.dom(),
            forall|n: Entity| #[trigger]
                m0.contains_key(n) ==> nodes@[n] == (if end_among(links@, hs@.subrange(0, i as int), n) {
                    Node { pos: gv(1, 1, 1) }
                } else {
                    m0[n]
                }),
        decreases hs@.len() - i,
    {
        let h = hs[i];
        assert(hs@.contains(h));
        let link = *links.get(h).unwrap();
        let ghost before = nodes@;
        let p = Node::new(GridVec::new(1, 1, 1));
        nodes.replace(link.to_ent, p);
        nodes.replace(link.from_ent, p);
        proof {
            let s0 = hs@.subrange(0, i as int);
            let s1 = hs@.subrange(0, i + 1);
            assert(nodes@.dom() =~= m0.dom());
            assert forall|n: Entity| #[trigger]
                m0.contains_key(n) implies nodes@[n] == (if end_among(links@, s1, n) {
                    Node { pos: gv(1, 1, 1) }
                } else {
                    m0[n]
                }) by {
                if is_end(links@[h], n) {
                    assert(s1[i as int] == h);
                    assert(end_among(links@, s1, n));
                } else if end_among(links@, s0, n) {
                    let j = choose|j: int| 0 <= j < s0.len() && #[trigger] is_end(links@[s0[j]], n);
                    assert(s1[j] == s0[j]);
                } else if end_among(links@, s1, n) {
                    let j = choose|j: int| 0 <= j < s1.len() && #[trigger] is_end(links@[s1[j]], n);
                    if j < i {
                        assert(s1[j] == s0[j]);
                    }
                }
            }
        }
        i += 1;
    }
    proof {
        assert(hs@.subrange(0, hs@.len() as int) =~= hs@);
        assert forall|n: Entity| #[trigger] m0.contains_key(n) implies end_among(links@, hs@, n) == exists|l: Entity| #[trigger]
                links@.contains_key(l) && is_end(links@[l], n) by {
            if end_among(links@, hs@, n) {
                let j = choose|j: int| 0 <= j < hs@.len() && #[trigger] is_end(links@[hs@[j]], n);
                assert(hs@.contains(hs@[j]));
                assert(links@.contains_key(hs@[j]));
            }
            if exists|l: Entity| #[trigger] links@.contains_key(l) && is_end(links@[l], n) {
                let l = choose|l: Entity| #[trigger] links@.contains_key(l) && is_end(links@[l], n);
                assert(hs@.contains(l));
                let j = choose|j: int| 0 <= j < hs@.len() && hs@[j] == l;
                assert(is_end(links@[hs@[j]], n));
            }
        }
    }
}

} // verus!
