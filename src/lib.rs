//! Topology and bookkeeping for a cube-shaped mass-spring lattice.
//!
//! `grid` holds the integer geometry of the cube (coordinates, the nine
//! forward link directions, corner anchors and the closed-form sizes),
//! `store` a generational handle table, `lattice_gen` the batch and the
//! step-by-step generators that fill node and link tables, and `topology`
//! the counting and set facts that tie both generators to the closed forms.
//! `id_demo` records links by slot index and by handle side by side.
pub mod grid;
pub mod store;
pub mod lattice_gen;
pub mod topology;
pub mod id_demo;
