//! Grid navigation for many agents: a walkability grid, a lazily filled
//! adjacency cache over it, a queue of path requests, A* search with
//! per-agent tie-breaking, and the bookkeeping that turns a found path
//! into a steering target.

pub mod dna;
pub mod find;
pub mod grid;
pub mod map;
pub mod nav_mesh;
pub mod navigation;
pub mod requests;
pub mod route;
pub mod state;
pub mod steering;
pub mod tie_breaker;
