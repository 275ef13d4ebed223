//! Minimum-cost search for a deterministic turn-based duel.
//!
//! The acting entity (`Player`) fights a fixed adversary (`Boss`) by casting
//! spells from a closed catalog. Both a breadth-first and a depth-first
//! branch-and-bound engine compute the least total mana spend among all
//! winning action sequences; their results are proved equal to the same
//! mathematical function of the initial state.

pub mod base;
pub mod model;
pub mod tick;
pub mod bfs;
pub mod dfs;
