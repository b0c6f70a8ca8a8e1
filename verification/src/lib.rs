//! Entity-component scene store for a small 3D client.
//!
//! The crate owns the world's component tables, allocates entity
//! identifiers, enforces creation and destruction invariants, and plans the
//! per-frame render traversal. Window management, GPU calls and
//! floating-point matrix arithmetic live outside the crate; components that
//! conceptually hold 32-bit floating-point vectors store the IEEE-754 bit
//! patterns of their lanes, which the store only keeps and compares.

pub mod ecs;
pub mod funcs;
pub mod mesh;
pub mod render;
pub mod table;
pub mod windowing;
