//! The core of a small real-time rendering sandbox, without the rendering: a simulation of
//! point bodies under pairwise force laws, advanced in fixed steps while frames of any
//! length go by, and the grammar of the header of the PLY files that its meshes come in.
//!
//! The simulation is generic over its scalar. Its contracts say exactly which arithmetic is
//! done, whatever the scalar's arithmetic is, and its laws name the facts of arithmetic
//! that they rest on.

pub mod physics;
pub mod ply;
