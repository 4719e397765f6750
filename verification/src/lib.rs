//! The exact part of a small path tracer: what it decides and keeps in whole
//! numbers.
//!
//! - [`image`]: the grid of pixels that a render fills cell by cell and hands
//!   out as bytes.
//! - [`progress`]: the count of sample casts from which progress is reported.
//! - [`trace`]: the side on which a ray meets a surface, which of a sphere's
//!   two crossings counts as the hit and which of several hits is the
//!   nearest, decided on the ranks of the distances, and how far a ray is
//!   followed and what it brings back.

pub mod image;
pub mod progress;
pub mod trace;
