//! Decoder for a binary bone-database format used by a 3D character pipeline.
//!
//! A bone database holds one or more named skeletons; each skeleton is a flat,
//! indexed list of bones with parent/mirror/pole-target references, a parallel
//! array of rest-pose positions, a parallel array of signed 16-bit parent ids,
//! and two auxiliary name tables. The decoder walks a byte buffer single-pass,
//! top-down (database, skeletons, bones, scalars) and either produces the full
//! in-memory structure or a positioned error; it never panics and never reads
//! out of bounds.

pub mod decode;
pub mod error;
pub mod format;
pub mod hierarchy;
pub mod model;
pub mod truncation;
