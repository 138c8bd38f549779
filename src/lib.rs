//! Verified core of an area clicker: screen regions, a human-like pointer
//! trajectory synthesizer, and the decision logic of the background click job.

pub mod arith;
pub mod chance;
pub mod editor;
pub mod executor;
pub mod geometry;
pub mod job;
pub mod smooth;
pub mod trajectory;
