//! A vector that keeps a few elements inline before it moves them to the
//! heap, and the properties that its users rely on.

pub mod etna;
pub mod pow2;
pub mod runner;
pub mod small_vec;
pub mod text;

pub use small_vec::SmallVec;
