//! The bounded grid under its short name.
pub use crate::life_matrix::LifeMatrix as Matrix;
