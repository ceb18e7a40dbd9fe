pub mod bits;
pub mod matrix;

pub use matrix::Matrix;
