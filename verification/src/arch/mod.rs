//! The two machine architectures.

pub mod amd64;
pub mod arm64;
