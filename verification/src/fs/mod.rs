//! File systems.

pub mod exfat;
