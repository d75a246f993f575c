//! USB device classes.

pub mod hid;
