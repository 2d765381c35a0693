//! The platforms whose posts can be downloaded.

pub mod twitter;
