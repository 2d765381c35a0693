//! Manifest resolution and segment assembly for adaptive-streaming video posts.
//!
//! A discovered variant manifest is resolved into quality tiers, one tier is
//! selected, its two media manifests are expanded into segment addresses, the
//! fetched segments are put back in manifest order, and the two tracks are
//! handed to a muxer. Every step that decides something is a verified function
//! here; the caller performs the network, file and process work in between.

pub mod assembler;
pub mod downloader;
pub mod downloader_error;
pub mod input;
pub mod platforms;
pub mod playlist;
pub mod segments;
pub mod text;
