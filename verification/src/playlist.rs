//! The manifest hierarchy: a variant playlist of tiers, and a media playlist
//! per track of the tier that was chosen.

pub mod manifest;
pub mod master_playlist;
pub mod media_playlist;
pub mod variant_playlist;
