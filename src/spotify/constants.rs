use vstd::prelude::*;

verus! {

/// Largest number of tracks that one read request may ask for.
pub const SPOTIFY_TRACKS_LIMIT: u32 = 50;

/// Largest number of item uris that one write request may carry.
pub const SPOTIFY_URIS_LIMIT: usize = 100;

/// Largest number of playlists that one listing request may ask for.
pub const SPOTIFY_PLAYLISTS_LIMIT: u32 = 50;

} // verus!
