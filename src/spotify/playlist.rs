use vstd::prelude::*;

use crate::spotify::params::SpotifyAddItemsParams;

verus! {

/// What a new playlist is created with.
pub struct CreatePlaylistParams {
    pub name: String,
    pub description: String,
    pub user_id: String,
}

/// The playlist to add to, and the plan of the batches to add.
pub struct AddItemsToPlaylistParams {
    pub playlist_id: String,
    pub spotify: SpotifyAddItemsParams,
}

} // verus!
