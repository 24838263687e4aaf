use vstd::prelude::*;

verus! {

/// The parsed command line.
pub struct Cli {
    pub command: Commands,
    pub trace: bool,
}

/// What the user asked for.
pub enum Commands {
    /// Create or update the public replica of the saved tracks.
    LikedPlaylist,
    /// Load the data of a playlist; the saved tracks when no id is given.
    LoadPlaylist { playlist_id: Option<String> },
    /// Compare two loaded playlists.
    ComparePlaylist {
        playlist_id_a: Option<String>,
        playlist_id_b: Option<String>,
        cmp: PlaylistCmp,
    },
    /// Search the user's playlists by name.
    FindPlaylist { name: String },
}

/// How two playlists are compared.
#[derive(Clone, Copy, Debug, PartialEq, Eq, Structural)]
pub enum PlaylistCmp {
    TrackItems,
}

impl PlaylistCmp {
    pub open spec fn spec_name(&self) -> Seq<char> {
        match self {
            PlaylistCmp::TrackItems => "track-items"@,
        }
    }

    /// The name of the method on the command line.
    pub fn name(&self) -> (r: String)
        ensures
            r@ == self.spec_name(),
    {
        match self {
            PlaylistCmp::TrackItems => String::from_str("track-items"),
        }
    }
}

} // verus!
