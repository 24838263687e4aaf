use vstd::prelude::*;

verus! {

/// Name of the public replica of the user's saved tracks.
pub const SAVED_TRACKS_PLAYLIST_NAME: &'static str = "SaVeD TrAcKs";

/// Description of the public replica of the user's saved tracks.
pub const SAVED_TRACKS_PLAYLIST_DESCRIPTION: &'static str =
    "A duplicate of my liked tracks made public. Sharing is caring";

/// The name and description of one of the user's playlists.
pub struct PlaylistLabel {
    pub name: String,
    pub description: Option<String>,
}

/// Whether a playlist is the replica: its name and description are those
/// that the replica is created with.
pub open spec fn is_replica(label: PlaylistLabel) -> bool {
    &&& label.name@ == SAVED_TRACKS_PLAYLIST_NAME@
    &&& label.description matches Some(d) && d@ == SAVED_TRACKS_PLAYLIST_DESCRIPTION@
}

/// Position of the first replica among `playlists`, if there is one.
pub fn search_for_current_user_duplicate_liked_playlists(playlists: &Vec<PlaylistLabel>) -> (r:
    Option<usize>)
    ensures
        r matches Some(i) ==> i < playlists@.len() && is_replica(playlists@[i as int]) && forall|
            j: int,
        |
            0 <= j < i ==> !is_replica(#[trigger] playlists@[j]),
        r is None ==> forall|j: int|
            0 <= j < playlists@.len() ==> !is_replica(#[trigger] playlists@[j]),
{
    let name = String::from_str(SAVED_TRACKS_PLAYLIST_NAME);
    let description = String::from_str(SAVED_TRACKS_PLAYLIST_DESCRIPTION);
    let mut i: usize = 0;
    while i < playlists.len()
        invariant
            i <= playlists@.len(),
            name@ == SAVED_TRACKS_PLAYLIST_NAME@,
            description@ == SAVED_TRACKS_PLAYLIST_DESCRIPTION@,
            forall|j: int| 0 <= j < i ==> !is_replica(#[trigger] playlists@[j]),
        decreases playlists@.len() - i,
    {
        let p = &playlists[i];
        let found = match &p.description {
            Some(d) => p.name == name && *d == description,
            None => false,
        };
        if found {
            return Some(i);
        }
        i = i + 1;
    }
    None
}

/// What to do with the replica, from the number of saved tracks and the
/// number of tracks in the replica.
#[derive(Debug, PartialEq, Eq, Structural)]
pub enum SyncDecision {
    /// Both hold as many tracks: nothing to add.
    InSync,
    /// The replica holds more tracks than are saved: nothing can be done.
    ReplicaAhead,
    /// This many saved tracks are missing from the replica.
    Missing(u32),
}

/// Compares the saved tracks with the replica.
pub fn sync_decision(saved_total: u32, replica_total: u32) -> (r: SyncDecision)
    ensures
        saved_total == replica_total ==> r == SyncDecision::InSync,
        saved_total < replica_total ==> r == SyncDecision::ReplicaAhead,
        saved_total > replica_total ==> r == SyncDecision::Missing(
            (saved_total - replica_total) as u32,
        ),
{
    if saved_total == replica_total {
        SyncDecision::InSync
    } else if saved_total < replica_total {
        SyncDecision::ReplicaAhead
    } else {
        SyncDecision::Missing(saved_total - replica_total)
    }
}

} // verus!
