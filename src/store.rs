use vstd::prelude::*;

use crate::error::EchoError;

verus! {

/// Identifier of the store file of the user's saved tracks.
pub const USERS_SAVED_TRACKS_STORE_FILE_PREFIX: &'static str = "users_saved_tracks";

pub open spec fn store_file_name(identifier: Seq<char>) -> Seq<char> {
    "echo_"@ + identifier + ".toml"@
}

/// Name of the store file of the playlist `identifier`.
pub fn create_store_file_name(identifier: &String) -> (r: String)
    ensures
        r@ == store_file_name(identifier@),
{
    String::from_str("echo_").concat(identifier.as_str()).concat(".toml")
}

/// Name of the directory, under the user's documents, that holds the store files.
pub fn store_dir_name() -> (r: String)
    ensures
        r@ == "echo_store"@,
{
    let r = String::from_str("echo_").concat("store");
    proof {
        reveal_strlit("echo_");
        reveal_strlit("store");
        reveal_strlit("echo_store");
    }
    assert(r@ =~= "echo_store"@);
    r
}

/// The store identifier of a playlist: its id, or that of the saved tracks.
pub fn playlist_identifier(playlist_id: &Option<String>) -> (r: String)
    ensures
        playlist_id matches Some(id) ==> r@ == id@,
        playlist_id is None ==> r@ == USERS_SAVED_TRACKS_STORE_FILE_PREFIX@,
{
    match playlist_id {
        Some(id) => id.clone(),
        None => String::from_str(USERS_SAVED_TRACKS_STORE_FILE_PREFIX),
    }
}

pub open spec fn missing_store_message(path_a: Seq<char>, path_b: Seq<char>) -> Seq<char> {
    "One of the playlists could not be found in storage: "@ + path_a + " | "@ + path_b
}

/// Decides whether two stored playlists can be compared: not a playlist with
/// itself, and only when both store files exist.
pub fn check_comparison(
    identifier_a: &String,
    identifier_b: &String,
    path_a: &str,
    path_b: &str,
    a_exists: bool,
    b_exists: bool,
) -> (r: Result<(), EchoError>)
    ensures
        identifier_a@ == identifier_b@ ==> (r matches Err(EchoError::CliParamError(m)) && m@
            == "You selected to compare the playlist with itself. This is not possible"@),
        identifier_a@ != identifier_b@ && !(a_exists && b_exists) ==> (r matches Err(
            EchoError::IoStoredFileError(m),
        ) && m@ == missing_store_message(path_a@, path_b@)),
        identifier_a@ != identifier_b@ && a_exists && b_exists ==> r is Ok,
{
    if *identifier_a == *identifier_b {
        Err(
            EchoError::CliParamError(
                String::from_str(
                    "You selected to compare the playlist with itself. This is not possible",
                ),
            ),
        )
    } else if !a_exists || !b_exists {
        let m = String::from_str("One of the playlists could not be found in storage: ").concat(
            path_a,
        ).concat(" | ").concat(path_b);
        Err(EchoError::IoStoredFileError(m))
    } else {
        Ok(())
    }
}

} // verus!
