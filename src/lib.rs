use vstd::prelude::*;

pub mod cli;
pub mod config;
pub mod error;
pub mod handlers;
pub mod redirect_uri;
pub mod spotify;
pub mod store;

verus! {

/// The characters of each string of `v`.
pub open spec fn string_views(v: Seq<String>) -> Seq<Seq<char>> {
    v.map_values(|p: String| p@)
}

} // verus!
