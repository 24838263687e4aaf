pub mod cache;
pub mod client;
pub mod constants;
pub mod params;
pub mod playlist;
pub mod tracks;
