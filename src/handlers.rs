pub mod find_playlist;
