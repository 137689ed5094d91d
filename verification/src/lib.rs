pub mod bitfield;
pub mod controller;
pub mod hashing;
pub mod infohash;
pub mod message;
pub mod peer;
pub mod status;
pub mod torrent_file;
pub mod tracker;
pub mod worker;
