//! Forward-auth gateway logic: HTTP Basic credentials are checked against a
//! table of usernames and phpBB password hashes.

pub mod codec;
pub mod config;
pub mod handler;
pub mod laws;
pub mod logins;
pub mod pwhash;
pub mod response;
pub mod store;
pub mod text;
pub mod verdict;
