//! The logic of a local file-sharing server.
pub mod cipher;
pub mod handlers;
pub mod layout;
pub mod models;
pub mod p2p;
pub mod path;
pub mod random;
pub mod reply;
pub mod sessions;
pub mod sort;
pub mod text;
