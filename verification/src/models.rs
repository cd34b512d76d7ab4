//! The values that requests carry and replies hold.
use vstd::prelude::*;

verus! {

/// The credentials of a login.
#[derive(Debug, PartialEq, Eq)]
pub struct AuthRequest {
    pub username: String,
    pub password: String,
}

/// The token that a login gives out.
#[derive(Debug, PartialEq, Eq)]
pub struct AuthResponse {
    pub token: String,
}

/// Who a session belongs to.
#[derive(Debug, PartialEq, Eq)]
pub struct SessionResponse {
    pub username: String,
}

/// What is remembered about the uploads: the names of the git repositories
/// among them.
#[derive(Debug, PartialEq, Eq)]
pub struct UploadMeta {
    pub git_repos: Vec<String>,
}

/// The uploaded files and the git repositories among them.
#[derive(Debug, PartialEq, Eq)]
pub struct FileListResponse {
    pub files: Vec<String>,
    pub git_repos: Vec<String>,
}

/// The identity of this node.
#[derive(Debug, PartialEq, Eq)]
pub struct PeerIdResponse {
    pub peer_id: String,
    pub name: String,
}

/// How sending a file ended.
#[derive(Debug, PartialEq, Eq)]
pub struct SendResult {
    pub status: String,
}

impl Default for UploadMeta {
    /// No repositories.
    fn default() -> (meta: Self)
        ensures
            meta.git_repos@.len() == 0,
    {
        UploadMeta { git_repos: Vec::new() }
    }
}

} // verus!
