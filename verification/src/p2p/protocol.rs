//! What peers say to each other.
use vstd::prelude::*;

verus! {

/// Length in bytes of every chunk of a file but the last.
pub const CHUNK_SIZE: usize = 262144;

/// The name under which peers speak this protocol.
pub const PROTOCOL: &'static str = "/nearshare/1.0.0";

/// A request to a peer.
#[derive(Debug, PartialEq, Eq)]
pub enum NearShareRequest {
    Ping,
    SendFile { filename: String, chunk_index: u64, total_chunks: u64, data: Vec<u8> },
}

/// The answer of a peer.
#[derive(Debug, PartialEq, Eq)]
pub enum NearShareResponse {
    Pong { peer_id: String, name: String },
    FileChunkAck { chunk_index: u64 },
    Error(String),
}

/// A peer that was discovered.
#[derive(Debug, PartialEq, Eq)]
pub struct PeerInfo {
    pub peer_id: String,
    pub name: String,
    pub addresses: Vec<String>,
}

/// A file that a peer sent.
#[derive(Debug, PartialEq, Eq)]
pub struct IncomingFile {
    pub from_peer: String,
    pub filename: String,
    pub size: u64,
}

/// The contents of a [`NearShareRequest`].
pub enum RequestView {
    Ping,
    SendFile { filename: Seq<char>, chunk_index: u64, total_chunks: u64, data: Seq<u8> },
}

/// The contents of a [`NearShareResponse`].
pub enum ResponseView {
    Pong { peer_id: Seq<char>, name: Seq<char> },
    FileChunkAck { chunk_index: u64 },
    Error(Seq<char>),
}

/// The contents of a [`PeerInfo`].
pub struct PeerView {
    pub peer_id: Seq<char>,
    pub name: Seq<char>,
    pub addresses: Seq<Seq<char>>,
}

/// The contents of an [`IncomingFile`].
pub struct IncomingView {
    pub from_peer: Seq<char>,
    pub filename: Seq<char>,
    pub size: u64,
}

impl View for NearShareRequest {
    type V = RequestView;

    open spec fn view(&self) -> RequestView {
        match self {
            NearShareRequest::Ping => RequestView::Ping,
            NearShareRequest::SendFile { filename, chunk_index, total_chunks, data } => {
                RequestView::SendFile {
                    filename: filename@,
                    chunk_index: *chunk_index,
                    total_chunks: *total_chunks,
                    data: data@,
                }
            },
        }
    }
}

impl View for NearShareResponse {
    type V = ResponseView;

    open spec fn view(&self) -> ResponseView {
        match self {
            NearShareResponse::Pong { peer_id, name } => ResponseView::Pong {
                peer_id: peer_id@,
                name: name@,
            },
            NearShareResponse::FileChunkAck { chunk_index } => ResponseView::FileChunkAck {
                chunk_index: *chunk_index,
            },
            NearShareResponse::Error(text) => ResponseView::Error(text@),
        }
    }
}

impl View for PeerInfo {
    type V = PeerView;

    open spec fn view(&self) -> PeerView {
        PeerView {
            peer_id: self.peer_id@,
            name: self.name@,
            addresses: crate::text::texts(self.addresses@),
        }
    }
}

impl View for IncomingFile {
    type V = IncomingView;

    open spec fn view(&self) -> IncomingView {
        IncomingView { from_peer: self.from_peer@, filename: self.filename@, size: self.size }
    }
}

impl Clone for NearShareRequest {
    fn clone(&self) -> (copy: Self)
        ensures
            copy@ == self@,
    {
        match self {
            NearShareRequest::Ping => NearShareRequest::Ping,
            NearShareRequest::SendFile { filename, chunk_index, total_chunks, data } => {
                NearShareRequest::SendFile {
                    filename: filename.clone(),
                    chunk_index: *chunk_index,
                    total_chunks: *total_chunks,
                    data: data.clone(),
                }
            },
        }
    }
}

impl Clone for NearShareResponse {
    fn clone(&self) -> (copy: Self)
        ensures
            copy@ == self@,
    {
        match self {
            NearShareResponse::Pong { peer_id, name } => NearShareResponse::Pong {
                peer_id: peer_id.clone(),
                name: name.clone(),
            },
            NearShareResponse::FileChunkAck { chunk_index } => NearShareResponse::FileChunkAck {
                chunk_index: *chunk_index,
            },
            NearShareResponse::Error(text) => NearShareResponse::Error(text.clone()),
        }
    }
}

impl Clone for IncomingFile {
    fn clone(&self) -> (copy: Self)
        ensures
            copy@ == self@,
    {
        IncomingFile {
            from_peer: self.from_peer.clone(),
            filename: self.filename.clone(),
            size: self.size,
        }
    }
}

/// What is seen of requests, answers, peers and files is all of them.
pub proof fn law_messages_are_seen_as_they_are(
    text: String,
    other: String,
    data: Vec<u8>,
    chunk_index: u64,
    total_chunks: u64,
    info: PeerInfo,
    file: IncomingFile,
)
    ensures
        (NearShareRequest::SendFile { filename: text, chunk_index, total_chunks, data })@ == (
        RequestView::SendFile { filename: text@, chunk_index, total_chunks, data: data@ }),
        NearShareRequest::Ping@ is Ping,
        (NearShareResponse::Pong { peer_id: text, name: other })@ == (ResponseView::Pong {
            peer_id: text@,
            name: other@,
        }),
        (NearShareResponse::FileChunkAck { chunk_index })@ == (ResponseView::FileChunkAck {
            chunk_index,
        }),
        NearShareResponse::Error(text)@ == ResponseView::Error(text@),
        info@.peer_id == info.peer_id@,
        info@.name == info.name@,
        info@.addresses == Seq::new(info.addresses@.len(), |i: int| info.addresses@[i]@),
        file@.from_peer == file.from_peer@,
        file@.filename == file.filename@,
        file@.size == file.size,
        PROTOCOL@ == "/nearshare/1.0.0"@,
{
    assert(info@.addresses =~= Seq::new(info.addresses@.len(), |i: int| info.addresses@[i]@));
}

} // verus!
