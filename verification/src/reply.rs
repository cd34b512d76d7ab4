//! Answers to the requests of a browser.
use crate::models::{
    AuthResponse, FileListResponse, PeerIdResponse, SendResult, SessionResponse,
};
use crate::p2p::peers::peer_views;
use crate::p2p::protocol::{IncomingFile, IncomingView, PeerInfo, PeerView};
use crate::text::texts;
use vstd::prelude::*;

verus! {

/// How a request went.
#[derive(Clone, Copy, Debug, PartialEq, Eq)]
pub enum Status {
    Success,
    BadRequest,
    Unauthorized,
    NotFound,
    InternalServerError,
}

/// What an answer holds.
#[derive(Debug, PartialEq, Eq)]
pub enum Body {
    Empty,
    Text(String),
    Html(String),
    /// A file to be saved, with the value of its `Content-Disposition` header.
    Attachment { disposition: String, data: Vec<u8> },
    Token(AuthResponse),
    Session(SessionResponse),
    Saved(Vec<String>),
    Files(FileListResponse),
    Identity(PeerIdResponse),
    Peers(Vec<PeerInfo>),
    Sent(SendResult),
    Incoming(Vec<IncomingFile>),
}

/// The answer to a request.
#[derive(Debug, PartialEq, Eq)]
pub struct Reply {
    pub status: Status,
    pub body: Body,
}

/// The contents of a [`Body`].
pub enum BodyView {
    Empty,
    Text(Seq<char>),
    Html(Seq<char>),
    Attachment { disposition: Seq<char>, data: Seq<u8> },
    Token(Seq<char>),
    Session(Seq<char>),
    Saved(Seq<Seq<char>>),
    Files { files: Seq<Seq<char>>, git_repos: Seq<Seq<char>> },
    Identity { peer_id: Seq<char>, name: Seq<char> },
    Peers(Seq<PeerView>),
    Sent(Seq<char>),
    Incoming(Seq<IncomingView>),
}

/// The contents of a [`Reply`].
pub struct ReplyView {
    pub status: Status,
    pub body: BodyView,
}

/// The contents of a list of incoming files.
pub open spec fn incoming_views(files: Seq<IncomingFile>) -> Seq<IncomingView> {
    files.map_values(|f: IncomingFile| f@)
}

impl View for Body {
    type V = BodyView;

    open spec fn view(&self) -> BodyView {
        match self {
            Body::Empty => BodyView::Empty,
            Body::Text(text) => BodyView::Text(text@),
            Body::Html(text) => BodyView::Html(text@),
            Body::Attachment { disposition, data } => BodyView::Attachment {
                disposition: disposition@,
                data: data@,
            },
            Body::Token(response) => BodyView::Token(response.token@),
            Body::Session(response) => BodyView::Session(response.username@),
            Body::Saved(files) => BodyView::Saved(texts(files@)),
            Body::Files(response) => BodyView::Files {
                files: texts(response.files@),
                git_repos: texts(response.git_repos@),
            },
            Body::Identity(response) => BodyView::Identity {
                peer_id: response.peer_id@,
                name: response.name@,
            },
            Body::Peers(peers) => BodyView::Peers(peer_views(peers@)),
            Body::Sent(result) => BodyView::Sent(result.status@),
            Body::Incoming(files) => BodyView::Incoming(incoming_views(files@)),
        }
    }
}

impl View for Reply {
    type V = ReplyView;

    open spec fn view(&self) -> ReplyView {
        ReplyView { status: self.status, body: self.body@ }
    }
}

/// The answer with the given status and nothing in it.
pub open spec fn bare(status: Status) -> ReplyView {
    ReplyView { status, body: BodyView::Empty }
}

/// The answer with the given status and text.
pub open spec fn with_text(status: Status, text: Seq<char>) -> ReplyView {
    ReplyView { status, body: BodyView::Text(text) }
}

/// The media type of an answer, where it is neither plain text nor JSON.
pub open spec fn media_type(reply: ReplyView) -> Option<Seq<char>> {
    match reply.body {
        BodyView::Html(_) => Some("text/html"@),
        BodyView::Attachment { .. } => Some("application/octet-stream"@),
        _ => None,
    }
}

impl Reply {
    /// The answer with the given status and nothing in it.
    pub fn bare(status: Status) -> (reply: Self)
        ensures
            reply@ == bare(status),
    {
        Reply { status, body: Body::Empty }
    }

    /// The answer with the given status and text.
    pub fn text(status: Status, text: &str) -> (reply: Self)
        ensures
            reply@ == with_text(status, text@),
    {
        Reply { status, body: Body::Text(text.to_owned()) }
    }

    /// The answer to a request that went well.
    pub fn ok(body: Body) -> (reply: Self)
        ensures
            reply == (Reply { status: Status::Success, body }),
    {
        Reply { status: Status::Success, body }
    }

    /// The media type of the answer, where it is neither plain text nor JSON.
    pub fn content_type(&self) -> (media: Option<String>)
        ensures
            crate::text::opt_text(media) == media_type(self@),
    {
        match &self.body {
            Body::Html(_) => Some("text/html".to_owned()),
            Body::Attachment { .. } => Some("application/octet-stream".to_owned()),
            _ => None,
        }
    }
}

/// What is seen of an answer is all of it: its status, and what it holds, in the same
/// words, the same bytes and the same order.
pub proof fn law_answers_are_seen_as_they_are(
    status: Status,
    text: String,
    data: Vec<u8>,
    list: Vec<String>,
    repos: Vec<String>,
    name: String,
)
    ensures
        (Reply { status, body: Body::Empty })@ == (ReplyView { status, body: BodyView::Empty }),
        Body::Text(text)@ == BodyView::Text(text@),
        Body::Html(text)@ == BodyView::Html(text@),
        (Body::Attachment { disposition: text, data })@ == (BodyView::Attachment {
            disposition: text@,
            data: data@,
        }),
        Body::Token(AuthResponse { token: text })@ == BodyView::Token(text@),
        Body::Session(SessionResponse { username: text })@ == BodyView::Session(text@),
        Body::Saved(list)@ == BodyView::Saved(Seq::new(list@.len(), |i: int| list@[i]@)),
        Body::Files(FileListResponse { files: list, git_repos: repos })@ == (BodyView::Files {
            files: Seq::new(list@.len(), |i: int| list@[i]@),
            git_repos: Seq::new(repos@.len(), |i: int| repos@[i]@),
        }),
        Body::Identity(PeerIdResponse { peer_id: text, name })@ == (BodyView::Identity {
            peer_id: text@,
            name: name@,
        }),
        Body::Sent(SendResult { status: text })@ == BodyView::Sent(text@),
{
    assert(texts(list@) =~= Seq::new(list@.len(), |i: int| list@[i]@));
    assert(texts(repos@) =~= Seq::new(repos@.len(), |i: int| repos@[i]@));
}

/// What is seen of a list of peers, or of files from peers, is every entry of it in
/// its place, with all that is known of it.
pub proof fn law_lists_are_seen_as_they_are(peers: Vec<PeerInfo>, files: Vec<IncomingFile>, i: int)
    ensures
        Body::Peers(peers)@ matches BodyView::Peers(seen) && seen.len() == peers@.len() && (0 <= i
            < peers@.len() ==> seen[i].peer_id == peers@[i].peer_id@ && seen[i].name
            == peers@[i].name@ && seen[i].addresses.len() == peers@[i].addresses@.len() && (
        forall|k: int|
            0 <= k < peers@[i].addresses@.len() ==> #[trigger] seen[i].addresses[k]
                == peers@[i].addresses@[k]@)),
        Body::Incoming(files)@ matches BodyView::Incoming(seen) && seen.len() == files@.len() && (0
            <= i < files@.len() ==> seen[i] == (IncomingView {
            from_peer: files@[i].from_peer@,
            filename: files@[i].filename@,
            size: files@[i].size,
        })),
{
}

/// An answer without contents has none whatever its status, and one in words has
/// those words and no others. A page is sent as a page and a file as bytes to be
/// saved; nothing else has a media type of its own.
pub proof fn law_answers_say_what_they_are(status: Status, text: Seq<char>, data: Seq<u8>)
    ensures
        bare(status).status == status && bare(status).body is Empty,
        with_text(status, text).status == status,
        with_text(status, text).body == BodyView::Text(text),
        media_type(ReplyView { status, body: BodyView::Html(text) }) == Some("text/html"@),
        media_type(
            ReplyView { status, body: BodyView::Attachment { disposition: text, data } },
        ) == Some("application/octet-stream"@),
        media_type(with_text(status, text)) is None,
        media_type(bare(status)) is None,
        forall|reply: ReplyView|
            !(reply.body is Html) && !(reply.body is Attachment) ==> #[trigger] media_type(
                reply,
            ) is None,
{
}

} // verus!
