//! This node, other nodes, and files going to them and coming from them.
use super::download::{download_file, upload_request, Download};
use super::session::{permission, require_user, unauthorized};
use crate::layout::upload_location;
use crate::models::{PeerIdResponse, SendResult};
use crate::p2p::identity::{is_peer_id, reads_as_peer_id};
use crate::p2p::incoming::IncomingScan;
use crate::p2p::node::{P2PCommand, P2PHandle};
use crate::p2p::peers::{is_listing, PeerTable};
use crate::p2p::protocol::IncomingFile;
use crate::reply::{incoming_views, with_text, Body, BodyView, Reply, ReplyView, Status};
use crate::sessions::{header_view, user_of, Sessions};
use crate::text::{given, join_texts, opt_text, or_empty};
use vstd::prelude::*;

verus! {

/// A file to be sent to a peer.
#[derive(Debug, PartialEq, Eq)]
pub struct SendOrder {
    pub peer_id: String,
    pub filename: String,
}

/// What the request to send a file comes to, given whether the identity of the
/// peer can be read.
pub open spec fn order(
    peer_id: Seq<char>,
    filename: Seq<char>,
    readable: bool,
) -> Result<(Seq<char>, Seq<char>), ReplyView> {
    if readable {
        Ok((peer_id, filename))
    } else {
        Err(with_text(Status::BadRequest, "Invalid peer ID"@))
    }
}

/// What the request to send a file to a peer comes to.
pub open spec fn send_request(
    sessions: Map<Seq<char>, Seq<char>>,
    header: Option<Seq<u8>>,
    peer_id: Option<Seq<char>>,
    path: Option<Seq<char>>,
) -> Result<(Seq<char>, Seq<char>), ReplyView> {
    if user_of(sessions, header) is None {
        Err(unauthorized())
    } else if given(peer_id).len() == 0 || given(path).len() == 0 {
        Err(with_text(Status::BadRequest, "Missing peer_id or path parameter"@))
    } else {
        order(given(peer_id), given(path), is_peer_id(given(peer_id)))
    }
}

/// The contents of an order that may have been refused.
pub open spec fn order_view(result: Result<SendOrder, Reply>) -> Result<
    (Seq<char>, Seq<char>),
    ReplyView,
> {
    match result {
        Ok(order) => Ok((order.peer_id@, order.filename@)),
        Err(reply) => Err(reply@),
    }
}

/// The answer to the request to send a file, given how that ended.
pub open spec fn sent_reply(result: Result<(), Seq<char>>) -> ReplyView {
    match result {
        Ok(_) => ReplyView { status: Status::Success, body: BodyView::Sent("sent"@) },
        Err(why) => with_text(Status::InternalServerError, "Send failed: "@ + why),
    }
}

/// Tells the identity of this node.
pub fn get_peer_id(handle: &P2PHandle) -> (reply: Reply)
    ensures
        reply@ == (ReplyView {
            status: Status::Success,
            body: BodyView::Identity { peer_id: handle.local_peer_id@, name: handle.name@ },
        }),
{
    Reply::ok(
        Body::Identity(
            PeerIdResponse { peer_id: handle.local_peer_id.clone(), name: handle.name.clone() },
        ),
    )
}

/// Lists the peers that are around.
pub fn list_peers(header: Option<&[u8]>, sessions: &Sessions, peers: &PeerTable) -> (reply: Reply)
    ensures
        match permission(sessions@, header_view(header)) {
            Ok(_) => reply@.status == Status::Success && (reply@.body matches BodyView::Peers(list)
                && is_listing(peers@, list)),
            Err(refusal) => reply@ == refusal,
        },
{
    if let Err(reply) = require_user(header, sessions) {
        return reply;
    }
    Reply::ok(Body::Peers(peers.list_peers()))
}

/// Decides what the request to send a file comes to, given whether the identity
/// of the peer can be read.
pub fn order_for(peer_id: String, filename: String, readable: bool) -> (result: Result<
    SendOrder,
    Reply,
>)
    ensures
        order_view(result) == order(peer_id@, filename@, readable),
{
    if readable {
        Ok(SendOrder { peer_id, filename })
    } else {
        Err(Reply::text(Status::BadRequest, "Invalid peer ID"))
    }
}

/// Decides what the request to send an uploaded file to a peer comes to.
pub fn send_file_to_peer(
    header: Option<&[u8]>,
    sessions: &Sessions,
    peer_id: Option<String>,
    path: Option<String>,
) -> (result: Result<SendOrder, Reply>)
    ensures
        order_view(result) == send_request(
            sessions@,
            header_view(header),
            opt_text(peer_id),
            opt_text(path),
        ),
{
    if let Err(reply) = require_user(header, sessions) {
        return Err(reply);
    }
    let peer_id = or_empty(peer_id);
    let filename = or_empty(path);
    if peer_id.as_str().is_empty() || filename.as_str().is_empty() {
        return Err(Reply::text(Status::BadRequest, "Missing peer_id or path parameter"));
    }
    let readable = reads_as_peer_id(&peer_id);
    order_for(peer_id, filename, readable)
}

impl SendOrder {
    /// The command that carries out the order and reports under a number.
    pub fn command(self, respond_to: u64) -> (command: P2PCommand)
        ensures
            command == (P2PCommand::SendFile {
                peer_id: self.peer_id,
                filename: self.filename,
                respond_to,
            }),
    {
        P2PCommand::SendFile { peer_id: self.peer_id, filename: self.filename, respond_to }
    }
}

/// Answers the request to send a file, given how that ended.
pub fn sent(result: Result<(), String>) -> (reply: Reply)
    ensures
        reply@ == sent_reply(
            match result {
                Ok(_) => Ok(()),
                Err(why) => Err(why@),
            },
        ),
{
    match result {
        Ok(_) => Reply::ok(Body::Sent(SendResult { status: "sent".to_owned() })),
        Err(why) => Reply::text(
            Status::InternalServerError,
            &join_texts("Send failed: ", &why),
        ),
    }
}

/// Starts the search for the files from peers.
pub fn list_incoming(header: Option<&[u8]>, sessions: &Sessions) -> (result: Result<
    IncomingScan,
    Reply,
>)
    ensures
        match result {
            Ok(scan) => {
                &&& permission(sessions@, header_view(header)) is Ok
                &&& scan.peer@ == Seq::<char>::empty()
                &&& scan.stack@.len() == 0
                &&& scan.files@.len() == 0
            },
            Err(reply) => permission(sessions@, header_view(header)) == Err::<(), ReplyView>(
                reply@,
            ),
        },
{
    if let Err(reply) = require_user(header, sessions) {
        return Err(reply);
    }
    Ok(IncomingScan::new())
}

/// Answers with the files from peers, or with the text of the error where they
/// could not be searched.
pub fn incoming_found(found: Result<Vec<IncomingFile>, String>) -> (reply: Reply)
    ensures
        reply@ == (match found {
            Ok(files) => ReplyView {
                status: Status::Success,
                body: BodyView::Incoming(incoming_views(files@)),
            },
            Err(why) => with_text(
                Status::InternalServerError,
                "Failed to list incoming: "@ + why@,
            ),
        }),
{
    match found {
        Ok(files) => Reply::ok(Body::Incoming(files)),
        Err(why) => Reply::text(
            Status::InternalServerError,
            &join_texts("Failed to list incoming: ", &why),
        ),
    }
}

/// A user who names a peer that can be read and a path that is not empty orders just
/// that: that path, whole, goes to that peer. It is the upload that a request to
/// download the same path hands out that is read to be sent.
pub proof fn law_order_is_for_what_was_asked(
    sessions: Map<Seq<char>, Seq<char>>,
    header: Option<Seq<u8>>,
    peer_id: Seq<char>,
    path: Seq<char>,
)
    requires
        user_of(sessions, header) is Some,
        is_peer_id(peer_id),
        peer_id.len() > 0,
        path.len() > 0,
    ensures
        send_request(sessions, header, Some(peer_id), Some(path)) == Ok::<
            (Seq<char>, Seq<char>),
            ReplyView,
        >((peer_id, path)),
        upload_location(path) == "uploads/"@ + path,
        upload_request(sessions, header, Some(path)) matches Ok(download) && download.file_path
            == upload_location(path) && download.file_name == path,
{
}

/// Once the peer can be read, what is ordered is what was asked for, whatever it is:
/// two orders are equal only where peer and path are. A peer that cannot be read is
/// refused whatever the path, and whoever leaves one of the two out is told so.
pub proof fn law_orders_are_refused_with_a_reason(
    sessions: Map<Seq<char>, Seq<char>>,
    header: Option<Seq<u8>>,
    peer_id: Seq<char>,
    path: Seq<char>,
)
    ensures
        order(peer_id, path, true) == Ok::<(Seq<char>, Seq<char>), ReplyView>((peer_id, path)),
        ({
            let invalid = ReplyView {
                status: Status::BadRequest,
                body: BodyView::Text("Invalid peer ID"@),
            };
            let refused = Err::<(Seq<char>, Seq<char>), ReplyView>(invalid);
            &&& order(peer_id, path, false) == refused
            &&& user_of(sessions, header) is Some && !is_peer_id(peer_id) && peer_id.len() > 0
                && path.len() > 0 ==> send_request(sessions, header, Some(peer_id), Some(path))
                == refused
        }),
        user_of(sessions, header) is Some ==> {
            let missing = ReplyView {
                status: Status::BadRequest,
                body: BodyView::Text("Missing peer_id or path parameter"@),
            };
            let refused = Err::<(Seq<char>, Seq<char>), ReplyView>(missing);
            &&& send_request(sessions, header, None, Some(path)) == refused
            &&& send_request(sessions, header, Some(seq![]), Some(path)) == refused
            &&& send_request(sessions, header, Some(peer_id), None) == refused
            &&& send_request(sessions, header, Some(peer_id), Some(seq![])) == refused
        },
{
}

/// What comes back of an order holds the peer and the path of the order.
pub proof fn law_orders_are_seen_as_they_are(order: SendOrder, reply: Reply)
    ensures
        order_view(Ok(order)) == Ok::<(Seq<char>, Seq<char>), ReplyView>(
            (order.peer_id@, order.filename@),
        ),
        order_view(Err(reply)) == Err::<(Seq<char>, Seq<char>), ReplyView>(reply@),
{
}

/// Whoever sent a file learns that it was sent, or why it was not.
pub proof fn law_sending_is_answered(why: Seq<char>)
    ensures
        sent_reply(Ok(())) == (ReplyView {
            status: Status::Success,
            body: BodyView::Sent("sent"@),
        }),
        sent_reply(Err(why)) == (ReplyView {
            status: Status::InternalServerError,
            body: BodyView::Text("Send failed: "@ + why),
        }),
{
}

/// What a user asks to be sent is what is sent: the order, the command made of it and
/// the file read for it are all about the path that was asked for, and a request to
/// download the same path reads the same file.
pub proof fn law_file_asked_for_is_the_file_sent(
    header: Option<&[u8]>,
    sessions: &Sessions,
    peer_id: String,
    path: String,
    respond_to: u64,
    result: Result<SendOrder, Reply>,
    command: P2PCommand,
    read: String,
    handed: Result<Download, Reply>,
)
    requires
        user_of(sessions@, header_view(header)) is Some,
        is_peer_id(peer_id@),
        peer_id@.len() > 0,
        path@.len() > 0,
        call_ensures(send_file_to_peer, (header, sessions, Some(peer_id), Some(path)), result),
        result matches Ok(order) ==> call_ensures(
            SendOrder::command,
            (order, respond_to),
            command,
        ),
        call_ensures(P2PCommand::file_path, (&command,), read),
        call_ensures(download_file, (header, sessions, Some(path)), handed),
    ensures
        result matches Ok(order) && order.peer_id@ == peer_id@ && order.filename@ == path@,
        command matches P2PCommand::SendFile { peer_id: to, filename, respond_to: number } && to@
            == peer_id@ && filename@ == path@ && number == respond_to,
        read@ == "uploads/"@ + path@,
        handed matches Ok(download) && download.file_path@ == read@,
{
}

/// What is ordered is what is asked for, whatever the peer and the path, once the peer
/// can be read, and nothing is ordered where it cannot.
pub proof fn law_order_keeps_peer_and_path(
    peer_id: String,
    filename: String,
    readable: bool,
    result: Result<SendOrder, Reply>,
)
    requires
        call_ensures(order_for, (peer_id, filename, readable), result),
    ensures
        result is Ok <==> readable,
        result matches Ok(order) ==> order.peer_id@ == peer_id@ && order.filename@ == filename@,
        result matches Err(reply) ==> reply.status == Status::BadRequest && (reply.body matches
            Body::Text(text) && text@ == "Invalid peer ID"@),
{
}

/// A node tells its own identity and name, and a search for files from peers that
/// succeeded is answered with the files it found, in the order in which they come.
pub proof fn law_node_and_files_are_told_as_they_are(
    handle: P2PHandle,
    files: Vec<IncomingFile>,
    why: String,
    told: Reply,
    found: Reply,
    failed: Reply,
)
    requires
        call_ensures(get_peer_id, (&handle,), told),
        call_ensures(incoming_found, (Ok(files),), found),
        call_ensures(incoming_found, (Err(why),), failed),
    ensures
        told.status == Status::Success,
        told.body matches Body::Identity(identity) && identity.peer_id@ == handle.local_peer_id@
            && identity.name@ == handle.name@,
        found.status == Status::Success,
        found@.body matches BodyView::Incoming(list) && list.len() == files@.len() && (forall|
            i: int,
        |
            0 <= i < list.len() ==> (#[trigger] list[i]).from_peer == files@[i].from_peer@
                && list[i].filename == files@[i].filename@ && list[i].size == files@[i].size),
        failed.status == Status::InternalServerError,
        failed.body matches Body::Text(text) && text@ == "Failed to list incoming: "@ + why@,
{
}

/// Peers and files from peers are shown to users and to nobody else: a user gets the
/// list, and whoever is none is refused.
pub proof fn law_peers_are_shown_to_users(
    header: Option<&[u8]>,
    sessions: &Sessions,
    peers: &PeerTable,
    reply: Reply,
    search: Result<IncomingScan, Reply>,
)
    requires
        call_ensures(list_peers, (header, sessions, peers), reply),
        call_ensures(list_incoming, (header, sessions), search),
    ensures
        user_of(sessions@, header_view(header)) is Some ==> reply.status == Status::Success && (
        reply@.body matches BodyView::Peers(list) && is_listing(peers@, list)) && (search matches
            Ok(scan) && scan.files@.len() == 0 && scan.stack@.len() == 0),
        user_of(sessions@, header_view(header)) is None ==> reply.status == Status::Unauthorized
            && reply.body is Empty && (search matches Err(refusal) && refusal.status
            == Status::Unauthorized && refusal.body is Empty),
{
}

} // verus!
