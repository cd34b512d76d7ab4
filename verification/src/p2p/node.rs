//! Files going out: one chunk at a time, the next when the last was taken.
use super::chunks::{byte_seqs, chunks, split_chunks};
use super::peers::PeerTable;
use super::protocol::{NearShareRequest, NearShareResponse, RequestView, ResponseView};
use crate::cipher::{open, open_result, opened, EncryptionKey, OpenError};
use crate::layout::{upload_location, upload_path};
use crate::text::join_texts;
use std::collections::HashMap;
use std::sync::Arc;
use tokio::sync::RwLock;
use vstd::prelude::*;

verus! {

/// `tokio::sync::RwLock`, as an opaque type. Nothing is claimed of what a lock
/// guards, which changes under those who share it: the lock is only handed on, and
/// that two handles have the same one is all that contracts say of it.
#[verifier::external_type_specification]
#[verifier::external_body]
#[verifier::reject_recursive_types(T)]
pub struct ExRwLock<T: ?Sized>(tokio::sync::RwLock<T>);

/// How the rest of the server reaches a node: what the node tells others about
/// itself, and the table of the peers around it.
pub struct P2PHandle {
    pub local_peer_id: String,
    pub name: String,
    pub peers: Arc<RwLock<PeerTable>>,
}

impl Clone for P2PHandle {
    /// Another handle of the same node, with the same table of peers.
    fn clone(&self) -> (copy: Self)
        ensures
            copy == *self,
    {
        P2PHandle {
            local_peer_id: self.local_peer_id.clone(),
            name: self.name.clone(),
            peers: self.peers.clone(),
        }
    }
}

/// A file on its way to a peer.
#[derive(Debug, PartialEq, Eq)]
pub struct OutgoingTransfer {
    pub peer_id: String,
    pub filename: String,
    pub chunks: Vec<Vec<u8>>,
    /// The position of the chunk that was sent last.
    pub next_chunk: usize,
    /// The number under which the outcome is awaited.
    pub respond_to: u64,
}

/// An order to a node.
#[derive(Debug, PartialEq, Eq)]
pub enum P2PCommand {
    /// Send an uploaded file to a peer and report the outcome.
    SendFile { peer_id: String, filename: String, respond_to: u64 },
}

/// What is to be done next for a file on its way to a peer.
#[derive(Debug, PartialEq, Eq)]
pub enum TransferAction {
    /// Nothing.
    Idle,
    /// Report the outcome.
    Finish { respond_to: u64, result: Result<(), String> },
    /// Send the request to the peer of the transfer, and track the transfer
    /// under the number of that request.
    Send { request: NearShareRequest, transfer: OutgoingTransfer },
}

/// What the answer to a request brings about.
#[derive(Debug, PartialEq, Eq)]
pub struct ResponseOutcome {
    /// The answer, and the number under which it is awaited.
    pub forward: Option<(u64, NearShareResponse)>,
    pub transfer: TransferAction,
}

/// The state of a node.
pub struct P2PNode {
    pub handle: P2PHandle,
    /// The requests whose answers are awaited, each with the number under which
    /// its answer is awaited.
    pub pending_responses: HashMap<u64, u64>,
    /// The transfers under way, each under the number of its last request.
    pub outgoing_transfers: HashMap<u64, OutgoingTransfer>,
    pub cipher: EncryptionKey,
}

/// The contents of an [`OutgoingTransfer`].
pub struct TransferView {
    pub peer_id: Seq<char>,
    pub filename: Seq<char>,
    pub chunks: Seq<Seq<u8>>,
    pub next_chunk: int,
    pub respond_to: u64,
}

/// The contents of a [`TransferAction`].
pub enum ActionView {
    Idle,
    Finish { respond_to: u64, result: Result<(), Seq<char>> },
    Send { request: RequestView, transfer: TransferView },
}

impl View for OutgoingTransfer {
    type V = TransferView;

    open spec fn view(&self) -> TransferView {
        TransferView {
            peer_id: self.peer_id@,
            filename: self.filename@,
            chunks: byte_seqs(self.chunks@),
            next_chunk: self.next_chunk as int,
            respond_to: self.respond_to,
        }
    }
}

impl View for TransferAction {
    type V = ActionView;

    open spec fn view(&self) -> ActionView {
        match self {
            TransferAction::Idle => ActionView::Idle,
            TransferAction::Finish { respond_to, result } => ActionView::Finish {
                respond_to: *respond_to,
                result: match result {
                    Ok(_) => Ok(()),
                    Err(text) => Err(text@),
                },
            },
            TransferAction::Send { request, transfer } => ActionView::Send {
                request: request@,
                transfer: transfer@,
            },
        }
    }
}

/// The request that carries the chunk at a position of a file.
pub open spec fn chunk_request(filename: Seq<char>, pieces: Seq<Seq<u8>>, i: int) -> RequestView {
    RequestView::SendFile {
        filename,
        chunk_index: i as u64,
        total_chunks: pieces.len() as u64,
        data: pieces[i],
    }
}

/// The position in memory that a chunk number stands for.
pub open spec fn position(chunk_index: u64) -> int {
    (chunk_index as usize) as int
}

/// What the answer to its last request means for a transfer: a chunk that was
/// taken calls for the next one, or ends the transfer if it was the last; any
/// other answer ends the transfer in failure.
pub open spec fn transfer_after(transfer: TransferView, response: ResponseView) -> ActionView {
    match response {
        ResponseView::FileChunkAck { chunk_index } => {
            let next = position(chunk_index) + 1;
            if next >= transfer.chunks.len() {
                ActionView::Finish { respond_to: transfer.respond_to, result: Ok(()) }
            } else {
                ActionView::Send {
                    request: chunk_request(transfer.filename, transfer.chunks, next),
                    transfer: TransferView { next_chunk: next, ..transfer },
                }
            }
        },
        ResponseView::Error(text) => ActionView::Finish {
            respond_to: transfer.respond_to,
            result: Err(text),
        },
        ResponseView::Pong { .. } => ActionView::Finish {
            respond_to: transfer.respond_to,
            result: Err("Unexpected response"@),
        },
    }
}

/// What an answer means for the transfer, if any, that waits for it.
pub open spec fn action_after(
    transfers: Map<u64, OutgoingTransfer>,
    request_id: u64,
    response: ResponseView,
) -> ActionView {
    if transfers.contains_key(request_id) {
        transfer_after(transfers[request_id]@, response)
    } else {
        ActionView::Idle
    }
}

/// Who awaits an answer, if anyone, and the answer.
pub open spec fn forwarded(
    pending: Map<u64, u64>,
    request_id: u64,
    response: ResponseView,
) -> Option<(u64, ResponseView)> {
    if pending.contains_key(request_id) {
        Some((pending[request_id], response))
    } else {
        None
    }
}

/// The contents of an answer that may have to be forwarded.
pub open spec fn forward_view(forward: Option<(u64, NearShareResponse)>) -> Option<
    (u64, ResponseView),
> {
    match forward {
        Some((waiter, response)) => Some((waiter, response@)),
        None => None,
    }
}

/// The contents of what was read of a file, or the text of the error.
pub open spec fn read_view(read: Result<Vec<u8>, String>) -> Result<Seq<u8>, Seq<char>> {
    match read {
        Ok(bytes) => Ok(bytes@),
        Err(text) => Err(text@),
    }
}

/// How sending a file starts, given what it holds.
pub open spec fn sending_start(
    peer_id: Seq<char>,
    filename: Seq<char>,
    respond_to: u64,
    contents: Result<Seq<u8>, OpenError>,
) -> ActionView {
    match contents {
        Err(OpenError::TooShort) => ActionView::Finish {
            respond_to,
            result: Err("File too short"@),
        },
        Err(OpenError::Refused) => ActionView::Finish {
            respond_to,
            result: Err("Decryption failed: Error"@),
        },
        Ok(data) => if data.len() == 0 {
            ActionView::Finish { respond_to, result: Ok(()) }
        } else {
            ActionView::Send {
                request: chunk_request(filename, chunks(data), 0),
                transfer: TransferView {
                    peer_id,
                    filename,
                    chunks: chunks(data),
                    next_chunk: 0,
                    respond_to,
                },
            }
        },
    }
}

/// How sending an uploaded file starts, once the file was read.
pub open spec fn transfer_start(
    key: Seq<u8>,
    peer_id: Seq<char>,
    filename: Seq<char>,
    respond_to: u64,
    read: Result<Seq<u8>, Seq<char>>,
) -> ActionView {
    match read {
        Err(text) => ActionView::Finish { respond_to, result: Err("Read failed: "@ + text) },
        Ok(stored) => sending_start(peer_id, filename, respond_to, opened(key, stored)),
    }
}

impl P2PCommand {
    /// The file to be read before the command is carried out.
    pub fn file_path(&self) -> (path: String)
        ensures
            self matches P2PCommand::SendFile { filename, .. } && path@ == upload_location(
                filename@,
            ),
    {
        match self {
            P2PCommand::SendFile { filename, .. } => upload_path(filename),
        }
    }
}

impl OutgoingTransfer {
    /// The request that carries the chunk at a position.
    fn request(&self, i: usize) -> (request: NearShareRequest)
        requires
            i < self.chunks@.len(),
        ensures
            request@ == chunk_request(self@.filename, self@.chunks, i as int),
    {
        NearShareRequest::SendFile {
            filename: self.filename.clone(),
            chunk_index: i as u64,
            total_chunks: self.chunks.len() as u64,
            data: self.chunks[i].clone(),
        }
    }
}

impl P2PNode {
    /// A node that sends nothing yet, and a handle of it. They share the table of
    /// peers.
    pub fn new(
        local_peer_id: String,
        name: String,
        cipher: EncryptionKey,
        peers: Arc<RwLock<PeerTable>>,
    ) -> (made: (Self, P2PHandle))
        ensures
            made.1.local_peer_id == local_peer_id,
            made.1.name == name,
            made.1.peers == peers,
            made.0.handle == made.1,
            made.0.cipher == cipher,
            made.0.pending_responses@ == Map::<u64, u64>::empty(),
            made.0.outgoing_transfers@ == Map::<u64, OutgoingTransfer>::empty(),
    {
        let handle = P2PHandle { local_peer_id, name, peers };
        let node = P2PNode {
            handle: handle.clone(),
            pending_responses: HashMap::new(),
            outgoing_transfers: HashMap::new(),
            cipher,
        };
        (node, handle)
    }

    /// Tracks a transfer under the number of the request just sent for it.
    pub fn track(&mut self, request_id: u64, transfer: OutgoingTransfer)
        ensures
            final(self).outgoing_transfers@ == old(self).outgoing_transfers@.insert(
                request_id,
                transfer,
            ),
            final(self).pending_responses == old(self).pending_responses,
            final(self).handle == old(self).handle,
            final(self).cipher == old(self).cipher,
    {
        self.outgoing_transfers.insert(request_id, transfer);
    }

    /// Takes in the answer to a request.
    pub fn handle_response(&mut self, request_id: u64, response: NearShareResponse) -> (outcome:
        ResponseOutcome)
        requires
            old(self).outgoing_transfers@.contains_key(request_id) ==> (response@ matches
                ResponseView::FileChunkAck { chunk_index } ==> position(chunk_index) < usize::MAX),
        ensures
            forward_view(outcome.forward) == forwarded(
                old(self).pending_responses@,
                request_id,
                response@,
            ),
            outcome.transfer@ == action_after(
                old(self).outgoing_transfers@,
                request_id,
                response@,
            ),
            final(self).pending_responses@ == old(self).pending_responses@.remove(request_id),
            final(self).outgoing_transfers@ == old(self).outgoing_transfers@.remove(request_id),
            final(self).handle == old(self).handle,
            final(self).cipher == old(self).cipher,
    {
        let forward = match self.pending_responses.remove(&request_id) {
            Some(waiter) => Some((waiter, response.clone())),
            None => None,
        };
        let transfer = match self.outgoing_transfers.remove(&request_id) {
            Some(waiting) => {
                let respond_to: u64 = waiting.respond_to;
                match response {
                    NearShareResponse::FileChunkAck { chunk_index } => {
                        let next: usize = chunk_index as usize + 1;
                        if next >= waiting.chunks.len() {
                            TransferAction::Finish { respond_to, result: Ok(()) }
                        } else {
                            let request = waiting.request(next);
                            let mut transfer = waiting;
                            transfer.next_chunk = next;
                            TransferAction::Send { request, transfer }
                        }
                    },
                    NearShareResponse::Error(text) => TransferAction::Finish {
                        respond_to,
                        result: Err(text),
                    },
                    NearShareResponse::Pong { .. } => TransferAction::Finish {
                        respond_to,
                        result: Err("Unexpected response".to_owned()),
                    },
                }
            },
            None => TransferAction::Idle,
        };
        ResponseOutcome { forward, transfer }
    }

    /// Takes in that a request was never answered, and why.
    pub fn handle_outbound_failure(&mut self, request_id: u64, error: String) -> (outcome:
        ResponseOutcome)
        ensures
            forward_view(outcome.forward) == forwarded(
                old(self).pending_responses@,
                request_id,
                ResponseView::Error(error@),
            ),
            outcome.transfer@ == action_after(
                old(self).outgoing_transfers@,
                request_id,
                ResponseView::Error(error@),
            ),
            final(self).pending_responses@ == old(self).pending_responses@.remove(request_id),
            final(self).outgoing_transfers@ == old(self).outgoing_transfers@.remove(request_id),
            final(self).handle == old(self).handle,
            final(self).cipher == old(self).cipher,
    {
        let transfer = match self.outgoing_transfers.remove(&request_id) {
            Some(waiting) => TransferAction::Finish {
                respond_to: waiting.respond_to,
                result: Err(error.clone()),
            },
            None => TransferAction::Idle,
        };
        let forward = match self.pending_responses.remove(&request_id) {
            Some(waiter) => Some((waiter, NearShareResponse::Error(error))),
            None => None,
        };
        ResponseOutcome { forward, transfer }
    }

    /// Carries out a command, once its file was read.
    pub fn handle_command(&self, command: P2PCommand, read: Result<Vec<u8>, String>) -> (action:
        TransferAction)
        ensures
            command matches P2PCommand::SendFile { peer_id, filename, respond_to } && action@
                == transfer_start(self.cipher@, peer_id@, filename@, respond_to, read_view(read)),
    {
        let P2PCommand::SendFile { peer_id, filename, respond_to } = command;
        match read {
            Ok(stored) => start_sending(peer_id, filename, respond_to, open(&self.cipher, &stored)),
            Err(text) => TransferAction::Finish {
                respond_to,
                result: Err(join_texts("Read failed: ", &text)),
            },
        }
    }
}

/// Starts sending a file, given what it holds.
pub fn start_sending(
    peer_id: String,
    filename: String,
    respond_to: u64,
    contents: Result<Vec<u8>, OpenError>,
) -> (action: TransferAction)
    ensures
        action@ == sending_start(peer_id@, filename@, respond_to, open_result(contents)),
{
    let data = match contents {
        Ok(data) => data,
        Err(OpenError::TooShort) => {
            return TransferAction::Finish { respond_to, result: Err("File too short".to_owned()) };
        },
        Err(OpenError::Refused) => {
            return TransferAction::Finish {
                respond_to,
                result: Err("Decryption failed: Error".to_owned()),
            };
        },
    };
    let pieces = split_chunks(&data);
    if pieces.is_empty() {
        return TransferAction::Finish { respond_to, result: Ok(()) };
    }
    let transfer = OutgoingTransfer { peer_id, filename, chunks: pieces, next_chunk: 0, respond_to };
    let request = transfer.request(0);
    TransferAction::Send { request, transfer }
}

/// The requests sent for a transfer, and what is to be done next, when the chunk
/// sent last has been acknowledged so many times.
pub open spec fn conversation(start: ActionView, acks: nat) -> (Seq<RequestView>, ActionView)
    decreases acks,
{
    if acks == 0 {
        (with_request(seq![], start), start)
    } else {
        let (requests, action) = conversation(start, (acks - 1) as nat);
        match action {
            ActionView::Send {
                request: RequestView::SendFile { chunk_index, .. },
                transfer,
            } => {
                let next = transfer_after(transfer, ResponseView::FileChunkAck { chunk_index });
                (with_request(requests, next), next)
            },
            _ => (requests, action),
        }
    }
}

/// The requests sent so far and the one that the action sends, if any.
pub open spec fn with_request(requests: Seq<RequestView>, action: ActionView) -> Seq<RequestView> {
    match action {
        ActionView::Send { request, .. } => requests.push(request),
        _ => requests,
    }
}

/// The requests that carry the chunks of a file, in order.
pub open spec fn file_requests(filename: Seq<char>, data: Seq<u8>) -> Seq<RequestView> {
    Seq::new(chunks(data).len(), |i: int| chunk_request(filename, chunks(data), i))
}

/// While chunks are left, the next one is on its way.
proof fn lemma_conversation_under_way(
    start: ActionView,
    transfer: TransferView,
    data: Seq<u8>,
    acks: nat,
)
    requires
        data.len() <= usize::MAX,
        transfer.chunks == chunks(data),
        acks < chunks(data).len(),
        start == (ActionView::Send {
            request: chunk_request(transfer.filename, chunks(data), 0),
            transfer: TransferView { next_chunk: 0, ..transfer },
        }),
    ensures
        conversation(start, acks) == (
            file_requests(transfer.filename, data).take(acks as int + 1),
            ActionView::Send {
                request: chunk_request(transfer.filename, chunks(data), acks as int),
                transfer: TransferView { next_chunk: acks as int, ..transfer },
            },
        ),
    decreases acks,
{
    let all = file_requests(transfer.filename, data);
    if acks == 0 {
        assert(all.take(1) =~= seq![all[0]]);
    } else {
        lemma_conversation_under_way(start, transfer, data, (acks - 1) as nat);
        assert(all.take(acks as int + 1) =~= all.take(acks as int).push(all[acks as int]));
    }
}

/// A file whose chunks are acknowledged one by one is sent whole: each chunk
/// once and in order, and when the last one was acknowledged the transfer has
/// succeeded.
pub proof fn law_acknowledged_file_is_sent_whole(
    key: Seq<u8>,
    peer_id: Seq<char>,
    filename: Seq<char>,
    respond_to: u64,
    stored: Seq<u8>,
    data: Seq<u8>,
)
    requires
        data.len() <= usize::MAX,
        opened(key, stored) == Ok::<Seq<u8>, OpenError>(data),
    ensures
        conversation(
            transfer_start(key, peer_id, filename, respond_to, Ok(stored)),
            chunks(data).len(),
        ) == (
            file_requests(filename, data),
            ActionView::Finish { respond_to, result: Ok(()) },
        ),
{
    let start = transfer_start(key, peer_id, filename, respond_to, Ok(stored));
    let n = chunks(data).len();
    if n == 0 {
        assert(file_requests(filename, data) =~= seq![]);
    } else {
        let transfer = TransferView {
            peer_id,
            filename,
            chunks: chunks(data),
            next_chunk: 0,
            respond_to,
        };
        lemma_conversation_under_way(start, transfer, data, (n - 1) as nat);
        assert(file_requests(filename, data).take(n as int) =~= file_requests(filename, data));
    }
}

/// A peer that answers with an error, or with anything but an acknowledgement,
/// ends the transfer in failure.
pub proof fn law_unacknowledged_transfer_fails(transfer: TransferView, response: ResponseView)
    requires
        !(response is FileChunkAck),
    ensures
        transfer_after(transfer, response) matches ActionView::Finish { respond_to, result }
            && respond_to == transfer.respond_to && result is Err,
{
}

/// Whether an action that sends carries the chunk that the transfer marks as sent
/// last.
pub open spec fn is_consistent(action: ActionView) -> bool {
    action matches ActionView::Send { request, transfer } ==> {
        &&& 0 <= transfer.next_chunk < transfer.chunks.len()
        &&& request == chunk_request(transfer.filename, transfer.chunks, transfer.next_chunk)
    }
}

/// Whatever is sent for a transfer is the chunk that the transfer marks as sent
/// last, when sending starts and after every answer.
pub proof fn law_transfer_marks_the_chunk_sent_last(
    peer_id: Seq<char>,
    filename: Seq<char>,
    respond_to: u64,
    contents: Result<Seq<u8>, OpenError>,
    transfer: TransferView,
    response: ResponseView,
)
    ensures
        is_consistent(sending_start(peer_id, filename, respond_to, contents)),
        is_consistent(transfer_after(transfer, response)),
{
}

/// An answer either ends the transfer that waited for it, and the outcome goes to
/// whoever awaits that transfer, or the same file goes on to the same peer.
pub proof fn law_answer_ends_or_continues_the_transfer(
    transfer: TransferView,
    response: ResponseView,
)
    ensures
        match transfer_after(transfer, response) {
            ActionView::Idle => false,
            ActionView::Finish { respond_to, .. } => respond_to == transfer.respond_to,
            ActionView::Send { transfer: next, .. } => next == (TransferView {
                next_chunk: next.next_chunk,
                ..transfer
            }),
        },
{
}

/// A chunk that was taken, whichever it is, calls for the one behind it, by its own
/// number and whole, with the name of the file and the number of all its chunks, to
/// the same peer. Where there is none behind it the file has been sent.
pub proof fn law_taken_chunk_calls_for_the_one_behind_it(transfer: TransferView, chunk_index: u64)
    requires
        chunk_index <= usize::MAX,
        transfer.chunks.len() <= u64::MAX,
    ensures
        ({
            let next = chunk_index + 1;
            let action = transfer_after(transfer, ResponseView::FileChunkAck { chunk_index });
            if next < transfer.chunks.len() {
                action == (ActionView::Send {
                    request: RequestView::SendFile {
                        filename: transfer.filename,
                        chunk_index: next as u64,
                        total_chunks: transfer.chunks.len() as u64,
                        data: transfer.chunks[next],
                    },
                    transfer: TransferView {
                        peer_id: transfer.peer_id,
                        filename: transfer.filename,
                        chunks: transfer.chunks,
                        next_chunk: next,
                        respond_to: transfer.respond_to,
                    },
                })
            } else {
                action == (ActionView::Finish { respond_to: transfer.respond_to, result: Ok(()) })
            }
        }),
        position(chunk_index) == chunk_index,
{
}

/// Whoever awaits a transfer that failed learns why: in the words of the peer, where
/// it gave a reason, and otherwise that its answer was not expected.
pub proof fn law_failed_transfer_tells_why(
    transfer: TransferView,
    text: Seq<char>,
    name: Seq<char>,
)
    ensures
        transfer_after(transfer, ResponseView::Error(text)) == (ActionView::Finish {
            respond_to: transfer.respond_to,
            result: Err(text),
        }),
        transfer_after(transfer, ResponseView::Pong { peer_id: text, name }) == (
        ActionView::Finish {
            respond_to: transfer.respond_to,
            result: Err("Unexpected response"@),
        }),
{
}

/// Sending a file starts with its first bytes, as many as a chunk holds or all of
/// them, as chunk zero of all its chunks, under the name it was asked for by and to
/// the peer that was named. A file of no bytes has been sent at once, and where the
/// file could not be read or opened nothing is sent and the reason is given.
pub proof fn law_sending_starts_at_the_start(
    key: Seq<u8>,
    peer_id: Seq<char>,
    filename: Seq<char>,
    respond_to: u64,
    stored: Seq<u8>,
    text: Seq<char>,
)
    ensures
        transfer_start(key, peer_id, filename, respond_to, Err(text)) == (ActionView::Finish {
            respond_to,
            result: Err("Read failed: "@ + text),
        }),
        ({
            let start = transfer_start(key, peer_id, filename, respond_to, Ok(stored));
            match opened(key, stored) {
                Err(OpenError::TooShort) => start == (ActionView::Finish {
                    respond_to,
                    result: Err("File too short"@),
                }),
                Err(OpenError::Refused) => start == (ActionView::Finish {
                    respond_to,
                    result: Err("Decryption failed: Error"@),
                }),
                Ok(data) => if data.len() == 0 {
                    start == (ActionView::Finish { respond_to, result: Ok(()) })
                } else {
                    &&& start is Send
                    &&& start->request == (RequestView::SendFile {
                        filename,
                        chunk_index: 0,
                        total_chunks: chunks(data).len() as u64,
                        data: if data.len() <= 262144 {
                            data
                        } else {
                            data.take(262144)
                        },
                    })
                    &&& start->transfer == (TransferView {
                        peer_id,
                        filename,
                        chunks: chunks(data),
                        next_chunk: 0,
                        respond_to,
                    })
                },
            }
        }),
{
    if let Ok(data) = opened(key, stored) {
        if data.len() > 0 {
            assert(chunks(data)[0] =~= if data.len() <= 262144 {
                data
            } else {
                data.take(262144)
            });
        }
    }
}

/// An answer goes to whoever awaits it, as it came, and to the transfer that waits for
/// it; where nobody waits it goes to nobody, and where no transfer does none goes on.
pub proof fn law_answers_reach_those_who_wait(
    transfers: Map<u64, OutgoingTransfer>,
    pending: Map<u64, u64>,
    request_id: u64,
    response: ResponseView,
)
    ensures
        pending.contains_key(request_id) ==> forwarded(pending, request_id, response) == Some(
            (pending[request_id], response),
        ),
        !pending.contains_key(request_id) ==> forwarded(pending, request_id, response) is None,
        transfers.contains_key(request_id) ==> action_after(transfers, request_id, response)
            == transfer_after(transfers[request_id]@, response),
        !transfers.contains_key(request_id) ==> action_after(transfers, request_id, response)
            is Idle,
{
}

/// What is seen of transfers, of actions and of what was read is all of them.
pub proof fn law_transfers_are_seen_as_they_are(
    transfer: OutgoingTransfer,
    request: NearShareRequest,
    response: NearShareResponse,
    number: u64,
    text: String,
    bytes: Vec<u8>,
)
    ensures
        transfer@.peer_id == transfer.peer_id@,
        transfer@.filename == transfer.filename@,
        transfer@.chunks == Seq::new(transfer.chunks@.len(), |i: int| transfer.chunks@[i]@),
        transfer@.next_chunk == transfer.next_chunk,
        transfer@.respond_to == transfer.respond_to,
        TransferAction::Idle@ is Idle,
        (TransferAction::Finish { respond_to: number, result: Ok(()) })@ == (ActionView::Finish {
            respond_to: number,
            result: Ok(()),
        }),
        (TransferAction::Finish { respond_to: number, result: Err(text) })@ == (
        ActionView::Finish { respond_to: number, result: Err(text@) }),
        (TransferAction::Send { request, transfer })@ == (ActionView::Send {
            request: request@,
            transfer: transfer@,
        }),
        forward_view(Some((number, response))) == Some((number, response@)),
        forward_view(None) is None,
        read_view(Ok(bytes)) == Ok::<Seq<u8>, Seq<char>>(bytes@),
        read_view(Err(text)) == Err::<Seq<u8>, Seq<char>>(text@),
{
    assert(transfer@.chunks =~= Seq::new(
        transfer.chunks@.len(),
        |i: int| transfer.chunks@[i]@,
    ));
}

/// What a command reads and what it starts with: the upload of the name it holds, and,
/// where that opens to some bytes, the first of them under that name to the peer that
/// the command names.
pub proof fn law_command_sends_the_upload_it_names(
    node: P2PNode,
    peer_id: String,
    filename: String,
    respond_to: u64,
    stored: Vec<u8>,
    path: String,
    action: TransferAction,
)
    requires
        call_ensures(
            P2PCommand::file_path,
            (&P2PCommand::SendFile { peer_id, filename, respond_to },),
            path,
        ),
        call_ensures(
            P2PNode::handle_command,
            (&node, P2PCommand::SendFile { peer_id, filename, respond_to }, Ok(stored)),
            action,
        ),
    ensures
        path@ == "uploads/"@ + filename@,
        opened(node.cipher@, stored@) matches Ok(data) ==> {
            &&& data.len() > 0 ==> (action matches TransferAction::Send { request, transfer }
                && transfer.peer_id@ == peer_id@ && transfer.filename@ == filename@ && request@
                == (RequestView::SendFile {
                filename: filename@,
                chunk_index: 0,
                total_chunks: chunks(data).len() as u64,
                data: if data.len() <= 262144 {
                    data
                } else {
                    data.take(262144)
                },
            }))
            &&& data.len() == 0 ==> (action matches TransferAction::Finish {
                respond_to: number,
                result,
            } && number == respond_to && result is Ok)
        },
{
    law_sending_starts_at_the_start(
        node.cipher@,
        peer_id@,
        filename@,
        respond_to,
        stored@,
        seq![],
    );
}

/// A node and its handle are made together and say the same; the node sends nothing
/// yet and awaits nothing.
pub proof fn law_node_is_made_with_its_handle(
    local_peer_id: String,
    name: String,
    cipher: EncryptionKey,
    peers: Arc<RwLock<PeerTable>>,
    made: (P2PNode, P2PHandle),
)
    requires
        call_ensures(P2PNode::new, (local_peer_id, name, cipher, peers), made),
    ensures
        made.1.local_peer_id@ == local_peer_id@ && made.1.name@ == name@ && made.1.peers == peers,
        made.0.handle.local_peer_id@ == local_peer_id@ && made.0.handle.name@ == name@,
        made.0.handle.peers == peers,
        made.0.cipher@ == cipher@,
        forall|id: u64| !(#[trigger] made.0.pending_responses@.contains_key(id)),
        forall|id: u64| !(#[trigger] made.0.outgoing_transfers@.contains_key(id)),
{
}

/// A transfer that is tracked under a number goes on when that number is answered: the
/// chunk behind the one that was taken is sent, or the transfer has ended where there is
/// none; and it is tracked under that number no longer.
pub proof fn law_tracked_transfer_goes_on_when_answered(
    node: &mut P2PNode,
    request_id: u64,
    transfer: OutgoingTransfer,
    after: &mut P2PNode,
    chunk_index: u64,
    outcome: ResponseOutcome,
)
    requires
        call_ensures(P2PNode::track, (node, request_id, transfer), ()),
        *after == *final(node),
        chunk_index < usize::MAX,
        call_ensures(
            P2PNode::handle_response,
            (after, request_id, NearShareResponse::FileChunkAck { chunk_index }),
            outcome,
        ),
    ensures
        chunk_index + 1 < transfer.chunks@.len() ==> (outcome.transfer matches
            TransferAction::Send { request, transfer: next } && next.peer_id@ == transfer.peer_id@
            && next.filename@ == transfer.filename@ && next.next_chunk == chunk_index + 1
            && next.respond_to == transfer.respond_to && request@ == (RequestView::SendFile {
            filename: transfer.filename@,
            chunk_index: (chunk_index + 1) as u64,
            total_chunks: transfer.chunks@.len() as u64,
            data: transfer.chunks@[chunk_index + 1]@,
        })),
        chunk_index + 1 >= transfer.chunks@.len() ==> (outcome.transfer matches
            TransferAction::Finish { respond_to, result } && respond_to == transfer.respond_to
            && result is Ok),
        !final(after).outgoing_transfers@.contains_key(request_id),
{
    assert(transfer@.chunks.len() == transfer.chunks@.len());
    if chunk_index + 1 < transfer.chunks@.len() {
        assert(transfer@.chunks[chunk_index + 1] == transfer.chunks@[chunk_index + 1]@);
    }
}

/// A request that was never answered ends the transfer that waited for it, with the
/// reason, and whoever awaited the answer learns the same reason.
pub proof fn law_unanswered_request_ends_the_transfer(
    node: &mut P2PNode,
    request_id: u64,
    error: String,
    outcome: ResponseOutcome,
)
    requires
        call_ensures(P2PNode::handle_outbound_failure, (node, request_id, error), outcome),
    ensures
        old(node).outgoing_transfers@.contains_key(request_id) ==> (outcome.transfer matches
            TransferAction::Finish { respond_to, result } && respond_to
            == old(node).outgoing_transfers@[request_id].respond_to && (result matches Err(why)
            && why@ == error@)),
        !old(node).outgoing_transfers@.contains_key(request_id) ==> outcome.transfer is Idle,
        old(node).pending_responses@.contains_key(request_id) ==> (outcome.forward matches Some(
            forward,
        ) && forward.0 == old(node).pending_responses@[request_id] && forward.1@
            == ResponseView::Error(error@)),
        !old(node).pending_responses@.contains_key(request_id) ==> outcome.forward is None,
        final(node).outgoing_transfers@ == old(node).outgoing_transfers@.remove(request_id),
        final(node).pending_responses@ == old(node).pending_responses@.remove(request_id),
{
}

} // verus!
