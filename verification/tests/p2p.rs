use std::sync::Arc;

use nearshare::cipher::{open, seal, EncryptionKey, OpenError};
use nearshare::handlers::peers::{
    get_peer_id, incoming_found, list_incoming, list_peers, order_for, send_file_to_peer, sent,
    SendOrder,
};
use nearshare::models::{PeerIdResponse, SendResult};
use nearshare::p2p::chunks::split_chunks;
use nearshare::p2p::events::{SwarmAction, SwarmEvent};
use nearshare::p2p::incoming::IncomingScan;
use nearshare::p2p::node::{
    start_sending, OutgoingTransfer, P2PCommand, P2PHandle, P2PNode, ResponseOutcome,
    TransferAction,
};
use nearshare::p2p::peers::PeerTable;
use nearshare::p2p::protocol::{
    IncomingFile, NearShareRequest, NearShareResponse, PeerInfo, CHUNK_SIZE, PROTOCOL,
};
use nearshare::p2p::receive::{ChunkReceipt, ReceiveStep, RequestAction};
use nearshare::reply::{Body, Reply, Status};
use nearshare::sessions::Sessions;
use tokio::sync::RwLock;

const HEADER: Option<&[u8]> = Some(b"Bearer token");

fn key(byte: u8) -> EncryptionKey {
    EncryptionKey::new([byte; 32])
}

fn node_and_handle(byte: u8) -> (P2PNode, P2PHandle) {
    let peers = Arc::new(RwLock::new(PeerTable::new()));
    P2PNode::new("local-node".to_string(), "me".to_string(), key(byte), peers)
}

fn node(byte: u8) -> P2PNode {
    node_and_handle(byte).0
}

fn sessions() -> Sessions {
    let mut sessions = Sessions::new();
    sessions.insert("token".to_string(), "admin".to_string());
    sessions
}

fn some(text: &str) -> Option<String> {
    Some(text.to_string())
}

fn text(status: Status, text: &str) -> Reply {
    Reply { status, body: Body::Text(text.to_string()) }
}

fn transfer(pieces: Vec<Vec<u8>>) -> OutgoingTransfer {
    OutgoingTransfer {
        peer_id: "peer".to_string(),
        filename: "f".to_string(),
        chunks: pieces,
        next_chunk: 0,
        respond_to: 8,
    }
}

fn chunk_of(chunk_index: u64, total_chunks: u64) -> ChunkReceipt {
    ChunkReceipt {
        peer: "peer".to_string(),
        filename: "a/f".to_string(),
        chunk_index,
        total_chunks,
        data: vec![1, 2],
    }
}

fn failed(text: &str) -> Result<(), String> {
    Err(text.to_string())
}

fn error(text: &str) -> ReceiveStep {
    ReceiveStep::Respond(NearShareResponse::Error(text.to_string()))
}

#[test]
fn files_are_cut_at_the_chunk_size() {
    assert_eq!(CHUNK_SIZE, 256 * 1024);
    assert_eq!(PROTOCOL, "/nearshare/1.0.0");
    for len in [0, 1, CHUNK_SIZE - 1, CHUNK_SIZE, CHUNK_SIZE + 1, 3 * CHUNK_SIZE] {
        let data: Vec<u8> = (0..len).map(|i| (i % 253) as u8).collect();
        let expected: Vec<Vec<u8>> = data.chunks(CHUNK_SIZE).map(|c| c.to_vec()).collect();
        let pieces = split_chunks(&data);
        assert_eq!(pieces, expected);
        assert_eq!(pieces.concat(), data);
    }
}

#[test]
fn commands_read_the_upload() {
    let command = P2PCommand::SendFile {
        peer_id: "peer".to_string(),
        filename: "a/f".to_string(),
        respond_to: 1,
    };
    assert_eq!(command.file_path(), "uploads/a/f");
}

#[test]
fn commands_that_fail_say_so() {
    let run = |read: Result<Vec<u8>, String>| {
        let command = P2PCommand::SendFile {
            peer_id: "peer".to_string(),
            filename: "f".to_string(),
            respond_to: 5,
        };
        node(1).handle_command(command, read)
    };
    let finish = |result| TransferAction::Finish { respond_to: 5, result };
    assert_eq!(run(Err("gone".to_string())), finish(failed("Read failed: gone")));
    assert_eq!(run(Ok(vec![0; 11])), finish(failed("File too short")));
    assert_eq!(run(Ok(vec![0; 40])), finish(failed("Decryption failed: Error")));
    let empty = seal(&key(1), &[0; 12], &[]).unwrap();
    assert_eq!(run(Ok(empty)), finish(Ok(())));
}

#[test]
fn sending_starts_with_the_first_chunk() {
    let data = vec![3; CHUNK_SIZE + 1];
    let action = start_sending("peer".to_string(), "f".to_string(), 8, Ok(data));
    let pieces = vec![vec![3; CHUNK_SIZE], vec![3]];
    let request = NearShareRequest::SendFile {
        filename: "f".to_string(),
        chunk_index: 0,
        total_chunks: 2,
        data: vec![3; CHUNK_SIZE],
    };
    assert_eq!(action, TransferAction::Send { request, transfer: transfer(pieces) });
    let refused = start_sending("p".to_string(), "f".to_string(), 1, Err(OpenError::TooShort));
    let result = failed("File too short");
    assert_eq!(refused, TransferAction::Finish { respond_to: 1, result });
}

#[test]
fn acknowledged_chunks_are_followed_by_the_next() {
    let mut node = node(1);
    node.track(7, transfer(vec![vec![1], vec![2]]));
    let ack = NearShareResponse::FileChunkAck { chunk_index: 0 };
    let outcome = node.handle_response(7, ack);
    let request = NearShareRequest::SendFile {
        filename: "f".to_string(),
        chunk_index: 1,
        total_chunks: 2,
        data: vec![2],
    };
    let mut moved = transfer(vec![vec![1], vec![2]]);
    moved.next_chunk = 1;
    let action = TransferAction::Send { request, transfer: moved };
    assert_eq!(outcome, ResponseOutcome { forward: None, transfer: action });
    assert!(node.outgoing_transfers.is_empty());

    node.track(9, transfer(vec![vec![1], vec![2]]));
    let ack = NearShareResponse::FileChunkAck { chunk_index: 1 };
    let outcome = node.handle_response(9, ack);
    assert_eq!(outcome.transfer, TransferAction::Finish { respond_to: 8, result: Ok(()) });
}

#[test]
fn other_answers_end_the_transfer() {
    let mut node = node(1);
    node.track(1, transfer(vec![vec![1]]));
    let outcome = node.handle_response(1, NearShareResponse::Error("full".to_string()));
    assert_eq!(outcome.transfer, TransferAction::Finish { respond_to: 8, result: failed("full") });
    node.track(2, transfer(vec![vec![1]]));
    let pong = NearShareResponse::Pong { peer_id: "p".to_string(), name: "n".to_string() };
    let outcome = node.handle_response(2, pong);
    let result = failed("Unexpected response");
    assert_eq!(outcome.transfer, TransferAction::Finish { respond_to: 8, result });
}

#[test]
fn answers_nobody_waits_for_are_dropped() {
    let mut node = node(1);
    node.track(1, transfer(vec![vec![1]]));
    let outcome = node.handle_response(2, NearShareResponse::FileChunkAck { chunk_index: 0 });
    assert_eq!(outcome, ResponseOutcome { forward: None, transfer: TransferAction::Idle });
    assert_eq!(node.outgoing_transfers.len(), 1);
}

#[test]
fn awaited_answers_are_forwarded() {
    let mut node = node(1);
    node.pending_responses.insert(4, 40);
    let ack = NearShareResponse::FileChunkAck { chunk_index: 6 };
    let outcome = node.handle_response(4, ack.clone());
    assert_eq!(outcome.forward, Some((40, ack)));
    assert!(node.pending_responses.is_empty());
}

#[test]
fn failed_requests_end_the_transfer() {
    let mut node = node(1);
    node.track(3, transfer(vec![vec![1]]));
    node.pending_responses.insert(3, 30);
    let outcome = node.handle_outbound_failure(3, "Timeout".to_string());
    let forward = Some((30, NearShareResponse::Error("Timeout".to_string())));
    let transfer = TransferAction::Finish { respond_to: 8, result: failed("Timeout") };
    assert_eq!(outcome, ResponseOutcome { forward, transfer });
    assert!(node.outgoing_transfers.is_empty() && node.pending_responses.is_empty());
    let outcome = node.handle_outbound_failure(3, "Timeout".to_string());
    assert_eq!(outcome, ResponseOutcome { forward: None, transfer: TransferAction::Idle });
}

#[test]
fn pings_are_answered() {
    let action = node(1).handle_request("peer".to_string(), NearShareRequest::Ping);
    let pong = NearShareResponse::Pong {
        peer_id: "local-node".to_string(),
        name: "me".to_string(),
    };
    assert_eq!(action, RequestAction::Respond(pong));
}

#[test]
fn chunks_are_gathered() {
    let request = NearShareRequest::SendFile {
        filename: "a/f".to_string(),
        chunk_index: 0,
        total_chunks: 2,
        data: vec![1, 2],
    };
    let action = node(1).handle_request("peer".to_string(), request.clone());
    assert_eq!(action, RequestAction::Receive(chunk_of(0, 2)));
    let chunk = chunk_of(0, 2);
    assert_eq!(chunk.temp_dir(), "uploads/incoming/.tmp/peer");
    let path = "uploads/incoming/.tmp/peer/a/f".to_string();
    let write = ReceiveStep::WriteChunk { path: path.clone(), first: true };
    assert_eq!(chunk.dir_created(Ok(())), write);
    let write = ReceiveStep::WriteChunk { path: path.clone(), first: false };
    assert_eq!(chunk_of(1, 2).dir_created(Ok(())), write);
    let ack = ReceiveStep::Respond(NearShareResponse::FileChunkAck { chunk_index: 0 });
    assert_eq!(chunk.chunk_written(Ok(())), ack);
    assert_eq!(chunk_of(1, 2).chunk_written(Ok(())), ReceiveStep::ReadBack { path });
}

#[test]
fn whole_files_are_stored_encrypted() {
    let chunk = chunk_of(1, 2);
    let step = chunk.read_back_with(&key(6), &[2; 12], Ok(vec![9, 8]));
    let stored = seal(&key(6), &[2; 12], &[9, 8]).unwrap();
    let expected = ReceiveStep::Store {
        path: "uploads/incoming/peer/a/f".to_string(),
        data: stored,
        temp_path: "uploads/incoming/.tmp/peer/a/f".to_string(),
    };
    assert_eq!(step, expected);
    match chunk.read_back(&key(6), Ok(vec![9, 8])) {
        ReceiveStep::Store { data, .. } => {
            assert_eq!(data.len(), 12 + 2 + 16);
            assert_eq!(open(&key(6), &data), Ok(vec![9, 8]));
        }
        other => panic!("{other:?}"),
    }
    let ack = ReceiveStep::Respond(NearShareResponse::FileChunkAck { chunk_index: 1 });
    assert_eq!(chunk.stored(Ok(())), ack);
}

#[test]
fn chunks_that_fail_say_so() {
    let chunk = chunk_of(0, 1);
    assert_eq!(chunk.dir_created(failed("no")), error("Dir creation failed: no"));
    assert_eq!(chunk.chunk_written(failed("no")), error("Write failed: no"));
    assert_eq!(chunk.read_back(&key(1), Err("no".to_string())), error("Encrypt failed: no"));
    assert_eq!(chunk.sealed(None), error("Encrypt failed: Error"));
    assert_eq!(chunk.stored(failed("no")), error("Encrypt failed: no"));
}

#[test]
fn numbered_pieces_are_gathered() {
    let receiver = node(2);
    let mut file = vec![7, 7, 7];
    let pieces: [&[u8]; 4] = [&[1], &[2, 3, 4], &[], &[5, 6]];
    for (i, piece) in pieces.iter().enumerate() {
        let request = NearShareRequest::SendFile {
            filename: "f".to_string(),
            chunk_index: i as u64,
            total_chunks: 4,
            data: piece.to_vec(),
        };
        let chunk = match receiver.handle_request("sender".to_string(), request) {
            RequestAction::Receive(chunk) => chunk,
            other => panic!("{other:?}"),
        };
        match chunk.dir_created(Ok(())) {
            ReceiveStep::WriteChunk { first, .. } => {
                if first {
                    file.clear();
                }
                file.extend_from_slice(&chunk.data);
            }
            other => panic!("{other:?}"),
        }
    }
    assert_eq!(file, [1, 2, 3, 4, 5, 6]);
}

#[test]
fn uploaded_files_are_delivered() {
    let data: Vec<u8> = (0..2 * CHUNK_SIZE + 5).map(|i| (i % 249) as u8).collect();
    let stored = seal(&key(1), &[1; 12], &data).unwrap();
    let mut sender = node(1);
    let receiver = node(2);
    let command = P2PCommand::SendFile {
        peer_id: "receiver".to_string(),
        filename: "f".to_string(),
        respond_to: 77,
    };
    let mut action = sender.handle_command(command, Ok(stored));
    let mut file = Vec::new();
    let mut incoming = Vec::new();
    let mut request_id = 0;
    while let TransferAction::Send { request, transfer } = action {
        request_id += 1;
        sender.track(request_id, transfer);
        let chunk = match receiver.handle_request("sender".to_string(), request) {
            RequestAction::Receive(chunk) => chunk,
            other => panic!("{other:?}"),
        };
        let mut step = chunk.dir_created(Ok(()));
        let response = loop {
            step = match step {
                ReceiveStep::WriteChunk { first, .. } => {
                    if first {
                        file.clear();
                    }
                    file.extend_from_slice(&chunk.data);
                    chunk.chunk_written(Ok(()))
                }
                ReceiveStep::ReadBack { .. } => chunk.read_back(&key(2), Ok(file.clone())),
                ReceiveStep::Store { path, data, .. } => {
                    assert_eq!(path, "uploads/incoming/sender/f");
                    incoming = data;
                    chunk.stored(Ok(()))
                }
                ReceiveStep::Respond(response) => break response,
            };
        };
        action = sender.handle_response(request_id, response).transfer;
    }
    assert_eq!(request_id, 3);
    assert_eq!(action, TransferAction::Finish { respond_to: 77, result: Ok(()) });
    assert_eq!(open(&key(2), &incoming), Ok(data));
}

#[test]
fn handles_share_the_table_of_their_node() {
    let (mut node, handle) = node_and_handle(1);
    let copy = handle.clone();
    assert_eq!((copy.local_peer_id.as_str(), copy.name.as_str()), ("local-node", "me"));
    assert!(node.outgoing_transfers.is_empty() && node.pending_responses.is_empty());
    assert!(handle.peers.blocking_read().list_peers().is_empty());
    let pong = NearShareResponse::Pong {
        peer_id: handle.local_peer_id.clone(),
        name: handle.name.clone(),
    };
    let action = node.handle_request("peer".to_string(), NearShareRequest::Ping);
    assert_eq!(action, RequestAction::Respond(pong));
    let table = node.handle.peers.clone();
    let seen = |id: &str| SwarmEvent::Discovered(vec![(id.to_string(), "at".to_string())]);
    for event in [
        seen("first-peer"),
        seen("second-peer"),
        SwarmEvent::Other,
        SwarmEvent::Expired(vec!["first-peer".to_string()]),
        seen("local-node"),
    ] {
        node.handle_swarm_event(&mut table.blocking_write(), event);
    }
    let expected = vec![PeerInfo::discovered("second-peer".to_string(), "at".to_string())];
    assert_eq!(handle.peers.blocking_read().list_peers(), expected);
    assert_eq!(copy.peers.blocking_read().list_peers(), expected);
}

#[test]
fn peers_come_and_go() {
    let mut peers = PeerTable::new();
    let mut node = node(1);
    let seen = |id: &str, at: &str| (id.to_string(), at.to_string());
    let event = SwarmEvent::Discovered(vec![
        seen("abcdefghij", "one"),
        seen("local-node", "here"),
        seen("12345678", "two"),
        seen("abcdefghij", "three"),
    ]);
    let action = node.handle_swarm_event(&mut peers, event);
    let dial = vec![
        seen("abcdefghij", "one"),
        seen("12345678", "two"),
        seen("abcdefghij", "three"),
    ];
    assert_eq!(action, SwarmAction::Dial(dial));
    let mut list = peers.list_peers();
    list.sort_by(|a, b| a.peer_id.cmp(&b.peer_id));
    let expected = vec![
        PeerInfo {
            peer_id: "12345678".to_string(),
            name: "Peer 12345678".to_string(),
            addresses: vec!["two".to_string()],
        },
        PeerInfo {
            peer_id: "abcdefghij".to_string(),
            name: "Peer abcdefgh".to_string(),
            addresses: vec!["three".to_string()],
        },
    ];
    assert_eq!(list, expected);

    let gone = vec!["12345678".to_string(), "unknown".to_string()];
    let action = node.handle_swarm_event(&mut peers, SwarmEvent::Expired(gone));
    assert_eq!(action, SwarmAction::Nothing);
    assert_eq!(peers.list_peers(), expected[1..].to_vec());
    peers.insert(expected[0].clone());
    peers.remove("abcdefghij");
    assert_eq!(peers.list_peers(), expected[..1].to_vec());
}

#[test]
fn expiry_undoes_discovery() {
    let mut peers = PeerTable::new();
    let known = PeerInfo::discovered("known-peer".to_string(), "zero".to_string());
    peers.insert(known.clone());
    let seen = vec![
        ("abcdefgh".to_string(), "one".to_string()),
        ("12345678".to_string(), "two".to_string()),
    ];
    peers.discovered("local-node", &seen);
    assert_eq!(peers.list_peers().len(), 3);
    peers.expired(&vec!["12345678".to_string(), "abcdefgh".to_string()]);
    assert_eq!(peers.list_peers(), vec![known]);
}

#[test]
fn events_are_passed_on() {
    let mut peers = PeerTable::new();
    let mut node = node(1);
    let event = SwarmEvent::Request {
        peer: "peer".to_string(),
        request: NearShareRequest::Ping,
    };
    let served = node.handle_swarm_event(&mut peers, event);
    assert!(matches!(served, SwarmAction::Serve(RequestAction::Respond(_))));
    node.track(1, transfer(vec![vec![1]]));
    let event = SwarmEvent::Response {
        request_id: 1,
        response: NearShareResponse::FileChunkAck { chunk_index: 0 },
    };
    let outcome = ResponseOutcome {
        forward: None,
        transfer: TransferAction::Finish { respond_to: 8, result: Ok(()) },
    };
    assert_eq!(node.handle_swarm_event(&mut peers, event), SwarmAction::Deliver(outcome));
    node.track(2, transfer(vec![vec![1]]));
    let event = SwarmEvent::OutboundFailure { request_id: 2, error: "lost".to_string() };
    let outcome = ResponseOutcome {
        forward: None,
        transfer: TransferAction::Finish { respond_to: 8, result: failed("lost") },
    };
    assert_eq!(node.handle_swarm_event(&mut peers, event), SwarmAction::Deliver(outcome));
    let other = node.handle_swarm_event(&mut peers, SwarmEvent::Other);
    assert_eq!(other, SwarmAction::Nothing);
}

#[test]
fn nodes_tell_who_they_are() {
    let body = Body::Identity(PeerIdResponse {
        peer_id: "local-node".to_string(),
        name: "me".to_string(),
    });
    assert_eq!(get_peer_id(&node(1).handle), Reply { status: Status::Success, body });
}

#[test]
fn peers_are_listed_to_users() {
    let mut peers = PeerTable::new();
    let info = PeerInfo::discovered("abcdefgh".to_string(), "at".to_string());
    peers.insert(info.clone());
    let refusal = Reply { status: Status::Unauthorized, body: Body::Empty };
    assert_eq!(list_peers(None, &sessions(), &peers), refusal);
    let listed = Reply { status: Status::Success, body: Body::Peers(vec![info]) };
    assert_eq!(list_peers(HEADER, &sessions(), &peers), listed);
}

#[test]
fn orders_need_a_readable_peer() {
    let id = libp2p::identity::Keypair::generate_ed25519().public().to_peer_id().to_string();
    let order = send_file_to_peer(HEADER, &sessions(), Some(id.clone()), some("f")).unwrap();
    assert_eq!(order, SendOrder { peer_id: id.clone(), filename: "f".to_string() });
    let command = P2PCommand::SendFile {
        peer_id: id.clone(),
        filename: "f".to_string(),
        respond_to: 3,
    };
    assert_eq!(order.command(3), command);
    let invalid = text(Status::BadRequest, "Invalid peer ID");
    for wrong in ["peer", "0OIl", "12D3KooW", &id[1..]] {
        let result = send_file_to_peer(HEADER, &sessions(), some(wrong), some("f"));
        assert_eq!(result.unwrap_err(), invalid);
    }
    let missing = text(Status::BadRequest, "Missing peer_id or path parameter");
    for (peer_id, path) in [(None, some("f")), (Some(id.clone()), None), (some(""), some(""))] {
        let result = send_file_to_peer(HEADER, &sessions(), peer_id, path);
        assert_eq!(result.unwrap_err(), missing);
    }
    let refusal = Reply { status: Status::Unauthorized, body: Body::Empty };
    let refused = send_file_to_peer(None, &sessions(), Some(id), some("f"));
    assert_eq!(refused.unwrap_err(), refusal);
    let unread = order_for("p".to_string(), "f".to_string(), false);
    assert_eq!(unread.unwrap_err(), invalid);
}

#[test]
fn sending_is_answered() {
    let body = Body::Sent(SendResult { status: "sent".to_string() });
    assert_eq!(sent(Ok(())), Reply { status: Status::Success, body });
    let reply = text(Status::InternalServerError, "Send failed: full");
    assert_eq!(sent(failed("full")), reply);
}

#[test]
fn incoming_files_are_listed_in_order() {
    let refusal = Reply { status: Status::Unauthorized, body: Body::Empty };
    assert_eq!(list_incoming(None, &sessions()).unwrap_err(), refusal);
    let mut scan = list_incoming(HEADER, &sessions()).unwrap();
    assert!(!scan.top_entry("stray".to_string(), false, 9));
    assert_eq!(scan, IncomingScan::new());
    assert!(scan.top_entry("one".to_string(), true, 0));
    assert_eq!(scan.next_dir(), Some(0));
    assert!(!scan.entry_below(false, 1));
    scan.add_file("b".to_string(), 1);
    assert!(scan.entry_below(true, 1));
    assert!(scan.entry_below(true, 2));
    assert_eq!(scan.next_dir(), Some(2));
    scan.add_file("z/a".to_string(), 2);
    assert_eq!(scan.next_dir(), Some(1));
    assert_eq!(scan.next_dir(), None);
    assert!(!scan.top_entry("stray".to_string(), false, 3));
    assert_eq!(scan.peer, "one");
    assert!(scan.top_entry("two".to_string(), true, 3));
    assert_eq!(scan.next_dir(), Some(3));
    scan.add_file("b".to_string(), 3);
    scan.add_file("a".to_string(), 4);
    let file = |from_peer: &str, filename: &str, size: u64| IncomingFile {
        from_peer: from_peer.to_string(),
        filename: filename.to_string(),
        size,
    };
    let expected =
        vec![file("two", "a", 4), file("one", "b", 1), file("two", "b", 3), file("one", "z/a", 2)];
    let found = scan.finish();
    assert_eq!(found, expected);
    assert_eq!(found[0].clone(), expected[0]);
    let reply = Reply { status: Status::Success, body: Body::Incoming(expected) };
    assert_eq!(incoming_found(Ok(found)), reply);
    let reply = text(Status::InternalServerError, "Failed to list incoming: no");
    assert_eq!(incoming_found(Err("no".to_string())), reply);
    assert!(IncomingScan::new().finish().is_empty());
}
