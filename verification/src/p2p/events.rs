//! What a node does when something happens on the network.
use super::node::{
    action_after, forward_view, forwarded, position, transfer_after, P2PHandle, P2PNode,
    ResponseOutcome,
};
use super::peers::{
    after_discovery, is_listing, law_node_does_not_list_itself, law_seen_peers_are_listed, nameable, sightings, to_dial,
    PeerTable,
};
use super::protocol::{
    NearShareRequest, NearShareResponse, PeerView, RequestView, ResponseView,
};
use super::receive::{request_action, RequestAction, RequestActionView};
use crate::text::texts;
use vstd::prelude::*;

verus! {

/// Something that happened on the network.
#[derive(Debug, PartialEq, Eq)]
pub enum SwarmEvent {
    /// Peers were seen, each at an address.
    Discovered(Vec<(String, String)>),
    /// Peers have not been seen for too long.
    Expired(Vec<String>),
    /// A peer made a request.
    Request { peer: String, request: NearShareRequest },
    /// A request was answered.
    Response { request_id: u64, response: NearShareResponse },
    /// A request will not be answered, with the text of the error.
    OutboundFailure { request_id: u64, error: String },
    /// Anything that calls for nothing.
    Other,
}

/// What an event calls for.
#[derive(Debug, PartialEq, Eq)]
pub enum SwarmAction {
    Nothing,
    /// Dial the peers, each at its address.
    Dial(Vec<(String, String)>),
    /// Serve the request.
    Serve(RequestAction),
    /// Pass on the answer and go on with the transfer.
    Deliver(ResponseOutcome),
}

/// Whether an answer went to whoever awaits it and to the transfer that waits for
/// it, and neither waits any longer.
pub open spec fn delivered(
    before: P2PNode,
    after: P2PNode,
    request_id: u64,
    response: ResponseView,
    outcome: ResponseOutcome,
) -> bool {
    &&& forward_view(outcome.forward) == forwarded(
        before.pending_responses@,
        request_id,
        response,
    )
    &&& outcome.transfer@ == action_after(before.outgoing_transfers@, request_id, response)
    &&& after.pending_responses@ == before.pending_responses@.remove(request_id)
    &&& after.outgoing_transfers@ == before.outgoing_transfers@.remove(request_id)
}

/// Whether a node can take in an event.
pub open spec fn acceptable(node: P2PNode, event: SwarmEvent) -> bool {
    match event {
        SwarmEvent::Discovered(list) => forall|i: int|
            0 <= i < list@.len() && (#[trigger] list@[i]).0@ != node.handle.local_peer_id@
                ==> nameable(list@[i].0@),
        SwarmEvent::Response { request_id, response } => {
            node.outgoing_transfers@.contains_key(request_id) ==> (response@ matches
                ResponseView::FileChunkAck { chunk_index } ==> position(chunk_index) < usize::MAX)
        },
        _ => true,
    }
}

/// The peers around after an event: sightings add peers, their expiry takes them
/// away, and nothing else changes them.
pub open spec fn peers_after(
    peers: Map<Seq<char>, PeerView>,
    local: Seq<char>,
    event: SwarmEvent,
) -> Map<Seq<char>, PeerView> {
    match event {
        SwarmEvent::Discovered(list) => after_discovery(peers, local, sightings(list@)),
        SwarmEvent::Expired(list) => peers.remove_keys(texts(list@).to_set()),
        _ => peers,
    }
}

/// Whether the transfers and awaited answers of a node are as before.
pub open spec fn transfers_kept(before: P2PNode, after: P2PNode) -> bool {
    &&& after.pending_responses@ == before.pending_responses@
    &&& after.outgoing_transfers@ == before.outgoing_transfers@
}

impl P2PNode {
    /// Takes in an event and decides what it calls for.
    pub fn handle_swarm_event(&mut self, peers: &mut PeerTable, event: SwarmEvent) -> (action:
        SwarmAction)
        requires
            acceptable(*old(self), event),
        ensures
            final(self).handle == old(self).handle,
            final(self).cipher == old(self).cipher,
            final(peers)@ == peers_after(old(peers)@, old(self).handle.local_peer_id@, event),
            match event {
                SwarmEvent::Discovered(list) => {
                    let local = old(self).handle.local_peer_id@;
                    &&& action matches SwarmAction::Dial(dial) && sightings(dial@) == to_dial(
                        local,
                        sightings(list@),
                    )
                    &&& transfers_kept(*old(self), *final(self))
                },
                SwarmEvent::Expired(list) => {
                    &&& action is Nothing
                    &&& transfers_kept(*old(self), *final(self))
                },
                SwarmEvent::Request { peer, request } => {
                    &&& action matches SwarmAction::Serve(served) && served@ == request_action(
                        old(self).handle.local_peer_id@,
                        old(self).handle.name@,
                        peer@,
                        request@,
                    )
                    &&& transfers_kept(*old(self), *final(self))
                },
                SwarmEvent::Response { request_id, response } => {
                    &&& action matches SwarmAction::Deliver(outcome) && delivered(
                        *old(self),
                        *final(self),
                        request_id,
                        response@,
                        outcome,
                    )
                },
                SwarmEvent::OutboundFailure { request_id, error } => {
                    &&& action matches SwarmAction::Deliver(outcome) && delivered(
                        *old(self),
                        *final(self),
                        request_id,
                        ResponseView::Error(error@),
                        outcome,
                    )
                },
                SwarmEvent::Other => {
                    &&& action is Nothing
                    &&& transfers_kept(*old(self), *final(self))
                },
            },
    {
        match event {
            SwarmEvent::Discovered(list) => {
                let dial = peers.discovered(&self.handle.local_peer_id, &list);
                SwarmAction::Dial(dial)
            },
            SwarmEvent::Expired(list) => {
                peers.expired(&list);
                SwarmAction::Nothing
            },
            SwarmEvent::Request { peer, request } => SwarmAction::Serve(
                self.handle_request(peer, request),
            ),
            SwarmEvent::Response { request_id, response } => SwarmAction::Deliver(
                self.handle_response(request_id, response),
            ),
            SwarmEvent::OutboundFailure { request_id, error } => SwarmAction::Deliver(
                self.handle_outbound_failure(request_id, error),
            ),
            SwarmEvent::Other => SwarmAction::Nothing,
        }
    }
}

/// The peers around after the given events, on a node that knew none before them.
pub open spec fn peers_after_all(local: Seq<char>, events: Seq<SwarmEvent>) -> Map<
    Seq<char>,
    PeerView,
>
    decreases events.len(),
{
    if events.len() == 0 {
        Map::empty()
    } else {
        peers_after(peers_after_all(local, events.drop_last()), local, events.last())
    }
}

/// Whether a peer was seen in an event.
pub open spec fn is_sighting(event: SwarmEvent, peer_id: Seq<char>) -> bool {
    event matches SwarmEvent::Discovered(list) && exists|i: int|
        0 <= i < list@.len() && (#[trigger] list@[i]).0@ == peer_id
}

/// Whether an event says that a peer has not been seen for too long.
pub open spec fn is_expiry(event: SwarmEvent, peer_id: Seq<char>) -> bool {
    event matches SwarmEvent::Expired(list) && texts(list@).contains(peer_id)
}

/// Whether a peer other than the node itself was seen and has not expired since.
pub open spec fn is_around(
    local: Seq<char>,
    events: Seq<SwarmEvent>,
    peer_id: Seq<char>,
) -> bool {
    peer_id != local && exists|k: int|
        #![trigger events[k]]
        0 <= k < events.len() && is_sighting(events[k], peer_id) && (forall|m: int|
            k < m < events.len() ==> !is_expiry(#[trigger] events[m], peer_id))
}

/// What an event means for whether a peer is around.
proof fn lemma_peers_after(
    peers: Map<Seq<char>, PeerView>,
    local: Seq<char>,
    event: SwarmEvent,
    peer_id: Seq<char>,
)
    requires
        !peers.contains_key(local),
    ensures
        peers_after(peers, local, event).contains_key(peer_id) <==> (peer_id != local && is_sighting(
            event,
            peer_id,
        )) || (peers.contains_key(peer_id) && !is_expiry(event, peer_id)),
{
    if let SwarmEvent::Discovered(list) = event {
        let seen = sightings(list@);
        assert(forall|i: int|
            0 <= i < list@.len() ==> seen[i].0 == (#[trigger] list@[i]).0@);
        if peer_id == local {
            law_node_does_not_list_itself(peers, local, seen);
        } else {
            law_seen_peers_are_listed(peers, local, seen, peer_id);
            if is_sighting(event, peer_id) {
                let i = choose|i: int|
                    0 <= i < list@.len() && (#[trigger] list@[i]).0@ == peer_id;
                assert(seen[i].0 == peer_id);
            } else {
                assert(forall|i: int| 0 <= i < seen.len() ==> (#[trigger] seen[i]).0 == list@[i].0@);
            }
        }
    }
}

/// The peers around after the given events are those that were seen and have not
/// expired since.
proof fn lemma_peers_after_all(local: Seq<char>, events: Seq<SwarmEvent>, peer_id: Seq<char>)
    ensures
        peers_after_all(local, events).contains_key(peer_id) <==> is_around(
            local,
            events,
            peer_id,
        ),
    decreases events.len(),
{
    if events.len() > 0 {
        let before = events.drop_last();
        let last = events.len() - 1;
        lemma_peers_after_all(local, before, local);
        lemma_peers_after_all(local, before, peer_id);
        lemma_peers_after(peers_after_all(local, before), local, events.last(), peer_id);
        assert(forall|k: int| 0 <= k < before.len() ==> before[k] == #[trigger] events[k]);
        if is_around(local, events, peer_id) {
            let k = choose|k: int|
                #![trigger events[k]]
                0 <= k < events.len() && is_sighting(events[k], peer_id) && (forall|m: int|
                    k < m < events.len() ==> !is_expiry(#[trigger] events[m], peer_id));
            if k < last {
                assert(!is_expiry(events[last], peer_id));
                assert forall|m: int| k < m < before.len() implies !is_expiry(
                    #[trigger] before[m],
                    peer_id,
                ) by {
                    assert(!is_expiry(events[m], peer_id));
                }
                assert(is_sighting(before[k], peer_id));
            }
        }
        if is_around(local, before, peer_id) && !is_expiry(events.last(), peer_id) {
            let k = choose|k: int|
                #![trigger before[k]]
                0 <= k < before.len() && is_sighting(before[k], peer_id) && (forall|m: int|
                    k < m < before.len() ==> !is_expiry(#[trigger] before[m], peer_id));
            assert forall|m: int| k < m < events.len() implies !is_expiry(
                #[trigger] events[m],
                peer_id,
            ) by {
                if m < last {
                    assert(!is_expiry(before[m], peer_id));
                }
            }
            assert(is_sighting(events[k], peer_id));
        }
        if is_sighting(events.last(), peer_id) {
            assert(is_sighting(events[last], peer_id));
        }
    }
}

/// What a node discovers shows in every list made of its table later: of a table
/// that was empty when the node was made, a list shows the peers that were seen and
/// have not expired since, whatever else happened, and no others.
pub proof fn law_list_shows_what_was_discovered(
    local: Seq<char>,
    events: Seq<SwarmEvent>,
    list: Seq<PeerView>,
)
    requires
        is_listing(peers_after_all(local, events), list),
    ensures
        forall|peer_id: Seq<char>| #[trigger]
            is_around(local, events, peer_id) <==> exists|i: int|
                0 <= i < list.len() && (#[trigger] list[i]).peer_id == peer_id,
{
    assert forall|peer_id: Seq<char>| #[trigger]
        is_around(local, events, peer_id) <==> exists|i: int|
            0 <= i < list.len() && (#[trigger] list[i]).peer_id == peer_id by {
        lemma_peers_after_all(local, events, peer_id);
        if exists|i: int| 0 <= i < list.len() && (#[trigger] list[i]).peer_id == peer_id {
            let i = choose|i: int|
                0 <= i < list.len() && (#[trigger] list[i]).peer_id == peer_id;
            assert(peers_after_all(local, events).contains_key(list[i].peer_id));
        }
    }
}

/// A handle speaks for its node: the node answers a ping with the identity and the
/// name of the handle, both have the same table of peers, and a list made of that
/// table by way of the handle is empty on a new node and shows what the node has
/// discovered since.
pub proof fn law_handle_speaks_for_its_node(
    node: P2PNode,
    handle: P2PHandle,
    peer: Seq<char>,
    events: Seq<SwarmEvent>,
    list: Seq<PeerView>,
)
    requires
        node.handle == handle,
        is_listing(peers_after_all(node.handle.local_peer_id@, events), list),
    ensures
        request_action(node.handle.local_peer_id@, node.handle.name@, peer, RequestView::Ping)
            == RequestActionView::Respond(
            ResponseView::Pong { peer_id: handle.local_peer_id@, name: handle.name@ },
        ),
        node.handle.peers == handle.peers,
        events.len() == 0 ==> list.len() == 0,
        forall|peer_id: Seq<char>| #[trigger]
            is_around(handle.local_peer_id@, events, peer_id) <==> exists|i: int|
                0 <= i < list.len() && (#[trigger] list[i]).peer_id == peer_id,
{
    law_list_shows_what_was_discovered(handle.local_peer_id@, events, list);
}

/// An answer is delivered once: whoever awaited it gets it as it came, the transfer
/// that waited for it goes on or ends, neither waits any longer, and nobody else is
/// concerned.
pub proof fn law_answer_is_delivered_once(
    before: P2PNode,
    after: P2PNode,
    request_id: u64,
    response: ResponseView,
    outcome: ResponseOutcome,
    other: u64,
)
    requires
        delivered(before, after, request_id, response, outcome),
    ensures
        before.pending_responses@.contains_key(request_id) ==> (outcome.forward matches Some(
            forward,
        ) && forward.0 == before.pending_responses@[request_id] && forward.1@ == response),
        !before.pending_responses@.contains_key(request_id) ==> outcome.forward is None,
        before.outgoing_transfers@.contains_key(request_id) ==> outcome.transfer@ == transfer_after(
            before.outgoing_transfers@[request_id]@,
            response,
        ),
        !before.outgoing_transfers@.contains_key(request_id) ==> outcome.transfer is Idle,
        !after.pending_responses@.contains_key(request_id),
        !after.outgoing_transfers@.contains_key(request_id),
        other != request_id ==> (after.outgoing_transfers@.contains_key(other)
            <==> before.outgoing_transfers@.contains_key(other)),
        other != request_id && before.outgoing_transfers@.contains_key(other)
            ==> after.outgoing_transfers@[other] == before.outgoing_transfers@[other],
        other != request_id ==> (after.pending_responses@.contains_key(other)
            <==> before.pending_responses@.contains_key(other)),
        other != request_id && before.pending_responses@.contains_key(other)
            ==> after.pending_responses@[other] == before.pending_responses@[other],
{
}

/// An event that concerns no transfer leaves all of them as they are.
pub proof fn law_transfers_are_left_alone(before: P2PNode, after: P2PNode)
    requires
        transfers_kept(before, after),
    ensures
        after.pending_responses@ == before.pending_responses@,
        after.outgoing_transfers@ == before.outgoing_transfers@,
{
}

/// Sightings change what is known of the peers that were seen and of no other; their
/// expiry takes away the peers that expired and no other; nothing else that happens
/// changes what is known of any peer.
pub proof fn law_events_change_only_the_peers_they_name(
    peers: Map<Seq<char>, PeerView>,
    local: Seq<char>,
    event: SwarmEvent,
    peer_id: Seq<char>,
)
    requires
        !is_sighting(event, peer_id) || peer_id == local,
        peer_id == local ==> !peers.contains_key(local),
    ensures
        ({
            let after = peers_after(peers, local, event);
            &&& is_expiry(event, peer_id) ==> !after.contains_key(peer_id)
            &&& !is_expiry(event, peer_id) ==> (after.contains_key(peer_id)
                <==> peers.contains_key(peer_id))
            &&& after.contains_key(peer_id) ==> after[peer_id] == peers[peer_id]
        }),
        !(event is Discovered) && !(event is Expired) ==> peers_after(peers, local, event)
            == peers,
{
    if let SwarmEvent::Discovered(list) = event {
        let seen = sightings(list@);
        assert(forall|i: int|
            0 <= i < seen.len() ==> (#[trigger] seen[i]).0 == list@[i].0@);
        if peer_id == local {
            law_node_does_not_list_itself(peers, local, seen);
        } else {
            law_seen_peers_are_listed(peers, local, seen, peer_id);
        }
    }
}

/// Peers that were seen are dialed and become known, and those that expired are
/// forgotten; no transfer is touched by either, nor does the node change who it is.
pub proof fn law_sightings_reach_the_table(
    node: &mut P2PNode,
    table: &mut PeerTable,
    list: Vec<(String, String)>,
    action: SwarmAction,
    other: &mut P2PNode,
    later: &mut PeerTable,
    gone: Vec<String>,
    nothing: SwarmAction,
    peer_id: Seq<char>,
)
    requires
        acceptable(*old(node), SwarmEvent::Discovered(list)),
        call_ensures(
            P2PNode::handle_swarm_event,
            (node, table, SwarmEvent::Discovered(list)),
            action,
        ),
        call_ensures(
            P2PNode::handle_swarm_event,
            (other, later, SwarmEvent::Expired(gone)),
            nothing,
        ),
    ensures
        action matches SwarmAction::Dial(dial) && sightings(dial@) == to_dial(
            old(node).handle.local_peer_id@,
            sightings(list@),
        ),
        final(table)@ == after_discovery(
            old(table)@,
            old(node).handle.local_peer_id@,
            sightings(list@),
        ),
        final(node).handle == old(node).handle,
        final(node).outgoing_transfers@ == old(node).outgoing_transfers@,
        final(node).pending_responses@ == old(node).pending_responses@,
        nothing is Nothing,
        final(later)@.contains_key(peer_id) <==> old(later)@.contains_key(peer_id) && !texts(
            gone@,
        ).contains(peer_id),
        final(later)@.contains_key(peer_id) ==> final(later)@[peer_id] == old(later)@[peer_id],
        final(other).handle == old(other).handle,
        final(other).outgoing_transfers@ == old(other).outgoing_transfers@,
        final(other).pending_responses@ == old(other).pending_responses@,
{
}

/// A request from a peer is served as it came, an answer is delivered as it came, and a
/// request that will not be answered is delivered as a failure with its reason; none of
/// these changes what is known of peers.
pub proof fn law_messages_are_passed_on(
    node: &mut P2PNode,
    table: &mut PeerTable,
    peer: String,
    request: NearShareRequest,
    served: SwarmAction,
    second: &mut P2PNode,
    second_table: &mut PeerTable,
    request_id: u64,
    text: String,
    failed: SwarmAction,
)
    requires
        call_ensures(
            P2PNode::handle_swarm_event,
            (node, table, SwarmEvent::Request { peer, request }),
            served,
        ),
        call_ensures(
            P2PNode::handle_swarm_event,
            (second, second_table, SwarmEvent::OutboundFailure { request_id, error: text }),
            failed,
        ),
    ensures
        served matches SwarmAction::Serve(action) && match request@ {
            RequestView::Ping => action@ == RequestActionView::Respond(
                ResponseView::Pong {
                    peer_id: old(node).handle.local_peer_id@,
                    name: old(node).handle.name@,
                },
            ),
            RequestView::SendFile { filename, chunk_index, total_chunks, data } => action@
                == RequestActionView::Receive(
                super::receive::ChunkView {
                    peer: peer@,
                    filename,
                    chunk_index,
                    total_chunks,
                    data,
                },
            ),
        },
        final(table)@ == old(table)@,
        final(node).outgoing_transfers@ == old(node).outgoing_transfers@,
        failed matches SwarmAction::Deliver(outcome) && (
        old(second).outgoing_transfers@.contains_key(request_id) ==> outcome.transfer@ == (
        super::node::ActionView::Finish {
            respond_to: old(second).outgoing_transfers@[request_id].respond_to,
            result: Err(text@),
        })),
        !final(second).outgoing_transfers@.contains_key(request_id),
        final(second_table)@ == old(second_table)@,
{
}

} // verus!
