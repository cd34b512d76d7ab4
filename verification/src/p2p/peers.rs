//! The peers that are around.
use super::protocol::{PeerInfo, PeerView};
use crate::text::{join_texts, same_text, texts};
use vstd::prelude::*;
use vstd::string::*;

verus! {

/// Number of characters of a peer's identity that its name shows.
pub const NAME_LEN: usize = 8;

/// The peers that are around, each identity at most once.
pub struct PeerTable {
    peers: Vec<PeerInfo>,
}

/// The contents of peers, by identity.
spec fn by_id(peers: Seq<PeerInfo>) -> Map<Seq<char>, PeerView>
    decreases peers.len(),
{
    if peers.len() == 0 {
        Map::empty()
    } else {
        by_id(peers.drop_last()).insert(peers.last().peer_id@, peers.last()@)
    }
}

/// Whether each identity occurs at most once.
spec fn distinct(peers: Seq<PeerInfo>) -> bool {
    forall|i: int, j: int|
        0 <= i < j < peers.len() ==> (#[trigger] peers[i]).peer_id@ != (
        #[trigger] peers[j]).peer_id@
}

impl View for PeerTable {
    type V = Map<Seq<char>, PeerView>;

    closed spec fn view(&self) -> Map<Seq<char>, PeerView> {
        by_id(self.peers@)
    }
}

/// The contents of a list of peers.
pub open spec fn peer_views(peers: Seq<PeerInfo>) -> Seq<PeerView> {
    peers.map_values(|p: PeerInfo| p@)
}

/// Whether a list holds the given peers, all of them and each once.
pub open spec fn is_listing(peers: Map<Seq<char>, PeerView>, list: Seq<PeerView>) -> bool {
    &&& list.len() == peers.len()
    &&& forall|id: Seq<char>| #[trigger]
        peers.contains_key(id) ==> exists|i: int|
            0 <= i < list.len() && (#[trigger] list[i]).peer_id == id
    &&& forall|i: int|
        0 <= i < list.len() ==> peers.contains_key((#[trigger] list[i]).peer_id)
            && peers[list[i].peer_id] == list[i]
    &&& forall|i: int, j: int|
        0 <= i < j < list.len() ==> (#[trigger] list[i]).peer_id != (#[trigger] list[j]).peer_id
}

/// Whether a peer's identity is long enough to be shown in its name.
pub open spec fn nameable(peer_id: Seq<char>) -> bool {
    vstd::utf8::is_ascii_chars(peer_id) && peer_id.len() >= NAME_LEN
}

/// What is known of a peer discovered at an address.
pub open spec fn discovered_peer(peer_id: Seq<char>, address: Seq<char>) -> PeerView {
    PeerView {
        peer_id,
        name: "Peer "@ + peer_id.take(NAME_LEN as int),
        addresses: seq![address],
    }
}

/// The identities and addresses of a list of sightings.
pub open spec fn sightings(list: Seq<(String, String)>) -> Seq<(Seq<char>, Seq<char>)> {
    list.map_values(|s: (String, String)| (s.0@, s.1@))
}

/// The peers around after the given sightings: every peer seen, as it was seen
/// last, but not the node itself.
pub open spec fn after_discovery(
    peers: Map<Seq<char>, PeerView>,
    local: Seq<char>,
    seen: Seq<(Seq<char>, Seq<char>)>,
) -> Map<Seq<char>, PeerView>
    decreases seen.len(),
{
    if seen.len() == 0 {
        peers
    } else {
        let before = after_discovery(peers, local, seen.drop_last());
        let (peer_id, address) = seen.last();
        if peer_id == local {
            before
        } else {
            before.insert(peer_id, discovered_peer(peer_id, address))
        }
    }
}

/// The sightings of other nodes, which are to be dialed.
pub open spec fn to_dial(local: Seq<char>, seen: Seq<(Seq<char>, Seq<char>)>) -> Seq<
    (Seq<char>, Seq<char>),
> {
    seen.filter(|s: (Seq<char>, Seq<char>)| s.0 != local)
}

proof fn lemma_by_id(peers: Seq<PeerInfo>)
    requires
        distinct(peers),
    ensures
        forall|i: int|
            0 <= i < peers.len() ==> by_id(peers).contains_key((#[trigger] peers[i]).peer_id@)
                && by_id(peers)[peers[i].peer_id@] == peers[i]@,
        forall|id: Seq<char>| #[trigger]
            by_id(peers).contains_key(id) ==> exists|i: int|
                0 <= i < peers.len() && (#[trigger] peers[i]).peer_id@ == id,
        by_id(peers).dom().finite(),
        by_id(peers).len() == peers.len(),
    decreases peers.len(),
{
    if peers.len() > 0 {
        let before = peers.drop_last();
        assert(distinct(before)) by {
            assert(forall|i: int| 0 <= i < before.len() ==> before[i] == peers[i]);
        }
        lemma_by_id(before);
        assert(forall|i: int| 0 <= i < before.len() ==> before[i] == peers[i]);
        assert(!by_id(before).contains_key(peers.last().peer_id@));
        assert forall|id: Seq<char>| #[trigger] by_id(peers).contains_key(id) implies exists|i: int|
            0 <= i < peers.len() && (#[trigger] peers[i]).peer_id@ == id by {
            if id != peers.last().peer_id@ {
                assert(by_id(before).contains_key(id));
                let i = choose|i: int| 0 <= i < before.len() && (#[trigger] before[i]).peer_id@ == id;
                assert(peers[i].peer_id@ == id);
            } else {
                assert(peers[peers.len() - 1].peer_id@ == id);
            }
        }
    }
}

proof fn lemma_by_id_remove(peers: Seq<PeerInfo>, i: int)
    requires
        distinct(peers),
        0 <= i < peers.len(),
    ensures
        distinct(peers.remove(i)),
        by_id(peers.remove(i)) == by_id(peers).remove(peers[i].peer_id@),
    decreases peers.len(),
{
    let rest = peers.remove(i);
    let before = peers.drop_last();
    assert(distinct(before));
    if i == peers.len() - 1 {
        assert(rest =~= before);
        lemma_by_id(before);
        assert(!by_id(before).contains_key(peers[i].peer_id@)) by {
            if by_id(before).contains_key(peers[i].peer_id@) {
                let j = choose|j: int|
                    0 <= j < before.len() && (#[trigger] before[j]).peer_id@ == peers[i].peer_id@;
                assert(peers[j] == before[j]);
            }
        }
        assert(by_id(before) =~= by_id(peers).remove(peers[i].peer_id@));
    } else {
        lemma_by_id_remove(before, i);
        assert(rest.drop_last() =~= before.remove(i));
        assert(rest.last() == peers.last());
        assert(peers[i].peer_id@ != peers[peers.len() - 1].peer_id@);
        assert(before[i] == peers[i]);
        assert(by_id(rest) =~= by_id(peers).remove(peers[i].peer_id@));
        assert(distinct(rest)) by {
            assert forall|a: int, b: int| 0 <= a < b < rest.len() implies (
            #[trigger] rest[a]).peer_id@ != (#[trigger] rest[b]).peer_id@ by {
                let a2 = if a < i {
                    a
                } else {
                    a + 1
                };
                let b2 = if b < i {
                    b
                } else {
                    b + 1
                };
                assert(rest[a] == peers[a2]);
                assert(rest[b] == peers[b2]);
            }
        }
    }
}

impl PeerInfo {
    /// What is known of a peer discovered at an address.
    pub fn discovered(peer_id: String, address: String) -> (info: Self)
        requires
            nameable(peer_id@),
        ensures
            info@ == discovered_peer(peer_id@, address@),
    {
        let shown = peer_id.as_str().substring_char(0, NAME_LEN);
        let name = join_texts("Peer ", shown);
        let mut addresses: Vec<String> = Vec::new();
        let ghost at = address@;
        addresses.push(address);
        assert(texts(addresses@) =~= seq![at]);
        assert(shown@ == peer_id@.take(NAME_LEN as int));
        PeerInfo { peer_id, name, addresses }
    }
}

impl Clone for PeerInfo {
    fn clone(&self) -> (copy: Self)
        ensures
            copy@ == self@,
    {
        let mut addresses: Vec<String> = Vec::new();
        let mut i: usize = 0;
        while i < self.addresses.len()
            invariant
                i <= self.addresses@.len(),
                texts(addresses@) == texts(self.addresses@).take(i as int),
            decreases self.addresses.len() - i,
        {
            let ghost before = addresses@;
            let address = self.addresses[i].clone();
            let ghost at = address@;
            addresses.push(address);
            assert(texts(addresses@) =~= texts(before).push(at));
            assert(texts(self.addresses@).take(i + 1) =~= texts(self.addresses@).take(
                i as int,
            ).push(at));
            i = i + 1;
        }
        assert(texts(self.addresses@).take(i as int) =~= texts(self.addresses@));
        PeerInfo { peer_id: self.peer_id.clone(), name: self.name.clone(), addresses }
    }
}

impl PeerTable {
    /// Each identity is held at most once.
    #[verifier::type_invariant]
    spec fn wf(&self) -> bool {
        distinct(self.peers@)
    }

    /// No peers.
    pub fn new() -> (table: Self)
        ensures
            table@ == Map::<Seq<char>, PeerView>::empty(),
    {
        PeerTable { peers: Vec::new() }
    }

    /// The position of a peer, if it is held.
    fn find(&self, peer_id: &str) -> (found: Option<usize>)
        ensures
            match found {
                Some(i) => i < self.peers@.len() && self.peers@[i as int].peer_id@ == peer_id@,
                None => !self@.contains_key(peer_id@),
            },
    {
        let mut i: usize = 0;
        while i < self.peers.len()
            invariant
                i <= self.peers@.len(),
                forall|j: int| 0 <= j < i ==> (#[trigger] self.peers@[j]).peer_id@ != peer_id@,
            decreases self.peers.len() - i,
        {
            if same_text(&self.peers[i].peer_id, peer_id) {
                return Some(i);
            }
            i = i + 1;
        }
        proof {
            use_type_invariant(self);
            lemma_by_id(self.peers@);
        }
        None
    }

    /// Forgets a peer.
    pub fn remove(&mut self, peer_id: &str)
        ensures
            final(self)@ == old(self)@.remove(peer_id@),
    {
        match self.find(peer_id) {
            Some(i) => {
                proof {
                    use_type_invariant(&*self);
                    lemma_by_id_remove(self.peers@, i as int);
                }
                let mut peers: Vec<PeerInfo> = Vec::new();
                std::mem::swap(&mut peers, &mut self.peers);
                peers.remove(i);
                self.peers = peers;
            },
            None => {
                assert(self@ =~= self@.remove(peer_id@));
            },
        }
    }

    /// Remembers a peer, in place of what was known of it.
    pub fn insert(&mut self, info: PeerInfo)
        ensures
            final(self)@ == old(self)@.insert(info.peer_id@, info@),
    {
        self.remove(&info.peer_id);
        proof {
            use_type_invariant(&*self);
            lemma_by_id(self.peers@);
            assert(self.peers@.push(info).drop_last() =~= self.peers@);
            assert(self@.insert(info.peer_id@, info@) =~= old(self)@.insert(info.peer_id@, info@));
            assert(!self@.contains_key(info.peer_id@));
        }
        let mut peers: Vec<PeerInfo> = Vec::new();
        std::mem::swap(&mut peers, &mut self.peers);
        peers.push(info);
        self.peers = peers;
    }

    /// Takes in sightings. Tells which peers are to be dialed, and where.
    pub fn discovered(&mut self, local: &str, list: &Vec<(String, String)>) -> (dial: Vec<
        (String, String),
    >)
        requires
            forall|i: int|
                0 <= i < list@.len() && (#[trigger] list@[i]).0@ != local@ ==> nameable(
                    list@[i].0@,
                ),
        ensures
            final(self)@ == after_discovery(old(self)@, local@, sightings(list@)),
            sightings(dial@) == to_dial(local@, sightings(list@)),
    {
        let mut dial: Vec<(String, String)> = Vec::new();
        let mut i: usize = 0;
        proof {
            reveal(Seq::filter);
            assert(sightings(list@).take(0) =~= seq![]);
            assert(sightings(dial@) =~= seq![]);
        }
        while i < list.len()
            invariant
                i <= list@.len(),
                forall|j: int|
                    0 <= j < list@.len() && (#[trigger] list@[j]).0@ != local@ ==> nameable(
                        list@[j].0@,
                    ),
                self@ == after_discovery(old(self)@, local@, sightings(list@).take(i as int)),
                sightings(dial@) == to_dial(local@, sightings(list@).take(i as int)),
            decreases list.len() - i,
        {
            let ghost seen = sightings(list@).take(i + 1);
            assert(seen.drop_last() =~= sightings(list@).take(i as int));
            assert(seen.last() == (list@[i as int].0@, list@[i as int].1@));
            proof {
                reveal(Seq::filter);
            }
            if !same_text(&list[i].0, local) {
                let ghost before = dial@;
                let peer_id = list[i].0.clone();
                let address = list[i].1.clone();
                dial.push((list[i].0.clone(), list[i].1.clone()));
                assert(sightings(dial@) =~= sightings(before).push(seen.last()));
                self.insert(PeerInfo::discovered(peer_id, address));
            }
            i = i + 1;
        }
        assert(sightings(list@).take(i as int) =~= sightings(list@));
        dial
    }

    /// Forgets the peers that have not been seen for too long.
    pub fn expired(&mut self, list: &Vec<String>)
        ensures
            final(self)@ == old(self)@.remove_keys(texts(list@).to_set()),
    {
        let mut i: usize = 0;
        assert(self@ =~= old(self)@.remove_keys(texts(list@).take(0).to_set()));
        while i < list.len()
            invariant
                i <= list@.len(),
                self@ == old(self)@.remove_keys(texts(list@).take(i as int).to_set()),
            decreases list.len() - i,
        {
            let ghost before = self@;
            self.remove(&list[i]);
            proof {
                let first = texts(list@).take(i as int);
                let next = texts(list@).take(i + 1);
                assert(next =~= first.push(list@[i as int]@));
                assert forall|id: Seq<char>| next.contains(id) <==> first.contains(id) || id
                    == list@[i as int]@ by {
                    if first.contains(id) {
                        let k = choose|k: int| 0 <= k < first.len() && first[k] == id;
                        assert(next[k] == id);
                    }
                    assert(next[i as int] == list@[i as int]@);
                }
                assert(self@ =~= old(self)@.remove_keys(next.to_set()));
            }
            i = i + 1;
        }
        assert(texts(list@).take(i as int) =~= texts(list@));
    }

    /// The peers, in no particular order.
    pub fn list_peers(&self) -> (list: Vec<PeerInfo>)
        ensures
            is_listing(self@, peer_views(list@)),
    {
        let mut list: Vec<PeerInfo> = Vec::new();
        let mut i: usize = 0;
        while i < self.peers.len()
            invariant
                i <= self.peers@.len(),
                list@.len() == i,
                forall|j: int| 0 <= j < i ==> (#[trigger] list@[j])@ == self.peers@[j]@,
            decreases self.peers.len() - i,
        {
            list.push(self.peers[i].clone());
            i = i + 1;
        }
        proof {
            use_type_invariant(self);
            lemma_by_id(self.peers@);
            let listed = peer_views(list@);
            assert forall|id: Seq<char>| #[trigger] self@.contains_key(id) implies exists|i: int|
                0 <= i < listed.len() && (#[trigger] listed[i]).peer_id == id by {
                let i = choose|i: int|
                    0 <= i < self.peers@.len() && (#[trigger] self.peers@[i]).peer_id@ == id;
                assert(listed[i] == list@[i]@);
            }
            assert forall|i: int| 0 <= i < listed.len() implies self@.contains_key(
                (#[trigger] listed[i]).peer_id,
            ) && self@[listed[i].peer_id] == listed[i] by {
                assert(listed[i] == list@[i]@);
                assert(listed[i] == self.peers@[i]@);
            }
            assert forall|i: int, j: int| 0 <= i < j < listed.len() implies (
            #[trigger] listed[i]).peer_id != (#[trigger] listed[j]).peer_id by {
                assert(listed[i] == list@[i]@ && listed[j] == list@[j]@);
                assert(self.peers@[i].peer_id@ != self.peers@[j].peer_id@);
            }
        }
        list
    }
}

/// A node never comes to list itself.
pub proof fn law_node_does_not_list_itself(
    peers: Map<Seq<char>, PeerView>,
    local: Seq<char>,
    seen: Seq<(Seq<char>, Seq<char>)>,
)
    requires
        !peers.contains_key(local),
    ensures
        !after_discovery(peers, local, seen).contains_key(local),
    decreases seen.len(),
{
    if seen.len() > 0 {
        law_node_does_not_list_itself(peers, local, seen.drop_last());
    }
}

/// A peer that was seen is listed, under the address at which it was seen last,
/// and the peers that were not seen are listed as before.
pub proof fn law_seen_peers_are_listed(
    peers: Map<Seq<char>, PeerView>,
    local: Seq<char>,
    seen: Seq<(Seq<char>, Seq<char>)>,
    peer_id: Seq<char>,
)
    requires
        peer_id != local,
    ensures
        ({
            let after = after_discovery(peers, local, seen);
            if exists|i: int| 0 <= i < seen.len() && (#[trigger] seen[i]).0 == peer_id {
                exists|i: int|
                    0 <= i < seen.len() && (#[trigger] seen[i]).0 == peer_id && (forall|j: int|
                        i < j < seen.len() ==> (#[trigger] seen[j]).0 != peer_id)
                        && after.contains_key(peer_id) && after[peer_id] == discovered_peer(
                        peer_id,
                        seen[i].1,
                    )
            } else {
                &&& after.contains_key(peer_id) == peers.contains_key(peer_id)
                &&& peers.contains_key(peer_id) ==> after[peer_id] == peers[peer_id]
            }
        }),
    decreases seen.len(),
{
    if seen.len() > 0 {
        let before = seen.drop_last();
        law_seen_peers_are_listed(peers, local, before, peer_id);
        assert(forall|i: int| 0 <= i < before.len() ==> before[i] == seen[i]);
        if seen.last().0 == peer_id {
            assert(seen[seen.len() - 1].0 == peer_id);
        } else if exists|i: int| 0 <= i < before.len() && (#[trigger] before[i]).0 == peer_id {
            let after = after_discovery(peers, local, before);
            let i = choose|i: int|
                0 <= i < before.len() && (#[trigger] before[i]).0 == peer_id && (forall|j: int|
                    i < j < before.len() ==> (#[trigger] before[j]).0 != peer_id)
                    && after.contains_key(peer_id) && after[peer_id] == discovered_peer(
                    peer_id,
                    before[i].1,
                );
            assert(seen[i].0 == peer_id);
            assert forall|j: int| i < j < seen.len() implies (#[trigger] seen[j]).0 != peer_id by {
                if j < before.len() {
                    assert(before[j].0 != peer_id);
                }
            }
        }
    }
}

/// Forgetting the peers that were just seen undoes having seen them: all others
/// are listed as before.
pub proof fn law_expiry_undoes_discovery(
    peers: Map<Seq<char>, PeerView>,
    local: Seq<char>,
    seen: Seq<(Seq<char>, Seq<char>)>,
    gone: Set<Seq<char>>,
)
    requires
        forall|i: int| 0 <= i < seen.len() ==> gone.contains((#[trigger] seen[i]).0),
    ensures
        after_discovery(peers, local, seen).remove_keys(gone) == peers.remove_keys(gone),
    decreases seen.len(),
{
    if seen.len() > 0 {
        let before = seen.drop_last();
        assert forall|i: int| 0 <= i < before.len() implies gone.contains(
            (#[trigger] before[i]).0,
        ) by {
            assert(before[i] == seen[i]);
        }
        law_expiry_undoes_discovery(peers, local, before, gone);
        assert(gone.contains(seen[seen.len() - 1].0));
        assert(after_discovery(peers, local, seen).remove_keys(gone) =~= after_discovery(
            peers,
            local,
            before,
        ).remove_keys(gone));
    }
}

/// A peer other than the node itself that was seen at an address is listed once, with
/// that one address, letter for letter, where it has not been seen elsewhere since; and
/// its name shows the first eight characters of its identity.
pub proof fn law_peer_is_listed_at_the_address_it_was_seen_at(
    peers: Map<Seq<char>, PeerView>,
    local: Seq<char>,
    before: Seq<(Seq<char>, Seq<char>)>,
    peer_id: Seq<char>,
    address: Seq<char>,
    later: Seq<(Seq<char>, Seq<char>)>,
    list: Seq<PeerView>,
)
    requires
        peer_id != local,
        forall|i: int| 0 <= i < later.len() ==> (#[trigger] later[i]).0 != peer_id,
        is_listing(after_discovery(peers, local, before.push((peer_id, address)) + later), list),
    ensures
        exists|k: int|
            0 <= k < list.len() && (#[trigger] list[k]) == (PeerView {
                peer_id,
                name: "Peer "@ + peer_id.take(8),
                addresses: seq![address],
            }),
        forall|i: int, j: int|
            0 <= i < list.len() && 0 <= j < list.len() && (#[trigger] list[i]).peer_id == (
            #[trigger] list[j]).peer_id ==> i == j,
{
    let seen = before.push((peer_id, address)) + later;
    let at = before.len() as int;
    let after = after_discovery(peers, local, seen);
    assert(seen[at] == (peer_id, address));
    law_seen_peers_are_listed(peers, local, seen, peer_id);
    let i = choose|i: int|
        0 <= i < seen.len() && (#[trigger] seen[i]).0 == peer_id && (forall|j: int|
            i < j < seen.len() ==> (#[trigger] seen[j]).0 != peer_id) && after.contains_key(
            peer_id,
        ) && after[peer_id] == discovered_peer(peer_id, seen[i].1);
    assert(i == at) by {
        if i > at {
            assert(seen[i] == later[i - at - 1]);
        }
    }
    let k = choose|k: int| 0 <= k < list.len() && (#[trigger] list[k]).peer_id == peer_id;
    assert(list[k] == after[peer_id]);
    assert(NAME_LEN == 8);
}

/// What is listed of a table is every peer of it as the table has it, once, and
/// nothing else; an empty table gives an empty list.
pub proof fn law_list_is_the_table(
    peers: Map<Seq<char>, PeerView>,
    list: Seq<PeerView>,
    peer_id: Seq<char>,
)
    requires
        is_listing(peers, list),
        forall|id: Seq<char>| #[trigger] peers.contains_key(id) ==> peers[id].peer_id == id,
    ensures
        peers.contains_key(peer_id) ==> list.contains(peers[peer_id]),
        forall|i: int| 0 <= i < list.len() ==> peers.contains_key((#[trigger] list[i]).peer_id),
        list.len() == peers.len(),
        list.no_duplicates(),
{
    if peers.contains_key(peer_id) {
        let k = choose|k: int| 0 <= k < list.len() && (#[trigger] list[k]).peer_id == peer_id;
        assert(list[k] == peers[peer_id]);
    }
    assert forall|i: int, j: int| 0 <= i < list.len() && 0 <= j < list.len() && i != j implies list[
        i] != list[j] by {
        if i < j {
            assert(list[i].peer_id != list[j].peer_id);
        } else {
            assert(list[j].peer_id != list[i].peer_id);
        }
    }
}

/// Every sighting of another node is dialed where it was seen, in the order of the
/// sightings, and the node does not dial itself.
pub proof fn law_sightings_are_dialed(
    local: Seq<char>,
    seen: Seq<(Seq<char>, Seq<char>)>,
    peer_id: Seq<char>,
    address: Seq<char>,
)
    ensures
        to_dial(local, seq![]) == Seq::<(Seq<char>, Seq<char>)>::empty(),
        peer_id != local ==> to_dial(local, seen.push((peer_id, address))) == to_dial(
            local,
            seen,
        ).push((peer_id, address)),
        peer_id == local ==> to_dial(local, seen.push((peer_id, address))) == to_dial(local, seen),
{
    reveal(Seq::filter);
    assert(seen.push((peer_id, address)).drop_last() =~= seen);
    assert(to_dial(local, seq![]) =~= seq![]);
}

/// What is seen of sightings and of listed peers is all of them, in their order.
pub proof fn law_sightings_are_seen_as_they_are(list: Seq<(String, String)>, peers: Seq<PeerInfo>)
    ensures
        sightings(list).len() == list.len(),
        forall|i: int|
            0 <= i < list.len() ==> #[trigger] sightings(list)[i] == (list[i].0@, list[i].1@),
        peer_views(peers).len() == peers.len(),
        forall|i: int| 0 <= i < peers.len() ==> #[trigger] peer_views(peers)[i] == peers[i]@,
{
}

/// What is known of a peer just seen is its identity, a name that shows the first eight
/// characters of it, and the one address at which it was seen, letter for letter.
pub proof fn law_seen_peer_keeps_its_address(peer_id: String, address: String, info: PeerInfo)
    requires
        nameable(peer_id@),
        call_ensures(PeerInfo::discovered, (peer_id, address), info),
    ensures
        info.peer_id@ == peer_id@,
        info.name@ == "Peer "@ + peer_id@.take(8),
        info.addresses@.len() == 1,
        info.addresses@[0]@ == address@,
{
    assert(info@.addresses.len() == info.addresses@.len());
    assert(info@.addresses[0] == info.addresses@[0]@);
}

/// Sightings and their expiry change the table as they say: a peer seen last of all is
/// known by its one address, every other node seen is dialed where it was seen, and the
/// peers that expired are forgotten and no others.
pub proof fn law_table_follows_the_sightings(
    table: &mut PeerTable,
    local: &str,
    list: Vec<(String, String)>,
    dial: Vec<(String, String)>,
    later: &mut PeerTable,
    gone: Vec<String>,
    other: Seq<char>,
)
    requires
        call_ensures(PeerTable::discovered, (table, local, &list), dial),
        call_ensures(PeerTable::expired, (later, &gone), ()),
    ensures
        list@.len() > 0 && list@.last().0@ != local@ ==> {
            let id = list@.last().0@;
            &&& final(table)@.contains_key(id)
            &&& final(table)@[id] == (PeerView {
                peer_id: id,
                name: "Peer "@ + id.take(8),
                addresses: seq![list@.last().1@],
            })
            &&& dial@.len() > 0 && dial@.last().0@ == id && dial@.last().1@ == list@.last().1@
        },
        (forall|i: int| 0 <= i < list@.len() ==> (#[trigger] list@[i]).0@ != other) ==> (
        final(table)@.contains_key(other) <==> old(table)@.contains_key(other)) && (
        old(table)@.contains_key(other) ==> final(table)@[other] == old(table)@[other]),
        final(later)@.contains_key(other) <==> old(later)@.contains_key(other) && !texts(
            gone@,
        ).contains(other),
        final(later)@.contains_key(other) ==> final(later)@[other] == old(later)@[other],
{
    let seen = sightings(list@);
    if list@.len() > 0 && list@.last().0@ != local@ {
        assert(seen.last() == (list@.last().0@, list@.last().1@));
        assert(seen =~= seen.drop_last().push(seen.last()));
        law_sightings_are_dialed(local@, seen.drop_last(), seen.last().0, seen.last().1);
        assert(sightings(dial@).len() == dial@.len());
        assert(sightings(dial@).last() == (dial@.last().0@, dial@.last().1@));
    }
    if forall|i: int| 0 <= i < list@.len() ==> (#[trigger] list@[i]).0@ != other {
        assert(forall|i: int| 0 <= i < seen.len() ==> (#[trigger] seen[i]).0 == list@[i].0@);
        if other == local@ {
            lemma_unseen(old(table)@, local@, seen, other);
        } else {
            law_seen_peers_are_listed(old(table)@, local@, seen, other);
        }
    }
}

/// A peer that was not seen is known as before.
proof fn lemma_unseen(
    peers: Map<Seq<char>, PeerView>,
    local: Seq<char>,
    seen: Seq<(Seq<char>, Seq<char>)>,
    other: Seq<char>,
)
    requires
        forall|i: int| 0 <= i < seen.len() ==> (#[trigger] seen[i]).0 != other,
    ensures
        after_discovery(peers, local, seen).contains_key(other) <==> peers.contains_key(other),
        peers.contains_key(other) ==> after_discovery(peers, local, seen)[other] == peers[other],
    decreases seen.len(),
{
    if seen.len() > 0 {
        let before = seen.drop_last();
        assert(forall|i: int| 0 <= i < before.len() ==> (#[trigger] before[i]) == seen[i]);
        lemma_unseen(peers, local, before, other);
        assert(seen[seen.len() - 1].0 != other);
    }
}

/// A table knows of a peer what was put into it last, until that is taken out, and a
/// new one knows of nobody; putting one in or taking one out touches no other.
pub proof fn law_table_knows_what_was_put_in(
    fresh: PeerTable,
    table: &mut PeerTable,
    info: PeerInfo,
    later: &mut PeerTable,
    peer_id: &str,
    listed: PeerTable,
    list: Vec<PeerInfo>,
)
    requires
        call_ensures(PeerTable::new, (), fresh),
        call_ensures(PeerTable::insert, (table, info), ()),
        call_ensures(PeerTable::remove, (later, peer_id), ()),
        call_ensures(PeerTable::list_peers, (&listed,), list),
    ensures
        forall|id: Seq<char>| !(#[trigger] fresh@.contains_key(id)),
        final(table)@ == old(table)@.insert(info.peer_id@, info@),
        final(later)@ == old(later)@.remove(peer_id@),
        is_listing(listed@, peer_views(list@)),
{
}

} // verus!
