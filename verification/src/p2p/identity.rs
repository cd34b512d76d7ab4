//! The identities of peers.
use vstd::prelude::*;

verus! {

/// Whether a text is the identity of a peer, as `libp2p::PeerId` reads it.
pub uninterp spec fn is_peer_id(text: Seq<char>) -> bool;

/// Calls `libp2p::PeerId::from_str`.
///
/// Claims that whether a text is read as an identity depends on the text alone.
#[verifier::external_body]
pub(crate) fn reads_as_peer_id(text: &str) -> (reads: bool)
    ensures
        reads == is_peer_id(text@),
{
    text.parse::<libp2p::PeerId>().is_ok()
}

} // verus!
