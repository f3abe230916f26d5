//! An offer arrives from a peer.

use crate::engine::{check_offer, offer_accepted};
use crate::peer::action::PeerAction;
use crate::peer::model::{performs, PeerEvent};
use crate::peer::table::PeerTable;
use vstd::prelude::*;

verus! {

/// Handles the offer `sdp` that `from_user` sent for `room_id`.
///
/// Where the engine accepts the SDP, the peer's entry is created if it has
/// none (and never duplicated if it has one), the offer becomes its remote
/// description, every candidate buffered for the peer is applied in arrival
/// order, and an answer is requested. Where the engine rejects the SDP, the
/// peer fails and its entry is removed. What happens for a given verdict is
/// [`PeerTable::offer_received`].
pub fn handle_offer(table: &mut PeerTable, from_user: String, room_id: String, sdp: String) -> (actions:
    Vec<PeerAction>)
    requires
        old(table).well_formed(),
    ensures
        final(table).well_formed(),
        performs(
            old(table)@,
            PeerEvent::IncomingOffer {
                peer: from_user@,
                room: room_id@,
                sdp: sdp@,
                accepted: offer_accepted(sdp@),
            },
            final(table)@,
            actions.deep_view(),
        ),
        offer_accepted(sdp@) ==> final(table)@.peers.dom() == old(table)@.peers.dom().insert(
            from_user@,
        ),
        offer_accepted(sdp@) && !old(table)@.peers.contains_key(from_user@)
            ==> final(table)@.peers.dom().len() == old(table)@.peers.dom().len() + 1,
        offer_accepted(sdp@) && old(table)@.peers.contains_key(from_user@)
            ==> final(table)@.peers.dom().len() == old(table)@.peers.dom().len(),
{
    proof {
        table.lemma_view_inv();
    }
    let accepted = check_offer(sdp.as_str());
    table.offer_received(from_user, room_id, sdp, accepted)
}

} // verus!
