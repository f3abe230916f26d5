//! A remote ICE candidate arrives from a peer.

use crate::engine::{decode_candidate, parsed_candidate};
use crate::peer::action::PeerAction;
use crate::peer::model::{performs, PeerEvent};
use crate::peer::table::PeerTable;
use vstd::prelude::*;

verus! {

/// Handles the candidate that `from_user` sent for `room_id` as the JSON text
/// `candidate_str`.
///
/// A candidate that the engine can read is applied at once where the peer has
/// a remote description, and appended to the peer's buffer otherwise, in an
/// entry created for the purpose where the peer has none. A text that the
/// engine cannot read fails the peer. What happens for a given reading is
/// [`PeerTable::candidate_received`].
pub fn handle_ice_candidate(
    table: &mut PeerTable,
    from_user: String,
    room_id: String,
    candidate_str: String,
) -> (actions: Vec<PeerAction>)
    requires
        old(table).well_formed(),
    ensures
        final(table).well_formed(),
        performs(
            old(table)@,
            PeerEvent::IncomingIceCandidate {
                peer: from_user@,
                room: room_id@,
                candidate: parsed_candidate(candidate_str@),
            },
            final(table)@,
            actions.deep_view(),
        ),
{
    let candidate = decode_candidate(candidate_str.as_str());
    table.candidate_received(from_user, room_id, candidate)
}

} // verus!
