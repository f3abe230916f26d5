//! An answer arrives from a peer.

use crate::engine::{answer_accepted, check_answer};
use crate::peer::action::PeerAction;
use crate::peer::model::{performs, PeerEvent};
use crate::peer::table::PeerTable;
use vstd::prelude::*;

verus! {

/// Handles the answer `sdp` that `from_user` sent.
///
/// Where the peer has sent its offer and waits for the answer, an SDP that the
/// engine accepts becomes the remote description, buffered candidates are
/// applied in arrival order and the peer is `Connected`; an SDP that the
/// engine rejects fails the peer. Where the peer does not wait for an answer,
/// the answer is logged and dropped and the table stays as it is. What happens
/// for a given verdict is [`PeerTable::answer_received`].
pub fn handle_answer(table: &mut PeerTable, from_user: String, sdp: String) -> (actions: Vec<
    PeerAction,
>)
    requires
        old(table).well_formed(),
    ensures
        final(table).well_formed(),
        performs(
            old(table)@,
            PeerEvent::IncomingAnswer {
                peer: from_user@,
                sdp: sdp@,
                accepted: answer_accepted(sdp@),
            },
            final(table)@,
            actions.deep_view(),
        ),
{
    let accepted = check_answer(sdp.as_str());
    table.answer_received(from_user, sdp, accepted)
}

} // verus!
