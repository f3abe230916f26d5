//! Outbound connect: the local side decides to reach a peer.

use crate::engine::MediaSetup;
use crate::peer::action::PeerAction;
use crate::peer::model::{performs, PeerEvent};
use crate::peer::table::PeerTable;
use vstd::prelude::*;

verus! {

/// Starts connecting to `other_id` in `room_id` with audio. Where the peer has
/// no connection yet, its entry enters `Offering` and the caller is asked to
/// open a connection and to request an offer; early candidates of the peer
/// stay buffered. Where it has one, nothing happens.
pub fn connect_peer(table: &mut PeerTable, other_id: String, room_id: String) -> (actions: Vec<
    PeerAction,
>)
    requires
        old(table).well_formed(),
    ensures
        final(table).well_formed(),
        performs(
            old(table)@,
            PeerEvent::Connect { peer: other_id@, room: room_id@, media: MediaSetup::Audio },
            final(table)@,
            actions.deep_view(),
        ),
{
    table.open_connection(other_id, room_id, MediaSetup::Audio)
}

/// Starts connecting to `other_id` in `room_id` over a data channel only.
/// The transitions are those of [`connect_peer`].
pub fn connect_to_room_user(table: &mut PeerTable, other_id: String, room_id: String) -> (actions:
    Vec<PeerAction>)
    requires
        old(table).well_formed(),
    ensures
        final(table).well_formed(),
        performs(
            old(table)@,
            PeerEvent::Connect { peer: other_id@, room: room_id@, media: MediaSetup::DataChannel },
            final(table)@,
            actions.deep_view(),
        ),
{
    table.open_connection(other_id, room_id, MediaSetup::DataChannel)
}

} // verus!
