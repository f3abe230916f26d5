//! The state of one client session: the rooms it knows of, the peers it is
//! connected or connecting to, and the room it is in.

use crate::directory::{Presentation, PresentationView, RoomDirectory, RoomStateView};
use crate::error::ClientError;
use crate::peer::action::PeerAction;
use crate::peer::model::{PeerActionView, PeerTableView};
use crate::peer::table::PeerTable;
use vstd::prelude::*;

verus! {

/// The state that the receive loop and the operator's requests share.
pub struct Session {
    pub directory: RoomDirectory,
    pub peers: PeerTable,
    /// The id of the room that the client is in or has asked to join.
    pub room: Option<String>,
}

/// Mathematical value of a [`Session`].
pub struct SessionView {
    pub directory: Seq<RoomStateView>,
    pub peers: PeerTableView,
    pub room: Option<Seq<char>>,
}

impl View for Session {
    type V = SessionView;

    open spec fn view(&self) -> SessionView {
        SessionView {
            directory: self.directory@,
            peers: self.peers@,
            room: self.room.deep_view(),
        }
    }
}

impl Session {
    /// The directory and the peer table are well formed.
    pub open spec fn well_formed(&self) -> bool {
        self.directory.well_formed() && self.peers.well_formed()
    }

    /// The session of the identity `local_id`, before anything is known.
    pub fn new(local_id: String) -> (session: Session)
        ensures
            session.well_formed(),
            session@ == (SessionView {
                directory: Seq::empty(),
                peers: PeerTableView { local_id: local_id@, peers: Map::empty() },
                room: None,
            }),
    {
        Session { directory: RoomDirectory::new(), peers: PeerTable::new(local_id), room: None }
    }
}

/// Something the caller of the receive loop has to do.
#[derive(Debug, PartialEq, Eq)]
pub enum Effect {
    /// Perform an action of the peer state machine.
    Peer(PeerAction),
    /// Show the operator the rooms.
    Show(Presentation),
    /// Log a failure that does not end the session.
    Report(ClientError),
    /// Tell the watchers that the session's state may have changed.
    Changed,
}

/// Mathematical value of an [`Effect`].
pub enum EffectView {
    Peer(PeerActionView),
    Show(PresentationView),
    Report(ClientError),
    Changed,
}

impl View for Effect {
    type V = EffectView;

    open spec fn view(&self) -> EffectView {
        match self {
            Effect::Peer(action) => EffectView::Peer(action@),
            Effect::Show(shown) => EffectView::Show(shown@),
            Effect::Report(error) => EffectView::Report(*error),
            Effect::Changed => EffectView::Changed,
        }
    }
}

impl DeepView for Effect {
    type V = EffectView;

    open spec fn deep_view(&self) -> EffectView {
        self@
    }
}

/// Each action as an effect, in order.
pub open spec fn peer_effects(actions: Seq<PeerActionView>) -> Seq<EffectView> {
    Seq::new(actions.len(), |i: int| EffectView::Peer(actions[i]))
}

/// Wraps each action as an effect, in order.
pub fn effects_of(actions: &Vec<PeerAction>) -> (effects: Vec<Effect>)
    ensures
        effects.deep_view() == peer_effects(actions.deep_view()),
{
    let mut effects: Vec<Effect> = Vec::new();
    let mut i: usize = 0;
    while i < actions.len()
        invariant
            i <= actions.len(),
            effects.len() == i,
            forall|k: int| 0 <= k < i ==> (#[trigger] effects[k])@ == EffectView::Peer(actions[k]@),
        decreases actions.len() - i,
    {
        effects.push(Effect::Peer(actions[i].clone()));
        i += 1;
    }
    effects
}

} // verus!
