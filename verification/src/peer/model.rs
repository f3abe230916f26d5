//! The per-peer connection state machine, as a mathematical model.
//!
//! A table maps each remote peer id to one entry. Every event concerns one
//! peer: it replaces, creates or removes that peer's entry and yields the
//! actions the caller has to perform on the session engine and the signaling
//! channel, in order.

use crate::commands::{ClientCommandView, CommandMessageView, CommandView};
use crate::engine::{IceCandidateView, LinkState, MediaSetup, SdpKind};
use crate::error::ClientError;
use vstd::prelude::*;

verus! {

/// Where a peer stands in connection establishment. A peer without an entry
/// counts as `Idle`; an entry in `Idle` only buffers early candidates. `Failed`
/// is never stored: an entry that fails is removed at once.
#[derive(Clone, Copy, Debug, PartialEq, Eq, Structural)]
pub enum PeerState {
    Idle,
    Offering,
    GatheringLocalCandidates,
    AwaitingRemote,
    Connected,
    Failed,
}

/// What is reported to the operator when an event is dropped or a peer fails.
#[derive(Clone, Copy, Debug, PartialEq, Eq, Structural)]
pub enum PeerNotice {
    /// An answer arrived for a peer that is not waiting for one.
    StaleAnswer,
    /// A description or candidate was rejected; the peer's entry is gone.
    NegotiationFailed,
    /// The engine reported the connection as failed or closed.
    ConnectionLost,
}

impl PeerNotice {
    /// The kind of failure that the notice reports; none for a stale answer,
    /// which is no failure.
    pub open spec fn as_error(self) -> Option<ClientError> {
        match self {
            PeerNotice::StaleAnswer => None,
            PeerNotice::NegotiationFailed => Some(ClientError::NegotiationError),
            PeerNotice::ConnectionLost => Some(ClientError::NegotiationError),
        }
    }

    /// The words in which the notice is reported, before the peer's id.
    pub open spec fn words(self) -> Seq<char> {
        match self {
            PeerNotice::StaleAnswer => "Peer connection not found for user"@,
            PeerNotice::NegotiationFailed => "Negotiation failed with user"@,
            PeerNotice::ConnectionLost => "Connection lost to user"@,
        }
    }

    /// The words in which the notice is reported, before the peer's id.
    pub fn message(&self) -> (text: &'static str)
        ensures
            text@ == self.words(),
    {
        match self {
            PeerNotice::StaleAnswer => "Peer connection not found for user",
            PeerNotice::NegotiationFailed => "Negotiation failed with user",
            PeerNotice::ConnectionLost => "Connection lost to user",
        }
    }

    /// The kind of failure that the notice reports, if it reports one.
    pub fn error(&self) -> (r: Option<ClientError>)
        ensures
            r == self.as_error(),
    {
        match self {
            PeerNotice::StaleAnswer => None,
            PeerNotice::NegotiationFailed => Some(ClientError::NegotiationError),
            PeerNotice::ConnectionLost => Some(ClientError::NegotiationError),
        }
    }
}

/// Mathematical value of one table entry.
pub struct PeerEntryView {
    pub room_id: Seq<char>,
    pub state: PeerState,
    /// The kind of description this side produces: an offer when it initiated
    /// the exchange, an answer when it responds.
    pub local_kind: SdpKind,
    /// The local description, once the engine has produced it.
    pub local_sdp: Option<Seq<char>>,
    /// Whether a remote description has been applied.
    pub remote_set: bool,
    /// Remote candidates received before a remote description was applied.
    pub pending: Seq<IceCandidateView>,
}

/// Mathematical value of the peer table.
pub struct PeerTableView {
    pub local_id: Seq<char>,
    pub peers: Map<Seq<char>, PeerEntryView>,
}

/// Mathematical value of an action handed to the caller.
pub enum PeerActionView {
    OpenConnection { peer: Seq<char>, media: MediaSetup },
    CreateOffer { peer: Seq<char> },
    CreateAnswer { peer: Seq<char> },
    SetLocalDescription { peer: Seq<char>, kind: SdpKind, sdp: Seq<char> },
    SetRemoteDescription { peer: Seq<char>, kind: SdpKind, sdp: Seq<char> },
    AddIceCandidate { peer: Seq<char>, candidate: IceCandidateView },
    Send(CommandMessageView),
    StartMedia { peer: Seq<char> },
    CloseConnection { peer: Seq<char> },
    Log { peer: Seq<char>, notice: PeerNotice },
}

/// An event of the state machine. Where the engine's parsers decide (is this
/// SDP acceptable, what candidate does this text hold, what text does this
/// candidate give), the event carries their verdict.
pub enum PeerEvent {
    /// The local side decides to reach `peer`.
    Connect { peer: Seq<char>, room: Seq<char>, media: MediaSetup },
    /// The engine produced the local offer.
    OfferCreated { peer: Seq<char>, sdp: Seq<char> },
    /// The engine produced the local answer.
    AnswerCreated { peer: Seq<char>, sdp: Seq<char> },
    /// The engine found a local candidate; `encoded` is its JSON text, if it
    /// could be written.
    LocalCandidate { peer: Seq<char>, encoded: Option<Seq<char>> },
    /// The engine has no further local candidates.
    GatheringComplete { peer: Seq<char> },
    IncomingOffer { peer: Seq<char>, room: Seq<char>, sdp: Seq<char>, accepted: bool },
    IncomingAnswer { peer: Seq<char>, sdp: Seq<char>, accepted: bool },
    /// A remote candidate arrived; `candidate` is what its text holds, if it
    /// could be read.
    IncomingIceCandidate {
        peer: Seq<char>,
        room: Seq<char>,
        candidate: Option<IceCandidateView>,
    },
    /// The engine reported a connection state.
    LinkChanged { peer: Seq<char>, state: LinkState },
    /// The engine refused an operation for `peer`.
    EngineRejected { peer: Seq<char> },
    /// `peer` is no longer a member of the room.
    PeerLeft { peer: Seq<char> },
}

impl PeerEvent {
    /// The peer that the event concerns.
    pub open spec fn peer(self) -> Seq<char> {
        match self {
            PeerEvent::Connect { peer, .. } => peer,
            PeerEvent::OfferCreated { peer, .. } => peer,
            PeerEvent::AnswerCreated { peer, .. } => peer,
            PeerEvent::LocalCandidate { peer, .. } => peer,
            PeerEvent::GatheringComplete { peer } => peer,
            PeerEvent::IncomingOffer { peer, .. } => peer,
            PeerEvent::IncomingAnswer { peer, .. } => peer,
            PeerEvent::IncomingIceCandidate { peer, .. } => peer,
            PeerEvent::LinkChanged { peer, .. } => peer,
            PeerEvent::EngineRejected { peer } => peer,
            PeerEvent::PeerLeft { peer } => peer,
        }
    }
}

/// What holds of every stored entry.
pub open spec fn entry_inv(e: PeerEntryView) -> bool {
    &&& e.state != PeerState::Failed
    &&& e.remote_set ==> e.pending.len() == 0
    &&& e.state == PeerState::Idle ==> !e.remote_set
}

/// What holds of every table: each entry satisfies [`entry_inv`].
pub open spec fn table_inv(t: PeerTableView) -> bool {
    forall|p: Seq<char>| #[trigger] t.peers.contains_key(p) ==> entry_inv(t.peers[p])
}

/// The entry of `peer`, if there is one.
pub open spec fn entry_of(t: PeerTableView, peer: Seq<char>) -> Option<PeerEntryView> {
    if t.peers.contains_key(peer) {
        Some(t.peers[peer])
    } else {
        None
    }
}

/// The state of `peer`: that of its entry, `Idle` without one.
pub open spec fn state_of(t: PeerTableView, peer: Seq<char>) -> PeerState {
    match entry_of(t, peer) {
        Some(e) => e.state,
        None => PeerState::Idle,
    }
}

/// The candidates buffered for `peer`.
pub open spec fn pending_of(t: PeerTableView, peer: Seq<char>) -> Seq<IceCandidateView> {
    match entry_of(t, peer) {
        Some(e) => e.pending,
        None => Seq::empty(),
    }
}

/// An envelope from `local_id` carrying a client request.
pub open spec fn envelope(local_id: Seq<char>, command: ClientCommandView) -> PeerActionView {
    PeerActionView::Send(
        CommandMessageView { user_id: local_id, command: CommandView::Client(command) },
    )
}

/// One `AddIceCandidate` per buffered candidate, in arrival order.
pub open spec fn replay(peer: Seq<char>, pending: Seq<IceCandidateView>) -> Seq<PeerActionView> {
    Seq::new(
        pending.len(),
        |i: int| PeerActionView::AddIceCandidate { peer: peer, candidate: pending[i] },
    )
}

/// Whether the entry owns an engine connection: it exists and is past `Idle`.
pub open spec fn has_connection(entry: Option<PeerEntryView>) -> bool {
    entry matches Some(e) && e.state != PeerState::Idle
}

/// Removing a peer: its connection, if any, is closed, and the reason, if any,
/// is logged.
pub open spec fn dismiss(
    entry: Option<PeerEntryView>,
    peer: Seq<char>,
    notice: Option<PeerNotice>,
) -> (Option<PeerEntryView>, Seq<PeerActionView>) {
    let close = if has_connection(entry) {
        seq![PeerActionView::CloseConnection { peer: peer }]
    } else {
        Seq::empty()
    };
    let log = match notice {
        Some(n) => seq![PeerActionView::Log { peer: peer, notice: n }],
        None => Seq::empty(),
    };
    (None, close + log)
}

/// Outbound connect. A peer without a connection gets one and an offer is
/// requested; early candidates stay buffered. A peer that already has a
/// connection is left alone.
pub open spec fn on_connect(
    entry: Option<PeerEntryView>,
    peer: Seq<char>,
    room: Seq<char>,
    media: MediaSetup,
) -> (Option<PeerEntryView>, Seq<PeerActionView>) {
    if has_connection(entry) {
        (entry, Seq::empty())
    } else {
        (
            Some(
                PeerEntryView {
                    room_id: room,
                    state: PeerState::Offering,
                    local_kind: SdpKind::Offer,
                    local_sdp: None,
                    remote_set: false,
                    pending: match entry {
                        Some(e) => e.pending,
                        None => Seq::empty(),
                    },
                },
            ),
            seq![
                PeerActionView::OpenConnection { peer: peer, media: media },
                PeerActionView::CreateOffer { peer: peer },
            ],
        )
    }
}

/// The local offer is ready: it becomes the local description and candidate
/// gathering starts. Ignored unless the peer is in `Offering`.
pub open spec fn on_offer_created(
    entry: Option<PeerEntryView>,
    peer: Seq<char>,
    sdp: Seq<char>,
) -> (Option<PeerEntryView>, Seq<PeerActionView>) {
    match entry {
        Some(e) if e.state == PeerState::Offering => (
            Some(
                PeerEntryView {
                    state: PeerState::GatheringLocalCandidates,
                    local_sdp: Some(sdp),
                    ..e
                },
            ),
            seq![
                PeerActionView::SetLocalDescription { peer: peer, kind: SdpKind::Offer, sdp: sdp },
            ],
        ),
        _ => (entry, Seq::empty()),
    }
}

/// The local answer is ready: it becomes the local description, from which on
/// candidates are gathered. Ignored unless the peer has applied an offer and
/// has no answer yet.
pub open spec fn on_answer_created(
    entry: Option<PeerEntryView>,
    peer: Seq<char>,
    sdp: Seq<char>,
) -> (Option<PeerEntryView>, Seq<PeerActionView>) {
    match entry {
        Some(e) if answering(e) => (
            Some(PeerEntryView { local_sdp: Some(sdp), ..e }),
            seq![
                PeerActionView::SetLocalDescription { peer: peer, kind: SdpKind::Answer, sdp: sdp },
            ],
        ),
        _ => (entry, Seq::empty()),
    }
}

/// Whether the peer gathers local candidates: it is in
/// `GatheringLocalCandidates` and its local description is in place.
pub open spec fn gathering(e: PeerEntryView) -> bool {
    e.state == PeerState::GatheringLocalCandidates && e.local_sdp is Some
}

/// Whether the peer has applied a remote offer and waits for the engine to
/// produce its answer. It is in `GatheringLocalCandidates` already, as the
/// handling of an offer ends there, but has no local description yet.
pub open spec fn answering(e: PeerEntryView) -> bool {
    e.state == PeerState::GatheringLocalCandidates && e.local_kind == SdpKind::Answer
        && e.local_sdp is None
}

/// A local candidate is trickled to the peer at once while gathering. Outside
/// gathering, or where the candidate has no text, nothing is sent.
pub open spec fn on_local_candidate(
    local_id: Seq<char>,
    entry: Option<PeerEntryView>,
    peer: Seq<char>,
    encoded: Option<Seq<char>>,
) -> (Option<PeerEntryView>, Seq<PeerActionView>) {
    match (entry, encoded) {
        (Some(e), Some(text)) if gathering(e) => (
            entry,
            seq![envelope(local_id, ClientCommandView::SendIceCandidate(peer, e.room_id, text))],
        ),
        _ => (entry, Seq::empty()),
    }
}

/// Gathering is complete: the local description is sent. The offering side
/// then waits for the answer; the answering side is connected and its media
/// starts. Ignored unless the peer is gathering.
pub open spec fn on_gathering_complete(
    local_id: Seq<char>,
    entry: Option<PeerEntryView>,
    peer: Seq<char>,
) -> (Option<PeerEntryView>, Seq<PeerActionView>) {
    match entry {
        Some(e) if gathering(e) => {
            if e.local_kind == SdpKind::Offer {
                (
                    Some(PeerEntryView { state: PeerState::AwaitingRemote, ..e }),
                    seq![
                        envelope(
                            local_id,
                            ClientCommandView::SendOffer(peer, e.room_id, e.local_sdp->0),
                        ),
                    ],
                )
            } else {
                (
                    Some(PeerEntryView { state: PeerState::Connected, ..e }),
                    seq![
                        envelope(
                            local_id,
                            ClientCommandView::SendAnswer(peer, e.room_id, e.local_sdp->0),
                        ),
                        PeerActionView::StartMedia { peer: peer },
                    ],
                )
            }
        },
        _ => (entry, Seq::empty()),
    }
}

/// An offer arrives. An accepted offer becomes the remote description of the
/// peer's connection, which is opened first where the peer has none; every
/// buffered candidate is then applied in arrival order and an answer is
/// requested. The peer is then in `GatheringLocalCandidates`, without a local
/// description until the answer is there. A rejected offer fails the peer.
pub open spec fn on_incoming_offer(
    entry: Option<PeerEntryView>,
    peer: Seq<char>,
    room: Seq<char>,
    sdp: Seq<char>,
    accepted: bool,
) -> (Option<PeerEntryView>, Seq<PeerActionView>) {
    if !accepted {
        dismiss(entry, peer, Some(PeerNotice::NegotiationFailed))
    } else {
        let open = if has_connection(entry) {
            Seq::empty()
        } else {
            seq![PeerActionView::OpenConnection { peer: peer, media: MediaSetup::Audio }]
        };
        let pending = match entry {
            Some(e) => e.pending,
            None => Seq::empty(),
        };
        (
            Some(
                PeerEntryView {
                    room_id: room,
                    state: PeerState::GatheringLocalCandidates,
                    local_kind: SdpKind::Answer,
                    local_sdp: None,
                    remote_set: true,
                    pending: Seq::empty(),
                },
            ),
            open + seq![
                PeerActionView::SetRemoteDescription { peer: peer, kind: SdpKind::Offer, sdp: sdp },
            ] + replay(peer, pending) + seq![PeerActionView::CreateAnswer { peer: peer }],
        )
    }
}

/// Whether the peer has an entry in `AwaitingRemote`: it has sent its offer
/// and waits for the answer.
pub open spec fn awaits_answer(entry: Option<PeerEntryView>) -> bool {
    entry matches Some(e) && e.state == PeerState::AwaitingRemote
}

/// An answer arrives. Where the peer waits for one, an accepted answer becomes
/// the remote description, buffered candidates are applied in arrival order,
/// and the peer is connected; a rejected one fails the peer. Where the peer
/// does not wait for an answer, the answer is logged and dropped.
pub open spec fn on_incoming_answer(
    entry: Option<PeerEntryView>,
    peer: Seq<char>,
    sdp: Seq<char>,
    accepted: bool,
) -> (Option<PeerEntryView>, Seq<PeerActionView>) {
    if !awaits_answer(entry) {
        (entry, seq![PeerActionView::Log { peer: peer, notice: PeerNotice::StaleAnswer }])
    } else if !accepted {
        dismiss(entry, peer, Some(PeerNotice::NegotiationFailed))
    } else {
        let e = entry->0;
        (
            Some(
                PeerEntryView {
                    state: PeerState::Connected,
                    remote_set: true,
                    pending: Seq::empty(),
                    ..e
                },
            ),
            seq![
                PeerActionView::SetRemoteDescription { peer: peer, kind: SdpKind::Answer, sdp: sdp },
            ] + replay(peer, e.pending) + seq![PeerActionView::StartMedia { peer: peer }],
        )
    }
}

/// A remote candidate arrives. With a remote description in place it is
/// applied at once; without one it is appended to the peer's buffer, in an
/// entry created for the purpose where the peer has none. A candidate that
/// cannot be read fails the peer.
pub open spec fn on_incoming_candidate(
    entry: Option<PeerEntryView>,
    peer: Seq<char>,
    room: Seq<char>,
    candidate: Option<IceCandidateView>,
) -> (Option<PeerEntryView>, Seq<PeerActionView>) {
    match candidate {
        None => dismiss(entry, peer, Some(PeerNotice::NegotiationFailed)),
        Some(c) => match entry {
            Some(e) => if e.remote_set {
                (entry, seq![PeerActionView::AddIceCandidate { peer: peer, candidate: c }])
            } else {
                (Some(PeerEntryView { pending: e.pending.push(c), ..e }), Seq::empty())
            },
            None => (
                Some(
                    PeerEntryView {
                        room_id: room,
                        state: PeerState::Idle,
                        local_kind: SdpKind::Offer,
                        local_sdp: None,
                        remote_set: false,
                        pending: seq![c],
                    },
                ),
                Seq::empty(),
            ),
        },
    }
}

/// The engine reports a connection state. A failed or closed connection
/// removes the peer; any other state changes nothing.
pub open spec fn on_link_changed(
    entry: Option<PeerEntryView>,
    peer: Seq<char>,
    state: LinkState,
) -> (Option<PeerEntryView>, Seq<PeerActionView>) {
    if state.terminal() && entry is Some {
        dismiss(entry, peer, Some(PeerNotice::ConnectionLost))
    } else {
        (entry, Seq::empty())
    }
}

/// What one event does to the entry of the peer it concerns.
pub open spec fn react(
    local_id: Seq<char>,
    entry: Option<PeerEntryView>,
    event: PeerEvent,
) -> (Option<PeerEntryView>, Seq<PeerActionView>) {
    match event {
        PeerEvent::Connect { peer, room, media } => on_connect(entry, peer, room, media),
        PeerEvent::OfferCreated { peer, sdp } => on_offer_created(entry, peer, sdp),
        PeerEvent::AnswerCreated { peer, sdp } => on_answer_created(entry, peer, sdp),
        PeerEvent::LocalCandidate { peer, encoded } => on_local_candidate(
            local_id,
            entry,
            peer,
            encoded,
        ),
        PeerEvent::GatheringComplete { peer } => on_gathering_complete(local_id, entry, peer),
        PeerEvent::IncomingOffer { peer, room, sdp, accepted } => on_incoming_offer(
            entry,
            peer,
            room,
            sdp,
            accepted,
        ),
        PeerEvent::IncomingAnswer { peer, sdp, accepted } => on_incoming_answer(
            entry,
            peer,
            sdp,
            accepted,
        ),
        PeerEvent::IncomingIceCandidate { peer, room, candidate } => on_incoming_candidate(
            entry,
            peer,
            room,
            candidate,
        ),
        PeerEvent::LinkChanged { peer, state } => on_link_changed(entry, peer, state),
        PeerEvent::EngineRejected { peer } => dismiss(
            entry,
            peer,
            Some(PeerNotice::NegotiationFailed),
        ),
        PeerEvent::PeerLeft { peer } => dismiss(entry, peer, None),
    }
}

/// The table with the entry of `peer` replaced by `entry`.
pub open spec fn with_entry(
    t: PeerTableView,
    peer: Seq<char>,
    entry: Option<PeerEntryView>,
) -> PeerTableView {
    PeerTableView {
        local_id: t.local_id,
        peers: match entry {
            Some(e) => t.peers.insert(peer, e),
            None => t.peers.remove(peer),
        },
    }
}

/// One step of the state machine: the table after `event`, and the actions it
/// asks for.
pub open spec fn step(t: PeerTableView, event: PeerEvent) -> (PeerTableView, Seq<PeerActionView>) {
    let outcome = react(t.local_id, entry_of(t, event.peer()), event);
    (with_entry(t, event.peer(), outcome.0), outcome.1)
}

/// Whether `event` turns the table `before` into `after` and asks for
/// exactly `actions`.
pub open spec fn performs(
    before: PeerTableView,
    event: PeerEvent,
    after: PeerTableView,
    actions: Seq<PeerActionView>,
) -> bool {
    after == step(before, event).0 && actions == step(before, event).1
}

/// Writing back the entry that a peer already has changes nothing.
pub proof fn lemma_with_same_entry(t: PeerTableView, peer: Seq<char>)
    ensures
        with_entry(t, peer, entry_of(t, peer)) == t,
{
    let u = with_entry(t, peer, entry_of(t, peer));
    assert(u.peers =~= t.peers);
}

/// Replacing an entry does not depend on whether it was removed first.
pub proof fn lemma_with_entry_twice(
    t: PeerTableView,
    peer: Seq<char>,
    first: Option<PeerEntryView>,
    second: Option<PeerEntryView>,
)
    ensures
        with_entry(with_entry(t, peer, first), peer, second) == with_entry(t, peer, second),
{
    let u = with_entry(with_entry(t, peer, first), peer, second);
    assert(u.peers =~= with_entry(t, peer, second).peers);
}

} // verus!
