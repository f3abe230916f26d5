//! The peer table: the one owner of every peer connection entry.

use crate::commands::{ClientCommand, CommandMessage};
use crate::engine::{
    candidate_json, encode_candidate, IceCandidate, IceCandidateView, LinkState, MediaSetup,
    SdpKind,
};
use crate::peer::action::PeerAction;
use crate::peer::model::{
    dismiss, entry_inv, entry_of, lemma_with_entry_twice, on_answer_created, on_connect,
    on_gathering_complete, on_incoming_answer, on_incoming_candidate, on_incoming_offer,
    on_local_candidate, on_offer_created, pending_of, performs, replay, state_of, table_inv,
    with_entry, PeerActionView, PeerEntryView, PeerEvent, PeerNotice, PeerState, PeerTableView,
};
use vstd::prelude::*;

verus! {

/// One entry of the table.
pub struct PeerEntry {
    peer_id: String,
    room_id: String,
    state: PeerState,
    local_kind: SdpKind,
    local_sdp: Option<String>,
    remote_set: bool,
    pending: Vec<IceCandidate>,
}

impl View for PeerEntry {
    type V = PeerEntryView;

    closed spec fn view(&self) -> PeerEntryView {
        PeerEntryView {
            room_id: self.room_id@,
            state: self.state,
            local_kind: self.local_kind,
            local_sdp: self.local_sdp.deep_view(),
            remote_set: self.remote_set,
            pending: self.pending.deep_view(),
        }
    }
}

/// No two entries belong to the same peer.
spec fn distinct_keys(s: Seq<PeerEntry>) -> bool {
    forall|i: int, j: int| 0 <= i < j < s.len() ==> s[i].peer_id@ != s[j].peer_id@
}

/// Whether some entry belongs to the peer `k`.
spec fn has_key(s: Seq<PeerEntry>, k: Seq<char>) -> bool {
    exists|i: int| 0 <= i < s.len() && (#[trigger] s[i]).peer_id@ == k
}

/// The position of an entry of the peer `k`, where there is one.
spec fn index_of(s: Seq<PeerEntry>, k: Seq<char>) -> int {
    choose|i: int| 0 <= i < s.len() && (#[trigger] s[i]).peer_id@ == k
}

/// The entries as a map from peer id to entry.
spec fn entries_map(s: Seq<PeerEntry>) -> Map<Seq<char>, PeerEntryView> {
    Map::new(|k: Seq<char>| has_key(s, k), |k: Seq<char>| s[index_of(s, k)]@)
}

/// With distinct keys, the map holds each entry under its peer id.
proof fn lemma_lookup(s: Seq<PeerEntry>, i: int)
    requires
        distinct_keys(s),
        0 <= i < s.len(),
    ensures
        has_key(s, s[i].peer_id@),
        index_of(s, s[i].peer_id@) == i,
        entries_map(s).contains_key(s[i].peer_id@),
        entries_map(s)[s[i].peer_id@] == s[i]@,
{
}

/// With distinct keys, the map has as many keys as there are entries.
proof fn lemma_domain_size(s: Seq<PeerEntry>)
    requires
        distinct_keys(s),
    ensures
        entries_map(s).dom().finite(),
        entries_map(s).dom().len() == s.len(),
    decreases s.len(),
{
    if s.len() == 0 {
        assert(entries_map(s).dom() =~= Set::<Seq<char>>::empty());
    } else {
        let front = s.drop_last();
        let k = s.last().peer_id@;
        lemma_domain_size(front);
        assert(entries_map(s).dom() =~= entries_map(front).dom().insert(k)) by {
            assert forall|q: Seq<char>| has_key(s, q) <==> (has_key(front, q) || q == k) by {
                if has_key(s, q) {
                    let j = index_of(s, q);
                    if j < s.len() - 1 {
                        assert(front[j].peer_id@ == q);
                    }
                }
            }
        }
    }
}

/// The value of an entry that may be absent.
spec fn entry_view(entry: Option<PeerEntry>) -> Option<PeerEntryView> {
    match entry {
        Some(e) => Some(e@),
        None => None,
    }
}

/// No actions.
fn empty_actions() -> (actions: Vec<PeerAction>)
    ensures
        actions.deep_view() == Seq::<PeerActionView>::empty(),
{
    Vec::new()
}

/// No candidates.
fn no_candidates() -> (pending: Vec<IceCandidate>)
    ensures
        pending.deep_view() == Seq::<IceCandidateView>::empty(),
{
    Vec::new()
}

/// Appends one action.
fn push_action(actions: &mut Vec<PeerAction>, action: PeerAction)
    ensures
        final(actions).deep_view() == old(actions).deep_view().push(action@),
{
    actions.push(action);
}

/// Appends one `AddIceCandidate` per buffered candidate, in order.
fn push_replay(actions: &mut Vec<PeerAction>, peer: &String, pending: &Vec<IceCandidate>)
    ensures
        final(actions).deep_view() == old(actions).deep_view() + replay(peer@, pending.deep_view()),
{
    let ghost start = actions.deep_view();
    let mut i: usize = 0;
    while i < pending.len()
        invariant
            i <= pending.len(),
            actions.deep_view() == start + replay(peer@, pending.deep_view()).take(i as int),
        decreases pending.len() - i,
    {
        push_action(
            actions,
            PeerAction::AddIceCandidate { peer: peer.clone(), candidate: pending[i].clone() },
        );
        i += 1;
    }
}

/// The actions that remove a peer: see [`dismiss`].
fn react_dismiss(entry: &Option<PeerEntry>, peer: String, notice: Option<PeerNotice>) -> (actions:
    Vec<PeerAction>)
    ensures
        actions.deep_view() == dismiss(entry_view(*entry), peer@, notice).1,
{
    let mut actions = empty_actions();
    let close = match entry {
        Some(e) => e.state != PeerState::Idle,
        None => false,
    };
    if close {
        push_action(&mut actions, PeerAction::CloseConnection { peer: peer.clone() });
    }
    match notice {
        Some(n) => {
            push_action(&mut actions, PeerAction::Log { peer, notice: n });
        },
        None => {},
    }
    actions
}

/// Outbound connect on the entry of one peer: see [`on_connect`].
fn react_connect(entry: Option<PeerEntry>, peer: String, room: String, media: MediaSetup) -> (r: (
    Option<PeerEntry>,
    Vec<PeerAction>,
))
    requires
        entry matches Some(e) ==> e.peer_id@ == peer@ && entry_inv(e@),
    ensures
        r.0 matches Some(e) ==> e.peer_id@ == peer@ && entry_inv(e@),
        (entry_view(r.0), r.1.deep_view()) == on_connect(entry_view(entry), peer@, room@, media),
{
    let mut actions = empty_actions();
    let pending = match entry {
        Some(e) => {
            if e.state != PeerState::Idle {
                return (Some(e), actions);
            }
            e.pending
        },
        None => no_candidates(),
    };
    let fresh = PeerEntry {
        peer_id: peer.clone(),
        room_id: room,
        state: PeerState::Offering,
        local_kind: SdpKind::Offer,
        local_sdp: None,
        remote_set: false,
        pending,
    };
    push_action(&mut actions, PeerAction::OpenConnection { peer: peer.clone(), media });
    push_action(&mut actions, PeerAction::CreateOffer { peer });
    (Some(fresh), actions)
}

/// A local description is ready: see [`on_offer_created`] and
/// [`on_answer_created`].
fn react_description_created(entry: Option<PeerEntry>, peer: String, sdp: String, kind: SdpKind) -> (r:
    (Option<PeerEntry>, Vec<PeerAction>))
    requires
        entry matches Some(e) ==> e.peer_id@ == peer@ && entry_inv(e@),
    ensures
        r.0 matches Some(e) ==> e.peer_id@ == peer@ && entry_inv(e@),
        kind == SdpKind::Offer ==> (entry_view(r.0), r.1.deep_view()) == on_offer_created(
            entry_view(entry),
            peer@,
            sdp@,
        ),
        kind == SdpKind::Answer ==> (entry_view(r.0), r.1.deep_view()) == on_answer_created(
            entry_view(entry),
            peer@,
            sdp@,
        ),
{
    let mut actions = empty_actions();
    match entry {
        Some(e) => {
            let due = match kind {
                SdpKind::Offer => e.state == PeerState::Offering,
                SdpKind::Answer => e.state == PeerState::GatheringLocalCandidates && e.local_kind
                    == SdpKind::Answer && e.local_sdp.is_none(),
            };
            if due {
                let PeerEntry { peer_id, room_id, state, local_kind, local_sdp, remote_set, pending } =
                    e;
                let next = PeerEntry {
                    peer_id,
                    room_id,
                    state: PeerState::GatheringLocalCandidates,
                    local_kind,
                    local_sdp: Some(sdp.clone()),
                    remote_set,
                    pending,
                };
                push_action(&mut actions, PeerAction::SetLocalDescription { peer, kind, sdp });
                (Some(next), actions)
            } else {
                (Some(e), actions)
            }
        },
        None => (None, actions),
    }
}

/// Gathering is complete: see [`on_gathering_complete`].
fn react_gathering_complete(local_id: &String, entry: Option<PeerEntry>, peer: String) -> (r: (
    Option<PeerEntry>,
    Vec<PeerAction>,
))
    requires
        entry matches Some(e) ==> e.peer_id@ == peer@ && entry_inv(e@),
    ensures
        r.0 matches Some(e) ==> e.peer_id@ == peer@ && entry_inv(e@),
        (entry_view(r.0), r.1.deep_view()) == on_gathering_complete(
            local_id@,
            entry_view(entry),
            peer@,
        ),
{
    let mut actions = empty_actions();
    match entry {
        Some(e) => {
            if e.state == PeerState::GatheringLocalCandidates && e.local_sdp.is_some() {
                let PeerEntry { peer_id, room_id, state, local_kind, local_sdp, remote_set, pending } =
                    e;
                let sdp = match &local_sdp {
                    Some(sdp) => sdp.clone(),
                    None => String::new(),
                };
                match local_kind {
                    SdpKind::Offer => {
                        push_action(
                            &mut actions,
                            PeerAction::Send(
                                CommandMessage::client(
                                    local_id,
                                    ClientCommand::SendOffer(peer, room_id.clone(), sdp),
                                ),
                            ),
                        );
                        let next = PeerEntry {
                            peer_id,
                            room_id,
                            state: PeerState::AwaitingRemote,
                            local_kind,
                            local_sdp,
                            remote_set,
                            pending,
                        };
                        (Some(next), actions)
                    },
                    SdpKind::Answer => {
                        push_action(
                            &mut actions,
                            PeerAction::Send(
                                CommandMessage::client(
                                    local_id,
                                    ClientCommand::SendAnswer(
                                        peer.clone(),
                                        room_id.clone(),
                                        sdp,
                                    ),
                                ),
                            ),
                        );
                        push_action(&mut actions, PeerAction::StartMedia { peer });
                        let next = PeerEntry {
                            peer_id,
                            room_id,
                            state: PeerState::Connected,
                            local_kind,
                            local_sdp,
                            remote_set,
                            pending,
                        };
                        (Some(next), actions)
                    },
                }
            } else {
                (Some(e), actions)
            }
        },
        None => (None, actions),
    }
}

/// An offer arrived: see [`on_incoming_offer`].
fn react_incoming_offer(
    entry: Option<PeerEntry>,
    peer: String,
    room: String,
    sdp: String,
    accepted: bool,
) -> (r: (Option<PeerEntry>, Vec<PeerAction>))
    requires
        entry matches Some(e) ==> e.peer_id@ == peer@ && entry_inv(e@),
    ensures
        r.0 matches Some(e) ==> e.peer_id@ == peer@ && entry_inv(e@),
        (entry_view(r.0), r.1.deep_view()) == on_incoming_offer(
            entry_view(entry),
            peer@,
            room@,
            sdp@,
            accepted,
        ),
{
    if !accepted {
        let actions = react_dismiss(&entry, peer, Some(PeerNotice::NegotiationFailed));
        return (None, actions);
    }
    let mut actions = empty_actions();
    let (connected, pending) = match entry {
        Some(e) => (e.state != PeerState::Idle, e.pending),
        None => (false, no_candidates()),
    };
    if !connected {
        push_action(
            &mut actions,
            PeerAction::OpenConnection { peer: peer.clone(), media: MediaSetup::Audio },
        );
    }
    push_action(
        &mut actions,
        PeerAction::SetRemoteDescription { peer: peer.clone(), kind: SdpKind::Offer, sdp },
    );
    push_replay(&mut actions, &peer, &pending);
    push_action(&mut actions, PeerAction::CreateAnswer { peer: peer.clone() });
    let next = PeerEntry {
        peer_id: peer,
        room_id: room,
        state: PeerState::GatheringLocalCandidates,
        local_kind: SdpKind::Answer,
        local_sdp: None,
        remote_set: true,
        pending: no_candidates(),
    };
    (Some(next), actions)
}

/// An answer arrived: see [`on_incoming_answer`].
fn react_incoming_answer(entry: Option<PeerEntry>, peer: String, sdp: String, accepted: bool) -> (r:
    (Option<PeerEntry>, Vec<PeerAction>))
    requires
        entry matches Some(e) ==> e.peer_id@ == peer@ && entry_inv(e@),
    ensures
        r.0 matches Some(e) ==> e.peer_id@ == peer@ && entry_inv(e@),
        (entry_view(r.0), r.1.deep_view()) == on_incoming_answer(
            entry_view(entry),
            peer@,
            sdp@,
            accepted,
        ),
{
    let waiting = match &entry {
        Some(e) => e.state == PeerState::AwaitingRemote,
        None => false,
    };
    if !waiting {
        let mut actions = empty_actions();
        push_action(&mut actions, PeerAction::Log { peer, notice: PeerNotice::StaleAnswer });
        return (entry, actions);
    }
    if !accepted {
        let actions = react_dismiss(&entry, peer, Some(PeerNotice::NegotiationFailed));
        return (None, actions);
    }
    let mut actions = empty_actions();
    match entry {
        Some(e) => {
            let PeerEntry { peer_id, room_id, state, local_kind, local_sdp, remote_set, pending } = e;
            push_action(
                &mut actions,
                PeerAction::SetRemoteDescription { peer: peer.clone(), kind: SdpKind::Answer, sdp },
            );
            push_replay(&mut actions, &peer, &pending);
            push_action(&mut actions, PeerAction::StartMedia { peer });
            let next = PeerEntry {
                peer_id,
                room_id,
                state: PeerState::Connected,
                local_kind,
                local_sdp,
                remote_set: true,
                pending: no_candidates(),
            };
            (Some(next), actions)
        },
        None => (None, actions),
    }
}

/// A remote candidate arrived: see [`on_incoming_candidate`].
fn react_incoming_candidate(
    entry: Option<PeerEntry>,
    peer: String,
    room: String,
    candidate: Option<IceCandidate>,
) -> (r: (Option<PeerEntry>, Vec<PeerAction>))
    requires
        entry matches Some(e) ==> e.peer_id@ == peer@ && entry_inv(e@),
    ensures
        r.0 matches Some(e) ==> e.peer_id@ == peer@ && entry_inv(e@),
        (entry_view(r.0), r.1.deep_view()) == on_incoming_candidate(
            entry_view(entry),
            peer@,
            room@,
            candidate.deep_view(),
        ),
{
    match candidate {
        None => {
            let actions = react_dismiss(&entry, peer, Some(PeerNotice::NegotiationFailed));
            (None, actions)
        },
        Some(c) => {
            let mut actions = empty_actions();
            match entry {
                Some(e) => {
                    if e.remote_set {
                        push_action(&mut actions, PeerAction::AddIceCandidate { peer, candidate: c });
                        (Some(e), actions)
                    } else {
                        let PeerEntry {
                            peer_id,
                            room_id,
                            state,
                            local_kind,
                            local_sdp,
                            remote_set,
                            mut pending,
                        } = e;
                        let ghost earlier = pending.deep_view();
                        pending.push(c);
                        proof {
                            assert(pending.deep_view() =~= earlier.push(c@));
                        }
                        let next = PeerEntry {
                            peer_id,
                            room_id,
                            state,
                            local_kind,
                            local_sdp,
                            remote_set,
                            pending,
                        };
                        (Some(next), actions)
                    }
                },
                None => {
                    let mut pending = no_candidates();
                    pending.push(c);
                    proof {
                        assert(pending.deep_view() =~= seq![c@]);
                    }
                    let next = PeerEntry {
                        peer_id: peer,
                        room_id: room,
                        state: PeerState::Idle,
                        local_kind: SdpKind::Offer,
                        local_sdp: None,
                        remote_set: false,
                        pending,
                    };
                    (Some(next), actions)
                },
            }
        },
    }
}

/// The table of peer connections, keyed by remote peer id. It holds at most
/// one entry per peer and changes only through the state transitions below.
pub struct PeerTable {
    local_id: String,
    entries: Vec<PeerEntry>,
}

impl View for PeerTable {
    type V = PeerTableView;

    closed spec fn view(&self) -> PeerTableView {
        PeerTableView { local_id: self.local_id@, peers: entries_map(self.entries@) }
    }
}

impl PeerTable {
    /// No peer has two entries, and every entry satisfies [`entry_inv`].
    pub closed spec fn well_formed(&self) -> bool {
        &&& distinct_keys(self.entries@)
        &&& forall|i: int| 0 <= i < self.entries@.len() ==> entry_inv(#[trigger] self.entries@[i]@)
    }

    /// A well-formed table has a well-formed value.
    pub proof fn lemma_view_inv(&self)
        requires
            self.well_formed(),
        ensures
            table_inv(self@),
            self@.peers.dom().finite(),
    {
        lemma_domain_size(self.entries@);
    }

    /// An empty table for the local identity `local_id`.
    pub fn new(local_id: String) -> (table: PeerTable)
        ensures
            table.well_formed(),
            table@.local_id == local_id@,
            table@.peers == Map::<Seq<char>, PeerEntryView>::empty(),
    {
        PeerTable { local_id, entries: Vec::new() }
    }

    /// The local identity.
    pub fn local_id(&self) -> (id: &String)
        ensures
            id@ == self@.local_id,
    {
        &self.local_id
    }

    /// The number of peers that have an entry.
    pub fn len(&self) -> (n: usize)
        requires
            self.well_formed(),
        ensures
            n == self@.peers.dom().len(),
    {
        proof {
            lemma_domain_size(self.entries@);
        }
        self.entries.len()
    }

    /// The position of the entry of `peer`.
    fn position(&self, peer: &String) -> (r: Option<usize>)
        ensures
            match r {
                Some(i) => i < self.entries@.len() && self.entries@[i as int].peer_id@ == peer@,
                None => !has_key(self.entries@, peer@),
            },
    {
        let mut i: usize = 0;
        while i < self.entries.len()
            invariant
                i <= self.entries@.len(),
                forall|j: int| 0 <= j < i ==> self.entries@[j].peer_id@ != peer@,
            decreases self.entries@.len() - i,
        {
            if self.entries[i].peer_id == *peer {
                return Some(i);
            }
            i += 1;
        }
        None
    }

    /// Whether `peer` has an entry.
    pub fn contains(&self, peer: &String) -> (r: bool)
        ensures
            r == self@.peers.contains_key(peer@),
    {
        self.position(peer).is_some()
    }

    /// The state of `peer`; `Idle` where it has no entry.
    pub fn state_of(&self, peer: &String) -> (state: PeerState)
        requires
            self.well_formed(),
        ensures
            state == state_of(self@, peer@),
    {
        match self.position(peer) {
            Some(i) => {
                self.entries[i].state
            },
            None => PeerState::Idle,
        }
    }

    /// The number of candidates buffered for `peer`.
    pub fn pending_len(&self, peer: &String) -> (n: usize)
        requires
            self.well_formed(),
        ensures
            n == pending_of(self@, peer@).len(),
    {
        match self.position(peer) {
            Some(i) => {
                self.entries[i].pending.len()
            },
            None => 0,
        }
    }

    /// The peers that are `Connected`, each once: those whose outbound track
    /// takes the next audio packet.
    pub fn connected_peers(&self) -> (peers: Vec<String>)
        requires
            self.well_formed(),
        ensures
            peers.deep_view().no_duplicates(),
            forall|p: Seq<char>|
                peers.deep_view().contains(p) <==> state_of(self@, p) == PeerState::Connected,
    {
        let ghost s = self.entries@;
        let mut peers: Vec<String> = Vec::new();
        let ghost mut origin: Seq<int> = Seq::empty();
        let mut i: usize = 0;
        while i < self.entries.len()
            invariant
                i <= self.entries@.len(),
                s == self.entries@,
                distinct_keys(s),
                origin.len() == peers.len(),
                forall|k: int|
                    0 <= k < origin.len() ==> 0 <= #[trigger] origin[k] < i && s[origin[k]].peer_id@
                        == peers.deep_view()[k] && s[origin[k]].state == PeerState::Connected,
                forall|a: int, b: int| 0 <= a < b < origin.len() ==> origin[a] < origin[b],
                forall|j: int|
                    0 <= j < i && (#[trigger] s[j]).state == PeerState::Connected
                        ==> peers.deep_view().contains(s[j].peer_id@),
            decreases self.entries@.len() - i,
        {
            if self.entries[i].state == PeerState::Connected {
                let ghost before = peers.deep_view();
                peers.push(self.entries[i].peer_id.clone());
                proof {
                    origin = origin.push(i as int);
                    assert forall|j: int|
                        0 <= j < i + 1 && (#[trigger] s[j]).state
                            == PeerState::Connected implies peers.deep_view().contains(
                        s[j].peer_id@,
                    ) by {
                        if j < i {
                            let k = choose|k: int| 0 <= k < before.len() && before[k] == s[j].peer_id@;
                            assert(peers.deep_view()[k] == s[j].peer_id@);
                        } else {
                            assert(peers.deep_view()[before.len() as int] == s[j].peer_id@);
                        }
                    }
                }
            }
            i += 1;
        }
        proof {
            let out = peers.deep_view();
            assert forall|a: int, b: int| 0 <= a < out.len() && 0 <= b < out.len() && a
                != b implies out[a] != out[b] by {
                if a < b {
                    assert(origin[a] < origin[b]);
                }
            }
            assert forall|p: Seq<char>| out.contains(p) <==> state_of(self@, p)
                == PeerState::Connected by {
                if out.contains(p) {
                    let k = choose|k: int| 0 <= k < out.len() && out[k] == p;
                    lemma_lookup(s, origin[k]);
                }
            }
        }
        peers
    }

    /// Removes the entry of `peer` and hands it out.
    fn take(&mut self, peer: &String) -> (e: Option<PeerEntry>)
        requires
            old(self).well_formed(),
        ensures
            final(self).well_formed(),
            final(self)@ == with_entry(old(self)@, peer@, None),
            match e {
                Some(x) => entry_of(old(self)@, peer@) == Some(x@) && x.peer_id@ == peer@
                    && entry_inv(x@),
                None => entry_of(old(self)@, peer@) is None,
            },
    {
        match self.position(peer) {
            Some(i) => {
                let ghost before = self.entries@;
                let e = self.entries.remove(i);
                proof {
                    let after = self.entries@;
                    assert forall|k: Seq<char>| has_key(after, k) <==> (has_key(before, k) && k
                        != peer@) by {
                        if has_key(before, k) && k != peer@ {
                            let b = index_of(before, k);
                            let j = if b < i { b } else { b - 1 };
                            assert(after[j].peer_id@ == k);
                        }
                    }
                    assert(entries_map(after) =~= entries_map(before).remove(peer@));
                }
                Some(e)
            },
            None => {
                proof {
                    assert(entries_map(self.entries@) =~= entries_map(self.entries@).remove(peer@));
                }
                None
            },
        }
    }

    /// Stores `entry` for a peer that has none.
    fn put(&mut self, entry: PeerEntry)
        requires
            old(self).well_formed(),
            !old(self)@.peers.contains_key(entry.peer_id@),
            entry_inv(entry@),
        ensures
            final(self).well_formed(),
            final(self)@ == with_entry(old(self)@, entry.peer_id@, Some(entry@)),
    {
        let ghost before = self.entries@;
        let ghost k = entry.peer_id@;
        let ghost v = entry@;
        self.entries.push(entry);
        proof {
            let after = self.entries@;
            lemma_lookup(after, after.len() - 1);
            assert forall|q: Seq<char>| has_key(after, q) <==> (has_key(before, q) || q == k) by {
                if has_key(before, q) {
                    let j = index_of(before, q);
                    assert(after[j].peer_id@ == q);
                }
            }
            assert(entries_map(after) =~= entries_map(before).insert(k, v));
        }
    }

    /// Stores what an event left of the entry that [`Self::take`] handed out.
    fn settle(&mut self, before: Ghost<PeerTableView>, peer: Ghost<Seq<char>>, entry: Option<PeerEntry>)
        requires
            old(self).well_formed(),
            old(self)@ == with_entry(before@, peer@, None),
            entry matches Some(e) ==> e.peer_id@ == peer@ && entry_inv(e@),
        ensures
            final(self).well_formed(),
            final(self)@ == with_entry(before@, peer@, entry_view(entry)),
    {
        proof {
            lemma_with_entry_twice(before@, peer@, None, entry_view(entry));
        }
        match entry {
            Some(e) => {
                self.put(e);
            },
            None => {},
        }
    }

    /// Outbound connect to `peer` in `room`. A peer without a connection gets
    /// an entry in `Offering`, a connection set up with `media`, and a request
    /// for an offer; a peer that already has a connection is left alone.
    pub fn open_connection(&mut self, peer: String, room: String, media: MediaSetup) -> (actions:
        Vec<PeerAction>)
        requires
            old(self).well_formed(),
        ensures
            final(self).well_formed(),
            performs(
                old(self)@,
                PeerEvent::Connect { peer: peer@, room: room@, media },
                final(self)@,
                actions.deep_view(),
            ),
    {
        let ghost before = self@;
        let entry = self.take(&peer);
        let (next, actions) = react_connect(entry, peer, room, media);
        self.settle(Ghost(before), Ghost(peer@), next);
        actions
    }

    /// The engine produced the local offer for `peer`.
    pub fn offer_created(&mut self, peer: String, sdp: String) -> (actions: Vec<PeerAction>)
        requires
            old(self).well_formed(),
        ensures
            final(self).well_formed(),
            performs(
                old(self)@,
                PeerEvent::OfferCreated { peer: peer@, sdp: sdp@ },
                final(self)@,
                actions.deep_view(),
            ),
    {
        let ghost before = self@;
        let entry = self.take(&peer);
        let (next, actions) = react_description_created(entry, peer, sdp, SdpKind::Offer);
        self.settle(Ghost(before), Ghost(peer@), next);
        actions
    }

    /// The engine produced the local answer for `peer`.
    pub fn answer_created(&mut self, peer: String, sdp: String) -> (actions: Vec<PeerAction>)
        requires
            old(self).well_formed(),
        ensures
            final(self).well_formed(),
            performs(
                old(self)@,
                PeerEvent::AnswerCreated { peer: peer@, sdp: sdp@ },
                final(self)@,
                actions.deep_view(),
            ),
    {
        let ghost before = self@;
        let entry = self.take(&peer);
        let (next, actions) = react_description_created(entry, peer, sdp, SdpKind::Answer);
        self.settle(Ghost(before), Ghost(peer@), next);
        actions
    }

    /// The engine found a local candidate for `peer` whose JSON text is
    /// `encoded`, or has none where it could not be written. While the peer
    /// gathers, the text is sent to it at once.
    pub fn candidate_encoded(&mut self, peer: String, encoded: Option<String>) -> (actions: Vec<
        PeerAction,
    >)
        requires
            old(self).well_formed(),
        ensures
            final(self).well_formed(),
            performs(
                old(self)@,
                PeerEvent::LocalCandidate { peer: peer@, encoded: encoded.deep_view() },
                final(self)@,
                actions.deep_view(),
            ),
    {
        let ghost before = self@;
        let entry = self.take(&peer);
        let mut actions: Vec<PeerAction> = Vec::new();
        match (&entry, encoded) {
            (Some(e), Some(text)) => {
                if e.state == PeerState::GatheringLocalCandidates && e.local_sdp.is_some() {
                    actions.push(
                        PeerAction::Send(
                            CommandMessage::client(
                                &self.local_id,
                                ClientCommand::SendIceCandidate(peer.clone(), e.room_id.clone(), text),
                            ),
                        ),
                    );
                }
            },
            _ => {},
        }
        self.settle(Ghost(before), Ghost(peer@), entry);
        proof {
            assert(actions.deep_view() =~= on_local_candidate(
                before.local_id,
                entry_of(before, peer@),
                peer@,
                encoded.deep_view(),
            ).1);
        }
        actions
    }

    /// The engine found the local candidate `candidate` for `peer`. While the
    /// peer gathers, the candidate is sent to it at once, as the JSON text that
    /// the engine's serializer gives for it.
    pub fn local_candidate(&mut self, peer: String, candidate: &IceCandidate) -> (actions: Vec<
        PeerAction,
    >)
        requires
            old(self).well_formed(),
        ensures
            final(self).well_formed(),
            performs(
                old(self)@,
                PeerEvent::LocalCandidate { peer: peer@, encoded: Some(candidate_json(candidate@)) },
                final(self)@,
                actions.deep_view(),
            ),
    {
        let encoded = encode_candidate(candidate);
        self.candidate_encoded(peer, encoded)
    }

    /// The engine has no further local candidates for `peer`. A gathering
    /// peer's local description is sent: the offering side then awaits the
    /// answer, the answering side is connected.
    pub fn gathering_complete(&mut self, peer: String) -> (actions: Vec<PeerAction>)
        requires
            old(self).well_formed(),
        ensures
            final(self).well_formed(),
            performs(
                old(self)@,
                PeerEvent::GatheringComplete { peer: peer@ },
                final(self)@,
                actions.deep_view(),
            ),
    {
        let ghost before = self@;
        let entry = self.take(&peer);
        let (next, actions) = react_gathering_complete(&self.local_id, entry, peer);
        self.settle(Ghost(before), Ghost(peer@), next);
        actions
    }

    /// An offer from `peer` arrived and the engine's verdict on its SDP is
    /// `accepted`.
    pub fn offer_received(&mut self, peer: String, room: String, sdp: String, accepted: bool) -> (actions:
        Vec<PeerAction>)
        requires
            old(self).well_formed(),
        ensures
            final(self).well_formed(),
            performs(
                old(self)@,
                PeerEvent::IncomingOffer { peer: peer@, room: room@, sdp: sdp@, accepted },
                final(self)@,
                actions.deep_view(),
            ),
    {
        let ghost before = self@;
        let entry = self.take(&peer);
        let (next, actions) = react_incoming_offer(entry, peer, room, sdp, accepted);
        self.settle(Ghost(before), Ghost(peer@), next);
        actions
    }

    /// An answer from `peer` arrived and the engine's verdict on its SDP is
    /// `accepted`.
    pub fn answer_received(&mut self, peer: String, sdp: String, accepted: bool) -> (actions: Vec<
        PeerAction,
    >)
        requires
            old(self).well_formed(),
        ensures
            final(self).well_formed(),
            performs(
                old(self)@,
                PeerEvent::IncomingAnswer { peer: peer@, sdp: sdp@, accepted },
                final(self)@,
                actions.deep_view(),
            ),
    {
        let ghost before = self@;
        let entry = self.take(&peer);
        let (next, actions) = react_incoming_answer(entry, peer, sdp, accepted);
        self.settle(Ghost(before), Ghost(peer@), next);
        actions
    }

    /// A remote candidate for `peer` arrived; `candidate` is what its text
    /// holds, or nothing where it could not be read.
    pub fn candidate_received(
        &mut self,
        peer: String,
        room: String,
        candidate: Option<IceCandidate>,
    ) -> (actions: Vec<PeerAction>)
        requires
            old(self).well_formed(),
        ensures
            final(self).well_formed(),
            performs(
                old(self)@,
                PeerEvent::IncomingIceCandidate {
                    peer: peer@,
                    room: room@,
                    candidate: candidate.deep_view(),
                },
                final(self)@,
                actions.deep_view(),
            ),
    {
        let ghost before = self@;
        let entry = self.take(&peer);
        let (next, actions) = react_incoming_candidate(entry, peer, room, candidate);
        self.settle(Ghost(before), Ghost(peer@), next);
        actions
    }

    /// The engine reported `state` for the connection of `peer`. A failed or
    /// closed connection removes the peer.
    pub fn link_changed(&mut self, peer: String, state: LinkState) -> (actions: Vec<PeerAction>)
        requires
            old(self).well_formed(),
        ensures
            final(self).well_formed(),
            performs(
                old(self)@,
                PeerEvent::LinkChanged { peer: peer@, state },
                final(self)@,
                actions.deep_view(),
            ),
    {
        let ghost before = self@;
        let entry = self.take(&peer);
        if state.is_terminal() && entry.is_some() {
            react_dismiss(&entry, peer, Some(PeerNotice::ConnectionLost))
        } else {
            self.settle(Ghost(before), Ghost(peer@), entry);
            let actions: Vec<PeerAction> = Vec::new();
            assert(actions.deep_view() =~= Seq::<PeerActionView>::empty());
            actions
        }
    }

    /// The engine refused an operation for `peer`: the peer fails and its
    /// entry is removed.
    pub fn engine_rejected(&mut self, peer: String) -> (actions: Vec<PeerAction>)
        requires
            old(self).well_formed(),
        ensures
            final(self).well_formed(),
            performs(
                old(self)@,
                PeerEvent::EngineRejected { peer: peer@ },
                final(self)@,
                actions.deep_view(),
            ),
    {
        let entry = self.take(&peer);
        react_dismiss(&entry, peer, Some(PeerNotice::NegotiationFailed))
    }

    /// `peer` left the room: its entry is removed and its connection closed.
    pub fn peer_left(&mut self, peer: String) -> (actions: Vec<PeerAction>)
        requires
            old(self).well_formed(),
        ensures
            final(self).well_formed(),
            performs(
                old(self)@,
                PeerEvent::PeerLeft { peer: peer@ },
                final(self)@,
                actions.deep_view(),
            ),
    {
        let entry = self.take(&peer);
        react_dismiss(&entry, peer, None)
    }
}

} // verus!
