//! What holds of every run of the peer state machine.

use crate::commands::ClientCommandView;
use crate::engine::{IceCandidateView, MediaSetup, SdpKind};
use crate::peer::model::{
    awaits_answer, dismiss, entry_of, envelope, has_connection, lemma_with_same_entry, pending_of,
    react, replay, state_of, step, table_inv, PeerActionView, PeerEntryView, PeerEvent, PeerNotice,
    PeerState, PeerTableView,
};
use vstd::prelude::*;

verus! {

/// The table and the actions after a sequence of events, first event first.
pub open spec fn run(t: PeerTableView, events: Seq<PeerEvent>) -> (
    PeerTableView,
    Seq<PeerActionView>,
)
    decreases events.len(),
{
    if events.len() == 0 {
        (t, Seq::empty())
    } else {
        let before = run(t, events.drop_last());
        let last = step(before.0, events.last());
        (last.0, before.1 + last.1)
    }
}

/// The candidates that `actions` apply to the connection of `peer`, in order.
pub open spec fn applied(actions: Seq<PeerActionView>, peer: Seq<char>) -> Seq<IceCandidateView>
    decreases actions.len(),
{
    if actions.len() == 0 {
        Seq::empty()
    } else {
        let rest = applied(actions.drop_last(), peer);
        match actions.last() {
            PeerActionView::AddIceCandidate { peer: p, candidate } if p == peer => rest.push(
                candidate,
            ),
            _ => rest,
        }
    }
}

/// The readable candidates that arrive from `peer` in `events`, in order.
pub open spec fn arrived(events: Seq<PeerEvent>, peer: Seq<char>) -> Seq<IceCandidateView>
    decreases events.len(),
{
    if events.len() == 0 {
        Seq::empty()
    } else {
        arrived(events.drop_last(), peer) + arrival(events.last(), peer)
    }
}

/// The readable candidate that `event` brings from `peer`, if any.
pub open spec fn arrival(event: PeerEvent, peer: Seq<char>) -> Seq<IceCandidateView> {
    match event {
        PeerEvent::IncomingIceCandidate { peer: p, candidate: Some(c), .. } if p == peer => seq![c],
        _ => Seq::empty(),
    }
}

/// Whether `event` destroys the entry of `peer` while candidates are still
/// buffered in it.
pub open spec fn loses_buffer(t: PeerTableView, event: PeerEvent, peer: Seq<char>) -> bool {
    &&& event.peer() == peer
    &&& pending_of(t, peer).len() > 0
    &&& entry_of(step(t, event).0, peer) is None
}

/// No run changes whose table it is.
pub proof fn lemma_run_keeps_local_id(t: PeerTableView, events: Seq<PeerEvent>)
    ensures
        run(t, events).0.local_id == t.local_id,
    decreases events.len(),
{
    if events.len() > 0 {
        lemma_run_keeps_local_id(t, events.drop_last());
    }
}

/// Every event keeps the table's invariant.
pub proof fn lemma_step_keeps_inv(t: PeerTableView, event: PeerEvent)
    requires
        table_inv(t),
    ensures
        table_inv(step(t, event).0),
{
}

/// Every run keeps the table's invariant.
pub proof fn lemma_run_keeps_inv(t: PeerTableView, events: Seq<PeerEvent>)
    requires
        table_inv(t),
    ensures
        table_inv(run(t, events).0),
    decreases events.len(),
{
    if events.len() > 0 {
        lemma_run_keeps_inv(t, events.drop_last());
    }
}

/// What two lists of actions apply is what the first applies, followed by
/// what the second applies.
proof fn lemma_applied_concat(a: Seq<PeerActionView>, b: Seq<PeerActionView>, peer: Seq<char>)
    ensures
        applied(a + b, peer) == applied(a, peer) + applied(b, peer),
    decreases b.len(),
{
    if b.len() > 0 {
        assert((a + b).drop_last() =~= a + b.drop_last());
        lemma_applied_concat(a, b.drop_last(), peer);
    }
}

/// What a single action applies.
proof fn lemma_applied_one(action: PeerActionView, peer: Seq<char>)
    ensures
        applied(seq![action], peer) == match action {
            PeerActionView::AddIceCandidate { peer: p, candidate } if p == peer => seq![candidate],
            _ => Seq::<IceCandidateView>::empty(),
        },
{
    let s = seq![action];
    assert(applied(s.drop_last(), peer) =~= Seq::<IceCandidateView>::empty());
}

/// A replay applies exactly the replayed candidates, to the peer it is for.
proof fn lemma_applied_replay(from: Seq<char>, pending: Seq<IceCandidateView>, peer: Seq<char>)
    ensures
        applied(replay(from, pending), peer) == if from == peer {
            pending
        } else {
            Seq::<IceCandidateView>::empty()
        },
    decreases pending.len(),
{
    let all = replay(from, pending);
    if pending.len() > 0 {
        assert(all.drop_last() =~= replay(from, pending.drop_last()));
        lemma_applied_replay(from, pending.drop_last(), peer);
    }
}

/// The candidates that one event applies to `peer`, given the entry it meets.
proof fn lemma_applied_by_react(
    local_id: Seq<char>,
    entry: Option<PeerEntryView>,
    event: PeerEvent,
    peer: Seq<char>,
)
    ensures
        applied(react(local_id, entry, event).1, peer) == if event.peer() != peer {
            Seq::<IceCandidateView>::empty()
        } else {
            match event {
                PeerEvent::IncomingOffer { accepted: true, .. } => match entry {
                    Some(e) => e.pending,
                    None => Seq::empty(),
                },
                PeerEvent::IncomingAnswer { accepted: true, .. } => match entry {
                    Some(e) if e.state == PeerState::AwaitingRemote => e.pending,
                    _ => Seq::empty(),
                },
                PeerEvent::IncomingIceCandidate { candidate: Some(c), .. } => match entry {
                    Some(e) if e.remote_set => seq![c],
                    _ => Seq::empty(),
                },
                _ => Seq::empty(),
            }
        },
{
    let actions = react(local_id, entry, event).1;
    let p = event.peer();
    let none = Seq::<PeerActionView>::empty();
    // Closing a connection, as a departure does, applies nothing.
    lemma_applied_one(PeerActionView::CloseConnection { peer: p }, peer);
    match event {
        PeerEvent::Connect { peer: q, room, media } => {
            if !has_connection(entry) {
                let a = seq![PeerActionView::OpenConnection { peer: q, media: media }];
                let b = seq![PeerActionView::CreateOffer { peer: q }];
                lemma_applied_one(a[0], peer);
                lemma_applied_one(b[0], peer);
                lemma_applied_concat(a, b, peer);
                assert(actions =~= a + b);
            }
        },
        PeerEvent::OfferCreated { peer: q, sdp } => {
            let a = seq![
                PeerActionView::SetLocalDescription { peer: q, kind: SdpKind::Offer, sdp: sdp },
            ];
            lemma_applied_one(a[0], peer);
        },
        PeerEvent::AnswerCreated { peer: q, sdp } => {
            let a = seq![
                PeerActionView::SetLocalDescription { peer: q, kind: SdpKind::Answer, sdp: sdp },
            ];
            lemma_applied_one(a[0], peer);
        },
        PeerEvent::LocalCandidate { peer: q, encoded } => {
            if actions.len() > 0 {
                lemma_applied_one(actions[0], peer);
            }
        },
        PeerEvent::GatheringComplete { peer: q } => {
            if actions.len() == 1 {
                lemma_applied_one(actions[0], peer);
            } else if actions.len() == 2 {
                let a = seq![actions[0]];
                let b = seq![actions[1]];
                lemma_applied_one(actions[0], peer);
                lemma_applied_one(actions[1], peer);
                lemma_applied_concat(a, b, peer);
                assert(actions =~= a + b);
            }
        },
        PeerEvent::IncomingOffer { peer: q, room, sdp, accepted } => {
            if accepted {
                let open = if has_connection(entry) {
                    none
                } else {
                    seq![PeerActionView::OpenConnection { peer: q, media: MediaSetup::Audio }]
                };
                let set = seq![
                    PeerActionView::SetRemoteDescription { peer: q, kind: SdpKind::Offer, sdp: sdp },
                ];
                let pending = match entry {
                    Some(e) => e.pending,
                    None => Seq::empty(),
                };
                let again = replay(q, pending);
                let ask = seq![PeerActionView::CreateAnswer { peer: q }];
                if !has_connection(entry) {
                    lemma_applied_one(open[0], peer);
                }
                lemma_applied_one(set[0], peer);
                lemma_applied_one(ask[0], peer);
                lemma_applied_replay(q, pending, peer);
                lemma_applied_concat(open, set, peer);
                lemma_applied_concat(open + set, again, peer);
                lemma_applied_concat(open + set + again, ask, peer);
            } else {
                lemma_dismiss_applies_nothing(entry, q, peer);
            }
        },
        PeerEvent::IncomingAnswer { peer: q, sdp, accepted } => {
            match entry {
                Some(e) if e.state == PeerState::AwaitingRemote => {
                    if accepted {
                        let set = seq![
                            PeerActionView::SetRemoteDescription {
                                peer: q,
                                kind: SdpKind::Answer,
                                sdp: sdp,
                            },
                        ];
                        let again = replay(q, e.pending);
                        let start = seq![PeerActionView::StartMedia { peer: q }];
                        lemma_applied_one(set[0], peer);
                        lemma_applied_one(start[0], peer);
                        lemma_applied_replay(q, e.pending, peer);
                        lemma_applied_concat(set, again, peer);
                        lemma_applied_concat(set + again, start, peer);
                    } else {
                        lemma_dismiss_applies_nothing(entry, q, peer);
                    }
                },
                _ => {
                    lemma_applied_one(actions[0], peer);
                },
            }
        },
        PeerEvent::IncomingIceCandidate { peer: q, room, candidate } => {
            match candidate {
                None => {
                    lemma_dismiss_applies_nothing(entry, q, peer);
                },
                Some(c) => {
                    if actions.len() > 0 {
                        lemma_applied_one(actions[0], peer);
                    }
                },
            }
        },
        PeerEvent::LinkChanged { peer: q, state } => {
            lemma_dismiss_applies_nothing(entry, q, peer);
        },
        PeerEvent::EngineRejected { peer: q } => {
            lemma_dismiss_applies_nothing(entry, q, peer);
        },
        PeerEvent::PeerLeft { .. } => {},
    }
}

/// Removing a peer applies no candidate.
proof fn lemma_dismiss_applies_nothing(
    entry: Option<PeerEntryView>,
    from: Seq<char>,
    peer: Seq<char>,
)
    ensures
        forall|notice: Option<PeerNotice>|
            applied(#[trigger] dismiss(entry, from, notice).1, peer)
                == Seq::<IceCandidateView>::empty(),
{
    assert forall|notice: Option<PeerNotice>|
        applied(#[trigger] dismiss(entry, from, notice).1, peer)
            == Seq::<IceCandidateView>::empty() by {
        let actions = dismiss(entry, from, notice).1;
        if actions.len() == 1 {
            lemma_applied_one(actions[0], peer);
        } else if actions.len() == 2 {
            let a = seq![actions[0]];
            let b = seq![actions[1]];
            lemma_applied_one(actions[0], peer);
            lemma_applied_one(actions[1], peer);
            lemma_applied_concat(a, b, peer);
        }
    }
}

/// One event neither drops nor duplicates a candidate of `peer`: what was
/// buffered before, followed by what the event brings, is what the event
/// applies, followed by what is buffered after.
pub proof fn lemma_step_conserves_candidates(t: PeerTableView, event: PeerEvent, peer: Seq<char>)
    requires
        table_inv(t),
        !loses_buffer(t, event, peer),
    ensures
        pending_of(t, peer) + arrival(event, peer) == applied(step(t, event).1, peer) + pending_of(
            step(t, event).0,
            peer,
        ),
{
    let p = event.peer();
    let entry = entry_of(t, p);
    lemma_applied_by_react(t.local_id, entry, event, peer);
}

/// Remote candidates of `peer` are never dropped and never duplicated: over
/// any run in which no event destroys the peer's entry while candidates are
/// buffered in it, the candidates buffered at the start followed by those that
/// arrived are, in the same order, those that were applied to the engine
/// followed by those still buffered. Nothing stays buffered once a remote
/// description is set.
pub proof fn lemma_candidates_conserved(t: PeerTableView, events: Seq<PeerEvent>, peer: Seq<char>)
    requires
        table_inv(t),
        forall|i: int|
            0 <= i < events.len() ==> !loses_buffer(
                run(t, #[trigger] events.take(i)).0,
                events[i],
                peer,
            ),
    ensures
        table_inv(run(t, events).0),
        pending_of(t, peer) + arrived(events, peer) == applied(run(t, events).1, peer) + pending_of(
            run(t, events).0,
            peer,
        ),
        entry_of(run(t, events).0, peer) matches Some(e) && e.remote_set ==> pending_of(
            run(t, events).0,
            peer,
        ).len() == 0,
    decreases events.len(),
{
    if events.len() > 0 {
        let front = events.drop_last();
        assert forall|i: int| 0 <= i < front.len() implies !loses_buffer(
            run(t, #[trigger] front.take(i)).0,
            front[i],
            peer,
        ) by {
            assert(front.take(i) =~= events.take(i));
        }
        lemma_candidates_conserved(t, front, peer);
        let mid = run(t, front);
        lemma_step_conserves_candidates(mid.0, events.last(), peer);
        let last = step(mid.0, events.last());
        lemma_applied_concat(mid.1, last.1, peer);
        assert(pending_of(t, peer) + arrived(events, peer) =~= (pending_of(t, peer) + arrived(
            front,
            peer,
        )) + arrival(events.last(), peer));
    }
}

/// The step that sets a remote description applies the buffered candidates
/// right behind it, in arrival order, and leaves the buffer empty.
pub proof fn lemma_replay_follows_remote_description(
    t: PeerTableView,
    peer: Seq<char>,
    room: Seq<char>,
    sdp: Seq<char>,
)
    ensures
        ({
            let event = PeerEvent::IncomingOffer { peer, room, sdp, accepted: true };
            let lead: int = if has_connection(entry_of(t, peer)) {
                0
            } else {
                1
            };
            let pending = pending_of(t, peer);
            let actions = step(t, event).1;
            &&& actions.len() == lead + 2 + pending.len()
            &&& actions[lead] == PeerActionView::SetRemoteDescription {
                peer,
                kind: SdpKind::Offer,
                sdp,
            }
            &&& actions.subrange(lead + 1, lead + 1 + pending.len()) == replay(peer, pending)
            &&& pending_of(step(t, event).0, peer).len() == 0
        }),
        ({
            let event = PeerEvent::IncomingAnswer { peer, sdp, accepted: true };
            let pending = pending_of(t, peer);
            let actions = step(t, event).1;
            awaits_answer(entry_of(t, peer)) ==> {
                &&& actions.len() == 2 + pending.len()
                &&& actions[0] == PeerActionView::SetRemoteDescription {
                    peer,
                    kind: SdpKind::Answer,
                    sdp,
                }
                &&& actions.subrange(1, 1 + pending.len() as int) == replay(peer, pending)
                &&& pending_of(step(t, event).0, peer).len() == 0
            }
        }),
{
}

/// An accepted offer from a peer without an entry creates exactly one entry,
/// for that peer; an accepted offer from a peer that has an entry, whatever
/// its state, creates none.
pub proof fn lemma_offer_entry_count(
    t: PeerTableView,
    peer: Seq<char>,
    room: Seq<char>,
    sdp: Seq<char>,
)
    requires
        t.peers.dom().finite(),
    ensures
        ({
            let after = step(t, PeerEvent::IncomingOffer { peer, room, sdp, accepted: true }).0;
            &&& after.peers.dom() == t.peers.dom().insert(peer)
            &&& after.peers.dom().finite()
            &&& !t.peers.contains_key(peer) ==> after.peers.dom().len() == t.peers.dom().len() + 1
            &&& t.peers.contains_key(peer) ==> after.peers.dom().len() == t.peers.dom().len()
            &&& state_of(after, peer) == PeerState::GatheringLocalCandidates
        }),
{
}

/// Outbound connect to a peer without a connection runs through `Offering`,
/// `GatheringLocalCandidates` and `AwaitingRemote`, and the offer is sent
/// exactly once: when gathering completes, and not when completion is
/// reported again.
pub proof fn lemma_outbound_connect(
    t: PeerTableView,
    peer: Seq<char>,
    room: Seq<char>,
    media: MediaSetup,
    sdp: Seq<char>,
)
    requires
        !has_connection(entry_of(t, peer)),
    ensures
        ({
            let s1 = step(t, PeerEvent::Connect { peer, room, media });
            let s2 = step(s1.0, PeerEvent::OfferCreated { peer, sdp });
            let s3 = step(s2.0, PeerEvent::GatheringComplete { peer });
            let s4 = step(s3.0, PeerEvent::GatheringComplete { peer });
            &&& state_of(s1.0, peer) == PeerState::Offering
            &&& s1.1 == seq![
                PeerActionView::OpenConnection { peer, media },
                PeerActionView::CreateOffer { peer },
            ]
            &&& state_of(s2.0, peer) == PeerState::GatheringLocalCandidates
            &&& s2.1 == seq![
                PeerActionView::SetLocalDescription { peer, kind: SdpKind::Offer, sdp },
            ]
            &&& state_of(s3.0, peer) == PeerState::AwaitingRemote
            &&& s3.1 == seq![envelope(t.local_id, ClientCommandView::SendOffer(peer, room, sdp))]
            &&& s4.0 == s3.0
            &&& s4.1 == Seq::<PeerActionView>::empty()
        }),
{
    let s1 = step(t, PeerEvent::Connect { peer, room, media });
    let s2 = step(s1.0, PeerEvent::OfferCreated { peer, sdp });
    let s3 = step(s2.0, PeerEvent::GatheringComplete { peer });
    lemma_with_same_entry(s3.0, peer);
}

/// An accepted offer from a peer without a connection leaves the peer in
/// `GatheringLocalCandidates`. Until the answer exists nothing is sent, not
/// even where the end of gathering is reported; the answer becomes the local
/// description; and the end of gathering then sends the answer exactly once
/// and connects the peer.
pub proof fn lemma_inbound_offer(
    t: PeerTableView,
    peer: Seq<char>,
    room: Seq<char>,
    offer: Seq<char>,
    answer: Seq<char>,
)
    requires
        !has_connection(entry_of(t, peer)),
    ensures
        ({
            let s1 = step(t, PeerEvent::IncomingOffer { peer, room, sdp: offer, accepted: true });
            let early = step(s1.0, PeerEvent::GatheringComplete { peer });
            let s2 = step(s1.0, PeerEvent::AnswerCreated { peer, sdp: answer });
            let s3 = step(s2.0, PeerEvent::GatheringComplete { peer });
            let s4 = step(s3.0, PeerEvent::GatheringComplete { peer });
            &&& state_of(s1.0, peer) == PeerState::GatheringLocalCandidates
            &&& early.0 == s1.0
            &&& early.1 == Seq::<PeerActionView>::empty()
            &&& state_of(s2.0, peer) == PeerState::GatheringLocalCandidates
            &&& s2.1 == seq![
                PeerActionView::SetLocalDescription { peer, kind: SdpKind::Answer, sdp: answer },
            ]
            &&& state_of(s3.0, peer) == PeerState::Connected
            &&& s3.1 == seq![
                envelope(t.local_id, ClientCommandView::SendAnswer(peer, room, answer)),
                PeerActionView::StartMedia { peer },
            ]
            &&& s4.0 == s3.0
            &&& s4.1 == Seq::<PeerActionView>::empty()
        }),
{
    let s1 = step(t, PeerEvent::IncomingOffer { peer, room, sdp: offer, accepted: true });
    let s2 = step(s1.0, PeerEvent::AnswerCreated { peer, sdp: answer });
    let s3 = step(s2.0, PeerEvent::GatheringComplete { peer });
    lemma_with_same_entry(s1.0, peer);
    lemma_with_same_entry(s3.0, peer);
}

} // verus!
