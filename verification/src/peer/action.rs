//! What the peer state machine asks its caller to do.

use crate::commands::CommandMessage;
use crate::engine::{IceCandidate, MediaSetup, SdpKind};
use crate::peer::model::{PeerActionView, PeerNotice};
use vstd::prelude::*;

verus! {

/// Something the caller has to do on the session engine or the signaling
/// channel. Actions are performed in the order in which they are returned.
#[derive(Debug, PartialEq, Eq)]
pub enum PeerAction {
    /// Create the engine connection for `peer`, set up with `media`.
    OpenConnection { peer: String, media: MediaSetup },
    /// Ask the engine for an offer.
    CreateOffer { peer: String },
    /// Ask the engine for an answer.
    CreateAnswer { peer: String },
    SetLocalDescription { peer: String, kind: SdpKind, sdp: String },
    SetRemoteDescription { peer: String, kind: SdpKind, sdp: String },
    AddIceCandidate { peer: String, candidate: IceCandidate },
    /// Send an envelope over the signaling channel.
    Send(CommandMessage),
    /// Attach capture and playback to the connection of `peer`.
    StartMedia { peer: String },
    /// Drop the engine connection of `peer`.
    CloseConnection { peer: String },
    /// Tell the operator what happened to `peer`.
    Log { peer: String, notice: PeerNotice },
}

impl View for PeerAction {
    type V = PeerActionView;

    open spec fn view(&self) -> PeerActionView {
        match self {
            PeerAction::OpenConnection { peer, media } => PeerActionView::OpenConnection {
                peer: peer@,
                media: *media,
            },
            PeerAction::CreateOffer { peer } => PeerActionView::CreateOffer { peer: peer@ },
            PeerAction::CreateAnswer { peer } => PeerActionView::CreateAnswer { peer: peer@ },
            PeerAction::SetLocalDescription { peer, kind, sdp } =>
                PeerActionView::SetLocalDescription { peer: peer@, kind: *kind, sdp: sdp@ },
            PeerAction::SetRemoteDescription { peer, kind, sdp } =>
                PeerActionView::SetRemoteDescription { peer: peer@, kind: *kind, sdp: sdp@ },
            PeerAction::AddIceCandidate { peer, candidate } => PeerActionView::AddIceCandidate {
                peer: peer@,
                candidate: candidate@,
            },
            PeerAction::Send(message) => PeerActionView::Send(message@),
            PeerAction::StartMedia { peer } => PeerActionView::StartMedia { peer: peer@ },
            PeerAction::CloseConnection { peer } => PeerActionView::CloseConnection { peer: peer@ },
            PeerAction::Log { peer, notice } => PeerActionView::Log { peer: peer@, notice: *notice },
        }
    }
}

impl DeepView for PeerAction {
    type V = PeerActionView;

    open spec fn deep_view(&self) -> PeerActionView {
        self@
    }
}

impl Clone for PeerAction {
    fn clone(&self) -> (r: Self)
        ensures
            r@ == self@,
    {
        match self {
            PeerAction::OpenConnection { peer, media } => PeerAction::OpenConnection {
                peer: peer.clone(),
                media: *media,
            },
            PeerAction::CreateOffer { peer } => PeerAction::CreateOffer { peer: peer.clone() },
            PeerAction::CreateAnswer { peer } => PeerAction::CreateAnswer { peer: peer.clone() },
            PeerAction::SetLocalDescription { peer, kind, sdp } => PeerAction::SetLocalDescription {
                peer: peer.clone(),
                kind: *kind,
                sdp: sdp.clone(),
            },
            PeerAction::SetRemoteDescription { peer, kind, sdp } =>
                PeerAction::SetRemoteDescription {
                    peer: peer.clone(),
                    kind: *kind,
                    sdp: sdp.clone(),
                },
            PeerAction::AddIceCandidate { peer, candidate } => PeerAction::AddIceCandidate {
                peer: peer.clone(),
                candidate: candidate.clone(),
            },
            PeerAction::Send(message) => PeerAction::Send(message.clone()),
            PeerAction::StartMedia { peer } => PeerAction::StartMedia { peer: peer.clone() },
            PeerAction::CloseConnection { peer } => PeerAction::CloseConnection {
                peer: peer.clone(),
            },
            PeerAction::Log { peer, notice } => PeerAction::Log {
                peer: peer.clone(),
                notice: *notice,
            },
        }
    }
}

/// Whether the action works on the engine connection of `peer`: it opens it,
/// asks it for a description, hands it a description or a candidate, or
/// starts its media. Closing the connection, sending an envelope and logging
/// do not.
pub open spec fn works_on(action: PeerActionView, peer: Seq<char>) -> bool {
    match action {
        PeerActionView::OpenConnection { peer: p, .. } => p == peer,
        PeerActionView::CreateOffer { peer: p } => p == peer,
        PeerActionView::CreateAnswer { peer: p } => p == peer,
        PeerActionView::SetLocalDescription { peer: p, .. } => p == peer,
        PeerActionView::SetRemoteDescription { peer: p, .. } => p == peer,
        PeerActionView::AddIceCandidate { peer: p, .. } => p == peer,
        PeerActionView::StartMedia { peer: p } => p == peer,
        PeerActionView::Send(_) => false,
        PeerActionView::CloseConnection { .. } => false,
        PeerActionView::Log { .. } => false,
    }
}

/// The test "does not work on the connection of `peer`".
pub open spec fn spares(peer: Seq<char>) -> spec_fn(PeerActionView) -> bool {
    |action: PeerActionView| !works_on(action, peer)
}

impl PeerAction {
    /// Whether the action works on the engine connection of `peer`.
    pub fn works_on(&self, peer: &String) -> (r: bool)
        ensures
            r == works_on(self@, peer@),
    {
        match self {
            PeerAction::OpenConnection { peer: p, .. } => *p == *peer,
            PeerAction::CreateOffer { peer: p } => *p == *peer,
            PeerAction::CreateAnswer { peer: p } => *p == *peer,
            PeerAction::SetLocalDescription { peer: p, .. } => *p == *peer,
            PeerAction::SetRemoteDescription { peer: p, .. } => *p == *peer,
            PeerAction::AddIceCandidate { peer: p, .. } => *p == *peer,
            PeerAction::StartMedia { peer: p } => *p == *peer,
            PeerAction::Send(_) => false,
            PeerAction::CloseConnection { .. } => false,
            PeerAction::Log { .. } => false,
        }
    }
}

/// What is left to do of `actions` once the engine has refused an operation
/// for `peer`: the peer's entry is gone, so the actions that work on its
/// connection are given up; the others stay, in order.
pub fn abandon(actions: &Vec<PeerAction>, peer: &String) -> (rest: Vec<PeerAction>)
    ensures
        rest.deep_view() == actions.deep_view().filter(spares(peer@)),
{
    let ghost all = actions.deep_view();
    let ghost keep = spares(peer@);
    let mut rest: Vec<PeerAction> = Vec::new();
    let mut i: usize = 0;
    proof {
        reveal(Seq::filter);
        assert(all.take(0).filter(keep) =~= Seq::<PeerActionView>::empty());
        assert(rest.deep_view() =~= Seq::<PeerActionView>::empty());
    }
    while i < actions.len()
        invariant
            i <= actions.len(),
            all == actions.deep_view(),
            keep == spares(peer@),
            rest.deep_view() == all.take(i as int).filter(keep),
        decreases actions.len() - i,
    {
        proof {
            assert(all.take(i + 1) =~= all.take(i as int).push(all[i as int]));
            all.take(i as int).lemma_filter_push(all[i as int], keep);
        }
        if !actions[i].works_on(peer) {
            let ghost before = rest.deep_view();
            rest.push(actions[i].clone());
            assert(rest.deep_view() =~= before.push(all[i as int]));
        }
        i += 1;
    }
    proof {
        assert(all.take(i as int) =~= all);
    }
    rest
}

/// What is left of the work list `queue` once the actions `news` are known:
/// for every failure of a peer that `news` logs, in order, the queued actions
/// that work on that peer's connection are given up.
pub open spec fn given_up(queue: Seq<PeerActionView>, news: Seq<PeerActionView>) -> Seq<
    PeerActionView,
>
    decreases news.len(),
{
    if news.len() == 0 {
        queue
    } else {
        let rest = given_up(queue, news.drop_last());
        match news.last() {
            PeerActionView::Log { peer, notice } if notice.as_error() is Some => rest.filter(
                spares(peer),
            ),
            _ => rest,
        }
    }
}

/// The work list after an action led to the actions `next`: `next` comes
/// first, then what is left of `queue`. Where `next` logs the failure of a
/// peer, that peer's entry is gone, and the queued actions that work on its
/// connection are given up, so that the failure is met once.
pub fn reschedule(next: Vec<PeerAction>, queue: Vec<PeerAction>) -> (list: Vec<PeerAction>)
    ensures
        list.deep_view() == next.deep_view() + given_up(queue.deep_view(), next.deep_view()),
{
    let ghost news = next.deep_view();
    let ghost start = queue.deep_view();
    let mut rest = queue;
    let mut i: usize = 0;
    proof {
        assert(news.take(0) =~= Seq::<PeerActionView>::empty());
    }
    while i < next.len()
        invariant
            i <= next.len(),
            news == next.deep_view(),
            rest.deep_view() == given_up(start, news.take(i as int)),
        decreases next.len() - i,
    {
        proof {
            assert(news.take(i + 1).drop_last() =~= news.take(i as int));
            assert(news.take(i + 1).last() == next[i as int]@);
        }
        match &next[i] {
            PeerAction::Log { peer, notice } => {
                if notice.error().is_some() {
                    rest = abandon(&rest, peer);
                }
            },
            _ => {},
        }
        i += 1;
    }
    proof {
        assert(news.take(i as int) =~= news);
    }
    let mut list = next;
    let ghost left = rest.deep_view();
    list.append(&mut rest);
    assert(list.deep_view() =~= news + left);
    list
}

} // verus!
