//! The receive loop of the signaling channel, one event at a time.

use crate::commands::{Command, CommandView, ServerCommand, ServerCommandView};
use crate::directory::{
    acceptable, current_position, leavers, listed, presentation, refresh,
};
use crate::engine::{answer_accepted, offer_accepted, parsed_candidate};
use crate::error::ClientError;
use crate::peer::action::PeerAction;
use crate::peer::handle_answer::handle_answer;
use crate::peer::handle_ice_candidate::handle_ice_candidate;
use crate::peer::handle_offer::handle_offer;
use crate::peer::laws::{lemma_run_keeps_local_id, run};
use crate::peer::model::{step, PeerEvent};
use crate::peer::table::PeerTable;
use crate::rooms::{connect_events, connect_to_peers, Room};
use crate::session::{effects_of, peer_effects, Effect, EffectView, Session, SessionView};
use crate::signal::{ChannelEvent, ChannelEventView};
use vstd::prelude::*;

verus! {

/// What the receive loop does after an event.
#[derive(Debug, PartialEq, Eq)]
pub enum Reaction {
    /// The channel has ended: leave the loop.
    Stop,
    /// The channel failed: leave the loop and shut the client down.
    Shutdown,
    /// Perform the effects in order and read the next frame.
    Continue(Vec<Effect>),
}

/// Mathematical value of a [`Reaction`].
pub enum ReactionView {
    Stop,
    Shutdown,
    Continue(Seq<EffectView>),
}

impl View for Reaction {
    type V = ReactionView;

    open spec fn view(&self) -> ReactionView {
        match self {
            Reaction::Stop => ReactionView::Stop,
            Reaction::Shutdown => ReactionView::Shutdown,
            Reaction::Continue(effects) => ReactionView::Continue(effects.deep_view()),
        }
    }
}

/// One departure per peer, in order.
pub open spec fn leave_events(left: Seq<Seq<char>>) -> Seq<PeerEvent> {
    Seq::new(left.len(), |i: int| PeerEvent::PeerLeft { peer: left[i] })
}

/// A frame that cannot be used is reported and dropped.
pub open spec fn dropped(s: SessionView) -> (SessionView, Seq<EffectView>) {
    (s, seq![EffectView::Report(ClientError::ProtocolError)])
}

/// A room list: an acceptable list replaces the directory and is shown; where
/// it lists the local identity as a member of a room, that room becomes the
/// session's room. A malformed list is dropped.
pub open spec fn on_room_list(s: SessionView, rooms: Seq<crate::rooms::RoomView>) -> (
    SessionView,
    Seq<EffectView>,
) {
    if acceptable(rooms) {
        let d = listed(rooms);
        (
            SessionView {
                directory: d,
                peers: s.peers,
                room: match current_position(d, s.peers.local_id) {
                    Some(i) => Some(d[i].room.id),
                    None => s.room,
                },
            },
            seq![EffectView::Show(presentation(d, s.peers.local_id))],
        )
    } else {
        dropped(s)
    }
}

/// A refresh: the membership of the session's room is replaced; the peers that
/// left are removed, then every listed member other than the local identity is
/// connected to, in the order of the list. A member that has a connection
/// already is left alone by that. Without a room the refresh is dropped.
pub open spec fn on_refresh(s: SessionView, ids: Seq<Seq<char>>) -> (SessionView, Seq<EffectView>) {
    match s.room {
        Some(room) => {
            let gone = run(s.peers, leave_events(leavers(s.directory, room, ids)));
            let come = run(
                gone.0,
                connect_events(ids, s.peers.local_id, room),
            );
            (
                SessionView {
                    directory: refresh(s.directory, room, ids),
                    peers: come.0,
                    room: s.room,
                },
                peer_effects(gone.1 + come.1),
            )
        },
        None => dropped(s),
    }
}

/// An event of the peer state machine: the table takes the step and its
/// actions are the effects.
pub open spec fn on_peer_event(s: SessionView, event: PeerEvent) -> (SessionView, Seq<EffectView>) {
    let next = step(s.peers, event);
    (SessionView { directory: s.directory, peers: next.0, room: s.room }, peer_effects(next.1))
}

/// What a command addressed to the local identity does. Commands that the
/// server does not send in this phase are dropped.
pub open spec fn on_command(s: SessionView, command: CommandView) -> (SessionView, Seq<EffectView>) {
    match command {
        CommandView::Server(ServerCommandView::RoomList(rooms)) => on_room_list(s, rooms),
        CommandView::Server(ServerCommandView::Refresh(ids)) => on_refresh(s, ids),
        CommandView::Server(ServerCommandView::IncomingOffer(peer, room, sdp)) => on_peer_event(
            s,
            PeerEvent::IncomingOffer { peer, room, sdp, accepted: offer_accepted(sdp) },
        ),
        CommandView::Server(ServerCommandView::IncomingAnswer(peer, room, sdp)) => on_peer_event(
            s,
            PeerEvent::IncomingAnswer { peer, sdp, accepted: answer_accepted(sdp) },
        ),
        CommandView::Server(ServerCommandView::IncomingIceCandidate(peer, room, text)) =>
            on_peer_event(
            s,
            PeerEvent::IncomingIceCandidate { peer, room, candidate: parsed_candidate(text) },
        ),
        _ => dropped(s),
    }
}

/// What one event of the channel does to the session, and how the loop goes
/// on. The end of the channel stops the loop; a read error stops it and shuts
/// the client down. Frames that are not text are ignored; text that holds no
/// envelope is reported and dropped; an envelope for another identity is
/// ignored. An envelope for the local identity is handled by its command, and
/// the watchers are told.
pub open spec fn dispatch(s: SessionView, event: ChannelEventView) -> (SessionView, ReactionView) {
    match event {
        ChannelEventView::Closed => (s, ReactionView::Stop),
        ChannelEventView::ReadError => (s, ReactionView::Shutdown),
        ChannelEventView::Ping => (s, ReactionView::Continue(Seq::empty())),
        ChannelEventView::Pong => (s, ReactionView::Continue(Seq::empty())),
        ChannelEventView::Binary => (s, ReactionView::Continue(Seq::empty())),
        ChannelEventView::Undecodable => (s, ReactionView::Continue(dropped(s).1)),
        ChannelEventView::Envelope(message) => if message.user_id != s.peers.local_id {
            (s, ReactionView::Continue(Seq::empty()))
        } else {
            let handled = on_command(s, message.command);
            (handled.0, ReactionView::Continue(handled.1.push(EffectView::Changed)))
        },
    }
}

/// No effects.
fn no_effects() -> (effects: Vec<Effect>)
    ensures
        effects.deep_view() == Seq::<EffectView>::empty(),
{
    Vec::new()
}

/// The effects of dropping a frame: the report of a protocol error.
fn drop_frame() -> (effects: Vec<Effect>)
    ensures
        effects.deep_view() == seq![EffectView::Report(ClientError::ProtocolError)],
{
    let mut effects: Vec<Effect> = Vec::new();
    effects.push(Effect::Report(ClientError::ProtocolError));
    effects
}

/// Removes the entries of the peers that left, in order.
fn remove_peers(table: &mut PeerTable, left: &Vec<String>) -> (actions: Vec<PeerAction>)
    requires
        old(table).well_formed(),
    ensures
        final(table).well_formed(),
        (final(table)@, actions.deep_view()) == run(old(table)@, leave_events(left.deep_view())),
{
    let ghost before = table@;
    let ghost all = leave_events(left.deep_view());
    let mut actions: Vec<PeerAction> = Vec::new();
    let mut i: usize = 0;
    while i < left.len()
        invariant
            i <= left.len(),
            all == leave_events(left.deep_view()),
            table.well_formed(),
            (table@, actions.deep_view()) == run(before, all.take(i as int)),
        decreases left.len() - i,
    {
        let mut more = table.peer_left(left[i].clone());
        actions.append(&mut more);
        proof {
            assert(all.take(i + 1).drop_last() =~= all.take(i as int));
        }
        i += 1;
    }
    proof {
        assert(all.take(i as int) =~= all);
    }
    actions
}

/// Takes over a room list.
fn handle_room_list(session: &mut Session, rooms: Vec<Room>) -> (effects: Vec<Effect>)
    requires
        old(session).well_formed(),
    ensures
        final(session).well_formed(),
        (final(session)@, effects.deep_view()) == on_room_list(old(session)@, rooms.deep_view()),
{
    match session.directory.apply_room_list(rooms) {
        Ok(()) => {
            match session.directory.current_room(session.peers.local_id()) {
                Some(i) => {
                    let room = session.directory.room(i);
                    session.room = Some(room.id);
                },
                None => {},
            }
            let shown = session.directory.present(session.peers.local_id());
            let mut effects: Vec<Effect> = Vec::new();
            effects.push(Effect::Show(shown));
            effects
        },
        Err(_) => drop_frame(),
    }
}

/// Takes over a refresh of the session's room.
fn handle_refresh(session: &mut Session, ids: Vec<String>) -> (effects: Vec<Effect>)
    requires
        old(session).well_formed(),
    ensures
        final(session).well_formed(),
        (final(session)@, effects.deep_view()) == on_refresh(old(session)@, ids.deep_view()),
{
    let room = match &session.room {
        Some(room) => room.clone(),
        None => {
            return drop_frame();
        },
    };
    let ghost before = session@;
    let outcome = session.directory.apply_refresh(&room, &ids);
    let mut actions = remove_peers(&mut session.peers, &outcome.left);
    proof {
        lemma_run_keeps_local_id(
            before.peers,
            leave_events(leavers(before.directory, room@, ids.deep_view())),
        );
    }
    let mut more = connect_to_peers(&mut session.peers, &ids, &room);
    actions.append(&mut more);
    effects_of(&actions)
}

/// Handles a command addressed to the local identity.
fn handle_command(session: &mut Session, command: Command) -> (effects: Vec<Effect>)
    requires
        old(session).well_formed(),
    ensures
        final(session).well_formed(),
        (final(session)@, effects.deep_view()) == on_command(old(session)@, command@),
{
    match command {
        Command::Server(ServerCommand::RoomList(rooms)) => handle_room_list(session, rooms),
        Command::Server(ServerCommand::Refresh(ids)) => handle_refresh(session, ids),
        Command::Server(ServerCommand::IncomingOffer(peer, room, sdp)) => {
            let actions = handle_offer(&mut session.peers, peer, room, sdp);
            effects_of(&actions)
        },
        Command::Server(ServerCommand::IncomingAnswer(peer, _room, sdp)) => {
            let actions = handle_answer(&mut session.peers, peer, sdp);
            effects_of(&actions)
        },
        Command::Server(ServerCommand::IncomingIceCandidate(peer, room, text)) => {
            let actions = handle_ice_candidate(&mut session.peers, peer, room, text);
            effects_of(&actions)
        },
        _ => drop_frame(),
    }
}

/// Handles one event of the signaling channel: changes the session as
/// [`dispatch`] says and returns how the loop goes on.
pub fn listen_for_ws(session: &mut Session, event: ChannelEvent) -> (reaction: Reaction)
    requires
        old(session).well_formed(),
    ensures
        final(session).well_formed(),
        (final(session)@, reaction@) == dispatch(old(session)@, event@),
{
    match event {
        ChannelEvent::Closed => Reaction::Stop,
        ChannelEvent::ReadError => Reaction::Shutdown,
        ChannelEvent::Ping => Reaction::Continue(no_effects()),
        ChannelEvent::Pong => Reaction::Continue(no_effects()),
        ChannelEvent::Binary => Reaction::Continue(no_effects()),
        ChannelEvent::Undecodable => Reaction::Continue(drop_frame()),
        ChannelEvent::Envelope(message) => {
            if !message.addressed_to(session.peers.local_id()) {
                return Reaction::Continue(no_effects());
            }
            let mut effects = handle_command(session, message.command);
            let ghost handled = effects.deep_view();
            effects.push(Effect::Changed);
            assert(effects.deep_view() =~= handled.push(EffectView::Changed));
            Reaction::Continue(effects)
        },
    }
}

} // verus!
