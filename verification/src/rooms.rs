//! Rooms, and what the client does to create one and to join one.

use crate::commands::{ClientCommand, ClientCommandView, CommandMessage, CommandMessageView, CommandView};
use crate::config::UserConfig;
use crate::engine::MediaSetup;
use crate::ids::{contains_id, has_no_duplicates};
use crate::peer::action::PeerAction;
use crate::peer::connect_peer::connect_peer;
use crate::peer::laws::run;
use crate::peer::model::{envelope, PeerEvent};
use crate::peer::table::PeerTable;
use crate::session::{Session, SessionView};
use crate::text::{trim, trimmed};
use vstd::prelude::*;

verus! {

/// A named group of peers, as the signaling server describes it.
#[derive(Debug, PartialEq, Eq)]
pub struct Room {
    pub id: String,
    pub name: String,
    pub member_ids: Vec<String>,
    pub host_id: String,
}

/// Mathematical value of a [`Room`].
pub struct RoomView {
    pub id: Seq<char>,
    pub name: Seq<char>,
    pub member_ids: Seq<Seq<char>>,
    pub host_id: Seq<char>,
}

impl RoomView {
    /// No member is listed twice and the host is one of the members.
    pub open spec fn well_formed(self) -> bool {
        &&& self.member_ids.no_duplicates()
        &&& self.member_ids.contains(self.host_id)
    }
}

impl View for Room {
    type V = RoomView;

    open spec fn view(&self) -> RoomView {
        RoomView {
            id: self.id@,
            name: self.name@,
            member_ids: self.member_ids.deep_view(),
            host_id: self.host_id@,
        }
    }
}

impl DeepView for Room {
    type V = RoomView;

    open spec fn deep_view(&self) -> RoomView {
        self@
    }
}

impl Room {
    /// Whether no member is listed twice and the host is one of the members.
    pub fn is_well_formed(&self) -> (r: bool)
        ensures
            r == self@.well_formed(),
    {
        has_no_duplicates(&self.member_ids) && contains_id(&self.member_ids, &self.host_id)
    }

    /// The room with the given fields, where they make a well-formed room.
    pub fn new(id: String, name: String, member_ids: Vec<String>, host_id: String) -> (room: Option<
        Room,
    >)
        ensures
            match room {
                Some(r) => r@.well_formed() && r@ == (RoomView {
                    id: id@,
                    name: name@,
                    member_ids: member_ids.deep_view(),
                    host_id: host_id@,
                }),
                None => !member_ids.deep_view().no_duplicates() || !member_ids.deep_view().contains(
                    host_id@,
                ),
            },
    {
        let room = Room { id, name, member_ids, host_id };
        if room.is_well_formed() {
            Some(room)
        } else {
            None
        }
    }
}

impl Clone for Room {
    fn clone(&self) -> (r: Self)
        ensures
            r@ == self@,
    {
        let member_ids = self.member_ids.clone();
        Room {
            id: self.id.clone(),
            name: self.name.clone(),
            member_ids,
            host_id: self.host_id.clone(),
        }
    }
}

/// The outbound connects that joining a room with the members `members` asks
/// for: one per member other than `user`, in the order of the list.
pub open spec fn connect_events(members: Seq<Seq<char>>, user: Seq<char>, room: Seq<char>) -> Seq<
    PeerEvent,
>
    decreases members.len(),
{
    if members.len() == 0 {
        Seq::empty()
    } else {
        let front = connect_events(members.drop_last(), user, room);
        if members.last() == user {
            front
        } else {
            front.push(PeerEvent::Connect { peer: members.last(), room, media: MediaSetup::Audio })
        }
    }
}

/// Starts connecting to every listed peer other than the local identity, in
/// the order of the list: the table and the actions are those of the run of
/// the corresponding connects.
pub fn connect_to_peers(table: &mut PeerTable, peers: &Vec<String>, room_id: &String) -> (actions:
    Vec<PeerAction>)
    requires
        old(table).well_formed(),
    ensures
        final(table).well_formed(),
        (final(table)@, actions.deep_view()) == run(
            old(table)@,
            connect_events(peers.deep_view(), old(table)@.local_id, room_id@),
        ),
{
    let ghost before = table@;
    let ghost members = peers.deep_view();
    let mut actions: Vec<PeerAction> = Vec::new();
    let mut i: usize = 0;
    while i < peers.len()
        invariant
            i <= peers.len(),
            members == peers.deep_view(),
            table.well_formed(),
            table@.local_id == before.local_id,
            (table@, actions.deep_view()) == run(
                before,
                connect_events(members.take(i as int), before.local_id, room_id@),
            ),
        decreases peers.len() - i,
    {
        let ghost events = connect_events(members.take(i as int), before.local_id, room_id@);
        proof {
            assert(members.take(i + 1).drop_last() =~= members.take(i as int));
        }
        if peers[i] != *table.local_id() {
            let ghost event = PeerEvent::Connect {
                peer: members[i as int],
                room: room_id@,
                media: MediaSetup::Audio,
            };
            let mut more = connect_peer(table, peers[i].clone(), room_id.clone());
            actions.append(&mut more);
            proof {
                assert(events.push(event).drop_last() =~= events);
            }
        }
        i += 1;
    }
    proof {
        assert(members.take(i as int) =~= members);
    }
    actions
}

/// Starts connecting to every member of `room` other than the local identity.
pub fn connect_to_room_users(table: &mut PeerTable, room: &Room) -> (actions: Vec<PeerAction>)
    requires
        old(table).well_formed(),
    ensures
        final(table).well_formed(),
        (final(table)@, actions.deep_view()) == run(
            old(table)@,
            connect_events(room@.member_ids, old(table)@.local_id, room@.id),
        ),
{
    connect_to_peers(table, &room.member_ids, &room.id)
}

/// Joins `room`: the server is asked to add the local identity to the room,
/// which becomes the session's room. Nothing else happens here: the
/// directory and the peer table stay as they are, and the members are
/// connected to when the server's refresh of the room arrives.
pub fn join_room(session: &mut Session, room: &Room) -> (actions: Vec<PeerAction>)
    requires
        old(session).well_formed(),
    ensures
        final(session).well_formed(),
        final(session)@ == (SessionView {
            directory: old(session)@.directory,
            peers: old(session)@.peers,
            room: Some(room@.id),
        }),
        actions.deep_view() == seq![
            envelope(old(session)@.peers.local_id, ClientCommandView::Join(room@.id)),
        ],
{
    let join = CommandMessage::client(session.peers.local_id(), ClientCommand::Join(room.id.clone()));
    let mut actions: Vec<PeerAction> = Vec::new();
    actions.push(PeerAction::Send(join));
    session.room = Some(room.id.clone());
    actions
}

/// The request to create a room under the name that the operator typed, with
/// the white space around it removed.
pub fn create_room(user: &UserConfig, typed: &str) -> (request: CommandMessage)
    ensures
        request@ == (CommandMessageView {
            user_id: user@.id,
            command: CommandView::Client(ClientCommandView::CreateRoom(trimmed(typed@))),
        }),
{
    CommandMessage::client(&user.id, ClientCommand::CreateRoom(trim(typed)))
}

} // verus!
