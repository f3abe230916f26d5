//! The envelope and the command vocabulary of the signaling channel.

use crate::rooms::{Room, RoomView};
use vstd::prelude::*;

verus! {

/// Requests that this client sends to the signaling server.
#[derive(Debug, PartialEq, Eq)]
pub enum ClientCommand {
    /// Announce the local display name.
    Connect(String),
    /// Ask for a new room with the given name.
    CreateRoom(String),
    ListRooms,
    /// Ask to join the room with the given id.
    Join(String),
    Leave,
    /// Peer id, room id, SDP.
    SendOffer(String, String, String),
    /// Peer id, room id, SDP.
    SendAnswer(String, String, String),
    /// Peer id, room id, candidate as JSON.
    SendIceCandidate(String, String, String),
}

/// Messages that the signaling server sends to this client.
#[derive(Debug, PartialEq, Eq)]
pub enum ServerCommand {
    Ack,
    /// The id that the server assigned to this client.
    ConnectedAs(String),
    /// The current member ids of the room this client is in.
    Refresh(Vec<String>),
    RoomList(Vec<Room>),
    /// Peer id, room id, SDP.
    IncomingOffer(String, String, String),
    /// Peer id, room id, SDP.
    IncomingAnswer(String, String, String),
    /// Peer id, room id, candidate as JSON.
    IncomingIceCandidate(String, String, String),
}

/// Either family of command.
#[derive(Debug, PartialEq, Eq)]
pub enum Command {
    Client(ClientCommand),
    Server(ServerCommand),
}

/// One frame of the signaling channel: who it concerns and what it says.
#[derive(Debug, PartialEq, Eq)]
pub struct CommandMessage {
    pub user_id: String,
    pub command: Command,
}

/// Mathematical value of a [`ClientCommand`].
pub enum ClientCommandView {
    Connect(Seq<char>),
    CreateRoom(Seq<char>),
    ListRooms,
    Join(Seq<char>),
    Leave,
    SendOffer(Seq<char>, Seq<char>, Seq<char>),
    SendAnswer(Seq<char>, Seq<char>, Seq<char>),
    SendIceCandidate(Seq<char>, Seq<char>, Seq<char>),
}

/// Mathematical value of a [`ServerCommand`].
pub enum ServerCommandView {
    Ack,
    ConnectedAs(Seq<char>),
    Refresh(Seq<Seq<char>>),
    RoomList(Seq<RoomView>),
    IncomingOffer(Seq<char>, Seq<char>, Seq<char>),
    IncomingAnswer(Seq<char>, Seq<char>, Seq<char>),
    IncomingIceCandidate(Seq<char>, Seq<char>, Seq<char>),
}

/// Mathematical value of a [`Command`].
pub enum CommandView {
    Client(ClientCommandView),
    Server(ServerCommandView),
}

/// Mathematical value of a [`CommandMessage`].
pub struct CommandMessageView {
    pub user_id: Seq<char>,
    pub command: CommandView,
}

impl View for ClientCommand {
    type V = ClientCommandView;

    open spec fn view(&self) -> ClientCommandView {
        match self {
            ClientCommand::Connect(name) => ClientCommandView::Connect(name@),
            ClientCommand::CreateRoom(name) => ClientCommandView::CreateRoom(name@),
            ClientCommand::ListRooms => ClientCommandView::ListRooms,
            ClientCommand::Join(room) => ClientCommandView::Join(room@),
            ClientCommand::Leave => ClientCommandView::Leave,
            ClientCommand::SendOffer(peer, room, sdp) => ClientCommandView::SendOffer(
                peer@,
                room@,
                sdp@,
            ),
            ClientCommand::SendAnswer(peer, room, sdp) => ClientCommandView::SendAnswer(
                peer@,
                room@,
                sdp@,
            ),
            ClientCommand::SendIceCandidate(peer, room, candidate) =>
                ClientCommandView::SendIceCandidate(peer@, room@, candidate@),
        }
    }
}

impl View for ServerCommand {
    type V = ServerCommandView;

    open spec fn view(&self) -> ServerCommandView {
        match self {
            ServerCommand::Ack => ServerCommandView::Ack,
            ServerCommand::ConnectedAs(id) => ServerCommandView::ConnectedAs(id@),
            ServerCommand::Refresh(ids) => ServerCommandView::Refresh(ids.deep_view()),
            ServerCommand::RoomList(rooms) => ServerCommandView::RoomList(rooms.deep_view()),
            ServerCommand::IncomingOffer(peer, room, sdp) => ServerCommandView::IncomingOffer(
                peer@,
                room@,
                sdp@,
            ),
            ServerCommand::IncomingAnswer(peer, room, sdp) => ServerCommandView::IncomingAnswer(
                peer@,
                room@,
                sdp@,
            ),
            ServerCommand::IncomingIceCandidate(peer, room, candidate) =>
                ServerCommandView::IncomingIceCandidate(peer@, room@, candidate@),
        }
    }
}

impl View for Command {
    type V = CommandView;

    open spec fn view(&self) -> CommandView {
        match self {
            Command::Client(c) => CommandView::Client(c@),
            Command::Server(c) => CommandView::Server(c@),
        }
    }
}

impl View for CommandMessage {
    type V = CommandMessageView;

    open spec fn view(&self) -> CommandMessageView {
        CommandMessageView { user_id: self.user_id@, command: self.command@ }
    }
}

impl DeepView for CommandMessage {
    type V = CommandMessageView;

    open spec fn deep_view(&self) -> CommandMessageView {
        self@
    }
}

impl Clone for ClientCommand {
    fn clone(&self) -> (r: Self)
        ensures
            r@ == self@,
    {
        match self {
            ClientCommand::Connect(name) => ClientCommand::Connect(name.clone()),
            ClientCommand::CreateRoom(name) => ClientCommand::CreateRoom(name.clone()),
            ClientCommand::ListRooms => ClientCommand::ListRooms,
            ClientCommand::Join(room) => ClientCommand::Join(room.clone()),
            ClientCommand::Leave => ClientCommand::Leave,
            ClientCommand::SendOffer(peer, room, sdp) => ClientCommand::SendOffer(
                peer.clone(),
                room.clone(),
                sdp.clone(),
            ),
            ClientCommand::SendAnswer(peer, room, sdp) => ClientCommand::SendAnswer(
                peer.clone(),
                room.clone(),
                sdp.clone(),
            ),
            ClientCommand::SendIceCandidate(peer, room, candidate) =>
                ClientCommand::SendIceCandidate(peer.clone(), room.clone(), candidate.clone()),
        }
    }
}

/// Copies a list of rooms, one by one.
pub fn clone_rooms(rooms: &Vec<Room>) -> (r: Vec<Room>)
    ensures
        r.deep_view() == rooms.deep_view(),
{
    let mut out: Vec<Room> = Vec::new();
    let mut i: usize = 0;
    while i < rooms.len()
        invariant
            i <= rooms.len(),
            out.len() == i,
            forall|j: int| 0 <= j < i ==> out[j]@ == rooms[j]@,
        decreases rooms.len() - i,
    {
        out.push(rooms[i].clone());
        i += 1;
    }
    out
}

impl Clone for ServerCommand {
    fn clone(&self) -> (r: Self)
        ensures
            r@ == self@,
    {
        match self {
            ServerCommand::Ack => ServerCommand::Ack,
            ServerCommand::ConnectedAs(id) => ServerCommand::ConnectedAs(id.clone()),
            ServerCommand::Refresh(ids) => {
                let copy = ids.clone();
                ServerCommand::Refresh(copy)
            },
            ServerCommand::RoomList(rooms) => ServerCommand::RoomList(clone_rooms(rooms)),
            ServerCommand::IncomingOffer(peer, room, sdp) => ServerCommand::IncomingOffer(
                peer.clone(),
                room.clone(),
                sdp.clone(),
            ),
            ServerCommand::IncomingAnswer(peer, room, sdp) => ServerCommand::IncomingAnswer(
                peer.clone(),
                room.clone(),
                sdp.clone(),
            ),
            ServerCommand::IncomingIceCandidate(peer, room, candidate) =>
                ServerCommand::IncomingIceCandidate(peer.clone(), room.clone(), candidate.clone()),
        }
    }
}

impl Clone for Command {
    fn clone(&self) -> (r: Self)
        ensures
            r@ == self@,
    {
        match self {
            Command::Client(c) => Command::Client(c.clone()),
            Command::Server(c) => Command::Server(c.clone()),
        }
    }
}

impl Clone for CommandMessage {
    fn clone(&self) -> (r: Self)
        ensures
            r@ == self@,
    {
        CommandMessage { user_id: self.user_id.clone(), command: self.command.clone() }
    }
}

impl CommandMessage {
    /// An envelope from `user_id` carrying a client request.
    pub fn client(user_id: &String, command: ClientCommand) -> (r: CommandMessage)
        ensures
            r@ == (CommandMessageView {
                user_id: user_id@,
                command: CommandView::Client(command@),
            }),
    {
        CommandMessage { user_id: user_id.clone(), command: Command::Client(command) }
    }

    /// Whether the envelope is addressed to the identity `local_id`.
    pub fn addressed_to(&self, local_id: &String) -> (r: bool)
        ensures
            r == (self.user_id@ == local_id@),
    {
        self.user_id == *local_id
    }

    /// Whether the envelope carries the server's acknowledgement.
    pub fn is_ack(&self) -> (r: bool)
        ensures
            r == (self@.command == CommandView::Server(ServerCommandView::Ack)),
    {
        match &self.command {
            Command::Server(ServerCommand::Ack) => true,
            _ => false,
        }
    }
}

} // verus!
