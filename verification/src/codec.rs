//! The wire form of an envelope.
//!
//! An envelope travels as one JSON object with the members `user_id` and
//! `command`. A command is tagged twice, by its family and by its variant: a
//! variant without fields is the text of its tag, a variant with fields an
//! object whose only member is named by the tag. One field stands by itself,
//! several fields stand in an array. A room is an object with the members
//! `id`, `name`, `member_ids` and `host_id`. Objects are written with their
//! members in ascending order of their names and read whatever their order.

use crate::commands::{
    ClientCommand, ClientCommandView, Command, CommandMessage, CommandMessageView, CommandView,
    ServerCommand, ServerCommandView,
};
use crate::error::ClientError;
use crate::json::{
    canonical, is_text, lemma_member_at, print, text_before, written_text, Json, JsonView,
};
use crate::rooms::{Room, RoomView};
use vstd::prelude::*;

verus! {

/// A list of texts as an array.
pub open spec fn texts(list: Seq<Seq<char>>) -> JsonView {
    JsonView::Array(Seq::new(list.len(), |i: int| JsonView::Text(list[i])))
}

/// A value under a tag: an object whose only member is named `tag`.
pub open spec fn tagged(tag: Seq<char>, value: JsonView) -> JsonView {
    JsonView::Object(seq![(tag, value)])
}

/// Three texts as an array.
pub open spec fn triple(a: Seq<char>, b: Seq<char>, c: Seq<char>) -> JsonView {
    JsonView::Array(seq![JsonView::Text(a), JsonView::Text(b), JsonView::Text(c)])
}

/// The wire form of a room.
pub open spec fn room_form(room: RoomView) -> JsonView {
    JsonView::Object(
        seq![
            ("host_id"@, JsonView::Text(room.host_id)),
            ("id"@, JsonView::Text(room.id)),
            ("member_ids"@, texts(room.member_ids)),
            ("name"@, JsonView::Text(room.name)),
        ],
    )
}

/// The wire form of a list of rooms.
pub open spec fn rooms_form(rooms: Seq<RoomView>) -> JsonView {
    JsonView::Array(Seq::new(rooms.len(), |i: int| room_form(rooms[i])))
}

/// The wire form of a client command.
pub open spec fn client_form(command: ClientCommandView) -> JsonView {
    match command {
        ClientCommandView::Connect(name) => tagged("Connect"@, JsonView::Text(name)),
        ClientCommandView::CreateRoom(name) => tagged("CreateRoom"@, JsonView::Text(name)),
        ClientCommandView::ListRooms => JsonView::Text("ListRooms"@),
        ClientCommandView::Join(room) => tagged("Join"@, JsonView::Text(room)),
        ClientCommandView::Leave => JsonView::Text("Leave"@),
        ClientCommandView::SendOffer(peer, room, sdp) => tagged(
            "SendOffer"@,
            triple(peer, room, sdp),
        ),
        ClientCommandView::SendAnswer(peer, room, sdp) => tagged(
            "SendAnswer"@,
            triple(peer, room, sdp),
        ),
        ClientCommandView::SendIceCandidate(peer, room, candidate) => tagged(
            "SendIceCandidate"@,
            triple(peer, room, candidate),
        ),
    }
}

/// The wire form of a server command.
pub open spec fn server_form(command: ServerCommandView) -> JsonView {
    match command {
        ServerCommandView::Ack => JsonView::Text("Ack"@),
        ServerCommandView::ConnectedAs(id) => tagged("ConnectedAs"@, JsonView::Text(id)),
        ServerCommandView::Refresh(ids) => tagged("Refresh"@, texts(ids)),
        ServerCommandView::RoomList(rooms) => tagged("RoomList"@, rooms_form(rooms)),
        ServerCommandView::IncomingOffer(peer, room, sdp) => tagged(
            "IncomingOffer"@,
            triple(peer, room, sdp),
        ),
        ServerCommandView::IncomingAnswer(peer, room, sdp) => tagged(
            "IncomingAnswer"@,
            triple(peer, room, sdp),
        ),
        ServerCommandView::IncomingIceCandidate(peer, room, candidate) => tagged(
            "IncomingIceCandidate"@,
            triple(peer, room, candidate),
        ),
    }
}

/// The wire form of a command.
pub open spec fn command_form(command: CommandView) -> JsonView {
    match command {
        CommandView::Client(c) => tagged("Client"@, client_form(c)),
        CommandView::Server(c) => tagged("Server"@, server_form(c)),
    }
}

/// The wire form of an envelope.
pub open spec fn message_form(message: CommandMessageView) -> JsonView {
    JsonView::Object(
        seq![
            ("command"@, command_form(message.command)),
            ("user_id"@, JsonView::Text(message.user_id)),
        ],
    )
}

/// The texts of an array of texts.
pub open spec fn texts_in(json: JsonView) -> Option<Seq<Seq<char>>> {
    match json {
        JsonView::Array(items) => if forall|i: int|
            0 <= i < items.len() ==> (#[trigger] items[i]) is Text {
            Some(Seq::new(items.len(), |i: int| items[i]->Text_0))
        } else {
            None
        },
        _ => None,
    }
}

/// The texts of an array of exactly three texts.
pub open spec fn triple_in(json: JsonView) -> Option<(Seq<char>, Seq<char>, Seq<char>)> {
    match json {
        JsonView::Array(items) => if items.len() == 3 && items[0] is Text && items[1] is Text
            && items[2] is Text {
            Some((items[0]->Text_0, items[1]->Text_0, items[2]->Text_0))
        } else {
            None
        },
        _ => None,
    }
}

/// The room that an object with the four members of a room holds. Further
/// members are ignored.
#[verifier::opaque]
pub open spec fn room_in(json: JsonView) -> Option<RoomView> {
    match (
        json.member("id"@),
        json.member("name"@),
        json.member("member_ids"@),
        json.member("host_id"@),
    ) {
        (
            Some(JsonView::Text(id)),
            Some(JsonView::Text(name)),
            Some(members),
            Some(JsonView::Text(host_id)),
        ) => match texts_in(members) {
            Some(member_ids) => Some(RoomView { id, name, member_ids, host_id }),
            None => None,
        },
        _ => None,
    }
}

/// The rooms of an array of rooms.
pub open spec fn rooms_in(json: JsonView) -> Option<Seq<RoomView>> {
    match json {
        JsonView::Array(items) => if forall|i: int|
            0 <= i < items.len() ==> room_in(#[trigger] items[i]) is Some {
            Some(Seq::new(items.len(), |i: int| room_in(items[i])->0))
        } else {
            None
        },
        _ => None,
    }
}

/// The client command with one text field that `tag` names.
pub open spec fn client_with_text(tag: Seq<char>, text: Seq<char>) -> Option<ClientCommandView> {
    if tag == "Connect"@ {
        Some(ClientCommandView::Connect(text))
    } else if tag == "CreateRoom"@ {
        Some(ClientCommandView::CreateRoom(text))
    } else if tag == "Join"@ {
        Some(ClientCommandView::Join(text))
    } else {
        None
    }
}

/// The client command with three text fields that `tag` names.
pub open spec fn client_with_triple(tag: Seq<char>, fields: (Seq<char>, Seq<char>, Seq<char>)) -> Option<
    ClientCommandView,
> {
    if tag == "SendOffer"@ {
        Some(ClientCommandView::SendOffer(fields.0, fields.1, fields.2))
    } else if tag == "SendAnswer"@ {
        Some(ClientCommandView::SendAnswer(fields.0, fields.1, fields.2))
    } else if tag == "SendIceCandidate"@ {
        Some(ClientCommandView::SendIceCandidate(fields.0, fields.1, fields.2))
    } else {
        None
    }
}

/// The client command that a value holds.
pub open spec fn client_in(json: JsonView) -> Option<ClientCommandView> {
    match json {
        JsonView::Text(tag) => if tag == "ListRooms"@ {
            Some(ClientCommandView::ListRooms)
        } else if tag == "Leave"@ {
            Some(ClientCommandView::Leave)
        } else {
            None
        },
        _ => match json.only_member() {
            Some((tag, JsonView::Text(text))) => client_with_text(tag, text),
            Some((tag, value)) => match triple_in(value) {
                Some(fields) => client_with_triple(tag, fields),
                None => None,
            },
            None => None,
        },
    }
}

/// The server command with three text fields that `tag` names.
pub open spec fn server_with_triple(tag: Seq<char>, fields: (Seq<char>, Seq<char>, Seq<char>)) -> Option<
    ServerCommandView,
> {
    if tag == "IncomingOffer"@ {
        Some(ServerCommandView::IncomingOffer(fields.0, fields.1, fields.2))
    } else if tag == "IncomingAnswer"@ {
        Some(ServerCommandView::IncomingAnswer(fields.0, fields.1, fields.2))
    } else if tag == "IncomingIceCandidate"@ {
        Some(ServerCommandView::IncomingIceCandidate(fields.0, fields.1, fields.2))
    } else {
        None
    }
}

/// The server command that a value holds.
pub open spec fn server_in(json: JsonView) -> Option<ServerCommandView> {
    match json {
        JsonView::Text(tag) => if tag == "Ack"@ {
            Some(ServerCommandView::Ack)
        } else {
            None
        },
        _ => match json.only_member() {
            Some((tag, value)) => if tag == "ConnectedAs"@ {
                match value {
                    JsonView::Text(id) => Some(ServerCommandView::ConnectedAs(id)),
                    _ => None,
                }
            } else if tag == "Refresh"@ {
                match texts_in(value) {
                    Some(ids) => Some(ServerCommandView::Refresh(ids)),
                    None => None,
                }
            } else if tag == "RoomList"@ {
                match rooms_in(value) {
                    Some(rooms) => Some(ServerCommandView::RoomList(rooms)),
                    None => None,
                }
            } else {
                match triple_in(value) {
                    Some(fields) => server_with_triple(tag, fields),
                    None => None,
                }
            },
            None => None,
        },
    }
}

/// The command that a value holds.
pub open spec fn command_in(json: JsonView) -> Option<CommandView> {
    match json.only_member() {
        Some((tag, value)) => if tag == "Client"@ {
            match client_in(value) {
                Some(c) => Some(CommandView::Client(c)),
                None => None,
            }
        } else if tag == "Server"@ {
            match server_in(value) {
                Some(c) => Some(CommandView::Server(c)),
                None => None,
            }
        } else {
            None
        },
        None => None,
    }
}

/// The envelope that a value holds, if it holds one. Members other than
/// `user_id` and `command` are ignored.
pub open spec fn message_in(json: JsonView) -> Option<CommandMessageView> {
    match (json.member("user_id"@), json.member("command"@)) {
        (Some(JsonView::Text(user_id)), Some(command)) => match command_in(command) {
            Some(command) => Some(CommandMessageView { user_id, command }),
            None => None,
        },
        _ => None,
    }
}

/// The member names of an envelope differ.
proof fn lemma_envelope_names()
    ensures
        "user_id"@ != "command"@,
{
    reveal_strlit("user_id");
    reveal_strlit("command");
    assert("user_id"@[0] != "command"@[0]);
}

/// The member names of a room differ.
proof fn lemma_room_names()
    ensures
        "id"@.len() == 2,
        "name"@.len() == 4,
        "member_ids"@.len() == 10,
        "host_id"@.len() == 7,
{
    reveal_strlit("id");
    reveal_strlit("name");
    reveal_strlit("member_ids");
    reveal_strlit("host_id");
}

/// The tags of the two families differ.
proof fn lemma_family_tags()
    ensures
        "Client"@ != "Server"@,
{
    reveal_strlit("Client");
    reveal_strlit("Server");
    assert("Client"@[0] != "Server"@[0]);
}

/// The tags of the client commands differ in length.
proof fn lemma_client_tags()
    ensures
        "ListRooms"@.len() == 9,
        "Leave"@.len() == 5,
        "Connect"@.len() == 7,
        "CreateRoom"@.len() == 10,
        "Join"@.len() == 4,
        "SendOffer"@.len() == 9,
        "SendAnswer"@.len() == 10,
        "SendIceCandidate"@.len() == 16,
{
    reveal_strlit("ListRooms");
    reveal_strlit("Leave");
    reveal_strlit("Connect");
    reveal_strlit("CreateRoom");
    reveal_strlit("Join");
    reveal_strlit("SendOffer");
    reveal_strlit("SendAnswer");
    reveal_strlit("SendIceCandidate");
}

/// The tags of the server commands differ in length.
proof fn lemma_server_tags()
    ensures
        "Ack"@.len() == 3,
        "ConnectedAs"@.len() == 11,
        "Refresh"@.len() == 7,
        "RoomList"@.len() == 8,
        "IncomingOffer"@.len() == 13,
        "IncomingAnswer"@.len() == 14,
        "IncomingIceCandidate"@.len() == 20,
{
    reveal_strlit("Ack");
    reveal_strlit("ConnectedAs");
    reveal_strlit("Refresh");
    reveal_strlit("RoomList");
    reveal_strlit("IncomingOffer");
    reveal_strlit("IncomingAnswer");
    reveal_strlit("IncomingIceCandidate");
}

/// An array of texts is read back as the texts it was written from.
pub proof fn lemma_texts_round_trip(list: Seq<Seq<char>>)
    ensures
        texts_in(texts(list)) == Some(list),
{
}

/// A room is read back as the room it was written from.
pub proof fn lemma_room_round_trip(room: RoomView)
    ensures
        room_in(room_form(room)) == Some(room),
{
    reveal(room_in);
    lemma_room_names();
    lemma_texts_round_trip(room.member_ids);
    let json = room_form(room);
    let members = json->Object_0;
    assert(members[0].0 == "host_id"@);
    assert(members[1].0 == "id"@);
    assert(members[2].0 == "member_ids"@);
    assert(members[3].0 == "name"@);
    lemma_member_at(members, "host_id"@, 0);
    lemma_member_at(members, "id"@, 1);
    lemma_member_at(members, "member_ids"@, 2);
    lemma_member_at(members, "name"@, 3);
    assert(json.member("host_id"@) == Some(JsonView::Text(room.host_id)));
    assert(json.member("id"@) == Some(JsonView::Text(room.id)));
    assert(json.member("member_ids"@) == Some(texts(room.member_ids)));
    assert(json.member("name"@) == Some(JsonView::Text(room.name)));
}

/// A list of rooms is read back as the rooms it was written from.
pub proof fn lemma_rooms_round_trip(rooms: Seq<RoomView>)
    ensures
        rooms_in(rooms_form(rooms)) == Some(rooms),
{
    let items = rooms_form(rooms)->Array_0;
    assert forall|i: int| 0 <= i < items.len() implies room_in(#[trigger] items[i]) == Some(
        rooms[i],
    ) by {
        lemma_room_round_trip(rooms[i]);
    }
}

/// A client command is read back as the command it was written from.
pub proof fn lemma_client_round_trip(command: ClientCommandView)
    ensures
        client_in(client_form(command)) == Some(command),
{
    lemma_client_tags();
}

/// A server command is read back as the command it was written from.
pub proof fn lemma_server_round_trip(command: ServerCommandView)
    ensures
        server_in(server_form(command)) == Some(command),
{
    lemma_server_tags();
    match command {
        ServerCommandView::Refresh(ids) => {
            lemma_texts_round_trip(ids);
        },
        ServerCommandView::RoomList(rooms) => {
            lemma_rooms_round_trip(rooms);
        },
        _ => {},
    }
}

/// Decoding is the inverse of encoding: every envelope is read back from its
/// wire form as itself.
pub proof fn lemma_round_trip(message: CommandMessageView)
    ensures
        message_in(message_form(message)) == Some(message),
{
    lemma_envelope_names();
    lemma_family_tags();
    let members = message_form(message)->Object_0;
    lemma_member_at(members, "command"@, 0);
    lemma_member_at(members, "user_id"@, 1);
    match message.command {
        CommandView::Client(c) => {
            lemma_client_round_trip(c);
        },
        CommandView::Server(c) => {
            lemma_server_round_trip(c);
        },
    }
}

/// The member names of an envelope and of a room ascend.
proof fn lemma_names_ascend()
    ensures
        text_before("command"@, "user_id"@),
        text_before("host_id"@, "id"@),
        text_before("id"@, "member_ids"@),
        text_before("member_ids"@, "name"@),
        text_before("host_id"@, "member_ids"@),
        text_before("host_id"@, "name"@),
        text_before("id"@, "name"@),
{
    reveal_strlit("command");
    reveal_strlit("user_id");
    reveal_strlit("host_id");
    reveal_strlit("id");
    reveal_strlit("member_ids");
    reveal_strlit("name");
}

/// The wire form of a room is canonical.
proof fn lemma_room_form_canonical(room: RoomView)
    ensures
        canonical(room_form(room)),
{
    lemma_names_ascend();
    let members = room_form(room)->Object_0;
    assert(canonical(texts(room.member_ids))) by {
        let items = texts(room.member_ids)->Array_0;
        assert forall|i: int| 0 <= i < items.len() implies canonical(#[trigger] items[i]) by {}
    }
    assert forall|i: int| 0 <= i < members.len() implies canonical((#[trigger] members[i]).1) by {}
}

/// The wire form of every envelope is canonical, so that it is written as it
/// stands.
pub proof fn lemma_form_canonical(message: CommandMessageView)
    ensures
        canonical(message_form(message)),
{
    lemma_names_ascend();
    let inner = match message.command {
        CommandView::Client(c) => client_form(c),
        CommandView::Server(c) => server_form(c),
    };
    assert(canonical(inner)) by {
        match inner {
            JsonView::Object(members) => {
                let value = members[0].1;
                assert(canonical(value)) by {
                    match value {
                        JsonView::Array(items) => {
                            assert forall|i: int| 0 <= i < items.len() implies canonical(
                                #[trigger] items[i],
                            ) by {
                                match message.command {
                                    CommandView::Server(ServerCommandView::RoomList(rooms)) => {
                                        lemma_room_form_canonical(rooms[i]);
                                    },
                                    _ => {},
                                }
                            }
                        },
                        _ => {},
                    }
                }
                assert forall|i: int| 0 <= i < members.len() implies canonical(
                    (#[trigger] members[i]).1,
                ) by {}
            },
            _ => {},
        }
    }
    let command = command_form(message.command);
    assert(canonical(command)) by {
        let members = command->Object_0;
        assert forall|i: int| 0 <= i < members.len() implies canonical(
            (#[trigger] members[i]).1,
        ) by {}
    }
    let members = message_form(message)->Object_0;
    assert forall|i: int| 0 <= i < members.len() implies canonical((#[trigger] members[i]).1) by {}
}

/// The text `text` as a value.
fn text_value(text: &String) -> (json: Json)
    ensures
        json@ == JsonView::Text(text@),
{
    Json::Text(text.clone())
}

/// The tag `tag` as a value.
fn tag_value(tag: &str) -> (json: Json)
    ensures
        json@ == JsonView::Text(tag@),
{
    Json::Text(tag.to_owned())
}

/// `value` under the tag `tag`.
fn tag_with(tag: &str, value: Json) -> (json: Json)
    ensures
        json@ == tagged(tag@, value@),
{
    let mut members: Vec<(String, Json)> = Vec::new();
    members.push((tag.to_owned(), value));
    let json = Json::Object(members);
    assert(json@->Object_0 =~= seq![(tag@, value@)]);
    json
}

/// A list of texts as an array.
fn texts_value(list: &Vec<String>) -> (json: Json)
    ensures
        json@ == texts(list.deep_view()),
{
    let mut items: Vec<Json> = Vec::new();
    let mut i: usize = 0;
    while i < list.len()
        invariant
            i <= list.len(),
            items.len() == i,
            forall|k: int| 0 <= k < i ==> (#[trigger] items[k])@ == JsonView::Text(list[k]@),
        decreases list.len() - i,
    {
        items.push(text_value(&list[i]));
        i += 1;
    }
    let json = Json::Array(items);
    assert(json@->Array_0 =~= texts(list.deep_view())->Array_0);
    json
}

/// Three texts as an array.
fn triple_value(a: &String, b: &String, c: &String) -> (json: Json)
    ensures
        json@ == triple(a@, b@, c@),
{
    let mut items: Vec<Json> = Vec::new();
    items.push(text_value(a));
    items.push(text_value(b));
    items.push(text_value(c));
    let json = Json::Array(items);
    assert(json@->Array_0 =~= triple(a@, b@, c@)->Array_0);
    json
}

/// Writes a room.
fn encode_room(room: &Room) -> (json: Json)
    ensures
        json@ == room_form(room@),
{
    let mut members: Vec<(String, Json)> = Vec::new();
    members.push(("host_id".to_owned(), text_value(&room.host_id)));
    members.push(("id".to_owned(), text_value(&room.id)));
    members.push(("member_ids".to_owned(), texts_value(&room.member_ids)));
    members.push(("name".to_owned(), text_value(&room.name)));
    let json = Json::Object(members);
    assert(json@->Object_0 =~= room_form(room@)->Object_0);
    json
}

/// Writes a list of rooms.
fn encode_rooms(rooms: &Vec<Room>) -> (json: Json)
    ensures
        json@ == rooms_form(rooms.deep_view()),
{
    let mut items: Vec<Json> = Vec::new();
    let mut i: usize = 0;
    while i < rooms.len()
        invariant
            i <= rooms.len(),
            items.len() == i,
            forall|k: int| 0 <= k < i ==> (#[trigger] items[k])@ == room_form(rooms[k]@),
        decreases rooms.len() - i,
    {
        items.push(encode_room(&rooms[i]));
        i += 1;
    }
    let json = Json::Array(items);
    assert(json@->Array_0 =~= rooms_form(rooms.deep_view())->Array_0);
    json
}

/// Writes a client command.
fn encode_client(command: &ClientCommand) -> (json: Json)
    ensures
        json@ == client_form(command@),
{
    match command {
        ClientCommand::Connect(name) => tag_with("Connect", text_value(name)),
        ClientCommand::CreateRoom(name) => tag_with("CreateRoom", text_value(name)),
        ClientCommand::ListRooms => tag_value("ListRooms"),
        ClientCommand::Join(room) => tag_with("Join", text_value(room)),
        ClientCommand::Leave => tag_value("Leave"),
        ClientCommand::SendOffer(peer, room, sdp) => tag_with(
            "SendOffer",
            triple_value(peer, room, sdp),
        ),
        ClientCommand::SendAnswer(peer, room, sdp) => tag_with(
            "SendAnswer",
            triple_value(peer, room, sdp),
        ),
        ClientCommand::SendIceCandidate(peer, room, candidate) => tag_with(
            "SendIceCandidate",
            triple_value(peer, room, candidate),
        ),
    }
}

/// Writes a server command.
fn encode_server(command: &ServerCommand) -> (json: Json)
    ensures
        json@ == server_form(command@),
{
    match command {
        ServerCommand::Ack => tag_value("Ack"),
        ServerCommand::ConnectedAs(id) => tag_with("ConnectedAs", text_value(id)),
        ServerCommand::Refresh(ids) => tag_with("Refresh", texts_value(ids)),
        ServerCommand::RoomList(rooms) => tag_with("RoomList", encode_rooms(rooms)),
        ServerCommand::IncomingOffer(peer, room, sdp) => tag_with(
            "IncomingOffer",
            triple_value(peer, room, sdp),
        ),
        ServerCommand::IncomingAnswer(peer, room, sdp) => tag_with(
            "IncomingAnswer",
            triple_value(peer, room, sdp),
        ),
        ServerCommand::IncomingIceCandidate(peer, room, candidate) => tag_with(
            "IncomingIceCandidate",
            triple_value(peer, room, candidate),
        ),
    }
}

/// Writes an envelope: the tree that travels as its text frame.
pub fn encode(message: &CommandMessage) -> (json: Json)
    ensures
        json@ == message_form(message@),
{
    let command = match &message.command {
        Command::Client(c) => tag_with("Client", encode_client(c)),
        Command::Server(c) => tag_with("Server", encode_server(c)),
    };
    let mut members: Vec<(String, Json)> = Vec::new();
    members.push(("command".to_owned(), command));
    members.push(("user_id".to_owned(), text_value(&message.user_id)));
    let json = Json::Object(members);
    assert(json@->Object_0 =~= message_form(message@)->Object_0);
    json
}

/// Writes an envelope as the text of its frame. Every envelope is written, as
/// the text that is written for its wire form.
pub fn encode_text(message: &CommandMessage) -> (r: Option<String>)
    ensures
        r matches Some(text) && text@ == written_text(message_form(message@)),
{
    proof {
        lemma_form_canonical(message@);
    }
    print(&encode(message))
}

/// Reads an array of texts.
fn decode_texts(json: &Json) -> (r: Option<Vec<String>>)
    ensures
        r.deep_view() == texts_in(json@),
{
    let items = match json.as_items() {
        Some(items) => items,
        None => {
            return None;
        },
    };
    let ghost all = items.deep_view();
    let mut list: Vec<String> = Vec::new();
    let mut i: usize = 0;
    while i < items.len()
        invariant
            i <= items.len(),
            all == items.deep_view(),
            json@.items() == Some(all),
            list.len() == i,
            forall|k: int| 0 <= k < i ==> (#[trigger] all[k]) == JsonView::Text(list[k]@),
        decreases items.len() - i,
    {
        match items[i].as_text() {
            Some(text) => {
                list.push(text.clone());
            },
            None => {
                assert(!(all[i as int] is Text));
                return None;
            },
        }
        i += 1;
    }
    Some(list)
}

/// Reads an array of exactly three texts.
fn decode_triple(json: &Json) -> (r: Option<(String, String, String)>)
    ensures
        match r {
            Some(fields) => triple_in(json@) == Some((fields.0@, fields.1@, fields.2@)),
            None => triple_in(json@) is None,
        },
{
    let items = match json.as_items() {
        Some(items) => items,
        None => {
            return None;
        },
    };
    if items.len() != 3 {
        return None;
    }
    match (items[0].as_text(), items[1].as_text(), items[2].as_text()) {
        (Some(a), Some(b), Some(c)) => {
            Some((a.clone(), b.clone(), c.clone()))
        },
        _ => {
            None
        },
    }
}

/// Reads a room.
fn decode_room(json: &Json) -> (r: Option<Room>)
    ensures
        r.deep_view() == room_in(json@),
{
    reveal(room_in);
    let id = match json.member("id") {
        Some(value) => match value.as_text() {
            Some(id) => id.clone(),
            None => {
                return None;
            },
        },
        None => {
            return None;
        },
    };
    let name = match json.member("name") {
        Some(value) => match value.as_text() {
            Some(name) => name.clone(),
            None => {
                return None;
            },
        },
        None => {
            return None;
        },
    };
    let member_ids = match json.member("member_ids") {
        Some(value) => match decode_texts(value) {
            Some(member_ids) => member_ids,
            None => {
                return None;
            },
        },
        None => {
            return None;
        },
    };
    let host_id = match json.member("host_id") {
        Some(value) => match value.as_text() {
            Some(host_id) => host_id.clone(),
            None => {
                return None;
            },
        },
        None => {
            return None;
        },
    };
    Some(Room { id, name, member_ids, host_id })
}

/// Reads an array of rooms.
fn decode_rooms(json: &Json) -> (r: Option<Vec<Room>>)
    ensures
        r.deep_view() == rooms_in(json@),
{
    let items = match json.as_items() {
        Some(items) => items,
        None => {
            return None;
        },
    };
    let ghost all = items.deep_view();
    let mut rooms: Vec<Room> = Vec::new();
    let mut i: usize = 0;
    while i < items.len()
        invariant
            i <= items.len(),
            all == items.deep_view(),
            json@.items() == Some(all),
            rooms.len() == i,
            forall|k: int| 0 <= k < i ==> room_in(#[trigger] all[k]) == Some(rooms[k]@),
        decreases items.len() - i,
    {
        match decode_room(&items[i]) {
            Some(room) => {
                rooms.push(room);
            },
            None => {
                assert(room_in(all[i as int]) is None);
                return None;
            },
        }
        i += 1;
    }
    Some(rooms)
}

/// Reads a client command.
fn decode_client(json: &Json) -> (r: Option<ClientCommand>)
    ensures
        match r {
            Some(command) => client_in(json@) == Some(command@),
            None => client_in(json@) is None,
        },
{
    match json.as_text() {
        Some(tag) => {
            if is_text(tag, "ListRooms") {
                Some(ClientCommand::ListRooms)
            } else if is_text(tag, "Leave") {
                Some(ClientCommand::Leave)
            } else {
                None
            }
        },
        None => {
            let (tag, value) = match json.as_only_member() {
                Some(member) => member,
                None => {
                    return None;
                },
            };
            match value.as_text() {
                Some(text) => {
                    if is_text(tag, "Connect") {
                        Some(ClientCommand::Connect(text.clone()))
                    } else if is_text(tag, "CreateRoom") {
                        Some(ClientCommand::CreateRoom(text.clone()))
                    } else if is_text(tag, "Join") {
                        Some(ClientCommand::Join(text.clone()))
                    } else {
                        None
                    }
                },
                None => {
                    let (a, b, c) = match decode_triple(value) {
                        Some(fields) => fields,
                        None => {
                            return None;
                        },
                    };
                    if is_text(tag, "SendOffer") {
                        Some(ClientCommand::SendOffer(a, b, c))
                    } else if is_text(tag, "SendAnswer") {
                        Some(ClientCommand::SendAnswer(a, b, c))
                    } else if is_text(tag, "SendIceCandidate") {
                        Some(ClientCommand::SendIceCandidate(a, b, c))
                    } else {
                        None
                    }
                },
            }
        },
    }
}

/// Reads a server command.
fn decode_server(json: &Json) -> (r: Option<ServerCommand>)
    ensures
        match r {
            Some(command) => server_in(json@) == Some(command@),
            None => server_in(json@) is None,
        },
{
    match json.as_text() {
        Some(tag) => {
            if is_text(tag, "Ack") {
                Some(ServerCommand::Ack)
            } else {
                None
            }
        },
        None => {
            let (tag, value) = match json.as_only_member() {
                Some(member) => member,
                None => {
                    return None;
                },
            };
            if is_text(tag, "ConnectedAs") {
                match value.as_text() {
                    Some(id) => Some(ServerCommand::ConnectedAs(id.clone())),
                    None => None,
                }
            } else if is_text(tag, "Refresh") {
                match decode_texts(value) {
                    Some(ids) => Some(ServerCommand::Refresh(ids)),
                    None => None,
                }
            } else if is_text(tag, "RoomList") {
                match decode_rooms(value) {
                    Some(rooms) => Some(ServerCommand::RoomList(rooms)),
                    None => None,
                }
            } else {
                let (a, b, c) = match decode_triple(value) {
                    Some(fields) => fields,
                    None => {
                        return None;
                    },
                };
                if is_text(tag, "IncomingOffer") {
                    Some(ServerCommand::IncomingOffer(a, b, c))
                } else if is_text(tag, "IncomingAnswer") {
                    Some(ServerCommand::IncomingAnswer(a, b, c))
                } else if is_text(tag, "IncomingIceCandidate") {
                    Some(ServerCommand::IncomingIceCandidate(a, b, c))
                } else {
                    None
                }
            }
        },
    }
}

/// Reads a command.
fn decode_command(json: &Json) -> (r: Option<Command>)
    ensures
        match r {
            Some(command) => command_in(json@) == Some(command@),
            None => command_in(json@) is None,
        },
{
    let (tag, value) = match json.as_only_member() {
        Some(member) => member,
        None => {
            return None;
        },
    };
    if is_text(tag, "Client") {
        match decode_client(value) {
            Some(c) => Some(Command::Client(c)),
            None => None,
        }
    } else if is_text(tag, "Server") {
        match decode_server(value) {
            Some(c) => Some(Command::Server(c)),
            None => None,
        }
    } else {
        None
    }
}

/// Reads an envelope from the tree of its text frame. A tree that holds no
/// envelope is a malformed frame.
pub fn decode(json: &Json) -> (r: Result<CommandMessage, ClientError>)
    ensures
        match r {
            Ok(message) => message_in(json@) == Some(message@),
            Err(error) => error == ClientError::ProtocolError && message_in(json@) is None,
        },
{
    let user_id = match json.member("user_id") {
        Some(value) => match value.as_text() {
            Some(user_id) => user_id.clone(),
            None => {
                return Err(ClientError::ProtocolError);
            },
        },
        None => {
            return Err(ClientError::ProtocolError);
        },
    };
    let command = match json.member("command") {
        Some(value) => match decode_command(value) {
            Some(command) => command,
            None => {
                return Err(ClientError::ProtocolError);
            },
        },
        None => {
            return Err(ClientError::ProtocolError);
        },
    };
    Ok(CommandMessage { user_id, command })
}

} // verus!
