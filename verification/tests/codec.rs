use client::codec::{decode, encode, encode_text};
use client::commands::{ClientCommand, Command, CommandMessage, ServerCommand};
use client::error::ClientError;
use client::json::{is_text, parse, Json};
use client::rooms::Room;
use client::signal::{read_text, text_frame, ChannelEvent};
use serde_json::Value;

fn s(text: &str) -> String {
    text.to_string()
}

fn read(text: &str) -> Json {
    parse(text).unwrap()
}

fn client(user: &str, command: ClientCommand) -> CommandMessage {
    CommandMessage { user_id: s(user), command: Command::Client(command) }
}

fn server(user: &str, command: ServerCommand) -> CommandMessage {
    CommandMessage { user_id: s(user), command: Command::Server(command) }
}

fn lobby() -> Room {
    Room { id: s("r1"), name: s("lobby"), member_ids: vec![s("alice"), s("bob")], host_id: s("alice") }
}

fn every_message() -> Vec<CommandMessage> {
    vec![
        client("alice", ClientCommand::Connect(s("Alice"))),
        client("alice", ClientCommand::CreateRoom(s("lobby"))),
        client("alice", ClientCommand::ListRooms),
        client("alice", ClientCommand::Join(s("r1"))),
        client("alice", ClientCommand::Leave),
        client("alice", ClientCommand::SendOffer(s("bob"), s("r1"), s("v=0\r\n"))),
        client("alice", ClientCommand::SendAnswer(s("bob"), s("r1"), s("v=0\r\n"))),
        client("alice", ClientCommand::SendIceCandidate(s("bob"), s("r1"), s("{\"candidate\":\"x\"}"))),
        server("alice", ServerCommand::Ack),
        server("alice", ServerCommand::ConnectedAs(s("a1"))),
        server("alice", ServerCommand::Refresh(vec![s("alice"), s("bob")])),
        server("alice", ServerCommand::Refresh(Vec::new())),
        server("alice", ServerCommand::RoomList(Vec::new())),
        server("alice", ServerCommand::RoomList(vec![lobby(), Room { id: s("r2"), name: s(""), member_ids: Vec::new(), host_id: s("") }])),
        server("alice", ServerCommand::IncomingOffer(s("bob"), s("r1"), s("sdp"))),
        server("alice", ServerCommand::IncomingAnswer(s("bob"), s("r1"), s("sdp"))),
        server("alice", ServerCommand::IncomingIceCandidate(s("bob"), s("r1"), s("candidate"))),
        server("", ServerCommand::ConnectedAs(s("quote \" backslash \\ newline \n tab \t é 日本"))),
    ]
}

#[test]
fn every_message_is_read_back_as_itself() {
    for message in every_message() {
        assert_eq!(decode(&encode(&message)), Ok(message.clone()));
    }
}

#[test]
fn every_message_survives_the_text_frame() {
    for message in every_message() {
        let text = encode_text(&message).unwrap();
        assert!(!text.contains('\n'));
        assert_eq!(decode(&read(&text)), Ok(message.clone()));
        assert_eq!(text_frame(Some(read(&text))), ChannelEvent::Envelope(message.clone()));
        assert_eq!(read_text(&text), ChannelEvent::Envelope(message));
    }
}

#[test]
fn envelope_is_an_object_of_user_and_command() {
    let json = encode(&client("alice", ClientCommand::Connect(s("Alice"))));
    assert_eq!(
        json,
        Json::Object(vec![
            (
                s("command"),
                Json::Object(vec![(s("Client"), Json::Object(vec![(s("Connect"), Json::Text(s("Alice")))]))]),
            ),
            (s("user_id"), Json::Text(s("alice"))),
        ])
    );
}

#[test]
fn wire_forms_are_the_tagged_ones() {
    let cases = vec![
        (client("u", ClientCommand::Connect(s("n"))), r#"{"user_id":"u","command":{"Client":{"Connect":"n"}}}"#),
        (client("u", ClientCommand::CreateRoom(s("n"))), r#"{"user_id":"u","command":{"Client":{"CreateRoom":"n"}}}"#),
        (client("u", ClientCommand::ListRooms), r#"{"user_id":"u","command":{"Client":"ListRooms"}}"#),
        (client("u", ClientCommand::Join(s("r"))), r#"{"user_id":"u","command":{"Client":{"Join":"r"}}}"#),
        (client("u", ClientCommand::Leave), r#"{"user_id":"u","command":{"Client":"Leave"}}"#),
        (
            client("u", ClientCommand::SendOffer(s("p"), s("r"), s("o"))),
            r#"{"user_id":"u","command":{"Client":{"SendOffer":["p","r","o"]}}}"#,
        ),
        (
            client("u", ClientCommand::SendAnswer(s("p"), s("r"), s("a"))),
            r#"{"user_id":"u","command":{"Client":{"SendAnswer":["p","r","a"]}}}"#,
        ),
        (
            client("u", ClientCommand::SendIceCandidate(s("p"), s("r"), s("c"))),
            r#"{"user_id":"u","command":{"Client":{"SendIceCandidate":["p","r","c"]}}}"#,
        ),
        (server("u", ServerCommand::Ack), r#"{"user_id":"u","command":{"Server":"Ack"}}"#),
        (server("u", ServerCommand::ConnectedAs(s("i"))), r#"{"user_id":"u","command":{"Server":{"ConnectedAs":"i"}}}"#),
        (
            server("u", ServerCommand::Refresh(vec![s("a"), s("b")])),
            r#"{"user_id":"u","command":{"Server":{"Refresh":["a","b"]}}}"#,
        ),
        (
            server("u", ServerCommand::RoomList(vec![lobby()])),
            r#"{"user_id":"u","command":{"Server":{"RoomList":[{"id":"r1","name":"lobby","member_ids":["alice","bob"],"host_id":"alice"}]}}}"#,
        ),
        (
            server("u", ServerCommand::IncomingOffer(s("p"), s("r"), s("o"))),
            r#"{"user_id":"u","command":{"Server":{"IncomingOffer":["p","r","o"]}}}"#,
        ),
        (
            server("u", ServerCommand::IncomingAnswer(s("p"), s("r"), s("a"))),
            r#"{"user_id":"u","command":{"Server":{"IncomingAnswer":["p","r","a"]}}}"#,
        ),
        (
            server("u", ServerCommand::IncomingIceCandidate(s("p"), s("r"), s("c"))),
            r#"{"user_id":"u","command":{"Server":{"IncomingIceCandidate":["p","r","c"]}}}"#,
        ),
    ];
    for (message, text) in cases {
        let expected: Value = serde_json::from_str(text).unwrap();
        let written: Value = serde_json::from_str(&encode_text(&message).unwrap()).unwrap();
        assert_eq!(written, expected);
        assert_eq!(encode(&message), read(text));
        assert_eq!(decode(&read(text)), Ok(message));
    }
}

#[test]
fn members_may_come_in_any_order_and_with_company() {
    let text = r#"{"extra":1,"command":{"Server":{"RoomList":[{"host_id":"alice","extra":[true,null],"member_ids":["alice","bob"],"name":"lobby","id":"r1"}]}},"user_id":"u"}"#;
    assert_eq!(decode(&read(text)), Ok(server("u", ServerCommand::RoomList(vec![lobby()]))));
}

#[test]
fn first_member_of_a_name_counts() {
    let json = Json::Object(vec![
        (s("user_id"), Json::Text(s("first"))),
        (s("user_id"), Json::Text(s("second"))),
        (s("command"), Json::Object(vec![(s("Server"), Json::Text(s("Ack")))])),
    ]);
    assert_eq!(decode(&json), Ok(server("first", ServerCommand::Ack)));
}

#[test]
fn malformed_trees_are_protocol_errors() {
    let texts = vec![
        r#"null"#,
        r#"true"#,
        r#"7"#,
        r#""Ack""#,
        r#"[]"#,
        r#"{}"#,
        r#"{"user_id":"u"}"#,
        r#"{"command":{"Server":"Ack"}}"#,
        r#"{"user_id":7,"command":{"Server":"Ack"}}"#,
        r#"{"user_id":null,"command":{"Server":"Ack"}}"#,
        r#"{"user_id":"u","command":"Ack"}"#,
        r#"{"user_id":"u","command":{}}"#,
        r#"{"user_id":"u","command":{"Server":"Ack","Client":"Leave"}}"#,
        r#"{"user_id":"u","command":{"Peer":"Ack"}}"#,
        r#"{"user_id":"u","command":{"server":"Ack"}}"#,
        r#"{"user_id":"u","command":{"Server":"ack"}}"#,
        r#"{"user_id":"u","command":{"Server":"Leave"}}"#,
        r#"{"user_id":"u","command":{"Client":"Ack"}}"#,
        r#"{"user_id":"u","command":{"Client":"Connect"}}"#,
        r#"{"user_id":"u","command":{"Client":{"ListRooms":null}}}"#,
        r#"{"user_id":"u","command":{"Client":{"Connect":7}}}"#,
        r#"{"user_id":"u","command":{"Client":{"Connect":["n"]}}}"#,
        r#"{"user_id":"u","command":{"Client":{"Connect":"n","Join":"r"}}}"#,
        r#"{"user_id":"u","command":{"Client":{"SendOffer":"p"}}}"#,
        r#"{"user_id":"u","command":{"Client":{"SendOffer":["p","r"]}}}"#,
        r#"{"user_id":"u","command":{"Client":{"SendOffer":["p","r","o","x"]}}}"#,
        r#"{"user_id":"u","command":{"Client":{"SendOffer":["p","r",3]}}}"#,
        r#"{"user_id":"u","command":{"Client":{"IncomingOffer":["p","r","o"]}}}"#,
        r#"{"user_id":"u","command":{"Server":{"SendOffer":["p","r","o"]}}}"#,
        r#"{"user_id":"u","command":{"Server":{"ConnectedAs":["i"]}}}"#,
        r#"{"user_id":"u","command":{"Server":{"Refresh":"a"}}}"#,
        r#"{"user_id":"u","command":{"Server":{"Refresh":["a",1]}}}"#,
        r#"{"user_id":"u","command":{"Server":{"RoomList":{}}}}"#,
        r#"{"user_id":"u","command":{"Server":{"RoomList":["r1"]}}}"#,
        r#"{"user_id":"u","command":{"Server":{"RoomList":[{"id":"r1","name":"lobby","member_ids":["a"]}]}}}"#,
        r#"{"user_id":"u","command":{"Server":{"RoomList":[{"id":"r1","name":"lobby","member_ids":"a","host_id":"a"}]}}}"#,
        r#"{"user_id":"u","command":{"Server":{"RoomList":[{"id":1,"name":"lobby","member_ids":["a"],"host_id":"a"}]}}}"#,
        r#"{"user_id":"u","command":{"Server":{"RoomList":[{"id":"r1","name":"lobby","users":["a"],"host_id":"a"}]}}}"#,
    ];
    for text in texts {
        assert_eq!(decode(&read(text)), Err(ClientError::ProtocolError), "{}", text);
        assert_eq!(text_frame(Some(read(text))), ChannelEvent::Undecodable);
        assert_eq!(read_text(text), ChannelEvent::Undecodable);
    }
}

#[test]
fn text_that_is_no_json_is_undecodable() {
    assert_eq!(text_frame(None), ChannelEvent::Undecodable);
    for text in ["", "{", "{\"user_id\":}", "Ack", "[1,]", "{\"a\":1}}"] {
        assert_eq!(parse(text), None);
        assert_eq!(read_text(text), ChannelEvent::Undecodable);
    }
}

#[test]
fn json_is_read_node_by_node() {
    assert_eq!(parse("null"), Some(Json::Null));
    assert_eq!(parse(" true "), Some(Json::Bool(true)));
    assert_eq!(parse("false"), Some(Json::Bool(false)));
    assert_eq!(parse("12"), Some(Json::Number(s("12"))));
    assert_eq!(parse("-3"), Some(Json::Number(s("-3"))));
    assert_eq!(parse("1.5"), Some(Json::Number(s("1.5"))));
    assert_eq!(parse("\"a\\nb\""), Some(Json::Text(s("a\nb"))));
    assert_eq!(parse("[]"), Some(Json::Array(Vec::new())));
    assert_eq!(
        parse("[1, \"x\", [null]]"),
        Some(Json::Array(vec![Json::Number(s("1")), Json::Text(s("x")), Json::Array(vec![Json::Null])]))
    );
    assert_eq!(parse("{}"), Some(Json::Object(Vec::new())));
    assert_eq!(
        parse("{\"b\": {\"x\": false}, \"a\": \"y\"}"),
        Some(Json::Object(vec![
            (s("a"), Json::Text(s("y"))),
            (s("b"), Json::Object(vec![(s("x"), Json::Bool(false))])),
        ]))
    );
}

#[test]
fn tree_accessors() {
    let json = read(r#"{"a":"x","b":[1,"y"],"a":"z"}"#);
    assert_eq!(json.as_text(), None);
    assert!(json.as_items().is_none());
    assert!(json.as_only_member().is_none());
    assert!(json.member("missing").is_none());
    assert_eq!(json.member("a").and_then(|a| a.as_text()), Some(&s("z")));
    let items = json.member("b").and_then(|b| b.as_items()).unwrap();
    assert_eq!(items.len(), 2);
    assert_eq!(items[0], Json::Number(s("1")));
    assert_eq!(items[1].as_text(), Some(&s("y")));
    let one = read(r#"{"tag":null}"#);
    let (name, value) = one.as_only_member().unwrap();
    assert_eq!(name, "tag");
    assert_eq!(value, &Json::Null);
    assert!(is_text(&s("tag"), "tag"));
    assert!(!is_text(&s("tag"), "Tag"));
    assert!(!is_text(&s("tag"), "ta"));
}

#[test]
fn frames_are_written_with_ascending_names() {
    let message = server("u", ServerCommand::RoomList(vec![lobby()]));
    assert_eq!(
        encode_text(&message).unwrap(),
        r#"{"command":{"Server":{"RoomList":[{"host_id":"alice","id":"r1","member_ids":["alice","bob"],"name":"lobby"}]}},"user_id":"u"}"#
    );
    assert_eq!(
        encode_text(&client("alice", ClientCommand::ListRooms)).unwrap(),
        r#"{"command":{"Client":"ListRooms"},"user_id":"alice"}"#
    );
}

#[test]
fn texts_are_escaped_when_written() {
    let message = client("a\"b", ClientCommand::Connect(s("line\nbreak \\ tab\t")));
    let text = encode_text(&message).unwrap();
    assert_eq!(text, r#"{"command":{"Client":{"Connect":"line\nbreak \\ tab\t"}},"user_id":"a\"b"}"#);
    assert_eq!(read_text(&text), ChannelEvent::Envelope(message));
}

#[test]
fn every_envelope_is_written() {
    for message in every_message() {
        let text = encode_text(&message).unwrap();
        assert_eq!(decode(&read(&text)), Ok(message));
    }
}
