use client::commands::{ClientCommand, Command, CommandMessage, ServerCommand};
use client::directory::Presentation;
use client::engine::{MediaSetup, SdpKind};
use client::error::ClientError;
use client::peer::model::{PeerNotice, PeerState};
use client::peer::action::PeerAction;
use client::rooms::{connect_to_room_users, create_room, join_room, Room};
use client::config::UserConfig;
use client::session::{effects_of, Effect, Session};
use client::signal::{wait_for_ack, Awaited, ChannelEvent};
use client::socket::listen::{listen_for_ws, Reaction};

const SDP: &str = "v=0\r\no=- 4596489990601351948 2 IN IP4 127.0.0.1\r\ns=-\r\nt=0 0\r\n";

fn s(text: &str) -> String {
    text.to_string()
}

fn ids(list: &[&str]) -> Vec<String> {
    list.iter().map(|x| x.to_string()).collect()
}

fn room(id: &str, name: &str, members: &[&str], host: &str) -> Room {
    Room { id: s(id), name: s(name), member_ids: ids(members), host_id: s(host) }
}

fn from_server(user: &str, command: ServerCommand) -> ChannelEvent {
    ChannelEvent::Envelope(CommandMessage { user_id: s(user), command: Command::Server(command) })
}

fn send(user: &str, command: ClientCommand) -> PeerAction {
    PeerAction::Send(CommandMessage { user_id: s(user), command: Command::Client(command) })
}

fn effects(reaction: Reaction) -> Vec<Effect> {
    match reaction {
        Reaction::Continue(effects) => effects,
        other => panic!("the loop does not go on: {:?}", other),
    }
}

#[test]
fn new_session_knows_nothing() {
    let session = Session::new(s("alice"));
    assert_eq!(session.directory.len(), 0);
    assert_eq!(session.peers.len(), 0);
    assert_eq!(session.peers.local_id(), "alice");
    assert_eq!(session.room, None);
}

#[test]
fn closed_channel_stops_the_loop() {
    let mut session = Session::new(s("alice"));
    assert_eq!(listen_for_ws(&mut session, ChannelEvent::Closed), Reaction::Stop);
}

#[test]
fn read_error_shuts_down() {
    let mut session = Session::new(s("alice"));
    assert_eq!(listen_for_ws(&mut session, ChannelEvent::ReadError), Reaction::Shutdown);
}

#[test]
fn frames_that_are_not_text_are_ignored() {
    let mut session = Session::new(s("alice"));
    for event in [ChannelEvent::Ping, ChannelEvent::Pong, ChannelEvent::Binary] {
        assert_eq!(listen_for_ws(&mut session, event), Reaction::Continue(Vec::new()));
    }
}

#[test]
fn undecodable_text_is_reported_and_dropped() {
    let mut session = Session::new(s("alice"));
    assert_eq!(
        listen_for_ws(&mut session, ChannelEvent::Undecodable),
        Reaction::Continue(vec![Effect::Report(ClientError::ProtocolError)])
    );
}

#[test]
fn envelope_for_another_identity_is_discarded() {
    let mut session = Session::new(s("alice"));
    let event = from_server("bob", ServerCommand::IncomingOffer(s("carol"), s("r1"), s(SDP)));
    assert_eq!(listen_for_ws(&mut session, event), Reaction::Continue(Vec::new()));
    assert_eq!(session.peers.len(), 0);
}

#[test]
fn unexpected_commands_are_dropped() {
    let mut session = Session::new(s("alice"));
    let dropped = vec![Effect::Report(ClientError::ProtocolError), Effect::Changed];
    let events = vec![
        from_server("alice", ServerCommand::Ack),
        from_server("alice", ServerCommand::ConnectedAs(s("a1"))),
        ChannelEvent::Envelope(CommandMessage {
            user_id: s("alice"),
            command: Command::Client(ClientCommand::Leave),
        }),
    ];
    for event in events {
        assert_eq!(effects(listen_for_ws(&mut session, event)), dropped);
    }
}

#[test]
fn creating_a_room_end_to_end() {
    let alice = UserConfig::with_id("alice", s("alice"));
    let mut session = Session::new(alice.id.clone());

    let connect = CommandMessage::client(&alice.id, ClientCommand::Connect(alice.name.clone()));
    assert_eq!(connect.command, Command::Client(ClientCommand::Connect(s("alice"))));
    let ack = Awaited::Arrived(from_server("alice", ServerCommand::Ack));
    assert_eq!(wait_for_ack(&alice.id, &vec![ack]), Ok(()));

    let list = CommandMessage::client(&alice.id, ClientCommand::ListRooms);
    assert_eq!(list.command, Command::Client(ClientCommand::ListRooms));
    let shown = effects(listen_for_ws(&mut session, from_server("alice", ServerCommand::RoomList(Vec::new()))));
    assert_eq!(shown, vec![Effect::Show(Presentation::NoRooms), Effect::Changed]);
    assert_eq!(session.directory.len(), 0);
    assert_eq!(session.room, None);

    let request = create_room(&alice, "lobby");
    assert_eq!(request.user_id, "alice");
    assert_eq!(request.command, Command::Client(ClientCommand::CreateRoom(s("lobby"))));

    let lobby = room("r1", "lobby", &["alice"], "alice");
    let shown = effects(listen_for_ws(
        &mut session,
        from_server("alice", ServerCommand::RoomList(vec![lobby.clone()])),
    ));
    assert_eq!(shown, vec![Effect::Show(Presentation::CurrentRoom(lobby.clone())), Effect::Changed]);
    assert_eq!(session.room, Some(s("r1")));
    assert_eq!(session.directory.current_room(&alice.id), Some(0));
    assert_eq!(session.directory.members(&s("r1")), ids(&["alice"]));
    assert_eq!(session.directory.rooms(), vec![lobby]);
}

#[test]
fn refresh_connects_to_new_members_only() {
    let mut session = Session::new(s("bob"));
    let mine = room("r1", "lobby", &["bob"], "bob");
    listen_for_ws(&mut session, from_server("bob", ServerCommand::RoomList(vec![mine])));
    assert_eq!(session.room, Some(s("r1")));

    let refresh = from_server("bob", ServerCommand::Refresh(ids(&["alice", "bob"])));
    let done = effects(listen_for_ws(&mut session, refresh));
    assert_eq!(
        done,
        vec![
            Effect::Peer(PeerAction::OpenConnection { peer: s("alice"), media: MediaSetup::Audio }),
            Effect::Peer(PeerAction::CreateOffer { peer: s("alice") }),
            Effect::Changed,
        ]
    );
    assert_eq!(session.peers.len(), 1);
    assert!(!session.peers.contains(&s("bob")));
    assert_eq!(session.peers.state_of(&s("alice")), PeerState::Offering);
    assert_eq!(session.directory.members(&s("r1")), ids(&["alice", "bob"]));

    let mut sent = Vec::new();
    sent.extend(session.peers.offer_created(s("alice"), s(SDP)));
    assert_eq!(session.peers.state_of(&s("alice")), PeerState::GatheringLocalCandidates);
    sent.extend(session.peers.gathering_complete(s("alice")));
    assert_eq!(session.peers.state_of(&s("alice")), PeerState::AwaitingRemote);
    sent.extend(session.peers.gathering_complete(s("alice")));
    let offers: Vec<&PeerAction> = sent
        .iter()
        .filter(|a| matches!(a, PeerAction::Send(m) if matches!(m.command, Command::Client(ClientCommand::SendOffer(..)))))
        .collect();
    assert_eq!(offers, vec![&send("bob", ClientCommand::SendOffer(s("alice"), s("r1"), s(SDP)))]);

    let again = from_server("bob", ServerCommand::Refresh(ids(&["alice", "bob"])));
    assert_eq!(effects(listen_for_ws(&mut session, again)), vec![Effect::Changed]);
    assert_eq!(session.peers.len(), 1);
}

#[test]
fn refresh_removes_peers_that_left() {
    let mut session = Session::new(s("bob"));
    listen_for_ws(
        &mut session,
        from_server("bob", ServerCommand::RoomList(vec![room("r1", "lobby", &["bob"], "bob")])),
    );
    listen_for_ws(&mut session, from_server("bob", ServerCommand::Refresh(ids(&["bob", "alice", "carol"]))));
    assert_eq!(session.peers.len(), 2);
    let done = effects(listen_for_ws(&mut session, from_server("bob", ServerCommand::Refresh(ids(&["bob", "carol", "dave"])))));
    assert_eq!(
        done,
        vec![
            Effect::Peer(PeerAction::CloseConnection { peer: s("alice") }),
            Effect::Peer(PeerAction::OpenConnection { peer: s("dave"), media: MediaSetup::Audio }),
            Effect::Peer(PeerAction::CreateOffer { peer: s("dave") }),
            Effect::Changed,
        ]
    );
    assert!(!session.peers.contains(&s("alice")));
    assert!(session.peers.contains(&s("carol")));
    assert!(session.peers.contains(&s("dave")));
}

#[test]
fn refresh_without_a_room_is_dropped() {
    let mut session = Session::new(s("bob"));
    let done = effects(listen_for_ws(&mut session, from_server("bob", ServerCommand::Refresh(ids(&["alice"])))));
    assert_eq!(done, vec![Effect::Report(ClientError::ProtocolError), Effect::Changed]);
    assert_eq!(session.peers.len(), 0);
    assert_eq!(session.directory.len(), 0);
}

#[test]
fn malformed_room_list_is_dropped() {
    let mut session = Session::new(s("bob"));
    let bad = vec![room("r1", "lobby", &["alice", "alice"], "alice")];
    let done = effects(listen_for_ws(&mut session, from_server("bob", ServerCommand::RoomList(bad))));
    assert_eq!(done, vec![Effect::Report(ClientError::ProtocolError), Effect::Changed]);
    assert_eq!(session.directory.len(), 0);
}

#[test]
fn room_list_without_the_local_identity_shows_all_rooms() {
    let mut session = Session::new(s("bob"));
    let rooms = vec![room("r1", "lobby", &["alice"], "alice"), room("r2", "hall", &["carol"], "carol")];
    let done = effects(listen_for_ws(&mut session, from_server("bob", ServerCommand::RoomList(rooms.clone()))));
    assert_eq!(done, vec![Effect::Show(Presentation::Rooms(rooms)), Effect::Changed]);
    assert_eq!(session.room, None);
}

#[test]
fn negotiation_messages_reach_the_peer_table() {
    let mut session = Session::new(s("bob"));
    let text = s("{\"candidate\":\"candidate:1 1 udp 1 10.0.0.1 5000 typ host\",\"sdpMid\":\"0\",\"sdpMLineIndex\":0,\"usernameFragment\":null}");
    let done = effects(listen_for_ws(
        &mut session,
        from_server("bob", ServerCommand::IncomingIceCandidate(s("alice"), s("r1"), text)),
    ));
    assert_eq!(done, vec![Effect::Changed]);
    assert_eq!(session.peers.pending_len(&s("alice")), 1);

    let done = effects(listen_for_ws(
        &mut session,
        from_server("bob", ServerCommand::IncomingOffer(s("alice"), s("r1"), s(SDP))),
    ));
    assert_eq!(done.len(), 5);
    assert_eq!(done[1], Effect::Peer(PeerAction::SetRemoteDescription { peer: s("alice"), kind: SdpKind::Offer, sdp: s(SDP) }));
    assert!(matches!(done[2], Effect::Peer(PeerAction::AddIceCandidate { .. })));
    assert_eq!(done[4], Effect::Changed);
    assert_eq!(session.peers.state_of(&s("alice")), PeerState::GatheringLocalCandidates);

    let done = effects(listen_for_ws(
        &mut session,
        from_server("bob", ServerCommand::IncomingAnswer(s("zed"), s("r1"), s(SDP))),
    ));
    assert_eq!(
        done,
        vec![Effect::Peer(PeerAction::Log { peer: s("zed"), notice: PeerNotice::StaleAnswer }), Effect::Changed]
    );
}

#[test]
fn joining_only_asks_the_server() {
    let mut session = Session::new(s("bob"));
    let hall = room("r2", "hall", &["alice", "bob", "carol"], "alice");
    listen_for_ws(&mut session, from_server("bob", ServerCommand::RoomList(vec![hall.clone()])));
    let rooms_before = session.directory.rooms();
    let actions = join_room(&mut session, &hall);
    assert_eq!(actions, vec![send("bob", ClientCommand::Join(s("r2")))]);
    assert_eq!(session.room, Some(s("r2")));
    assert_eq!(session.peers.len(), 0);
    assert_eq!(session.directory.rooms(), rooms_before);
}

#[test]
fn members_known_from_a_room_list_are_reached_on_refresh() {
    let mut session = Session::new(s("bob"));
    let hall = room("r2", "hall", &["alice", "carol"], "alice");
    listen_for_ws(&mut session, from_server("bob", ServerCommand::RoomList(vec![hall.clone()])));
    assert_eq!(session.room, None);
    join_room(&mut session, &hall);
    assert_eq!(session.peers.len(), 0);
    let refresh = from_server("bob", ServerCommand::Refresh(ids(&["alice", "carol", "bob"])));
    let done = effects(listen_for_ws(&mut session, refresh));
    assert_eq!(
        done,
        vec![
            Effect::Peer(PeerAction::OpenConnection { peer: s("alice"), media: MediaSetup::Audio }),
            Effect::Peer(PeerAction::CreateOffer { peer: s("alice") }),
            Effect::Peer(PeerAction::OpenConnection { peer: s("carol"), media: MediaSetup::Audio }),
            Effect::Peer(PeerAction::CreateOffer { peer: s("carol") }),
            Effect::Changed,
        ]
    );
    assert_eq!(session.peers.len(), 2);
    assert!(!session.peers.contains(&s("bob")));
    assert_eq!(session.directory.members(&s("r2")), ids(&["alice", "carol", "bob"]));
}

#[test]
fn refresh_leaves_connected_members_alone_and_completes_buffered_ones() {
    let mut session = Session::new(s("bob"));
    listen_for_ws(
        &mut session,
        from_server("bob", ServerCommand::RoomList(vec![room("r1", "lobby", &["bob"], "bob")])),
    );
    session.peers.offer_received(s("alice"), s("r1"), s(SDP), true);
    let text = s("{\"candidate\":\"candidate:1 1 udp 1 10.0.0.1 5000 typ host\",\"sdpMid\":\"0\",\"sdpMLineIndex\":0,\"usernameFragment\":null}");
    listen_for_ws(
        &mut session,
        from_server("bob", ServerCommand::IncomingIceCandidate(s("carol"), s("r1"), text)),
    );
    assert_eq!(session.peers.state_of(&s("carol")), PeerState::Idle);
    let refresh = from_server("bob", ServerCommand::Refresh(ids(&["bob", "alice", "carol", "carol"])));
    let done = effects(listen_for_ws(&mut session, refresh));
    assert_eq!(
        done,
        vec![
            Effect::Peer(PeerAction::OpenConnection { peer: s("carol"), media: MediaSetup::Audio }),
            Effect::Peer(PeerAction::CreateOffer { peer: s("carol") }),
            Effect::Changed,
        ]
    );
    assert_eq!(session.peers.state_of(&s("alice")), PeerState::GatheringLocalCandidates);
    assert_eq!(session.peers.state_of(&s("carol")), PeerState::Offering);
    assert_eq!(session.peers.pending_len(&s("carol")), 1);
}

#[test]
fn joining_an_empty_room_only_asks_the_server() {
    let mut session = Session::new(s("bob"));
    let actions = join_room(&mut session, &room("r3", "attic", &[], ""));
    assert_eq!(actions, vec![send("bob", ClientCommand::Join(s("r3")))]);
    assert_eq!(session.peers.len(), 0);
}

#[test]
fn connecting_to_room_users_skips_the_local_identity() {
    let mut session = Session::new(s("bob"));
    let only_me = room("r1", "lobby", &["bob"], "bob");
    assert!(connect_to_room_users(&mut session.peers, &only_me).is_empty());
    let both = room("r1", "lobby", &["bob", "alice"], "bob");
    let actions = connect_to_room_users(&mut session.peers, &both);
    assert_eq!(actions.len(), 2);
    assert_eq!(session.peers.state_of(&s("alice")), PeerState::Offering);
}

#[test]
fn room_name_is_trimmed() {
    let user = UserConfig::with_id("alice", s("a1"));
    let request = create_room(&user, "  the lobby \t\n");
    assert_eq!(request.user_id, "a1");
    assert_eq!(request.command, Command::Client(ClientCommand::CreateRoom(s("the lobby"))));
}

#[test]
fn actions_are_wrapped_in_order() {
    let actions = vec![
        PeerAction::CreateOffer { peer: s("alice") },
        PeerAction::StartMedia { peer: s("carol") },
    ];
    assert_eq!(
        effects_of(&actions),
        vec![
            Effect::Peer(PeerAction::CreateOffer { peer: s("alice") }),
            Effect::Peer(PeerAction::StartMedia { peer: s("carol") }),
        ]
    );
}
