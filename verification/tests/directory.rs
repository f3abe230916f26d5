use client::directory::{Presentation, RoomDirectory};
use client::error::ClientError;
use client::rooms::Room;

fn ids(list: &[&str]) -> Vec<String> {
    list.iter().map(|s| s.to_string()).collect()
}

fn room(id: &str, name: &str, members: &[&str], host: &str) -> Room {
    Room { id: id.to_string(), name: name.to_string(), member_ids: ids(members), host_id: host.to_string() }
}

#[test]
fn new_directory_is_empty() {
    let directory = RoomDirectory::new();
    assert_eq!(directory.len(), 0);
    assert!(directory.rooms().is_empty());
    assert_eq!(directory.present(&"alice".to_string()), Presentation::NoRooms);
    assert!(!directory.knows(&"r1".to_string()));
    assert!(directory.members(&"r1".to_string()).is_empty());
}

#[test]
fn room_list_replaces_what_is_known() {
    let mut directory = RoomDirectory::new();
    let first = vec![room("r1", "lobby", &["alice"], "alice")];
    assert_eq!(directory.apply_room_list(first.clone()), Ok(()));
    assert_eq!(directory.rooms(), first);
    let second = vec![room("r2", "hall", &["bob", "carol"], "carol"), room("r3", "attic", &["dave"], "dave")];
    assert_eq!(directory.apply_room_list(second.clone()), Ok(()));
    assert_eq!(directory.rooms(), second);
    assert!(!directory.knows(&"r1".to_string()));
    assert_eq!(directory.members(&"r2".to_string()), ids(&["bob", "carol"]));
    assert_eq!(directory.room(1), second[1]);
}

#[test]
fn room_list_with_duplicate_member_is_refused() {
    let mut directory = RoomDirectory::new();
    let good = vec![room("r1", "lobby", &["alice"], "alice")];
    directory.apply_room_list(good.clone()).unwrap();
    let bad = vec![room("r2", "hall", &["bob", "bob"], "bob")];
    assert_eq!(directory.apply_room_list(bad), Err(ClientError::ProtocolError));
    assert_eq!(directory.rooms(), good);
}

#[test]
fn room_list_with_foreign_host_is_refused() {
    let mut directory = RoomDirectory::new();
    let bad = vec![room("r2", "hall", &["bob"], "alice")];
    assert_eq!(directory.apply_room_list(bad), Err(ClientError::ProtocolError));
    assert_eq!(directory.len(), 0);
}

#[test]
fn room_list_with_empty_room_is_refused() {
    let mut directory = RoomDirectory::new();
    let bad = vec![room("r2", "hall", &[], "")];
    assert_eq!(directory.apply_room_list(bad), Err(ClientError::ProtocolError));
}

#[test]
fn room_list_with_shared_id_is_refused() {
    let mut directory = RoomDirectory::new();
    let bad = vec![room("r1", "a", &["alice"], "alice"), room("r1", "b", &["bob"], "bob")];
    assert_eq!(directory.apply_room_list(bad), Err(ClientError::ProtocolError));
    assert_eq!(directory.len(), 0);
}

#[test]
fn empty_room_list_empties_the_directory() {
    let mut directory = RoomDirectory::new();
    directory.apply_room_list(vec![room("r1", "lobby", &["alice"], "alice")]).unwrap();
    assert_eq!(directory.apply_room_list(Vec::new()), Ok(()));
    assert_eq!(directory.len(), 0);
    assert_eq!(directory.present(&"alice".to_string()), Presentation::NoRooms);
}

#[test]
fn refresh_marks_new_members_and_keeps_known_ones() {
    let mut directory = RoomDirectory::new();
    directory.apply_room_list(vec![room("r1", "lobby", &["alice", "bob"], "alice")]).unwrap();
    let r1 = "r1".to_string();
    let outcome = directory.apply_refresh(&r1, &ids(&["bob", "carol", "alice", "dave"]));
    assert_eq!(outcome.joined, ids(&["carol", "dave"]));
    assert!(outcome.left.is_empty());
    assert_eq!(directory.members(&r1), ids(&["bob", "carol", "alice", "dave"]));
    assert!(!directory.is_connecting(&r1, &"alice".to_string()));
    assert!(!directory.is_connecting(&r1, &"bob".to_string()));
    assert!(directory.is_connecting(&r1, &"carol".to_string()));
    assert!(directory.is_connecting(&r1, &"dave".to_string()));
    let shown = directory.rooms();
    assert_eq!(shown[0].name, "lobby");
    assert_eq!(shown[0].host_id, "alice");
}

#[test]
fn refresh_is_idempotent() {
    let mut directory = RoomDirectory::new();
    directory.apply_room_list(vec![room("r1", "lobby", &["alice"], "alice")]).unwrap();
    let r1 = "r1".to_string();
    let list = ids(&["alice", "bob"]);
    let first = directory.apply_refresh(&r1, &list);
    assert_eq!(first.joined, ids(&["bob"]));
    let rooms_after_first = directory.rooms();
    let second = directory.apply_refresh(&r1, &list);
    assert!(second.joined.is_empty());
    assert!(second.left.is_empty());
    assert_eq!(directory.rooms(), rooms_after_first);
    assert!(directory.is_connecting(&r1, &"bob".to_string()));
    assert!(!directory.is_connecting(&r1, &"alice".to_string()));
}

#[test]
fn members_follow_the_latest_refresh() {
    let mut directory = RoomDirectory::new();
    let r1 = "r1".to_string();
    directory.apply_refresh(&r1, &ids(&["alice", "bob"]));
    directory.apply_refresh(&r1, &ids(&["carol"]));
    let outcome = directory.apply_refresh(&r1, &ids(&["bob", "dave", "bob"]));
    assert_eq!(outcome.joined, ids(&["bob", "dave"]));
    assert_eq!(outcome.left, ids(&["carol"]));
    assert_eq!(directory.members(&r1), ids(&["bob", "dave"]));
}

#[test]
fn refresh_of_unknown_room_adds_it() {
    let mut directory = RoomDirectory::new();
    directory.apply_room_list(vec![room("r1", "lobby", &["alice"], "alice")]).unwrap();
    let r2 = "r2".to_string();
    let outcome = directory.apply_refresh(&r2, &ids(&["zed"]));
    assert_eq!(outcome.joined, ids(&["zed"]));
    assert_eq!(directory.len(), 2);
    assert!(directory.knows(&r2));
    assert_eq!(directory.members(&r2), ids(&["zed"]));
    assert_eq!(directory.members(&"r1".to_string()), ids(&["alice"]));
}

#[test]
fn refresh_to_nobody_empties_the_room() {
    let mut directory = RoomDirectory::new();
    directory.apply_room_list(vec![room("r1", "lobby", &["alice", "bob"], "alice")]).unwrap();
    let r1 = "r1".to_string();
    let outcome = directory.apply_refresh(&r1, &Vec::new());
    assert!(outcome.joined.is_empty());
    assert_eq!(outcome.left, ids(&["alice", "bob"]));
    assert!(directory.members(&r1).is_empty());
    assert!(directory.knows(&r1));
}

#[test]
fn departed_member_loses_its_mark() {
    let mut directory = RoomDirectory::new();
    let r1 = "r1".to_string();
    directory.apply_refresh(&r1, &ids(&["alice"]));
    assert!(directory.is_connecting(&r1, &"alice".to_string()));
    directory.apply_refresh(&r1, &ids(&["bob"]));
    assert!(!directory.is_connecting(&r1, &"alice".to_string()));
    assert!(directory.is_connecting(&r1, &"bob".to_string()));
}

#[test]
fn room_list_after_refresh_clears_the_marks() {
    let mut directory = RoomDirectory::new();
    let r1 = "r1".to_string();
    directory.apply_refresh(&r1, &ids(&["alice"]));
    directory.apply_room_list(vec![room("r1", "lobby", &["alice"], "alice")]).unwrap();
    assert!(!directory.is_connecting(&r1, &"alice".to_string()));
}

#[test]
fn presentation_prefers_the_current_room() {
    let mut directory = RoomDirectory::new();
    let rooms = vec![
        room("r1", "lobby", &["alice"], "alice"),
        room("r2", "hall", &["bob", "carol"], "bob"),
    ];
    directory.apply_room_list(rooms.clone()).unwrap();
    assert_eq!(directory.current_room(&"carol".to_string()), Some(1));
    assert_eq!(directory.present(&"carol".to_string()), Presentation::CurrentRoom(rooms[1].clone()));
    assert_eq!(directory.current_room(&"zed".to_string()), None);
    assert_eq!(directory.present(&"zed".to_string()), Presentation::Rooms(rooms));
}

#[test]
fn rooms_are_built_well_formed_or_not_at_all() {
    let built = Room::new("r1".to_string(), "lobby".to_string(), ids(&["alice", "bob"]), "bob".to_string());
    assert_eq!(built, Some(room("r1", "lobby", &["alice", "bob"], "bob")));
    assert!(room("r1", "lobby", &["alice", "bob"], "bob").is_well_formed());
    assert_eq!(Room::new("r1".to_string(), "lobby".to_string(), ids(&["alice", "alice"]), "alice".to_string()), None);
    assert_eq!(Room::new("r1".to_string(), "lobby".to_string(), ids(&["alice"]), "bob".to_string()), None);
    assert_eq!(Room::new("r1".to_string(), "lobby".to_string(), Vec::new(), String::new()), None);
    assert!(!room("r1", "lobby", &["alice", "bob", "alice"], "bob").is_well_formed());
}
