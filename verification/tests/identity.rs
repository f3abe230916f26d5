use client::config::{get_user_or_create, set_id, UserConfig, ID_LENGTH};
use client::engine::ice_servers;
use client::json::Json;
use client::input::{
    display_empty_room, display_rooms, listen_for_input, type_room_name, Intent, Key, NameEntry, RoomChoice,
};
use client::text::trim;

fn s(text: &str) -> String {
    text.to_string()
}

#[test]
fn stored_user_is_returned_unasked() {
    let stored = UserConfig { name: s("alice"), id: s("a1") };
    let user = get_user_or_create(Some(stored.clone()), || panic!("asked although a user is stored"));
    assert_eq!(user, stored);
}

#[test]
fn missing_user_is_created_under_the_given_name() {
    let user = get_user_or_create(None, || s("bob"));
    assert_eq!(user.name, "bob");
    assert_eq!(user.id.len(), ID_LENGTH);
    assert_ne!(user.id, user.name);
}

#[test]
fn fresh_ids_are_hyphenated_and_differ() {
    let one = UserConfig::from("alice");
    let two = UserConfig::from("alice");
    assert_eq!(one.name, "alice");
    assert_eq!(one.id.len(), 36);
    assert_ne!(one.id, two.id);
    let hyphens: Vec<usize> = one.id.char_indices().filter(|(_, c)| *c == '-').map(|(i, _)| i).collect();
    assert_eq!(hyphens, vec![8, 13, 18, 23]);
    assert!(one.id.chars().all(|c| c == '-' || c.is_ascii_hexdigit()));
}

#[test]
fn with_id_keeps_both_fields() {
    assert_eq!(UserConfig::with_id("alice", s("a1")), UserConfig { name: s("alice"), id: s("a1") });
}

#[test]
fn set_id_replaces_the_id_only() {
    let user = UserConfig { name: s("alice"), id: s("old") };
    assert_eq!(set_id(user, "new"), UserConfig { name: s("alice"), id: s("new") });
}

#[test]
fn trim_removes_white_space_at_both_ends() {
    assert_eq!(trim("  alice \n"), "alice");
    assert_eq!(trim("alice"), "alice");
    assert_eq!(trim("a b"), "a b");
    assert_eq!(trim("\t a  b \r\n"), "a  b");
    assert_eq!(trim(""), "");
    assert_eq!(trim(" \n\t "), "");
    assert_eq!(trim("x"), "x");
    assert_eq!(trim(" x"), "x");
    assert_eq!(trim("x "), "x");
    assert_eq!(trim("\u{2003}é\u{a0}ü\u{3000}"), "é\u{a0}ü");
}

#[test]
fn trim_agrees_with_the_standard_library() {
    for text in ["", " ", "a", " a", "a ", " a b ", "\n\nname\n", "\u{85}n\u{2028}", "  日本語  "] {
        assert_eq!(trim(text), text.trim());
    }
}

#[test]
fn idle_keys() {
    assert_eq!(listen_for_input(Key::Ctrl('r')), Intent::Refresh);
    assert_eq!(listen_for_input(Key::Ctrl('n')), Intent::CreateRoom);
    assert_eq!(listen_for_input(Key::Char('q')), Intent::Quit);
    assert_eq!(listen_for_input(Key::Ctrl('q')), Intent::Quit);
    assert_eq!(listen_for_input(Key::Ctrl('c')), Intent::Quit);
    assert_eq!(listen_for_input(Key::Char('r')), Intent::Nothing);
    assert_eq!(listen_for_input(Key::Char('n')), Intent::Nothing);
    assert_eq!(listen_for_input(Key::Ctrl('x')), Intent::Nothing);
    assert_eq!(listen_for_input(Key::Other), Intent::Nothing);
}

#[test]
fn empty_room_keys() {
    assert_eq!(display_empty_room(Key::Ctrl('n')), Intent::CreateRoom);
    assert_eq!(display_empty_room(Key::Ctrl('c')), Intent::Quit);
    assert_eq!(display_empty_room(Key::Ctrl('q')), Intent::Nothing);
    assert_eq!(display_empty_room(Key::Char('q')), Intent::Nothing);
    assert_eq!(display_empty_room(Key::Other), Intent::Nothing);
}

#[test]
fn room_list_keys() {
    assert_eq!(display_rooms(Key::Ctrl('c'), 3), RoomChoice::Leave);
    assert_eq!(display_rooms(Key::Char('0'), 3), RoomChoice::Join(0));
    assert_eq!(display_rooms(Key::Char('2'), 3), RoomChoice::Join(2));
    assert_eq!(display_rooms(Key::Char('3'), 3), RoomChoice::Nothing);
    assert_eq!(display_rooms(Key::Char('9'), 10), RoomChoice::Join(9));
    assert_eq!(display_rooms(Key::Char('9'), 9), RoomChoice::Nothing);
    assert_eq!(display_rooms(Key::Char('0'), 0), RoomChoice::Nothing);
    assert_eq!(display_rooms(Key::Char('a'), 3), RoomChoice::Nothing);
    assert_eq!(display_rooms(Key::Char('/'), 3), RoomChoice::Nothing);
    assert_eq!(display_rooms(Key::Char(':'), 30), RoomChoice::Nothing);
    assert_eq!(display_rooms(Key::Ctrl('1'), 3), RoomChoice::Nothing);
    assert_eq!(display_rooms(Key::Other, 3), RoomChoice::Nothing);
}

#[test]
fn room_name_is_typed_key_by_key() {
    let mut name = String::new();
    assert_eq!(type_room_name(&mut name, Key::Char('l')), NameEntry::Typed);
    assert_eq!(type_room_name(&mut name, Key::Char('o')), NameEntry::Typed);
    assert_eq!(type_room_name(&mut name, Key::Other), NameEntry::Ignored);
    assert_eq!(type_room_name(&mut name, Key::Ctrl('x')), NameEntry::Ignored);
    assert_eq!(type_room_name(&mut name, Key::Char(' ')), NameEntry::Typed);
    assert_eq!(type_room_name(&mut name, Key::Char('é')), NameEntry::Typed);
    assert_eq!(name, "lo é");
    assert_eq!(type_room_name(&mut name, Key::Char('\n')), NameEntry::Confirmed);
    assert_eq!(name, "lo é");
    assert_eq!(type_room_name(&mut name, Key::Ctrl('c')), NameEntry::Cancelled);
    assert_eq!(name, "lo é");
}

#[test]
fn ice_servers_are_the_two_local_ones() {
    assert_eq!(ice_servers(), vec![s("stun:localhost:3479"), s("stun:localhost:3478")]);
}

#[test]
fn identity_is_stored_as_name_and_id() {
    let user = UserConfig { name: s("alice"), id: s("a1") };
    let stored = user.to_json();
    assert_eq!(
        stored,
        Json::Object(vec![(s("id"), Json::Text(s("a1"))), (s("name"), Json::Text(s("alice")))])
    );
    assert_eq!(UserConfig::from_json(&stored), Some(user));
}

#[test]
fn stored_identity_needs_both_texts() {
    let both = Json::Object(vec![
        (s("id"), Json::Text(s("a1"))),
        (s("extra"), Json::Null),
        (s("name"), Json::Text(s("alice"))),
    ]);
    assert_eq!(UserConfig::from_json(&both), Some(UserConfig { name: s("alice"), id: s("a1") }));
    let no_id = Json::Object(vec![(s("name"), Json::Text(s("alice")))]);
    assert_eq!(UserConfig::from_json(&no_id), None);
    let number = Json::Object(vec![(s("name"), Json::Text(s("alice"))), (s("id"), Json::Number(s("1")))]);
    assert_eq!(UserConfig::from_json(&number), None);
    assert_eq!(UserConfig::from_json(&Json::Null), None);
    assert_eq!(UserConfig::from_json(&Json::Array(Vec::new())), None);
}

#[test]
fn identity_is_stored_as_a_json_text() {
    let user = UserConfig { name: s("alice"), id: s("a1") };
    let text = user.to_text().unwrap();
    assert_eq!(text, "{\"id\":\"a1\",\"name\":\"alice\"}");
    assert_eq!(UserConfig::from_text(&text), Some(user));
    assert_eq!(
        UserConfig::from_text("{\"name\": \"bob\", \"id\": \"b7\"}"),
        Some(UserConfig { name: s("bob"), id: s("b7") })
    );
    assert_eq!(UserConfig::from_text("{\"name\": \"bob\"}"), None);
    assert_eq!(UserConfig::from_text("not json"), None);
    assert_eq!(UserConfig::from_text(""), None);
}

#[test]
fn white_space_is_the_unicode_property() {
    let listed = |c: char| {
        let n = c as u32;
        (0x09..=0x0D).contains(&n)
            || [0x20, 0x85, 0xA0, 0x1680, 0x2028, 0x2029, 0x202F, 0x205F, 0x3000].contains(&n)
            || (0x2000..=0x200A).contains(&n)
    };
    for n in 0..=0x10FFFFu32 {
        if let Some(c) = char::from_u32(n) {
            assert_eq!(c.is_whitespace(), listed(c), "U+{:04X}", n);
        }
    }
    for n in [0x09u32, 0x0D, 0x20, 0x85, 0xA0, 0x1680, 0x2000, 0x200A, 0x2028, 0x2029, 0x202F, 0x205F, 0x3000] {
        let c = char::from_u32(n).unwrap();
        assert_eq!(trim(&format!("{}x{}", c, c)), "x");
    }
    for n in [0x08u32, 0x0E, 0x1F, 0x21, 0x200B, 0x180E, 0xFEFF] {
        let c = char::from_u32(n).unwrap();
        let text = format!("{}x{}", c, c);
        assert_eq!(trim(&text), text);
    }
}
