use bc_server::auth::{email_change_allowed, new_email_acceptable};
use bc_server::json::{Json, JsonNumber};
use bc_server::protocol::ChatRoomMessage;
use bc_server::state::account::OnlineAccount;
use bc_server::state::chatroom::ChatRoom;
use bc_server::state::world::World;
use bc_server::updates::{
    apply_arousal, apply_expression, apply_map_data, apply_pose, character_update, relay_character_field,
    take_delayed_save, take_delayed_saves,
};

fn num(n: i64) -> Json {
    Json::Number(JsonNumber::Int(n))
}

fn text(s: &str) -> Json {
    Json::Str(s.to_string())
}

fn obj(entries: Vec<(&str, Json)>) -> Json {
    Json::Object(entries.into_iter().map(|(k, v)| (k.to_string(), v)).collect())
}

fn account(sid: &str, member: i64, name: &str) -> OnlineAccount {
    OnlineAccount::new_created(sid.to_string(), name.to_uppercase(), member, name.to_string(), "PROD".to_string(), 0)
}

fn items(n: usize) -> Json {
    Json::Array((0..n).map(|i| obj(vec![("Group", text(&format!("G{}", i)))])).collect())
}

/// Alice (1, socket s1) and Bob (2, socket s2) in room "r1".
fn parlor_world() -> World {
    let mut w = World::new(100);
    let mut a = account("s1", 1, "Alice");
    a.chat_room_id = Some("r1".to_string());
    let mut b = account("s2", 2, "Bob");
    b.chat_room_id = Some("r1".to_string());
    w.insert_account(a);
    w.insert_account(b);
    let mut room = ChatRoom::new_at("r1".to_string(), "Parlor".to_string(), "PROD".to_string(), "Alice".to_string(), 1, 0);
    room.members = vec![1, 2];
    w.insert_room(room);
    w
}

#[test]
fn expression_needs_five_appearance_items() {
    let mut w = parlor_world();
    apply_expression(&mut w, "s1", &obj(vec![("Appearance", items(4))]));
    assert_eq!(w.get_by_socket("s1").unwrap().appearance, None);
    apply_expression(&mut w, "s1", &obj(vec![("Appearance", items(5))]));
    assert_eq!(w.get_by_socket("s1").unwrap().appearance, Some(items(5)));
    assert_eq!(w.get_by_socket("s2").unwrap().appearance, None);
}

#[test]
fn pose_is_normalized_into_pose_and_active_pose() {
    let mut w = parlor_world();
    apply_pose(&mut w, "s1", &obj(vec![("Pose", text("Kneel"))]));
    let a = w.get_by_socket("s1").unwrap();
    assert_eq!(a.pose, Some(Json::Array(vec![text("Kneel")])));
    assert_eq!(a.active_pose, Some(Json::Array(vec![text("Kneel")])));
    apply_pose(&mut w, "s1", &obj(vec![("Pose", Json::Array(vec![text("A"), num(3), text("B")]))]));
    assert_eq!(w.get_by_socket("s1").unwrap().pose, Some(Json::Array(vec![text("A"), text("B")])));
    apply_pose(&mut w, "s1", &obj(vec![("Pose", num(1))]));
    assert_eq!(w.get_by_socket("s1").unwrap().pose, Some(Json::Array(vec![])));
}

#[test]
fn arousal_fields_merge_into_object_settings() {
    let mut w = parlor_world();
    apply_arousal(&mut w, "s1", &obj(vec![("Progress", num(40))]));
    assert_eq!(w.get_by_socket("s1").unwrap().arousal_settings, None);
    let mut a = account("s3", 3, "Carol");
    a.arousal_settings = Some(obj(vec![("Active", text("Hybrid")), ("Progress", num(1))]));
    w.insert_account(a);
    apply_arousal(&mut w, "s3", &obj(vec![("Progress", num(40)), ("OrgasmCount", num(2)), ("Other", num(9))]));
    let s = w.get_by_socket("s3").unwrap().arousal_settings.as_ref().unwrap();
    assert_eq!(s.get_str("Active"), Some("Hybrid"));
    assert_eq!(s.get_i64("Progress"), Some(40));
    assert_eq!(s.get_i64("OrgasmCount"), Some(2));
    assert_eq!(s.get("Other"), None);
}

#[test]
fn map_data_stored_and_told_to_the_room() {
    let mut w = parlor_world();
    let data = obj(vec![("X", num(3))]);
    let (room, msg) = apply_map_data(&mut w, "s1", &data).unwrap();
    assert_eq!(room, "chatroom-r1");
    assert_eq!(msg.get_i64("MemberNumber"), Some(1));
    assert_eq!(msg.get("MapData"), Some(&data));
    assert_eq!(w.get_by_socket("s1").unwrap().map_data, Some(obj(vec![("X", num(3))])));
    w.insert_account(account("s3", 3, "Carol"));
    assert!(apply_map_data(&mut w, "s3", &data).is_none());
    assert_eq!(w.get_by_socket("s3").unwrap().map_data, Some(obj(vec![("X", num(3))])));
    assert!(apply_map_data(&mut w, "s9", &data).is_none());
}

#[test]
fn character_field_relayed_with_member_number() {
    let w = parlor_world();
    let (room, msg) = relay_character_field(&w, "s1", &obj(vec![("Title", text("Maid"))])).unwrap();
    assert_eq!(room, "chatroom-r1");
    assert_eq!(msg.get_str("Title"), Some("Maid"));
    assert_eq!(msg.get_i64("MemberNumber"), Some(1));
    let (_, msg) = relay_character_field(&w, "s1", &num(5)).unwrap();
    assert_eq!(msg.get("Data"), Some(&num(5)));
}

#[test]
fn character_update_changes_the_target_and_holds_the_save() {
    let mut w = parlor_world();
    let data = obj(vec![("ID", text("s2")), ("Appearance", items(2)), ("ActivePose", text("Kneel"))]);
    let (room, msg) = character_update(&mut w, "s1", &data).unwrap();
    assert_eq!(room, "chatroom-r1");
    assert_eq!(msg.get_i64("SourceMemberNumber"), Some(1));
    assert!(msg.get("Character").is_some());
    let b = w.get_by_socket("s2").unwrap();
    assert_eq!(b.appearance, Some(items(2)));
    assert_eq!(b.delayed_appearance, Some(items(2)));
    assert_eq!(b.active_pose, Some(text("Kneel")));
    assert!(character_update(&mut w, "s1", &obj(vec![("ID", text("s9")), ("Appearance", items(2))])).is_none());
    assert!(character_update(&mut w, "s1", &obj(vec![("ID", text("s2"))])).is_none());

    let saves = take_delayed_saves(&mut w);
    assert_eq!(saves.len(), 1);
    assert_eq!(saves[0].0, "BOB");
    assert_eq!(saves[0].1.len(), 1);
    assert_eq!(saves[0].1[0].0, "Appearance");
    assert_eq!(w.get_by_socket("s2").unwrap().delayed_appearance, None);
    assert!(take_delayed_saves(&mut w).is_empty());
}

#[test]
fn delayed_save_of_one_socket() {
    let mut w = parlor_world();
    let mut c = account("s3", 3, "Carol");
    c.delayed_skill = Some(num(4));
    c.delayed_game = Some(obj(vec![]));
    w.insert_account(c);
    let (name, fields) = take_delayed_save(&mut w, "s3").unwrap();
    assert_eq!(name, "CAROL");
    let keys: Vec<&str> = fields.iter().map(|(k, _)| k.as_str()).collect();
    assert_eq!(keys, vec!["Skill", "Game"]);
    let (_, fields) = take_delayed_save(&mut w, "s3").unwrap();
    assert!(fields.is_empty());
    assert!(take_delayed_save(&mut w, "s9").is_none());
}

#[test]
fn email_rules() {
    assert!(new_email_acceptable(""));
    assert!(new_email_acceptable("a@b.com"));
    assert!(!new_email_acceptable("not an address"));
    assert!(email_change_allowed("", "anything"));
    assert!(email_change_allowed(" A@B.com ", "a@b.COM"));
    assert!(!email_change_allowed("a@b.com", "c@d.com"));
}

#[test]
fn chat_message_parsing() {
    let m = ChatRoomMessage::from_json(&obj(vec![
        ("Content", text("hi")),
        ("Type", text("Chat")),
        ("Target", num(4)),
        ("Dictionary", Json::Array(vec![])),
    ]))
    .unwrap();
    assert_eq!(m.content.as_deref(), Some("hi"));
    assert_eq!(m.msg_type.as_deref(), Some("Chat"));
    assert_eq!(m.target, Some(4));
    assert_eq!(m.dictionary, Some(Json::Array(vec![])));
    let m = ChatRoomMessage::from_json(&obj(vec![("Content", Json::Null)])).unwrap();
    assert_eq!(m.content, None);
    assert!(ChatRoomMessage::from_json(&obj(vec![("Target", text("4"))])).is_none());
    assert!(ChatRoomMessage::from_json(&obj(vec![("Content", num(1))])).is_none());
    assert!(ChatRoomMessage::from_json(&text("hi")).is_none());
}
