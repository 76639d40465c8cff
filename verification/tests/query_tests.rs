use bc_server::json::{Json, JsonNumber};
use bc_server::protocol::{AccountBeepRequest, AccountQueryRequest, AccountQueryResult};
use bc_server::query::{beep_delivery, change_difficulty, difficulty_level, online_friends, query_friend_info};
use bc_server::state::account::OnlineAccount;
use bc_server::state::chatroom::ChatRoom;
use bc_server::state::world::World;

fn num(n: i64) -> Json {
    Json::Number(JsonNumber::Int(n))
}

fn text(s: &str) -> Json {
    Json::Str(s.to_string())
}

fn obj(entries: Vec<(&str, Json)>) -> Json {
    Json::Object(entries.into_iter().map(|(k, v)| (k.to_string(), v)).collect())
}

fn account(sid: &str, member: i64, name: &str, env: &str) -> OnlineAccount {
    OnlineAccount::new_created(sid.to_string(), name.to_uppercase(), member, name.to_string(), env.to_string(), 0)
}

fn world_with(accounts: Vec<OnlineAccount>) -> World {
    let mut w = World::new(100);
    for a in accounts {
        w.insert_account(a);
    }
    w
}

fn beep(target: Option<i64>, beep_type: Option<&str>, secret: bool) -> AccountBeepRequest {
    AccountBeepRequest {
        member_number: target,
        beep_type: beep_type.map(|s| s.to_string()),
        message: Some("hi".to_string()),
        is_secret: secret,
    }
}

#[test]
fn beep_request_parsing() {
    let r = AccountBeepRequest::from_json(&obj(vec![("MemberNumber", num(5)), ("IsSecret", Json::Bool(true))])).unwrap();
    assert_eq!(r.member_number, Some(5));
    assert_eq!(r.beep_type, None);
    assert!(r.is_secret);
    assert!(AccountBeepRequest::from_json(&obj(vec![("MemberNumber", text("5"))])).is_none());
    assert!(AccountBeepRequest::from_json(&obj(vec![("Message", num(1))])).is_none());
    assert!(AccountBeepRequest::from_json(&text("x")).is_none());
    let r = AccountBeepRequest::from_json(&obj(vec![("BeepType", Json::Null), ("IsSecret", num(1))])).unwrap();
    assert_eq!(r.member_number, None);
    assert!(!r.is_secret);
}

#[test]
fn beep_needs_friendship_ownership_or_leash() {
    let src = account("s1", 1, "Alice", "PROD");
    let mut target = account("s2", 2, "Bob", "PROD");
    let w = world_with(vec![account("s1", 1, "Alice", "PROD"), account("s2", 2, "Bob", "PROD")]);
    assert!(beep_delivery(&w, "s1", &beep(Some(2), None, false)).is_none());
    let (sid, payload) = beep_delivery(&w, "s1", &beep(Some(2), Some("Leash"), false)).unwrap();
    assert_eq!(sid, "s2");
    assert_eq!(payload.get_i64("MemberNumber"), Some(1));
    assert_eq!(payload.get_str("MemberName"), Some("Alice"));
    assert_eq!(payload.get("ChatRoomName"), Some(&Json::Null));
    assert_eq!(payload.get_str("BeepType"), Some("Leash"));
    assert_eq!(payload.get_str("Message"), Some("hi"));
    target.friend_list.push(1);
    let w = world_with(vec![src, target]);
    assert!(beep_delivery(&w, "s1", &beep(Some(2), None, false)).is_some());
    assert!(beep_delivery(&w, "s1", &beep(None, None, false)).is_none());
    assert!(beep_delivery(&w, "s9", &beep(Some(2), None, false)).is_none());
    assert!(beep_delivery(&w, "s1", &beep(Some(3), None, false)).is_none());
}

#[test]
fn beep_across_environments_is_dropped() {
    let w = world_with(vec![account("s1", 1, "Alice", "PROD"), account("s2", 2, "Bob", "DEV")]);
    assert!(beep_delivery(&w, "s1", &beep(Some(2), Some("Leash"), false)).is_none());
}

#[test]
fn beep_names_the_room_unless_secret() {
    let mut src = account("s1", 1, "Alice", "PROD");
    src.chat_room_id = Some("r1".to_string());
    let mut w = world_with(vec![src, account("s2", 2, "Bob", "PROD")]);
    let mut room = ChatRoom::new_at("r1".to_string(), "Parlor".to_string(), "PROD".to_string(), "Alice".to_string(), 1, 0);
    room.visibility = vec!["All".to_string()];
    room.members = vec![1];
    w.insert_room(room);
    let (_, payload) = beep_delivery(&w, "s1", &beep(Some(2), Some("Leash"), false)).unwrap();
    assert_eq!(payload.get_str("ChatRoomName"), Some("Parlor"));
    assert_eq!(payload.get("Private"), Some(&Json::Bool(false)));
    let (_, payload) = beep_delivery(&w, "s1", &beep(Some(2), Some("Leash"), true)).unwrap();
    assert_eq!(payload.get("ChatRoomName"), Some(&Json::Null));
    assert_eq!(payload.get("Private"), Some(&Json::Null));
}

#[test]
fn difficulty_levels_and_delay() {
    assert_eq!(difficulty_level(&num(2)), Some(2));
    assert_eq!(difficulty_level(&num(4)), None);
    assert_eq!(difficulty_level(&text("1")), None);
    let mut w = world_with(vec![account("s1", 1, "Alice", "PROD")]);
    assert!(change_difficulty(&mut w, "s1", 3, 1000).is_none());
    let (name, doc) = change_difficulty(&mut w, "s1", 1, 1000).unwrap();
    assert_eq!(name, "ALICE");
    assert_eq!(doc.get_i64("Level"), Some(1));
    assert_eq!(doc.get_i64("LastChange"), Some(1000));
    assert!(change_difficulty(&mut w, "s1", 2, 1000 + 604_800_000).is_none());
    assert!(change_difficulty(&mut w, "s1", 2, 1001 + 604_800_000).is_some());
    assert_eq!(
        w.get_by_socket("s1").unwrap().difficulty.as_ref().and_then(|d| d.get_i64("Level")),
        Some(2)
    );
    assert!(change_difficulty(&mut w, "nobody", 0, 0).is_none());
}

#[test]
fn online_friends_lists_submissives_lovers_then_mutual_friends() {
    let mut me = account("s1", 1, "Alice", "PROD");
    me.friend_list = vec![3, 4, 2];
    let mut sub = account("s2", 2, "Bob", "PROD");
    sub.ownership = Some(obj(vec![("MemberNumber", num(1))]));
    let mut friend = account("s3", 3, "Cara", "PROD");
    friend.friend_list = vec![1];
    let one_way = account("s4", 4, "Dan", "PROD");
    let w = world_with(vec![me, sub, friend, one_way]);
    let rows = online_friends(&w, "s1").unwrap();
    assert_eq!(rows.len(), 2);
    assert_eq!(rows[0].get_str("Type"), Some("Submissive"));
    assert_eq!(rows[0].get_i64("MemberNumber"), Some(2));
    assert_eq!(rows[1].get_str("Type"), Some("Friend"));
    assert_eq!(rows[1].get_i64("MemberNumber"), Some(3));
    assert!(online_friends(&w, "s9").is_none());
}

#[test]
fn friend_info_hides_private_rooms_from_friends() {
    let mut other = account("s2", 2, "Bob", "PROD");
    other.chat_room_id = Some("r1".to_string());
    let mut w = world_with(vec![account("s1", 1, "Alice", "PROD")]);
    let mut room = ChatRoom::new_at("r1".to_string(), "Den".to_string(), "PROD".to_string(), "Bob".to_string(), 2, 0);
    room.visibility = vec!["Admin".to_string()];
    room.members = vec![2];
    w.insert_room(room);
    let row = query_friend_info("Friend", &other, &w);
    assert_eq!(row.get("Private"), Some(&Json::Bool(true)));
    assert!(row.get("ChatRoomName").is_none());
    let row = query_friend_info("Lover", &other, &w);
    assert_eq!(row.get_str("ChatRoomName"), Some("Den"));
    assert_eq!(row.get_i64("ChatRoomMemberCount"), Some(1));
}

#[test]
fn query_request_and_result() {
    let q = AccountQueryRequest::from_json(&obj(vec![("Query", text("OnlineFriends")), ("IncludeOwn", Json::Bool(true))])).unwrap();
    assert_eq!(q.query, "OnlineFriends");
    assert_eq!(q.extra.get_bool("IncludeOwn"), Some(true));
    assert!(AccountQueryRequest::from_json(&obj(vec![("Query", num(1))])).is_none());
    let r = AccountQueryResult { query: "EmailStatus".to_string(), result: Json::Bool(true) };
    let j = r.to_json();
    assert_eq!(j.get_str("Query"), Some("EmailStatus"));
    assert_eq!(j.get("Result"), Some(&Json::Bool(true)));
}
