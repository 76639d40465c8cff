use bc_server::db::{db_backend, DbBackend};
use bc_server::json::{Json, JsonNumber};
use bc_server::listing::public_prison_list;
use bc_server::prison::{expire_sector_rentals, expiry_notice};
use bc_server::protocol::ChatRoomMessage;
use bc_server::routing::{chat_delivery, item_update, ChatDelivery};
use bc_server::sectors::{join_prison_sector, leave_prison_sector, prison_sector_snapshot, sector_sockets};
use bc_server::state::account::OnlineAccount;
use bc_server::state::chatroom::ChatRoom;
use bc_server::state::world::{PrisonSectorSession, World};
use bc_server::summary::PrisonSummary;

fn num(n: i64) -> Json {
    Json::Number(JsonNumber::Int(n))
}

fn text(s: &str) -> Json {
    Json::Str(s.to_string())
}

fn obj(entries: Vec<(&str, Json)>) -> Json {
    Json::Object(entries.into_iter().map(|(k, v)| (k.to_string(), v)).collect())
}

fn account(sid: &str, member: i64, name: &str) -> OnlineAccount {
    OnlineAccount::new_created(sid.to_string(), name.to_uppercase(), member, name.to_string(), "PROD".to_string(), 0)
}

/// Alice (1) and Bob (2) in room "r1"; Carol (3) online in no room.
fn parlor_world() -> World {
    let mut w = World::new(100);
    let mut a = account("s1", 1, "Alice");
    a.chat_room_id = Some("r1".to_string());
    let mut b = account("s2", 2, "Bob");
    b.chat_room_id = Some("r1".to_string());
    w.insert_account(a);
    w.insert_account(b);
    w.insert_account(account("s3", 3, "Carol"));
    let mut room = ChatRoom::new_at("r1".to_string(), "Parlor".to_string(), "PROD".to_string(), "Alice".to_string(), 1, 0);
    room.members = vec![1, 2];
    w.insert_room(room);
    w
}

fn message(t: &str, content: &str, target: Option<i64>) -> ChatRoomMessage {
    ChatRoomMessage {
        content: Some(content.to_string()),
        msg_type: Some(t.to_string()),
        target,
        dictionary: None,
    }
}

#[test]
fn chat_goes_to_the_room_with_sender_number() {
    let w = parlor_world();
    match chat_delivery(&w, "s1", &message("Chat", "hello", None)) {
        Some(ChatDelivery::Room { room_socket, payload }) => {
            assert_eq!(room_socket, "chatroom-r1");
            assert_eq!(payload.get_str("Content"), Some("hello"));
            assert_eq!(payload.get_str("Type"), Some("Chat"));
            assert_eq!(payload.get_i64("Sender"), Some(1));
            assert_eq!(payload.get("Dictionary"), Some(&Json::Null));
        }
        _ => panic!("expected a room delivery"),
    }
}

#[test]
fn whisper_goes_to_its_target_socket() {
    let w = parlor_world();
    match chat_delivery(&w, "s1", &message("Whisper", "psst", Some(2))) {
        Some(ChatDelivery::Whisper { target_socket, payload }) => {
            assert_eq!(target_socket, "s2");
            assert_eq!(payload.get_str("Type"), Some("Whisper"));
        }
        _ => panic!("expected a whisper"),
    }
    assert!(chat_delivery(&w, "s1", &message("Whisper", "psst", Some(9))).is_none());
    assert!(chat_delivery(&w, "s1", &message("Whisper", "psst", None)).is_none());
}

#[test]
fn chat_refused_for_unknown_type_long_content_or_no_room() {
    let w = parlor_world();
    assert!(chat_delivery(&w, "s1", &message("Shout", "hello", None)).is_none());
    let long = "x".repeat(2001);
    assert!(chat_delivery(&w, "s1", &message("Chat", &long, None)).is_none());
    let limit = "x".repeat(2000);
    assert!(chat_delivery(&w, "s1", &message("Chat", &limit, None)).is_some());
    assert!(chat_delivery(&w, "s3", &message("Chat", "hello", None)).is_none());
    assert!(chat_delivery(&w, "s9", &message("Chat", "hello", None)).is_none());
}

#[test]
fn item_update_relayed_with_source() {
    let w = parlor_world();
    let data = obj(vec![("Target", num(2)), ("Group", text("ItemArms"))]);
    let (room, payload) = item_update(&w, "s1", &data).unwrap();
    assert_eq!(room, "chatroom-r1");
    assert_eq!(payload.get_i64("Source"), Some(1));
    assert_eq!(payload.get("Item"), Some(&data));
    assert!(item_update(&w, "s1", &obj(vec![("Target", num(2))])).is_none());
    assert!(item_update(&w, "s1", &obj(vec![("Group", text("ItemArms"))])).is_none());
    assert!(item_update(&w, "s3", &data).is_none());
}

#[test]
fn item_update_refused_when_blacklisted_or_banned() {
    let mut w = World::new(100);
    let mut a = account("s1", 1, "Alice");
    a.chat_room_id = Some("r1".to_string());
    let mut b = account("s2", 2, "Bob");
    b.chat_room_id = Some("r1".to_string());
    b.item_permission = 1;
    b.black_list = vec![1];
    w.insert_account(a);
    w.insert_account(b);
    let mut room = ChatRoom::new_at("r1".to_string(), "Parlor".to_string(), "PROD".to_string(), "Alice".to_string(), 1, 0);
    room.members = vec![1, 2];
    w.insert_room(room);
    let data = obj(vec![("Target", num(2)), ("Group", text("ItemArms"))]);
    assert!(item_update(&w, "s1", &data).is_none());
    let self_data = obj(vec![("Target", num(1)), ("Group", text("ItemArms"))]);
    assert!(item_update(&w, "s1", &self_data).is_some());

    let mut w = parlor_world();
    let mut room = ChatRoom::new_at("r1".to_string(), "Parlor".to_string(), "PROD".to_string(), "Bob".to_string(), 2, 0);
    room.members = vec![1, 2];
    room.ban = vec![1];
    w.insert_room(room);
    assert!(item_update(&w, "s1", &data).is_none());
}

fn session(host: i64, sector: i64, members: Vec<i64>) -> PrisonSectorSession {
    PrisonSectorSession { host_member_number: host, sector_index: sector, members }
}

#[test]
fn joining_a_sector_leaves_the_others_and_keeps_members_sorted() {
    let mut sessions = vec![session(10, 0, vec![3]), session(10, 1, vec![2, 5])];
    let previous = join_prison_sector(&mut sessions, 10, 1, 3);
    assert_eq!(previous, vec![(10, 0)]);
    assert_eq!(sessions.len(), 1);
    assert_eq!(sessions[0].sector_index, 1);
    assert_eq!(sessions[0].members, vec![2, 3, 5]);
    let previous = join_prison_sector(&mut sessions, 20, 2, 4);
    assert!(previous.is_empty());
    assert_eq!(sessions.len(), 2);
    assert_eq!(sessions[1].host_member_number, 20);
    assert_eq!(sessions[1].members, vec![4]);
}

#[test]
fn leaving_a_sector_drops_empty_sessions() {
    let mut sessions = vec![session(10, 0, vec![3]), session(10, 1, vec![2, 5])];
    assert!(leave_prison_sector(&mut sessions, 10, 1, 5));
    assert_eq!(sessions[1].members, vec![2]);
    assert!(!leave_prison_sector(&mut sessions, 10, 1, 5));
    assert!(leave_prison_sector(&mut sessions, 10, 0, 3));
    assert_eq!(sessions.len(), 1);
    assert_eq!(sessions[0].sector_index, 1);
    assert!(!leave_prison_sector(&mut sessions, 99, 0, 3));
}

#[test]
fn sector_snapshot_lists_online_members_with_roles() {
    let mut w = World::new(100);
    w.insert_account(account("s1", 1, "Alice"));
    w.insert_account(account("s2", 2, "Bob"));
    w.prison_sector_sessions = vec![session(1, 0, vec![1, 2, 7])];
    let rows = prison_sector_snapshot(&w, 1, 0).unwrap();
    assert_eq!(rows.len(), 2);
    assert_eq!(rows[0].get_i64("MemberNumber"), Some(1));
    assert_eq!(rows[0].get_str("Role"), Some("Owner"));
    assert_eq!(rows[0].get_str("AssetFamily"), Some("Female3DCG"));
    assert_eq!(rows[1].get_str("Name"), Some("Bob"));
    assert_eq!(rows[1].get_str("Role"), Some("Renter"));
    assert!(prison_sector_snapshot(&w, 1, 1).is_none());
    let sockets = sector_sockets(&w, 1, 0);
    assert_eq!(sockets, vec!["s1".to_string(), "s2".to_string()]);
    assert!(sector_sockets(&w, 2, 0).is_empty());
}

fn summary(name: &str) -> PrisonSummary {
    PrisonSummary { listing: obj(vec![("MemberName", text(name))]), workers: Vec::new() }
}

#[test]
fn public_list_sorted_by_name_one_per_owner() {
    let list = public_prison_list(vec![
        (3, summary("Zoe")),
        (1, summary("Bob")),
        (2, summary("Amy")),
        (1, summary("Bea")),
    ]);
    let names: Vec<&str> = list.iter().map(|s| s.listing.get_str("MemberName").unwrap()).collect();
    assert_eq!(names, vec!["Amy", "Bea", "Zoe"]);
    assert!(public_prison_list(Vec::new()).is_empty());
}

fn rental(renter: i64, role: &str, until: i64) -> Json {
    obj(vec![
        ("RenterMemberNumber", num(renter)),
        ("RentRole", text(role)),
        ("RenterPrivateIndex", num(4)),
        ("Until", num(until)),
    ])
}

#[test]
fn expiry_splits_the_sector_rentals() {
    let prison = obj(vec![(
        "Sectors",
        Json::Array(vec![obj(vec![(
            "Slaves",
            Json::Array(vec![rental(5, "Self", 100), rental(6, "Slave", 300), rental(7, "Self", 0)]),
        )])]),
    )]);
    let (after, expired) = expire_sector_rentals(&prison, 0, 200).unwrap();
    assert_eq!(expired, vec![rental(5, "Self", 100)]);
    let kept = after.get("Sectors").unwrap().as_array().unwrap()[0].get("Slaves").unwrap().as_array().unwrap();
    assert_eq!(kept, &vec![rental(6, "Slave", 300), rental(7, "Self", 0)]);
    assert!(expire_sector_rentals(&prison, 1, 200).is_none());
    assert!(expire_sector_rentals(&obj(vec![]), 0, 200).is_none());
}

#[test]
fn expiry_notice_for_self_and_slave_rentals_only() {
    let (renter, n) = expiry_notice(10, 2, &rental(5, "Self", 100)).unwrap();
    assert_eq!(renter, 5);
    assert_eq!(n.get_str("Action"), Some("Expired"));
    assert_eq!(n.get_i64("HostMemberNumber"), Some(10));
    assert_eq!(n.get_i64("SectorIndex"), Some(2));
    assert_eq!(n.get_str("RentRole"), Some("Self"));
    assert_eq!(n.get_i64("RenterPrivateIndex"), Some(4));
    assert_eq!(n.get_i64("Until"), Some(100));
    assert!(expiry_notice(10, 2, &rental(5, "Slave", 100)).is_some());
    assert!(expiry_notice(10, 2, &rental(5, "Owner", 100)).is_none());
    assert!(expiry_notice(10, 2, &obj(vec![("RentRole", text("Self"))])).is_none());
}

#[test]
fn backend_chosen_by_url_scheme() {
    assert_eq!(db_backend("mongodb://localhost:27017"), DbBackend::Mongo);
    assert_eq!(db_backend("  mongodb+srv://cluster"), DbBackend::Mongo);
    assert_eq!(db_backend("sqlite://data.db"), DbBackend::Sqlite);
    assert_eq!(db_backend(""), DbBackend::Sqlite);
}
