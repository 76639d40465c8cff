use bc_server::auth::{
    account_create_valid, account_environment, admit_account_creation, assign_reset_numbers,
    clear_reset_entries, enter_login_queue, finish_login_slot, generate_reset_number, hash_password,
    login_password_ok, new_account_doc, open_reset_window, replace_reset_entry, reset_number_from_bytes,
    reset_process_check, verify_password,
};
use bc_server::config::Config;
use bc_server::json::Json;
use bc_server::protocol::{AccountCreateRequest, PasswordResetProcessRequest};
use bc_server::state::world::{PasswordResetEntry, World};
use bc_server::table::StrMap;

fn config() -> Config {
    Config::from_vars(&StrMap::new())
}

#[test]
fn uppercase_roundtrip() {
    let h = hash_password("abc123").unwrap();
    assert!(verify_password("abc123", &h).unwrap());
    assert!(verify_password("ABC123", &h).unwrap());
    assert!(!verify_password("wrong", &h).unwrap());
}

#[test]
fn hash_is_a_bcrypt_hash_of_cost_ten() {
    let h = hash_password("Secret").unwrap();
    assert!(h.starts_with("$2b$10$"));
    assert_ne!(h, "Secret");
    assert_ne!(h, "SECRET");
}

#[test]
fn malformed_hash_is_an_error() {
    assert!(verify_password("abc", "not a hash").is_err());
}

#[test]
fn reset_number_is_big_endian_modulo_ten_to_twelve() {
    assert_eq!(reset_number_from_bytes(&vec![0, 0, 0, 0, 0, 42]), "42");
    assert_eq!(reset_number_from_bytes(&vec![0, 0, 0, 0, 1, 0]), "256");
    assert_eq!(reset_number_from_bytes(&vec![255; 6]), "474976710655");
}

#[test]
fn generated_reset_numbers_are_short_decimals() {
    for _ in 0..20 {
        let n = generate_reset_number();
        assert!(!n.is_empty() && n.len() <= 12);
        assert!(n.chars().all(|c| c.is_ascii_digit()));
    }
}

#[test]
fn environment_by_origin() {
    let mut c = config();
    c.production_origins = vec!["https://example.com".to_string()];
    assert_eq!(account_environment("https://Example.COM", &c), "PROD");
    assert_eq!(account_environment("http://localhost", &c), "DEV");
    let random = account_environment("", &c);
    assert!(!random.is_empty() && random.len() <= 12 && random.chars().all(|ch| ch.is_ascii_digit()));
}

fn create_request(name: &str, account: &str, password: &str, email: &str) -> AccountCreateRequest {
    AccountCreateRequest {
        name: name.to_string(),
        account_name: account.to_string(),
        password: password.to_string(),
        email: email.to_string(),
    }
}

#[test]
fn create_request_validation() {
    assert!(account_create_valid(&create_request("Alice", "alice01", "pw123", "")));
    assert!(account_create_valid(&create_request("Alice B", "alice01", "pw123", "a@b.com")));
    assert!(!account_create_valid(&create_request("Alice1", "alice01", "pw123", "")));
    assert!(!account_create_valid(&create_request("Alice", "alice_01", "pw123", "")));
    assert!(!account_create_valid(&create_request("Alice", "alice01", "", "")));
    assert!(!account_create_valid(&create_request("Alice", "alice01", "pw123", "not-an-email")));
    let long = format!("{}@b.com", "a".repeat(100));
    assert!(!account_create_valid(&create_request("Alice", "alice01", "pw123", &long)));
}

#[test]
fn creation_limits_per_address() {
    let mut c = config();
    c.max_ip_account_per_day = 2;
    c.max_ip_account_per_hour = 1;
    let mut w = World::new(1);
    assert!(admit_account_creation(&mut w, "1.2.3.4", &c, 10_000_000));
    assert!(!admit_account_creation(&mut w, "1.2.3.4", &c, 10_000_001));
    assert!(admit_account_creation(&mut w, "5.6.7.8", &c, 10_000_002));
    assert!(admit_account_creation(&mut w, "1.2.3.4", &c, 10_000_000 + 3_600_001));
    assert!(!admit_account_creation(&mut w, "1.2.3.4", &c, 10_000_000 + 8_000_000));
    assert_eq!(w.account_creation_ip.len(), 3);
    assert_eq!(w.account_creation_ip[2].address, "1.2.3.4");
}

#[test]
fn new_account_document_fields() {
    let doc = new_account_doc("ALICE01", "a@b.com", "$2b$hash", 77, "Alice", 1234);
    assert_eq!(doc.get_str("AccountName"), Some("ALICE01"));
    assert_eq!(doc.get_str("Email"), Some("a@b.com"));
    assert_eq!(doc.get_str("Password"), Some("$2b$hash"));
    assert_eq!(doc.get_i64("MemberNumber"), Some(77));
    assert_eq!(doc.get_i64("Money"), Some(100));
    assert_eq!(doc.get_i64("ItemPermission"), Some(2));
    assert_eq!(doc.get_i64("Creation"), Some(1234));
    assert_eq!(doc.get_i64("LastLogin"), Some(1234));
    assert_eq!(doc.get("FriendList"), Some(&Json::Array(vec![])));
}

#[test]
fn login_checks_stored_hash() {
    let h = hash_password("Secret1").unwrap();
    let doc = Json::Object(vec![("Password".to_string(), Json::Str(h))]);
    assert!(login_password_ok(&doc, "secret1"));
    assert!(!login_password_ok(&doc, "other"));
    let no_password = Json::Object(vec![]);
    assert!(!login_password_ok(&no_password, "secret1"));
}

#[test]
fn login_queue_slots() {
    let mut w = World::new(1);
    assert_eq!(enter_login_queue(&mut w, "s1"), Some(1));
    assert_eq!(enter_login_queue(&mut w, "s1"), None);
    assert_eq!(enter_login_queue(&mut w, "s2"), Some(2));
    finish_login_slot(&mut w, "s1");
    assert_eq!(w.login_queue_len, 1);
    assert_eq!(enter_login_queue(&mut w, "s1"), Some(2));
    finish_login_slot(&mut w, "s1");
    finish_login_slot(&mut w, "s2");
    finish_login_slot(&mut w, "s3");
    assert_eq!(w.login_queue_len, 0);
}

#[test]
fn reset_window_is_five_seconds() {
    let mut w = World::new(1);
    assert!(open_reset_window(&mut w, 1000));
    assert!(!open_reset_window(&mut w, 5999));
    assert!(open_reset_window(&mut w, 6000));
    assert_eq!(w.next_password_reset_at, 11000);
}

#[test]
fn reset_numbers_replace_and_clear() {
    let mut resets: Vec<PasswordResetEntry> = Vec::new();
    replace_reset_entry(&mut resets, "ALICE", "111");
    replace_reset_entry(&mut resets, "BOB", "222");
    replace_reset_entry(&mut resets, "ALICE", "333");
    assert_eq!(resets.len(), 2);
    assert_eq!(resets[0].account_name, "BOB");
    assert_eq!(resets[1].reset_number, "333");

    let mut w = World::new(1);
    let pairs = assign_reset_numbers(&mut w, &vec!["ALICE".to_string(), "BOB".to_string()]);
    assert_eq!(pairs.len(), 2);
    assert_eq!(pairs[0].0, "ALICE");
    assert_eq!(w.password_resets.len(), 2);
    let req = PasswordResetProcessRequest {
        account_name: "ALICE".to_string(),
        reset_number: pairs[0].1.clone(),
        new_password: "newpw1".to_string(),
    };
    assert!(reset_process_check(&w, &req));
    let wrong = PasswordResetProcessRequest { reset_number: "x".to_string(), ..req };
    assert!(!reset_process_check(&w, &wrong));
    let req = PasswordResetProcessRequest {
        account_name: "ALICE".to_string(),
        reset_number: pairs[0].1.clone(),
        new_password: "bad pw".to_string(),
    };
    assert!(!reset_process_check(&w, &req));
    clear_reset_entries(&mut w, "ALICE");
    let req = PasswordResetProcessRequest {
        account_name: "ALICE".to_string(),
        reset_number: pairs[0].1.clone(),
        new_password: "newpw1".to_string(),
    };
    assert!(!reset_process_check(&w, &req));
    assert_eq!(w.password_resets.len(), 1);
}
