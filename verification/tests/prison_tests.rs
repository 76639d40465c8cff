use bc_server::json::{Json, JsonNumber};
use bc_server::prison::{
    prison_rent, prison_release, ransom_fee, rent_target, value_i64, work_room_access, PrisonError,
    PRISON_RANSOM_MIN, PRISON_RENT_DURATION_MS, PRISON_RENT_FEE,
};
use bc_server::state::account::OnlineAccount;

fn num(n: i64) -> Json {
    Json::Number(JsonNumber::Int(n))
}

fn text(s: &str) -> Json {
    Json::Str(s.to_string())
}

fn obj(entries: Vec<(&str, Json)>) -> Json {
    Json::Object(entries.into_iter().map(|(k, v)| (k.to_string(), v)).collect())
}

#[test]
fn ransom_fee_is_zero_after_expiry_and_scales_before_it() {
    assert_eq!(ransom_fee(100, 100), 0);
    assert_eq!(ransom_fee(100, 101), 0);
    assert_eq!(ransom_fee(101, 100), PRISON_RANSOM_MIN);
    assert_eq!(ransom_fee(PRISON_RENT_DURATION_MS, 0), PRISON_RENT_FEE);
}

#[test]
fn ransom_fee_half_day_is_half_the_fee() {
    assert_eq!(ransom_fee(PRISON_RENT_DURATION_MS / 2, 0), 250);
    assert_eq!(ransom_fee(PRISON_RENT_DURATION_MS / 10, 0), 100);
}

#[test]
fn value_i64_reads_floor_of_numbers() {
    assert_eq!(value_i64(Some(&num(7))), 7);
    assert_eq!(value_i64(Some(&text("7"))), 0);
    assert_eq!(value_i64(None), 0);
}

fn public_prison(slaves: Vec<Json>) -> Json {
    obj(vec![(
        "UndergroundPrison",
        obj(vec![
            ("Owned", Json::Bool(true)),
            ("Permission", text("Public")),
            (
                "Sectors",
                Json::Array(vec![obj(vec![
                    ("Unlocked", Json::Bool(true)),
                    ("Type", text("Mine")),
                    ("BaseSlaveCapacity", num(5)),
                    ("ExtraCapacity", num(0)),
                    ("Overseers", Json::Array(vec![obj(vec![("Name", text("Guard"))])])),
                    ("Slaves", Json::Array(slaves)),
                ])]),
            ),
        ]),
    )])
}

fn renter(member: i64, money: i64) -> OnlineAccount {
    let mut a = OnlineAccount::new_created(
        "sock".to_string(),
        "RENTER".to_string(),
        member,
        "Renter".to_string(),
        "".to_string(),
        0,
    );
    a.extra.insert("Money".to_string(), num(money));
    a
}

#[test]
fn rent_target_refuses_own_prison_and_offline() {
    let request = obj(vec![("HostMemberNumber", num(9)), ("SectorIndex", num(0))]);
    assert_eq!(rent_target(&request, None), Err(PrisonError::Offline));
    assert_eq!(rent_target(&request, Some(9)), Err(PrisonError::BadRequest));
    assert_eq!(rent_target(&request, Some(42)), Ok((9, 0)));
    let bad = obj(vec![("HostMemberNumber", num(9)), ("SectorIndex", num(-1))]);
    assert_eq!(rent_target(&bad, Some(42)), Err(PrisonError::BadRequest));
}

#[test]
fn rent_self_adds_rental_and_charges_fee() {
    let ext = public_prison(vec![]);
    let request = obj(vec![
        ("HostMemberNumber", num(9)),
        ("SectorIndex", num(0)),
        ("Role", text("Self")),
        ("Strength", num(500)),
    ]);
    let r = renter(42, 600);
    let grant = prison_rent(&request, &r, 0, Some(&ext), 1000).expect("granted");
    assert_eq!(grant.money_after, 100);
    assert_eq!(grant.until, 1000 + PRISON_RENT_DURATION_MS);
    assert_eq!(grant.rent_role, "Self");
    assert_eq!(grant.renter_private_index, -1);
    let sector = &grant.prison.get("Sectors").and_then(|s| s.as_array()).unwrap()[0];
    let slaves = sector.get("Slaves").and_then(|s| s.as_array()).unwrap();
    assert_eq!(slaves.len(), 1);
    assert_eq!(slaves[0].get_i64("RenterMemberNumber"), Some(42));
    assert_eq!(slaves[0].get_i64("Strength"), Some(100));
    assert_eq!(slaves[0].get_str("RentRole"), Some("Self"));
}

#[test]
fn rent_errors_in_order() {
    let request = obj(vec![("HostMemberNumber", num(9)), ("SectorIndex", num(0)), ("Role", text("Self"))]);
    let ext = public_prison(vec![]);
    assert_eq!(prison_rent(&request, &renter(42, 600), 0, None, 0).err(), Some(PrisonError::NotFound));
    assert_eq!(
        prison_rent(&request, &renter(42, 499), 0, Some(&ext), 0).err(),
        Some(PrisonError::InsufficientFunds)
    );
    let private = obj(vec![("UndergroundPrison", obj(vec![("Owned", Json::Bool(true))]))]);
    assert_eq!(prison_rent(&request, &renter(42, 600), 0, Some(&private), 0).err(), Some(PrisonError::Private));
    let slave_request = obj(vec![("HostMemberNumber", num(9)), ("SectorIndex", num(0)), ("PrivateIndex", num(1))]);
    assert_eq!(
        prison_rent(&slave_request, &renter(42, 600), 0, Some(&ext), 0).err(),
        Some(PrisonError::BadSlave)
    );
    assert_eq!(prison_rent(&request, &renter(42, 600), 3, Some(&ext), 0).err(), Some(PrisonError::Full));
    let full: Vec<Json> = (0..5).map(|i| obj(vec![("RenterMemberNumber", num(100 + i))])).collect();
    let ext_full = public_prison(full);
    assert_eq!(prison_rent(&request, &renter(42, 600), 0, Some(&ext_full), 0).err(), Some(PrisonError::Full));
}

#[test]
fn rent_prunes_expired_rentals() {
    let expired: Vec<Json> = (0..5).map(|i| obj(vec![("RenterMemberNumber", num(100 + i)), ("Until", num(10))])).collect();
    let ext = public_prison(expired);
    let request = obj(vec![("HostMemberNumber", num(9)), ("SectorIndex", num(0)), ("Role", text("Self"))]);
    let grant = prison_rent(&request, &renter(42, 600), 0, Some(&ext), 1000).expect("expired rentals make room");
    let sector = &grant.prison.get("Sectors").and_then(|s| s.as_array()).unwrap()[0];
    assert_eq!(sector.get("Slaves").and_then(|s| s.as_array()).unwrap().len(), 1);
}

#[test]
fn self_ransom_removes_rental_and_charges() {
    let rental = obj(vec![
        ("RenterMemberNumber", num(42)),
        ("RentRole", text("Self")),
        ("Until", num(PRISON_RENT_DURATION_MS)),
    ]);
    let ext = public_prison(vec![rental]);
    let request = obj(vec![("Action", text("SelfRansom")), ("HostMemberNumber", num(9)), ("SectorIndex", num(0))]);
    let g = prison_release(&request, &renter(42, 1000), 9, 0, Some(&ext), 0).expect("released");
    assert_eq!(g.fee, PRISON_RENT_FEE);
    assert_eq!(g.money_after, 500);
    assert_eq!(g.target_renter, 42);
    assert!(!g.dismissed);
    let poor = prison_release(&request, &renter(42, 10), 9, 0, Some(&ext), 0);
    assert_eq!(poor.err(), Some(PrisonError::InsufficientFunds));
    let dismiss = obj(vec![("Action", text("OwnerDismiss")), ("TargetMemberNumber", num(42))]);
    assert_eq!(
        prison_release(&dismiss, &renter(43, 10), 9, 0, Some(&ext), 0).err(),
        Some(PrisonError::NotOwner)
    );
    let by_owner = prison_release(&dismiss, &renter(9, 0), 9, 0, Some(&ext), 0).expect("dismissed");
    assert_eq!(by_owner.fee, 0);
    assert!(by_owner.dismissed);
    let other = obj(vec![("Action", text("Other"))]);
    assert_eq!(prison_release(&other, &renter(42, 0), 9, 0, Some(&ext), 0).err(), Some(PrisonError::BadRequest));
}

#[test]
fn work_room_needs_host_or_active_self_rental() {
    let rental = obj(vec![("RenterMemberNumber", num(42)), ("RentRole", text("Self")), ("Until", num(5000))]);
    let ext = public_prison(vec![rental]);
    assert_eq!(work_room_access(9, 9, 0, Some(&ext), 0), Ok(()));
    assert_eq!(work_room_access(42, 9, 0, Some(&ext), 0), Ok(()));
    assert_eq!(work_room_access(42, 9, 0, Some(&ext), 6000), Err(PrisonError::NotRented));
    assert_eq!(work_room_access(43, 9, 0, Some(&ext), 0), Err(PrisonError::NotRented));
    assert_eq!(work_room_access(42, 9, 1, Some(&ext), 0), Err(PrisonError::NotFound));
}
