//! Reservations of updates.

use commons_bot::commons_cache::Cache;
use commons_bot::config::Config;
use commons_bot::idempotency::{
    IdempotencyStore, Reservation, expires_at, is_conditional_check_failed, reservation_item,
    reservation_outcome, reserve_in_ram,
};

#[test]
fn ram_reservation_suppresses_unexpired_duplicates() {
    let mut seen: Cache<i64> = Cache::new();

    assert!(reserve_in_ram(&mut seen, "telegram:update:1", 100, 200));
    assert!(!reserve_in_ram(&mut seen, "telegram:update:1", 101, 201));
    assert!(reserve_in_ram(&mut seen, "telegram:update:1", 201, 301));

    assert!(reserve_in_ram(&mut seen, "old", 100, 101));
    assert!(reserve_in_ram(&mut seen, "new", 102, 200));

    assert!(seen.get("old").is_none());
    assert!(seen.get("new").is_some());
}

#[test]
fn detects_dynamodb_conditional_check_errors() {
    let error = r#"AWS dynamodb DynamoDB_20120810.PutItem failed with HTTP 400 Bad Request: {"__type":"com.amazonaws.dynamodb.v20120810#ConditionalCheckFailedException"}"#;

    assert!(is_conditional_check_failed(error));
    assert!(!is_conditional_check_failed("other"));
}

fn store(table: Option<&str>) -> IdempotencyStore {
    let mut vars = Vec::new();
    if let Some(name) = table {
        vars.push(("DYNAMODB_TABLE".to_string(), name.to_string()));
    }
    IdempotencyStore::new(&Config::from_env_lookup(&vars))
}

#[test]
fn a_reservation_lasts_until_its_end() {
    let mut seen: Cache<i64> = Cache::new();
    assert!(reserve_in_ram(&mut seen, "a", 0, 50));
    for now in 1..=50 {
        assert!(!reserve_in_ram(&mut seen, "a", now, now + 50));
    }
    assert!(reserve_in_ram(&mut seen, "a", 51, 101));
}

#[test]
fn reservations_do_not_disturb_one_another() {
    let mut seen: Cache<i64> = Cache::new();
    assert!(reserve_in_ram(&mut seen, "a", 0, 50));
    assert!(reserve_in_ram(&mut seen, "b", 0, 60));
    assert!(!reserve_in_ram(&mut seen, "a", 10, 70));
    assert!(!reserve_in_ram(&mut seen, "b", 10, 70));
}

#[test]
fn ends_do_not_overflow() {
    assert_eq!(expires_at(100, 30), 130);
    assert_eq!(expires_at(i64::MAX, 30), i64::MAX);
}

#[test]
fn a_failed_condition_means_a_duplicate() {
    assert_eq!(reservation_outcome(Ok(())), Ok(true));
    assert_eq!(
        reservation_outcome(Err("ConditionalCheckFailedException".to_string())),
        Ok(false)
    );
    assert_eq!(
        reservation_outcome(Err("no route".to_string())),
        Err("no route".to_string())
    );
}

#[test]
fn a_store_without_a_table_reserves_in_memory() {
    let mut seen: Cache<i64> = Cache::new();
    let ram = store(None);
    assert!(!ram.uses_table(true));
    assert!(matches!(
        ram.reserve(&mut seen, "k", 30, 100, true),
        Reservation::Decided(true)
    ));
    assert!(matches!(
        ram.reserve(&mut seen, "k", 30, 100, true),
        Reservation::Decided(false)
    ));
    assert!(ram.mark_done("k", 130, true).is_none());
}

#[test]
fn a_store_with_a_table_writes_items() {
    let mut seen: Cache<i64> = Cache::new();
    let table = store(Some("t"));
    assert!(table.uses_table(true));
    assert!(!table.uses_table(false));
    match table.reserve(&mut seen, "k", 30, 100, true) {
        Reservation::Write { item, now, reserved_until } => {
            assert_eq!(now, 100);
            assert_eq!(reserved_until, 130);
            assert_eq!(item, reservation_item("k", "processing", 130));
        }
        Reservation::Decided(_) => panic!("expected a write"),
    }
    assert_eq!(
        table.mark_done("k", 130, true),
        Some(reservation_item("k", "done", 130))
    );
    let item = reservation_item("k", "done", 130);
    assert!(item.iter().any(|(_, _, value)| value == "130"));
    assert!(table.mark_done("k", 130, false).is_none());
}

#[test]
fn a_done_key_expires_when_its_reservation_does() {
    let mut seen: Cache<i64> = Cache::new();
    let table = store(Some("t"));
    let Reservation::Write { item, reserved_until, .. } =
        table.reserve(&mut seen, "k", 3600, 1_000, true)
    else {
        panic!("expected a write");
    };
    let done = table.mark_done("k", reserved_until, true).unwrap();
    let expiry = |item: &Vec<(String, String, String)>| {
        item.iter().find(|(name, _, _)| name == "expires_at").map(|(_, _, value)| value.clone())
    };
    assert_eq!(expiry(&item), Some("4600".to_string()));
    assert_eq!(expiry(&done), expiry(&item));
}
