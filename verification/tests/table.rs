use verilink::record::UserState;
use verilink::record::VerifyState;
use verilink::record::CODE_MAX;
use verilink::record::CODE_MIN;
use verilink::table::ClaimResult;
use verilink::table::UserTable;

fn steve() -> (String, String) {
    ("Steve".to_string(), "u1".to_string())
}

fn connect(t: &mut UserTable, now: u128) -> String {
    let (name, uuid) = steve();
    t.connect_query(&name, &uuid, now)
}

#[test]
fn connect_unseen_creates_new_record_with_code() {
    let mut t = UserTable::new();
    let reply = connect(&mut t, 0);
    assert_eq!(t.len(), 1);
    let rec = t.get(0);
    assert_eq!(rec.name, "Steve");
    assert_eq!(rec.uuid, "u1");
    assert!(matches!(rec.verify_state, VerifyState::New));
    assert_eq!(rec.discord_id, None);
    let code = rec.verify_code.unwrap();
    assert!(CODE_MIN <= code && code < CODE_MAX);
    assert_eq!(rec.code_expires, Some(30000));
    let expected = format!(
        "Please type the following code into the #verification channel:\n{code}"
    );
    assert_eq!(reply, expected);
}

#[test]
fn connect_again_keeps_record_and_code() {
    let mut t = UserTable::new();
    let first = connect(&mut t, 0);
    let code = t.get(0).verify_code.unwrap();
    let second = connect(&mut t, 1);
    assert_eq!(t.len(), 1);
    assert_eq!(t.get(0).verify_code, Some(code));
    assert_eq!(first, second);
}

#[test]
fn submit_code_moves_record_to_pending() {
    let mut t = UserTable::new();
    connect(&mut t, 0);
    let code = t.get(0).verify_code.unwrap();
    match t.discord_code(code, 42) {
        ClaimResult::Claimed { uuid, name } => {
            assert_eq!(uuid, "u1");
            assert_eq!(name, "Steve");
        }
        _ => panic!("expected the claim to succeed"),
    }
    let rec = t.get(0);
    assert!(matches!(rec.verify_state, VerifyState::Pending));
    assert_eq!(rec.discord_id, Some(42));
    assert_eq!(rec.verify_code, None);
    assert_eq!(rec.code_expires, None);
}

#[test]
fn unknown_code_changes_nothing() {
    let mut t = UserTable::new();
    connect(&mut t, 0);
    let code = t.get(0).verify_code.unwrap();
    let other = if code == CODE_MAX - 1 { CODE_MIN } else { code + 1 };
    assert!(matches!(t.discord_code(other, 42), ClaimResult::Invalid));
    let rec = t.get(0);
    assert_eq!(t.len(), 1);
    assert!(matches!(rec.verify_state, VerifyState::New));
    assert_eq!(rec.verify_code, Some(code));
    assert_eq!(rec.discord_id, None);
}

#[test]
fn second_claim_from_same_account_is_turned_away() {
    let mut t = UserTable::new();
    connect(&mut t, 0);
    let code = t.get(0).verify_code.unwrap();
    assert!(matches!(
        t.discord_code(code, 42),
        ClaimResult::Claimed { .. }
    ));
    let name2 = "Alex".to_string();
    let uuid2 = "u2".to_string();
    t.connect_query(&name2, &uuid2, 0);
    let code2 = t
        .get(if t.get(0).uuid == "u2" { 0 } else { 1 })
        .verify_code
        .unwrap();
    assert!(matches!(
        t.discord_code(code2, 42),
        ClaimResult::AlreadyLinked
    ));
    let pending = if t.get(0).uuid == "u1" { 0 } else { 1 };
    assert!(matches!(t.get(pending).verify_state, VerifyState::Pending));
    assert_eq!(t.len(), 2);
}

#[test]
fn approval_promotes_and_connect_replies_empty() {
    let mut t = UserTable::new();
    connect(&mut t, 0);
    let code = t.get(0).verify_code.unwrap();
    t.discord_code(code, 42);
    let (_, uuid) = steve();
    assert!(t.discord_approval(&uuid));
    assert!(matches!(t.get(0).verify_state, VerifyState::Approved));
    let reply = connect(&mut t, 1);
    assert_eq!(reply, "");
}

#[test]
fn pending_record_gets_wait_notice() {
    let mut t = UserTable::new();
    connect(&mut t, 0);
    let code = t.get(0).verify_code.unwrap();
    t.discord_code(code, 42);
    let reply = connect(&mut t, 1);
    assert_eq!(
        reply,
        "Your account is currently pending admin approval. Please try again later."
    );
}

#[test]
fn approval_of_unknown_identity_fails() {
    let mut t = UserTable::new();
    connect(&mut t, 0);
    let missing = "nobody".to_string();
    assert!(!t.discord_approval(&missing));
    let (_, uuid) = steve();
    assert!(!t.discord_approval(&uuid));
    assert!(matches!(t.get(0).verify_state, VerifyState::New));
}

#[test]
fn remove_deletes_record_and_returns_notification_handle() {
    let mut t = UserTable::new();
    connect(&mut t, 0);
    let code = t.get(0).verify_code.unwrap();
    t.discord_code(code, 42);
    let (_, uuid) = steve();
    t.link_verify_message(&uuid, 555);
    assert_eq!(t.get(0).verify_message, Some(555));
    assert_eq!(t.remove_user(42), Some(555));
    assert_eq!(t.len(), 0);
    connect(&mut t, 100);
    assert_eq!(t.len(), 1);
    assert!(matches!(t.get(0).verify_state, VerifyState::New));
    assert!(t.get(0).verify_code.is_some());
}

#[test]
fn remove_without_notification_is_silent() {
    let mut t = UserTable::new();
    connect(&mut t, 0);
    let code = t.get(0).verify_code.unwrap();
    t.discord_code(code, 42);
    assert_eq!(t.remove_user(42), None);
    assert_eq!(t.len(), 0);
}

#[test]
fn remove_unknown_account_changes_nothing() {
    let mut t = UserTable::new();
    connect(&mut t, 0);
    assert_eq!(t.remove_user(7), None);
    assert_eq!(t.len(), 1);
}

#[test]
fn sweep_drops_expired_new_record() {
    let mut t = UserTable::new();
    connect(&mut t, 0);
    t.sweep_expired(29999);
    assert_eq!(t.len(), 1);
    t.sweep_expired(30000);
    assert_eq!(t.len(), 0);
}

#[test]
fn sweep_spares_claimed_records() {
    let mut t = UserTable::new();
    connect(&mut t, 0);
    let code = t.get(0).verify_code.unwrap();
    t.discord_code(code, 42);
    t.sweep_expired(1_000_000_000);
    assert_eq!(t.len(), 1);
    assert!(matches!(t.get(0).verify_state, VerifyState::Pending));
}

#[test]
fn persist_roundtrip_keeps_durable_records_only() {
    let mut t = UserTable::new();
    connect(&mut t, 0);
    let code = t.get(0).verify_code.unwrap();
    t.discord_code(code, 42);
    let (_, uuid) = steve();
    t.link_verify_message(&uuid, 9);
    let name2 = "Alex".to_string();
    let uuid2 = "u2".to_string();
    t.connect_query(&name2, &uuid2, 0);
    assert_eq!(t.len(), 2);

    let snapshot = t.to_persist();
    assert_eq!(snapshot.len(), 1);
    assert_eq!(snapshot[0].uuid, "u1");
    assert_eq!(snapshot[0].verify_code, None);

    let reloaded = UserTable::from_persist(snapshot).unwrap();
    assert_eq!(reloaded.len(), 1);
    let rec = reloaded.get(0);
    assert_eq!(rec.uuid, "u1");
    assert_eq!(rec.name, "Steve");
    assert_eq!(rec.discord_id, Some(42));
    assert_eq!(rec.verify_message, Some(9));
    assert!(matches!(rec.verify_state, VerifyState::Pending));
}

fn durable_record(uuid: &str, discord: u64) -> UserState {
    UserState {
        name: "p".to_string(),
        uuid: uuid.to_string(),
        discord_id: Some(discord),
        verify_state: VerifyState::Pending,
        verify_message: None,
        verify_code: None,
        code_expires: None,
    }
}

#[test]
fn snapshot_with_duplicate_identity_is_refused() {
    let records = vec![durable_record("a", 1), durable_record("a", 2)];
    assert!(UserTable::from_persist(records).is_none());
}

#[test]
fn snapshot_with_duplicate_account_is_refused() {
    let records = vec![durable_record("a", 1), durable_record("b", 1)];
    assert!(UserTable::from_persist(records).is_none());
}

#[test]
fn snapshot_with_new_record_is_refused() {
    let (name, uuid) = ("n".to_string(), "u9".to_string());
    let records = vec![UserState::new(&name, &uuid, 123456, 0)];
    assert!(UserTable::from_persist(records).is_none());
}

#[test]
fn empty_snapshot_loads_empty_table() {
    let t = UserTable::from_persist(Vec::new()).unwrap();
    assert_eq!(t.len(), 0);
}
