use verilink::codec::Buffer;
use verilink::protocol::decode_request;
use verilink::protocol::encode_connect_response;
use verilink::protocol::handle_link_message;
use verilink::protocol::handle_packet;
use verilink::protocol::Dispatch;
use verilink::protocol::Packet;
use verilink::record::VerifyState;
use verilink::table::UserTable;

#[test]
fn connect_query_dispatch_creates_record_and_replies() {
    let mut t = UserTable::new();
    let step = handle_packet(
        &mut t,
        Packet::ConnectQuery("Steve".to_string(), "u1".to_string()),
        0,
    );
    assert!(!step.dirty);
    assert_eq!(t.len(), 1);
    match step.action {
        Dispatch::Reply(Packet::ConnectResponse(s)) => {
            let code = t.get(0).verify_code.unwrap();
            assert!(s.contains(&code.to_string()));
        }
        _ => panic!("expected a connect response"),
    }
}

#[test]
fn code_claim_dispatch_awaits_link_and_stores_handle() {
    let mut t = UserTable::new();
    handle_packet(
        &mut t,
        Packet::ConnectQuery("Steve".to_string(), "u1".to_string()),
        0,
    );
    let code = t.get(0).verify_code.unwrap();
    let step = handle_packet(&mut t, Packet::DiscordCode(code, 42), 0);
    assert!(step.dirty);
    let uuid = match step.action {
        Dispatch::ReplyAwaitLink(Packet::VerifyPending(uuid, name)) => {
            assert_eq!(uuid, "u1");
            assert_eq!(name, "Steve");
            uuid
        }
        _ => panic!("expected the claim to await its link message"),
    };
    assert!(handle_link_message(
        &mut t,
        &uuid,
        Packet::LinkVerifyMessage(777)
    ));
    assert_eq!(t.get(0).verify_message, Some(777));
}

#[test]
fn wrong_follow_up_is_refused_without_change() {
    let mut t = UserTable::new();
    handle_packet(
        &mut t,
        Packet::ConnectQuery("Steve".to_string(), "u1".to_string()),
        0,
    );
    let uuid = "u1".to_string();
    assert!(!handle_link_message(&mut t, &uuid, Packet::ApprovalSuccess));
    assert_eq!(t.get(0).verify_message, None);
}

#[test]
fn invalid_code_dispatch_replies_invalid() {
    let mut t = UserTable::new();
    let step = handle_packet(&mut t, Packet::DiscordCode(123456, 42), 0);
    assert!(!step.dirty);
    assert!(matches!(
        step.action,
        Dispatch::Reply(Packet::VerifyCodeInvalid)
    ));
}

#[test]
fn approval_dispatch_replies_success_and_failure() {
    let mut t = UserTable::new();
    handle_packet(
        &mut t,
        Packet::ConnectQuery("Steve".to_string(), "u1".to_string()),
        0,
    );
    let code = t.get(0).verify_code.unwrap();
    handle_packet(&mut t, Packet::DiscordCode(code, 42), 0);
    let ok = handle_packet(&mut t, Packet::DiscordApproval("u1".to_string()), 0);
    assert!(ok.dirty);
    assert!(matches!(ok.action, Dispatch::Reply(Packet::ApprovalSuccess)));
    assert!(matches!(t.get(0).verify_state, VerifyState::Approved));
    let bad = handle_packet(&mut t, Packet::DiscordApproval("u2".to_string()), 0);
    assert!(!bad.dirty);
    assert!(matches!(
        bad.action,
        Dispatch::Reply(Packet::ApprovalFailure)
    ));
}

#[test]
fn remove_dispatch_replies_handle_or_stays_silent() {
    let mut t = UserTable::new();
    handle_packet(
        &mut t,
        Packet::ConnectQuery("Steve".to_string(), "u1".to_string()),
        0,
    );
    let code = t.get(0).verify_code.unwrap();
    handle_packet(&mut t, Packet::DiscordCode(code, 42), 0);
    let uuid = "u1".to_string();
    handle_link_message(&mut t, &uuid, Packet::LinkVerifyMessage(9));
    let step = handle_packet(&mut t, Packet::RemoveUser(42), 0);
    assert!(step.dirty);
    assert!(matches!(
        step.action,
        Dispatch::Reply(Packet::RemoveMessage(9))
    ));
    assert_eq!(t.len(), 0);
    let silent = handle_packet(&mut t, Packet::RemoveUser(42), 0);
    assert!(silent.dirty);
    assert!(matches!(silent.action, Dispatch::Silent));
}

#[test]
fn reply_kind_in_request_position_is_a_violation() {
    let mut t = UserTable::new();
    let step = handle_packet(&mut t, Packet::AlreadyLinked, 0);
    assert!(!step.dirty);
    assert!(matches!(step.action, Dispatch::Violation));
    assert_eq!(t.len(), 0);
    let step2 = handle_packet(&mut t, Packet::LinkVerifyMessage(1), 0);
    assert!(matches!(step2.action, Dispatch::Violation));
}

#[test]
fn connect_request_decodes() {
    let mut b = Buffer::new();
    b.put_u8(0).unwrap();
    b.put_string("u1".to_string()).unwrap();
    b.put_string("Steve".to_string()).unwrap();
    match decode_request(&mut b).unwrap() {
        Some(Packet::ConnectQuery(name, uuid)) => {
            assert_eq!(name, "Steve");
            assert_eq!(uuid, "u1");
        }
        _ => panic!("expected a connect query"),
    }
}

#[test]
fn unknown_request_kind_is_ignored() {
    let mut b = Buffer::new();
    b.put_u8(3).unwrap();
    assert!(decode_request(&mut b).unwrap().is_none());
}

#[test]
fn truncated_request_is_an_error() {
    let mut b = Buffer::new();
    assert!(decode_request(&mut b).is_err());
    b.put_u8(0).unwrap();
    b.put_u32(10).unwrap();
    assert!(decode_request(&mut b).is_err());
}

#[test]
fn connect_response_encodes_and_frames() {
    let mut b = Buffer::new();
    encode_connect_response(&mut b, "ok!".to_string()).unwrap();
    let f = b.frame();
    assert_eq!(f, vec![0, 0, 0, 8, 0, 0, 0, 0, 3, b'o', b'k', b'!']);
    assert_eq!(b.next_u8(), Ok(0));
    assert_eq!(b.next_string().unwrap(), "ok!");
}

#[test]
fn oversized_response_fails_to_encode() {
    let mut b = Buffer::new();
    let long = "y".repeat(150);
    assert!(encode_connect_response(&mut b, long).is_err());
}
