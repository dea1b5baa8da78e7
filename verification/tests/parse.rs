use verilink::parse::has_prefix;
use verilink::parse::parse_approve_id;
use verilink::parse::parse_close_ticket;
use verilink::parse::parse_code;
use verilink::parse::parse_digits_u64;
use verilink::parse::parse_u64;
use verilink::parse::parse_unlink_account;

#[test]
fn code_in_range_parses() {
    assert_eq!(parse_code("123456"), Some(123456));
    assert_eq!(parse_code("100000"), Some(100000));
    assert_eq!(parse_code("999999"), Some(999999));
}

#[test]
fn code_accepts_plus_sign_and_leading_zeros() {
    assert_eq!(parse_code("+123456"), Some(123456));
    assert_eq!(parse_code("0123456"), Some(123456));
}

#[test]
fn code_out_of_range_is_rejected() {
    assert_eq!(parse_code("99999"), None);
    assert_eq!(parse_code("1000000"), None);
    assert_eq!(parse_code("-123456"), None);
    assert_eq!(parse_code("99999999999999999999999"), None);
}

#[test]
fn code_with_stray_characters_is_rejected() {
    assert_eq!(parse_code(""), None);
    assert_eq!(parse_code("+"), None);
    assert_eq!(parse_code("12a456"), None);
    assert_eq!(parse_code("123456 "), None);
    assert_eq!(parse_code("hello"), None);
}

#[test]
fn u64_parsing_matches_decimal() {
    assert_eq!(parse_u64("0"), Some(0));
    assert_eq!(parse_u64("42"), Some(42));
    assert_eq!(parse_u64("+42"), Some(42));
    assert_eq!(parse_u64("18446744073709551615"), Some(u64::MAX));
    assert_eq!(parse_u64("18446744073709551616"), None);
    assert_eq!(parse_u64("99999999999999999999999999"), None);
    assert_eq!(parse_u64(""), None);
    assert_eq!(parse_u64("-1"), None);
    assert_eq!(parse_u64("4 2"), None);
}

#[test]
fn digit_runs_reject_signs() {
    assert_eq!(parse_digits_u64("123"), Some(123));
    assert_eq!(parse_digits_u64("+123"), None);
}

#[test]
fn prefixes_are_detected() {
    assert!(has_prefix("close-ticket-9", "close-ticket-"));
    assert!(!has_prefix("close", "close-ticket-"));
    assert!(!has_prefix("Close-ticket-9", "close-ticket-"));
    assert!(has_prefix("anything", ""));
}

#[test]
fn close_ticket_ids_parse() {
    assert_eq!(parse_close_ticket("close-ticket-123"), Some(123));
    assert_eq!(parse_close_ticket("close-ticket-"), None);
    assert_eq!(parse_close_ticket("close-ticket-12x"), None);
    assert_eq!(parse_close_ticket("open-ticket-12"), None);
}

#[test]
fn unlink_account_ids_parse() {
    assert_eq!(parse_unlink_account("unlink-account-42"), Some(42));
    assert_eq!(parse_unlink_account("unlink-account-"), None);
    assert_eq!(parse_unlink_account("unlink-accounts-42"), None);
}

#[test]
fn approve_ids_parse() {
    let id = "approve-account-42-01234567-89ab-cdef-0123-456789abcdef";
    let (account, uuid) = parse_approve_id(id).unwrap();
    assert_eq!(account, 42);
    assert_eq!(uuid, "01234567-89ab-cdef-0123-456789abcdef");
}

#[test]
fn approve_ids_with_bad_shape_are_rejected() {
    assert_eq!(
        parse_approve_id("approve-account--01234567-89ab-cdef-0123-456789abcdef"),
        None
    );
    assert_eq!(
        parse_approve_id("approve-account-42-01234567-89AB-cdef-0123-456789abcdef"),
        None
    );
    assert_eq!(
        parse_approve_id("approve-account-42-01234567-89ab-cdef-0123-456789abcde"),
        None
    );
    assert_eq!(
        parse_approve_id("approve-account-42x01234567-89ab-cdef-0123-456789abcdef"),
        None
    );
    assert_eq!(parse_approve_id("approve-account-42"), None);
    assert_eq!(parse_approve_id("something-else"), None);
}
