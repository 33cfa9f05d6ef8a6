//! Tests of the sibling-service pieces: the primality check, its fixed reply
//! shape, the nine-byte request codec, and the line helpers.

use budget_chat::bytes::bytes_eq;
use budget_chat::bytes::strip_newline;
use budget_chat::bytes::trim_bytes;
use budget_chat::codec::Request;
use budget_chat::prime::prime_test;
use budget_chat::prime::Response;

#[test]
fn prime_test_small_values() {
    assert!(!prime_test(-7));
    assert!(!prime_test(0));
    assert!(!prime_test(1));
    assert!(prime_test(2));
    assert!(prime_test(3));
    assert!(!prime_test(4));
    assert!(prime_test(5));
    assert!(!prime_test(9));
    assert!(!prime_test(15));
    assert!(prime_test(17));
}

#[test]
fn prime_test_larger_values() {
    assert!(!prime_test(25));
    assert!(prime_test(97));
    assert!(!prime_test(91));
    assert!(prime_test(7919));
    assert!(!prime_test(7921));
    assert!(prime_test(2147483647));
}

#[test]
fn response_new_is_the_fixed_reply() {
    let r = Response::new();
    assert_eq!(r.method, "isPrime".to_string());
    assert!(!r.prime);
}

#[test]
fn request_decodes_big_endian_fields() {
    let raw: [u8; 9] = [73, 0, 0, 0, 5, 0, 0, 1, 1];
    let req = Request::from_bytes(raw);
    assert_eq!(req.query, 73);
    assert_eq!(req.arg1, 5);
    assert_eq!(req.arg2, 257);
}

#[test]
fn request_decodes_negative_arguments() {
    let raw: [u8; 9] = [81, 255, 255, 255, 251, 128, 0, 0, 0];
    let req = Request::from_bytes(raw);
    assert_eq!(req.query, 81);
    assert_eq!(req.arg1, -5);
    assert_eq!(req.arg2, i32::MIN);
}

#[test]
fn trim_removes_surrounding_whitespace_only() {
    assert_eq!(trim_bytes(&b"  bob \r\n".to_vec()), b"bob".to_vec());
    assert_eq!(trim_bytes(&b"ann".to_vec()), b"ann".to_vec());
    assert_eq!(trim_bytes(&b" \t\n".to_vec()), b"".to_vec());
    assert_eq!(trim_bytes(&b"a b".to_vec()), b"a b".to_vec());
}

#[test]
fn strip_newline_takes_one_trailing_newline() {
    assert_eq!(strip_newline(&b"text\n".to_vec()), b"text".to_vec());
    assert_eq!(strip_newline(&b"text".to_vec()), b"text".to_vec());
    assert_eq!(strip_newline(&b"a\n\n".to_vec()), b"a\n".to_vec());
    assert_eq!(strip_newline(&b" padded \n".to_vec()), b" padded ".to_vec());
}

#[test]
fn bytes_eq_compares_contents() {
    assert!(bytes_eq(&b"bob".to_vec(), &b"bob".to_vec()));
    assert!(!bytes_eq(&b"bob".to_vec(), &b"bo".to_vec()));
    assert!(!bytes_eq(&b"bob".to_vec(), &b"bub".to_vec()));
    assert!(bytes_eq(&b"".to_vec(), &b"".to_vec()));
}
