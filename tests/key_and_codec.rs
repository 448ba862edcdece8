use zero2prod::error::IdempotencyError;
use zero2prod::key::IdempotencyKey;
use zero2prod::response::{decode, encode, HeaderEntry, ResponseRecord, StoredResponse};

fn header(name: &str, value: &[u8]) -> HeaderEntry {
    HeaderEntry { name: name.to_string(), value: value.to_vec() }
}

fn header_pairs(headers: &[HeaderEntry]) -> Vec<(String, Vec<u8>)> {
    headers.iter().map(|h| (h.name.clone(), h.value.clone())).collect()
}

#[test]
fn key_rejects_empty_and_long_accepts_token() {
    assert_eq!(IdempotencyKey::parse(String::new()).unwrap_err(), IdempotencyError::InvalidKey);
    let long = "a".repeat(200);
    assert_eq!(IdempotencyKey::parse(long).unwrap_err(), IdempotencyError::InvalidKey);
    let key = IdempotencyKey::parse("token-1".to_string()).unwrap();
    assert_eq!(key.as_str(), "token-1");
}

#[test]
fn key_length_boundary_is_fifty() {
    assert!(IdempotencyKey::parse("b".repeat(50)).is_ok());
    assert_eq!(IdempotencyKey::parse("b".repeat(51)).unwrap_err(), IdempotencyError::InvalidKey);
}

#[test]
fn key_rejects_unsafe_characters() {
    for raw in ["abc 123", "a'b", "key;drop", "ключ", "a\nb"] {
        assert_eq!(
            IdempotencyKey::parse(raw.to_string()).unwrap_err(),
            IdempotencyError::InvalidKey,
            "{raw}"
        );
    }
    assert!(IdempotencyKey::parse("Abc_123-xyz".to_string()).is_ok());
}

#[test]
fn key_compares_by_value() {
    let a = IdempotencyKey::parse("abc123".to_string()).unwrap();
    let b = IdempotencyKey::parse("abc123".to_string()).unwrap();
    let c = IdempotencyKey::parse("abc124".to_string()).unwrap();
    assert!(a.same_as(&b));
    assert!(!a.same_as(&c));
    assert_eq!(a.clone().as_str(), "abc123");
}

#[test]
fn round_trip_keeps_status_headers_and_body() {
    let record = ResponseRecord {
        status_code: 201,
        headers: vec![header("x-a", b"1"), header("x-empty", b""), header("x-a", b"2")],
        body: vec![0, 159, 146, 150, 255],
    };
    let expected = header_pairs(&record.headers);
    let stored = encode(record);
    assert_eq!(stored.status_code, 201i16);
    let back = decode(stored).unwrap();
    assert_eq!(back.status_code, 201);
    assert_eq!(header_pairs(&back.headers), expected);
    assert_eq!(back.body, vec![0, 159, 146, 150, 255]);
}

#[test]
fn round_trip_of_empty_response() {
    let record = ResponseRecord { status_code: 204, headers: vec![], body: vec![] };
    let back = decode(encode(record)).unwrap();
    assert_eq!(back.status_code, 204);
    assert!(back.headers.is_empty());
    assert!(back.body.is_empty());
}

#[test]
fn set_cookie_headers_round_trip_in_order() {
    let record = ResponseRecord {
        status_code: 200,
        headers: vec![
            header("set-cookie", b"a=1; Path=/"),
            header("content-type", b"text/plain"),
            header("set-cookie", b"b=2; HttpOnly"),
        ],
        body: b"ok".to_vec(),
    };
    let back = decode(encode(record)).unwrap();
    let cookies: Vec<&[u8]> = back
        .headers
        .iter()
        .filter(|h| h.name == "set-cookie")
        .map(|h| h.value.as_slice())
        .collect();
    assert_eq!(cookies, vec![&b"a=1; Path=/"[..], &b"b=2; HttpOnly"[..]]);
    assert_eq!(back.headers[1].name, "content-type");
}

#[test]
fn round_trip_at_status_bounds() {
    for status in [100u16, 599u16] {
        let back = decode(encode(ResponseRecord { status_code: status, headers: vec![], body: vec![] }))
            .unwrap();
        assert_eq!(back.status_code, status);
    }
}

#[test]
fn decode_rejects_out_of_range_status() {
    for status in [99i16, 600, 0, -1, i16::MAX, i16::MIN] {
        let stored = StoredResponse { status_code: status, headers: vec![], body: vec![] };
        assert_eq!(decode(stored).unwrap_err(), IdempotencyError::InvalidStatusCode);
    }
}

#[test]
fn capture_buffers_chunks_in_order() {
    let r = ResponseRecord::capture(
        200,
        vec![header("x", b"y")],
        vec![b"he".to_vec(), vec![], b"llo".to_vec()],
    );
    assert_eq!(r.status_code, 200);
    assert_eq!(r.body, b"hello".to_vec());
    assert_eq!(header_pairs(&r.headers), vec![("x".to_string(), b"y".to_vec())]);
    let copy = r.duplicate();
    assert_eq!(copy.body, b"hello".to_vec());
    assert_eq!(header_pairs(&copy.headers), header_pairs(&r.headers));
}

#[test]
fn error_messages() {
    assert_eq!(IdempotencyError::InvalidKey.message(), "invalid idempotency key");
    assert_eq!(IdempotencyError::InvalidStatusCode.message(), "invalid stored status code");
    assert_eq!(IdempotencyError::DuplicateKey.message(), "duplicate idempotency key");
    assert_eq!(IdempotencyError::UnexpectedError.message(), "unexpected storage error");
    assert_eq!(IdempotencyError::KeyInUse.message(), "idempotency key in use by an open transaction");
}
