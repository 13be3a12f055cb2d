use codex_gateway::json::{parse_json, to_bytes, Json};

fn roundtrip(text: &[u8]) -> Vec<u8> {
    to_bytes(&parse_json(text).expect("value must parse"))
}

#[test]
fn scalars_parse_and_print() {
    assert_eq!(roundtrip(b"null"), b"null".to_vec());
    assert_eq!(roundtrip(b"true"), b"true".to_vec());
    assert_eq!(roundtrip(b"false"), b"false".to_vec());
    assert_eq!(roundtrip(b"0"), b"0".to_vec());
    assert_eq!(roundtrip(b"-12.5e3"), b"-12.5e3".to_vec());
    assert_eq!(roundtrip(b"\"hi\""), b"\"hi\"".to_vec());
}

#[test]
fn containers_keep_their_order() {
    assert_eq!(roundtrip(b"[]"), b"[]".to_vec());
    assert_eq!(roundtrip(b"{}"), b"{}".to_vec());
    assert_eq!(
        roundtrip(b" { \"b\" : [ 1 , 2 ] , \"a\" : null } "),
        b"{\"b\":[1,2],\"a\":null}".to_vec()
    );
    assert_eq!(roundtrip(b"[[[1]]]"), b"[[[1]]]".to_vec());
}

#[test]
fn string_escapes_decode_and_reencode() {
    assert_eq!(roundtrip(b"\"a\\nb\""), b"\"a\\nb\"".to_vec());
    assert_eq!(roundtrip(b"\"q\\\"q\""), b"\"q\\\"q\"".to_vec());
    assert_eq!(roundtrip(b"\"s\\\\s\""), b"\"s\\\\s\"".to_vec());
    // a solidus escape decodes to a plain byte and is written back bare
    assert_eq!(roundtrip(b"\"a\\/b\""), b"\"a/b\"".to_vec());
    // an ASCII unicode escape decodes to its byte
    assert_eq!(roundtrip(b"\"\\u0041\""), b"\"A\"".to_vec());
    // a control byte is re-escaped in the unicode form
    assert_eq!(roundtrip(b"\"\\u0001\""), b"\"\\u0001\"".to_vec());
}

#[test]
fn malformed_documents_are_refused() {
    assert_eq!(parse_json(b"").map(|_| ()), None);
    assert_eq!(parse_json(b"   ").map(|_| ()), None);
    assert_eq!(parse_json(b"nul").map(|_| ()), None);
    assert_eq!(parse_json(b"01").map(|_| ()), None);
    assert_eq!(parse_json(b"1 2").map(|_| ()), None);
    assert_eq!(parse_json(b"{\"a\":}").map(|_| ()), None);
    assert_eq!(parse_json(b"[1,]").map(|_| ()), None);
    assert_eq!(parse_json(b"\"open").map(|_| ()), None);
    assert_eq!(parse_json(b"{\"a\" 1}").map(|_| ()), None);
    // a non-ASCII unicode escape is outside the supported subset
    assert_eq!(parse_json(b"\"\\u00e9\"").map(|_| ()), None);
}

#[test]
fn deep_nesting_is_bounded() {
    let mut deep: Vec<u8> = Vec::new();
    for _ in 0..200 {
        deep.push(b'[');
    }
    deep.push(b'1');
    for _ in 0..200 {
        deep.push(b']');
    }
    assert!(parse_json(&deep).is_none());

    let mut shallow: Vec<u8> = Vec::new();
    for _ in 0..50 {
        shallow.push(b'[');
    }
    shallow.push(b'1');
    for _ in 0..50 {
        shallow.push(b']');
    }
    assert!(parse_json(&shallow).is_some());
}

#[test]
fn field_lookup_takes_the_last_duplicate() {
    let v = parse_json(b"{\"a\":1,\"a\":2}").unwrap();
    let picked = v.get(b"a").unwrap();
    assert_eq!(to_bytes(picked), b"2".to_vec());
    assert!(v.get(b"b").is_none());
    assert!(Json::Null.get(b"a").is_none());
}

#[test]
fn number_accessor_reads_plain_integers_only() {
    assert_eq!(parse_json(b"42").unwrap().as_u64(), Some(42));
    assert_eq!(parse_json(b"-1").unwrap().as_u64(), None);
    assert_eq!(parse_json(b"1.5").unwrap().as_u64(), None);
    assert_eq!(parse_json(b"1e2").unwrap().as_u64(), None);
    assert_eq!(parse_json(b"\"42\"").unwrap().as_u64(), None);
    assert_eq!(
        parse_json(b"18446744073709551615").unwrap().as_u64(),
        Some(u64::MAX)
    );
    assert_eq!(parse_json(b"18446744073709551616").unwrap().as_u64(), None);
}

#[test]
fn serializer_escapes_what_it_must() {
    let v = Json::Text(b"a\"b\\c\nd\x01".to_vec());
    assert_eq!(to_bytes(&v), b"\"a\\\"b\\\\c\\nd\\u0001\"".to_vec());
}
