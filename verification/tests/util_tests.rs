use codex_gateway::util::{
    append_slice, bytes_eq, eq_ignore_case, is_blank, to_lower, to_vec, trim, u64_dec, usize_dec,
};

#[test]
fn trimming_strips_ascii_whitespace_only() {
    assert_eq!(trim(b"  a b \t\r\n"), b"a b");
    assert_eq!(trim(b""), b"");
    assert_eq!(trim(b" \t "), b"");
    assert_eq!(trim(b"x"), b"x");
    assert!(is_blank(b"  \t\r\n"));
    assert!(!is_blank(b" . "));
}

#[test]
fn case_folding_is_ascii_only() {
    assert_eq!(to_lower(b"MiXeD-09"), b"mixed-09".to_vec());
    assert!(eq_ignore_case(b"PING", b"ping"));
    assert!(eq_ignore_case(b"Content-Length", b"content-length"));
    assert!(!eq_ignore_case(b"ping", b"pong"));
}

#[test]
fn byte_equality_and_copies() {
    assert!(bytes_eq(b"abc", b"abc"));
    assert!(!bytes_eq(b"abc", b"abd"));
    assert!(!bytes_eq(b"abc", b"ab"));
    assert_eq!(to_vec(b"xyz"), b"xyz".to_vec());
    let mut out = b"a".to_vec();
    append_slice(&mut out, b"bc");
    assert_eq!(out, b"abc".to_vec());
}

#[test]
fn decimal_rendering_matches() {
    assert_eq!(u64_dec(0), b"0".to_vec());
    assert_eq!(u64_dec(907), b"907".to_vec());
    assert_eq!(u64_dec(u64::MAX), b"18446744073709551615".to_vec());
    assert_eq!(usize_dec(524288), b"524288".to_vec());
}
