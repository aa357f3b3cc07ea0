use silex_ingress::text::{append_bytes, append_decimal, ascii_literal, find_blank_line, starts_with};

#[test]
fn decimal_numerals() {
    for n in [0u64, 7, 10, 99, 100, 4096, 1234567890, u64::MAX] {
        let mut out = b"n=".to_vec();
        append_decimal(&mut out, n);
        assert_eq!(out, format!("n={}", n).into_bytes());
    }
}

#[test]
fn literal_bytes_and_appending() {
    let mut v = ascii_literal("GET ");
    append_bytes(&mut v, b"/x");
    assert_eq!(v, b"GET /x".to_vec());
}

#[test]
fn prefixes() {
    assert!(starts_with(b"POST /tls HTTP/1.1", b"POST /tls"));
    assert!(starts_with(b"POST /tlsx", b"POST /tls"));
    assert!(!starts_with(b"POST /tl", b"POST /tls"));
    assert!(starts_with(b"", b""));
}

#[test]
fn first_blank_line() {
    assert_eq!(find_blank_line(b"a\r\n\r\nb\r\n\r\n"), Some(1));
    assert_eq!(find_blank_line(b"\r\n\r"), None);
    assert_eq!(find_blank_line(b"\r\n\r\n"), Some(0));
    assert_eq!(find_blank_line(b"\n\r\n\r\n"), Some(1));
}
