use http_framed::codec::MAX_HEADERS;
use http_framed::message::{Header, Response};
use http_framed::wire::{is_printable, push_all, push_decimal, push_header, push_headers, render_response};

fn digits(n: usize) -> Vec<u8> {
    let mut out = Vec::new();
    push_decimal(&mut out, n);
    out
}

#[test]
fn decimal_of_small_and_large_numbers() {
    assert_eq!(digits(0), b"0".to_vec());
    assert_eq!(digits(9), b"9".to_vec());
    assert_eq!(digits(10), b"10".to_vec());
    assert_eq!(digits(404), b"404".to_vec());
    assert_eq!(digits(65535), b"65535".to_vec());
    assert_eq!(digits(1000000007), b"1000000007".to_vec());
    assert_eq!(digits(usize::MAX), usize::MAX.to_string().into_bytes());
}

#[test]
fn decimal_is_appended_after_what_is_there() {
    let mut out = b"n=".to_vec();
    push_decimal(&mut out, 120);
    assert_eq!(out, b"n=120".to_vec());
}

#[test]
fn push_all_appends_in_order() {
    let mut out = b"ab".to_vec();
    push_all(&mut out, &b"cde".to_vec());
    push_all(&mut out, &Vec::new());
    assert_eq!(out, b"abcde".to_vec());
}

#[test]
fn printable_bytes_are_visible_ascii_space_and_tab() {
    assert!(is_printable(&Vec::new()));
    assert!(is_printable(&b" ~\tazAZ09".to_vec()));
    assert!(!is_printable(&vec![31]));
    assert!(!is_printable(&vec![127]));
    assert!(!is_printable(&vec![b'a', 10]));
    assert!(!is_printable(&vec![b'a', 200, b'b']));
    assert!(is_printable(&vec![32]));
    assert!(is_printable(&vec![126]));
    assert!(is_printable(&vec![9]));
}

#[test]
fn header_line_has_name_colon_space_value_and_line_end() {
    let mut out = Vec::new();
    push_header(&mut out, &Header { name: b"Content-Type".to_vec(), value: b"text/html".to_vec() });
    assert_eq!(out, b"Content-Type: text/html\r\n".to_vec());
    push_header(&mut out, &Header { name: b"X".to_vec(), value: vec![0] });
    assert_eq!(out, b"Content-Type: text/html\r\nX: \r\n".to_vec());
}

#[test]
fn header_lines_keep_their_order() {
    let headers = vec![
        Header { name: b"b".to_vec(), value: b"1".to_vec() },
        Header { name: b"a".to_vec(), value: b"2".to_vec() },
        Header { name: b"b".to_vec(), value: b"3".to_vec() },
    ];
    let mut out = b">".to_vec();
    push_headers(&mut out, &headers);
    assert_eq!(out, b">b: 1\r\na: 2\r\nb: 3\r\n".to_vec());
    let mut none = Vec::new();
    push_headers(&mut none, &Vec::new());
    assert!(none.is_empty());
}

#[test]
fn rendered_response_is_exact() {
    let resp = Response::new(404, b"gone!".to_vec()).header(b"x".to_vec(), b"y".to_vec());
    let out = render_response(&resp, &b"Not Found".to_vec(), &b"Thu, 01 Jan 1970 00:00:00 GMT".to_vec());
    let want = "HTTP/1.1 404 Not Found\r\nServer: dirtio-http\r\n\
                Date: Thu, 01 Jan 1970 00:00:00 GMT\r\nContent-Length: 5\r\nx: y\r\n\r\ngone!";
    assert_eq!(out, want.as_bytes().to_vec());
}

#[test]
fn header_limit_is_sixty_four() {
    assert_eq!(MAX_HEADERS, 64);
}
