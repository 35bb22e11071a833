use http_framed::message::{Header, Request, Version};
use http_framed::serve::{is_entry, parts_of_path, path_parts, same_bytes, same_name, wants_close};

fn request(headers: &[(&str, &str)]) -> Request {
    Request {
        method: b"GET".to_vec(),
        target: b"/".to_vec(),
        version: Version::Http11,
        headers: headers
            .iter()
            .map(|(n, v)| Header { name: n.as_bytes().to_vec(), value: v.as_bytes().to_vec() })
            .collect(),
    }
}

fn parts(target: &str) -> Vec<String> {
    path_parts(&target.as_bytes().to_vec())
        .into_iter()
        .map(|p| String::from_utf8(p).unwrap())
        .collect()
}

fn pieces(path: &str) -> Vec<String> {
    parts_of_path(&path.as_bytes().to_vec())
        .into_iter()
        .map(|p| String::from_utf8(p).unwrap())
        .collect()
}

#[test]
fn close_is_asked_for_by_connection_close() {
    assert!(wants_close(&request(&[("Host", "x"), ("Connection", "close")])));
    assert!(wants_close(&request(&[("connection", "close")])));
    assert!(wants_close(&request(&[("CONNECTION", "close")])));
}

#[test]
fn close_is_not_asked_for_otherwise() {
    assert!(!wants_close(&request(&[])));
    assert!(!wants_close(&request(&[("Host", "close")])));
    assert!(!wants_close(&request(&[("Connection", "keep-alive")])));
    assert!(!wants_close(&request(&[("Connection", "Close")])));
    assert!(!wants_close(&request(&[("Connection", "close ")])));
    assert!(!wants_close(&request(&[("Connection", "")])));
    assert!(!wants_close(&request(&[("Connectio", "close")])));
}

#[test]
fn first_connection_header_decides() {
    assert!(!wants_close(&request(&[("Connection", "keep-alive"), ("Connection", "close")])));
    assert!(wants_close(&request(&[("Connection", "close"), ("Connection", "keep-alive")])));
}

#[test]
fn names_compare_without_case_of_letters_only() {
    assert!(same_name(&b"Content-Type".to_vec(), &b"content-type".to_vec()));
    assert!(same_name(&b"".to_vec(), &b"".to_vec()));
    assert!(!same_name(&b"a".to_vec(), &b"ab".to_vec()));
    assert!(!same_name(&b"@".to_vec(), &b"`".to_vec()));
    assert!(!same_name(&b"[".to_vec(), &b"{".to_vec()));
    assert!(same_name(&b"AZ".to_vec(), &b"az".to_vec()));
    assert!(same_bytes(&b"close".to_vec(), &b"close".to_vec()));
    assert!(!same_bytes(&b"close".to_vec(), &b"closE".to_vec()));
    assert!(!same_bytes(&b"close".to_vec(), &b"clos".to_vec()));
}

#[test]
fn pieces_of_a_path_skip_empty_and_dot_pieces() {
    assert_eq!(pieces("/a/b/../c"), vec!["a", "b", "c"]);
    assert_eq!(pieces("/./a//b/"), vec!["a", "b"]);
    assert_eq!(pieces("/../../etc/passwd"), vec!["etc", "passwd"]);
    assert_eq!(pieces("/.../.a/a."), vec!["...", ".a", "a."]);
    assert_eq!(pieces("index.html"), vec!["index.html"]);
    assert_eq!(pieces("a?b/c#d"), vec!["a?b", "c#d"]);
}

#[test]
fn pieces_of_root_and_empty_path() {
    assert!(pieces("/").is_empty());
    assert!(pieces("").is_empty());
    assert!(pieces("//").is_empty());
    assert!(pieces("/.").is_empty());
    assert!(pieces("..").is_empty());
    assert!(pieces("./../.").is_empty());
}

#[test]
fn path_parts_of_origin_form() {
    assert_eq!(parts("/a/b/../c"), vec!["a", "b", "c"]);
    assert_eq!(parts("/hello/world"), vec!["hello", "world"]);
    assert_eq!(parts("/../../etc/passwd"), vec!["etc", "passwd"]);
    assert!(parts("/").is_empty());
}

#[test]
fn path_parts_leave_out_the_query() {
    assert_eq!(parts("/a/b?x=/c/d"), vec!["a", "b"]);
    assert_eq!(parts("/a/b/?"), vec!["a", "b"]);
    assert_eq!(parts("/a/..?y"), vec!["a"]);
}

#[test]
fn path_parts_of_absolute_form_leave_out_scheme_and_host() {
    assert_eq!(parts("http://example.org/hello/world"), vec!["hello", "world"]);
    assert_eq!(parts("http://h/p"), vec!["p"]);
    assert_eq!(parts("http://h/p/../q?r=/s"), vec!["p", "q"]);
}

#[test]
fn path_parts_of_authority_form_are_none() {
    assert!(parts("h:80").is_empty());
    assert!(parts("example.org:443").is_empty());
}

#[test]
fn path_parts_of_a_target_that_is_refused_are_none() {
    assert!(parts("").is_empty());
    assert!(parts("/a b").is_empty());
}

#[test]
fn entry_is_neither_empty_nor_dots() {
    assert!(!is_entry(&b"".to_vec()));
    assert!(!is_entry(&b".".to_vec()));
    assert!(!is_entry(&b"..".to_vec()));
    assert!(is_entry(&b"...".to_vec()));
    assert!(is_entry(&b"a".to_vec()));
    assert!(is_entry(&b".a".to_vec()));
    assert!(is_entry(&b"a.".to_vec()));
}
