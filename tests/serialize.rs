use outfall::message::{ConnError, Header, Response};
use outfall::serialize::{has_header, serialize, serialize_with_reason};

fn header(name: &str, value: &str) -> Header {
    Header { name: name.as_bytes().to_vec(), value: value.as_bytes().to_vec() }
}

fn text(bytes: Vec<u8>) -> String {
    String::from_utf8(bytes).unwrap()
}

#[test]
fn default_length_is_body_length() {
    let resp = Response { status: 200, headers: Vec::new(), body: b"abc".to_vec() };
    let out = text(serialize(&resp).ok().unwrap());
    assert_eq!(out, "HTTP/1.1 200 OK\r\ncontent-length: 3\r\ncontent-type: text/plain\r\n\r\nabc");
}

#[test]
fn empty_body_has_zero_length() {
    let resp = Response { status: 204, headers: Vec::new(), body: Vec::new() };
    let out = text(serialize(&resp).ok().unwrap());
    assert_eq!(out, "HTTP/1.1 204 No Content\r\ncontent-length: 0\r\ncontent-type: text/plain\r\n\r\n");
}

#[test]
fn caller_length_is_kept() {
    let resp = Response { status: 200, headers: vec![header("Content-Length", "99")], body: b"abc".to_vec() };
    let out = text(serialize(&resp).ok().unwrap());
    assert_eq!(out, "HTTP/1.1 200 OK\r\nContent-Length: 99\r\ncontent-type: text/plain\r\n\r\nabc");
    assert_eq!(out.matches("ength: ").count(), 1);
}

#[test]
fn caller_type_is_kept() {
    let resp = Response {
        status: 404,
        headers: vec![header("x-a", "1"), header("content-type", "application/json"), header("x-a", "2")],
        body: b"{}".to_vec(),
    };
    let out = text(serialize(&resp).ok().unwrap());
    assert_eq!(
        out,
        "HTTP/1.1 404 Not Found\r\nx-a: 1\r\ncontent-type: application/json\r\nx-a: 2\r\ncontent-length: 2\r\n\r\n{}"
    );
}

#[test]
fn unregistered_code_has_placeholder_reason() {
    let resp = Response { status: 599, headers: Vec::new(), body: Vec::new() };
    let out = text(serialize(&resp).ok().unwrap());
    assert!(out.starts_with("HTTP/1.1 599 unknown status\r\n"));
}

#[test]
fn registered_reason_comes_from_the_code() {
    let resp = Response { status: 503, headers: Vec::new(), body: Vec::new() };
    let out = text(serialize(&resp).ok().unwrap());
    assert!(out.starts_with("HTTP/1.1 503 Service Unavailable\r\n"));
}

#[test]
fn explicit_reason() {
    let resp = Response { status: 1000, headers: Vec::new(), body: b"x".to_vec() };
    let out = text(serialize_with_reason(&resp, &Some(b"Odd".to_vec())).ok().unwrap());
    assert_eq!(out, "HTTP/1.1 1000 Odd\r\ncontent-length: 1\r\ncontent-type: text/plain\r\n\r\nx");
    let out = text(serialize_with_reason(&resp, &None).ok().unwrap());
    assert!(out.starts_with("HTTP/1.1 1000 unknown status\r\n"));
}

#[test]
fn unprintable_value_is_refused() {
    let resp = Response { status: 200, headers: vec![Header { name: b"x".to_vec(), value: vec![0xff] }], body: Vec::new() };
    assert_eq!(serialize(&resp).err(), Some(ConnError::MalformedResponse));
}

#[test]
fn invalid_name_is_refused() {
    let resp = Response { status: 200, headers: vec![header("bad:name", "v")], body: Vec::new() };
    assert_eq!(serialize(&resp).err(), Some(ConnError::MalformedResponse));
    let resp = Response { status: 200, headers: vec![header("", "v")], body: Vec::new() };
    assert_eq!(serialize(&resp).err(), Some(ConnError::MalformedResponse));
}

#[test]
fn tab_in_value_is_accepted() {
    let resp = Response { status: 200, headers: vec![header("x", "a\tb")], body: Vec::new() };
    let out = text(serialize(&resp).ok().unwrap());
    assert!(out.contains("x: a\tb\r\n"));
}

#[test]
fn header_lookup_ignores_case() {
    let hs = vec![header("Content-TYPE", "a")];
    assert!(has_header(&hs, b"content-type"));
    assert!(!has_header(&hs, b"content-length"));
}

#[test]
fn serialized_head_parses_back() {
    let resp = Response {
        status: 201,
        headers: vec![header("x-one", "1"), header("Location", "/items/7")],
        body: b"created".to_vec(),
    };
    let wire = serialize(&resp).ok().unwrap();
    let mut slots = [httparse::EMPTY_HEADER; 8];
    let mut parsed = httparse::Response::new(&mut slots);
    let status = parsed.parse(&wire).unwrap();
    assert!(status.is_complete());
    assert_eq!(parsed.version, Some(1));
    assert_eq!(parsed.code, Some(201));
    assert_eq!(parsed.reason, Some("Created"));
    let got: Vec<(String, Vec<u8>)> =
        parsed.headers.iter().map(|h| (h.name.to_string(), h.value.to_vec())).collect();
    assert_eq!(
        got,
        vec![
            ("x-one".to_string(), b"1".to_vec()),
            ("Location".to_string(), b"/items/7".to_vec()),
            ("content-length".to_string(), b"7".to_vec()),
            ("content-type".to_string(), b"text/plain".to_vec()),
        ]
    );
    assert_eq!(&wire[status.unwrap()..], b"created");
}
