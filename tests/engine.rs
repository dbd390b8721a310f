use outfall::assemble::{assemble, decide, ReadOutcome};
use outfall::engine::{Action, Engine, Phase};
use outfall::head::{HeadParse, ParsedHead};
use outfall::message::{ConnError, Header, Request, Response};

fn hello_response() -> Response {
    Response { status: 200, headers: Vec::new(), body: b"Hello World!".to_vec() }
}

fn expect_request(action: Action) -> Request {
    match action {
        Action::Dispatch(req) => req,
        _ => panic!("expected a request to dispatch"),
    }
}

#[test]
fn hello_world_exchange() {
    let mut engine = Engine::new();
    let req = expect_request(engine.on_bytes(b"GET /hello HTTP/1.1\r\nHost: x\r\n\r\n"));
    assert_eq!(req.method, "GET");
    assert_eq!(req.path, "/hello");
    assert_eq!(req.headers.len(), 1);
    assert_eq!(req.headers[0].name, b"Host".to_vec());
    assert_eq!(req.headers[0].value, b"x".to_vec());
    assert!(req.body.is_empty());
    assert_eq!(engine.phase(), Phase::Dispatching);
    match engine.on_handler(Some(hello_response())) {
        Action::Write(bytes) => assert_eq!(
            bytes,
            b"HTTP/1.1 200 OK\r\ncontent-length: 12\r\ncontent-type: text/plain\r\n\r\nHello World!".to_vec()
        ),
        _ => panic!("expected bytes to write"),
    }
    assert_eq!(engine.phase(), Phase::Writing);
    assert!(matches!(engine.on_written(true), Action::ReadMore));
    assert_eq!(engine.phase(), Phase::Reading);
    assert!(engine.buffer().is_empty());
}

#[test]
fn peer_close_without_bytes() {
    let mut engine = Engine::new();
    assert!(matches!(engine.on_bytes(b""), Action::Close(ConnError::ConnectionClosed)));
    assert_eq!(engine.phase(), Phase::Closed);
}

#[test]
fn peer_close_mid_request() {
    let mut engine = Engine::new();
    assert!(matches!(engine.on_bytes(b"GET / HT"), Action::ReadMore));
    assert!(matches!(engine.on_bytes(b""), Action::Close(ConnError::ConnectionClosed)));
}

#[test]
fn missing_path_is_malformed() {
    let mut engine = Engine::new();
    match engine.on_bytes(b"GET  HTTP/1.1\r\n\r\n") {
        Action::Close(ConnError::MalformedRequest(text)) => assert!(!text.is_empty()),
        _ => panic!("expected the connection to close"),
    }
    assert_eq!(engine.phase(), Phase::Closed);
}

#[test]
fn handler_failure_closes_connection() {
    let mut engine = Engine::new();
    expect_request(engine.on_bytes(b"GET / HTTP/1.1\r\n\r\n"));
    assert!(matches!(engine.on_handler(None), Action::Close(ConnError::HandlerFailed)));
    assert_eq!(engine.phase(), Phase::Closed);
}

#[test]
fn write_failure_closes_connection() {
    let mut engine = Engine::new();
    expect_request(engine.on_bytes(b"GET / HTTP/1.1\r\n\r\n"));
    assert!(matches!(engine.on_handler(Some(hello_response())), Action::Write(_)));
    assert!(matches!(engine.on_written(false), Action::Close(ConnError::WriteFailed)));
    assert_eq!(engine.phase(), Phase::Closed);
}

#[test]
fn unwritable_response_closes_connection() {
    let mut engine = Engine::new();
    expect_request(engine.on_bytes(b"GET / HTTP/1.1\r\n\r\n"));
    let resp = Response {
        status: 200,
        headers: vec![Header { name: b"x-bad".to_vec(), value: b"a\nb".to_vec() }],
        body: Vec::new(),
    };
    assert!(matches!(engine.on_handler(Some(resp)), Action::Close(ConnError::MalformedResponse)));
}

#[test]
fn split_reads_give_the_same_request() {
    let whole = b"GET /hello HTTP/1.1\r\nHost: x\r\n\r\n";
    let mut one = Engine::new();
    let expected = expect_request(one.on_bytes(whole));
    for split in [1usize, 5, 17, 20, 30] {
        let mut engine = Engine::new();
        assert!(matches!(engine.on_bytes(&whole[..split]), Action::ReadMore));
        let got = expect_request(engine.on_bytes(&whole[split..]));
        assert_eq!(got.method, expected.method);
        assert_eq!(got.path, expected.path);
        assert_eq!(got.headers, expected.headers);
        assert_eq!(got.body, expected.body);
    }
    let mut bytewise = Engine::new();
    for i in 0..whole.len() - 1 {
        assert!(matches!(bytewise.on_bytes(&whole[i..i + 1]), Action::ReadMore));
    }
    let got = expect_request(bytewise.on_bytes(&whole[whole.len() - 1..]));
    assert_eq!(got.path, expected.path);
    assert_eq!(got.headers, expected.headers);
}

#[test]
fn trailing_bytes_become_the_body() {
    let mut engine = Engine::new();
    let req = expect_request(engine.on_bytes(b"POST /submit HTTP/1.1\r\nContent-Length: 3\r\n\r\nabcdef"));
    assert_eq!(req.method, "POST");
    assert_eq!(req.body, b"abcdef".to_vec());
}

#[test]
fn header_names_kept_as_received() {
    let mut engine = Engine::new();
    let req = expect_request(engine.on_bytes(b"GET / HTTP/1.1\r\nX-Thing: 1\r\nx-thing: 2\r\n\r\n"));
    assert_eq!(req.headers.len(), 2);
    assert_eq!(req.headers[0].name, b"X-Thing".to_vec());
    assert_eq!(req.headers[1].name, b"x-thing".to_vec());
    assert_eq!(req.headers[1].value, b"2".to_vec());
}

#[test]
fn second_request_after_response() {
    let mut engine = Engine::new();
    expect_request(engine.on_bytes(b"GET /a HTTP/1.1\r\n\r\n"));
    assert!(matches!(engine.on_handler(Some(hello_response())), Action::Write(_)));
    assert!(matches!(engine.on_written(true), Action::ReadMore));
    let req = expect_request(engine.on_bytes(b"GET /b HTTP/1.1\r\n\r\n"));
    assert_eq!(req.path, "/b");
}

#[test]
fn too_many_headers_is_malformed() {
    let mut raw = b"GET / HTTP/1.1\r\n".to_vec();
    for i in 0..17 {
        raw.extend_from_slice(format!("h{}: v\r\n", i).as_bytes());
    }
    raw.extend_from_slice(b"\r\n");
    let mut engine = Engine::new();
    assert!(matches!(engine.on_bytes(&raw), Action::Close(ConnError::MalformedRequest(_))));
}

fn head(method: Option<&str>, path: Option<&str>, headers: Vec<Header>, offset: usize) -> ParsedHead {
    ParsedHead {
        offset,
        method: method.map(|m| m.to_string()),
        path: path.map(|p| p.to_string()),
        headers,
    }
}

#[test]
fn assemble_without_method() {
    let r = assemble(head(None, Some("/"), Vec::new(), 0), b"");
    assert_eq!(r.err(), Some(ConnError::MalformedRequest("request has no method".to_string())));
}

#[test]
fn assemble_without_path() {
    let r = assemble(head(Some("GET"), None, Vec::new(), 0), b"");
    assert_eq!(r.err(), Some(ConnError::MalformedRequest("request has no path".to_string())));
}

#[test]
fn assemble_invalid_header_name() {
    let hs = vec![Header { name: b"bad name".to_vec(), value: b"v".to_vec() }];
    let r = assemble(head(Some("GET"), Some("/"), hs, 0), b"");
    assert_eq!(r.err(), Some(ConnError::MalformedRequest("request has an invalid header".to_string())));
}

#[test]
fn assemble_invalid_header_value() {
    let hs = vec![Header { name: b"ok".to_vec(), value: vec![b'a', 1u8] }];
    let r = assemble(head(Some("GET"), Some("/"), hs, 0), b"");
    assert!(matches!(r, Err(ConnError::MalformedRequest(_))));
}

#[test]
fn assemble_takes_body_after_offset() {
    let hs = vec![Header { name: b"Accept".to_vec(), value: b"*/*".to_vec() }];
    let req = assemble(head(Some("PUT"), Some("/x"), hs, 3), b"abcdef").ok().unwrap();
    assert_eq!(req.method, "PUT");
    assert_eq!(req.path, "/x");
    assert_eq!(req.body, b"def".to_vec());
    assert_eq!(req.headers[0].value, b"*/*".to_vec());
}

#[test]
fn decide_on_each_report() {
    assert!(matches!(decide(HeadParse::Incomplete, b"GET"), ReadOutcome::NeedMore));
    match decide(HeadParse::Malformed("invalid token".to_string()), b"@@") {
        ReadOutcome::Failed(ConnError::MalformedRequest(t)) => assert_eq!(t, "invalid token"),
        _ => panic!("expected a failure"),
    }
    match decide(HeadParse::Complete(head(Some("GET"), Some("/"), Vec::new(), 2)), b"xxyz") {
        ReadOutcome::Ready(req) => assert_eq!(req.body, b"yz".to_vec()),
        _ => panic!("expected a request"),
    }
}
