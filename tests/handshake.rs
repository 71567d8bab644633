use websocket::client::{ClientBuilder, Endpoint};
use websocket::extensions::{CustomExtension, DeflateConfig, Extension, Parameter, WebSocketExtensions};
use websocket::handshake::{
    bad_request, check_response, parse_request, parse_response, read_response, validate_request, IsWsUpgrade, Request,
    RequestOpts, Response, WsHandshakeSucceeded,
};
use websocket::headers::{accept_key, key_is_valid, Header, Serialize, WebSocketKey};
use websocket::result::{WSUrlErrorKind, WebSocketError};
use websocket::server::Connection;
use websocket::session::SessionState;

const REQUEST: &str = "GET /chat HTTP/1.1\r\nHost: server.example.com\r\nUpgrade: websocket\r\nConnection: keep-alive, Upgrade\r\nSec-WebSocket-Key: dGhlIHNhbXBsZSBub25jZQ==\r\nSec-WebSocket-Protocol: chat, superchat\r\nSec-WebSocket-Version: 13\r\n\r\n";

#[test]
fn handshake_accept_of_the_sample_key() {
    let mut conn = Connection::new();
    conn.push_bytes(REQUEST.as_bytes());
    conn.push_bytes(&[0x81, 0x00]);
    let resp = conn.read_request(&vec![], &vec![]).unwrap();
    assert_eq!(resp.accept.0, "s3pPLMBiTxaQ9kYGzzhZRbK+xOo=");
    let text = String::from_utf8(resp.to_bytes()).unwrap();
    assert!(text.starts_with("HTTP/1.1 101 Switching Protocols\r\n"));
    assert!(text.contains("Sec-WebSocket-Accept: s3pPLMBiTxaQ9kYGzzhZRbK+xOo=\r\n"));
    assert!(text.ends_with("\r\n\r\n"));
    assert_eq!(conn.into_remaining(), vec![0x81, 0x00]);
}

#[test]
fn accept_key_matches_the_transform() {
    assert_eq!(accept_key(b"dGhlIHNhbXBsZSBub25jZQ=="), "s3pPLMBiTxaQ9kYGzzhZRbK+xOo=");
    assert_ne!(accept_key(b"x3JJHMbDL1EzLkh9GBhXDw=="), "s3pPLMBiTxaQ9kYGzzhZRbK+xOo=");
}

#[test]
fn keys_are_checked_for_sixteen_bytes() {
    assert!(key_is_valid(b"dGhlIHNhbXBsZSBub25jZQ=="));
    assert!(!key_is_valid(b"c2hvcnQ="));
    assert!(!key_is_valid(b"!!!!"));
    let key = WebSocketKey::from_bytes([0; 16]);
    assert_eq!(key.0, "AAAAAAAAAAAAAAAAAAAAAA==");
    assert!(key_is_valid(WebSocketKey::new().0.as_bytes()));
}

#[test]
fn server_picks_the_first_offered_supported_protocol() {
    let mut conn = Connection::new();
    conn.push_bytes(REQUEST.as_bytes());
    let resp = conn.read_request(&vec!["superchat".to_string(), "chat".to_string()], &vec![]).unwrap();
    assert_eq!(resp.protocol.unwrap().0, vec!["chat".to_string()]);
}

#[test]
fn incomplete_request_asks_for_more() {
    let mut conn = Connection::new();
    conn.push_bytes(&REQUEST.as_bytes()[..40]);
    assert!(matches!(conn.read_request(&vec![], &vec![]), Err(WebSocketError::NoDataAvailable)));
}

#[test]
fn invalid_requests_are_refused() {
    let bad = REQUEST.replace("GET", "POST");
    let (head, _) = parse_request(bad.as_bytes()).unwrap();
    assert!(matches!(validate_request(&head), Err(WebSocketError::RequestError(_))));
    assert!(!head.is_ws_upgrade());
    let bad = REQUEST.replace("Version: 13", "Version: 8");
    let (head, _) = parse_request(bad.as_bytes()).unwrap();
    assert!(matches!(validate_request(&head), Err(WebSocketError::RequestError(_))));
    let bad = REQUEST.replace("dGhlIHNhbXBsZSBub25jZQ==", "c2hvcnQ=");
    let (head, _) = parse_request(bad.as_bytes()).unwrap();
    assert!(matches!(validate_request(&head), Err(WebSocketError::RequestError(_))));
    let (head, n) = parse_request(REQUEST.as_bytes()).unwrap();
    assert_eq!(n, REQUEST.len());
    assert!(head.is_ws_upgrade());
    assert_eq!(String::from_utf8(bad_request()).unwrap(), "HTTP/1.1 400 Bad Request\r\n\r\n");
    assert!(matches!(parse_request(b"GARBAGE\r\n\r\n"), Err(WebSocketError::HttpError(_))));
}

fn sample_request() -> Request {
    let key = WebSocketKey("dGhlIHNhbXBsZSBub25jZQ==".to_string());
    let opts = RequestOpts { resource: Some("/chat".to_string()), protocols: Some(vec!["chat".to_string()]) };
    Request::with_key("server.example.com".to_string(), opts, key)
}

#[test]
fn request_bytes() {
    let mut req = sample_request();
    req.with_origin("http://example.com".to_string());
    let text = String::from_utf8(req.to_bytes()).unwrap();
    assert_eq!(
        text,
        "GET /chat HTTP/1.1\r\nHost: server.example.com\r\nUpgrade: websocket\r\nConnection: Upgrade\r\nSec-WebSocket-Key: dGhlIHNhbXBsZSBub25jZQ==\r\nSec-WebSocket-Version: 13\r\nSec-WebSocket-Protocol: chat\r\nOrigin: http://example.com\r\n\r\n"
    );
}

#[test]
fn client_checks_the_response() {
    let req = sample_request();
    let ok = "HTTP/1.1 101 Switching Protocols\r\nUpgrade: WebSocket\r\nConnection: Upgrade\r\nSec-WebSocket-Accept: s3pPLMBiTxaQ9kYGzzhZRbK+xOo=\r\nSec-WebSocket-Protocol: chat\r\n\r\n";
    let mut bytes = ok.as_bytes().to_vec();
    bytes.extend_from_slice(&[0x81, 0x00]);
    assert_eq!(read_response(&bytes, &req).unwrap(), ok.len());
    let (head, _) = parse_response(ok.as_bytes()).unwrap();
    assert_eq!(head.status, 101);
    assert_eq!(head.handshake_succeeded(), Ok(true));

    let wrong_accept = ok.replace("s3pPLMBiTxaQ9kYGzzhZRbK+xOo=", "AAAA");
    assert!(matches!(read_response(wrong_accept.as_bytes(), &req), Err(WebSocketError::ResponseError(_))));
    let wrong_status = ok.replace("101 Switching Protocols", "200 OK");
    assert!(matches!(read_response(wrong_status.as_bytes(), &req), Err(WebSocketError::ResponseError(_))));
    let (head, _) = parse_response(wrong_status.as_bytes()).unwrap();
    assert_eq!(head.handshake_succeeded(), Ok(false));
    let other_protocol = ok.replace("Protocol: chat", "Protocol: other");
    assert!(matches!(read_response(other_protocol.as_bytes(), &req), Err(WebSocketError::ResponseError(_))));
    let extension = ok.replace("\r\n\r\n", "\r\nSec-WebSocket-Extensions: foo\r\n\r\n");
    assert!(matches!(read_response(extension.as_bytes(), &req), Err(WebSocketError::ResponseError(_))));
    assert!(matches!(read_response(&ok.as_bytes()[..20], &req), Err(WebSocketError::NoDataAvailable)));
}

#[test]
fn response_with_protocol() {
    let resp = Response::accept_protocols(b"dGhlIHNhbXBsZSBub25jZQ==", vec!["chat".to_string()]);
    let text = String::from_utf8(resp.to_bytes()).unwrap();
    assert!(text.contains("Sec-WebSocket-Protocol: chat\r\n"));
}

#[test]
fn test_header_extensions() {
    let value = b"foo, bar; baz; qux=quux".to_vec();
    let extensions = WebSocketExtensions::parse(&value).unwrap();
    let mut out = Vec::new();
    extensions.serialize(&mut out);
    assert_eq!(String::from_utf8(out).unwrap(), "Sec-WebSocket-Extensions: foo, bar; baz; qux=quux\r\n");
}

#[test]
fn extensions_parse_into_parts() {
    let parsed = WebSocketExtensions::parse(b"foo, bar; baz; qux=quux").unwrap();
    let mut bar = CustomExtension::new("bar".to_string());
    bar.params.push(Parameter::new("baz".to_string(), None));
    bar.params.push(Parameter::new("qux".to_string(), Some("quux".to_string())));
    assert_eq!(
        parsed,
        WebSocketExtensions(vec![Extension::Custom(CustomExtension::new("foo".to_string())), Extension::Custom(bar)])
    );
    assert_eq!(WebSocketExtensions::field(), "Sec-WebSocket-Extensions");
}

#[test]
fn deflate_parameters() {
    let parsed = WebSocketExtensions::parse(
        b"permessage-deflate; client_no_context_takeover; server_max_window_bits=10; client_max_window_bits",
    )
    .unwrap();
    let expected = DeflateConfig {
        server_no_context_takeover: None,
        client_no_context_takeover: Some(()),
        server_max_window_bits: Some(10),
        client_max_window_bits: Some(15),
    };
    assert_eq!(parsed.0, vec![Extension::Deflate(expected)]);
    assert_eq!(
        String::from_utf8(parsed.0[0].to_bytes()).unwrap(),
        "permessage-deflate; client_no_context_takeover; server_max_window_bits=10; client_max_window_bits=15"
    );
    assert_eq!(Extension::deflate(), Extension::Deflate(DeflateConfig::default()));
    assert!(matches!(
        WebSocketExtensions::parse(b"permessage-deflate; server_max_window_bits=16"),
        Err(WebSocketError::ProtocolError(_))
    ));
    assert!(matches!(
        WebSocketExtensions::parse(b"permessage-deflate; bogus"),
        Err(WebSocketError::ProtocolError(_))
    ));
    assert!(matches!(WebSocketExtensions::parse(b"; x=1"), Err(WebSocketError::ProtocolError(_))));
}

#[test]
fn endpoints_and_builder() {
    assert!(matches!(
        Endpoint::new("http", "a".to_string(), None, "/".to_string()),
        Err(WebSocketError::WebSocketUrlError(WSUrlErrorKind::InvalidScheme))
    ));
    assert!(matches!(
        Endpoint::new("ws", String::new(), None, "/".to_string()),
        Err(WebSocketError::WebSocketUrlError(WSUrlErrorKind::NoHostName))
    ));
    let e = Endpoint::new("wss", "example.com".to_string(), None, "/x".to_string()).unwrap();
    assert_eq!(e.port, 443);
    assert!(e.secure);
    assert_eq!(e.host_header(), "example.com");
    let e = Endpoint::new("ws", "example.com".to_string(), None, "/".to_string()).unwrap();
    assert_eq!(e.port, 80);
    let e = Endpoint::new("ws", "example.com".to_string(), Some(8080), "/y".to_string()).unwrap();
    assert_eq!(e.host_header(), "example.com:8080");
    let key = WebSocketKey("dGhlIHNhbXBsZSBub25jZQ==".to_string());
    let (req, endpoint, tls) = ClientBuilder::new(e).protocols(vec!["chat".to_string()]).request_with_key(key);
    assert_eq!(endpoint.port, 8080);
    assert!(tls.is_none());
    let text = String::from_utf8(req.to_bytes()).unwrap();
    assert!(text.starts_with("GET /y HTTP/1.1\r\nHost: example.com:8080\r\n"));
    assert!(text.contains("Sec-WebSocket-Protocol: chat\r\n"));
}

#[test]
fn session_states() {
    let s = SessionState::Open.after_close_sent();
    assert_eq!(s, SessionState::ClosingLocal);
    assert!(!s.may_send_close());
    assert_eq!(s.after_close_received(), SessionState::Closed);
    let s = SessionState::Open.after_close_received();
    assert_eq!(s, SessionState::ClosingPeer);
    assert!(s.may_send_close());
    assert_eq!(s.after_close_sent(), SessionState::Closed);
    assert_eq!(SessionState::Open.after_fatal_error(), SessionState::Closed);
}

#[test]
fn server_accepts_supported_extensions() {
    let request = REQUEST.replace(
        "\r\n\r\n",
        "\r\nSec-WebSocket-Extensions: permessage-deflate; client_max_window_bits, foo; a=1\r\n\r\n",
    );
    let mut conn = Connection::new();
    conn.push_bytes(request.as_bytes());
    let resp = conn.read_request(&vec![], &vec![b"foo".to_vec()]).unwrap();
    let text = String::from_utf8(resp.to_bytes()).unwrap();
    assert!(text.contains("Sec-WebSocket-Extensions: foo; a=1\r\n"));
    assert!(!text.contains("permessage-deflate"));

    let mut conn = Connection::new();
    conn.push_bytes(request.as_bytes());
    let resp = conn.read_request(&vec![], &vec![]).unwrap();
    assert!(resp.extensions.is_none());

    let bad = REQUEST.replace("\r\n\r\n", "\r\nSec-WebSocket-Extensions: ; x\r\n\r\n");
    let mut conn = Connection::new();
    conn.push_bytes(bad.as_bytes());
    assert!(matches!(conn.read_request(&vec![], &vec![]), Err(WebSocketError::RequestError(_))));
}

#[test]
fn check_response_compares_the_accept_value() {
    let ok = "HTTP/1.1 101 Switching Protocols\r\nUpgrade: websocket\r\nConnection: upgrade\r\nSec-WebSocket-Accept: abc=\r\n\r\n";
    let (head, _) = parse_response(ok.as_bytes()).unwrap();
    assert!(check_response(&head, b"abc=", &vec![], &vec![]).is_ok());
    assert!(matches!(check_response(&head, b"abd=", &vec![], &vec![]), Err(WebSocketError::ResponseError(_))));
    let no_upgrade = ok.replace("Upgrade: websocket", "Upgrade: h2c");
    let (head, _) = parse_response(no_upgrade.as_bytes()).unwrap();
    assert!(matches!(check_response(&head, b"abc=", &vec![], &vec![]), Err(WebSocketError::ResponseError(_))));
    assert_eq!(head.handshake_succeeded(), Err(()));
}
