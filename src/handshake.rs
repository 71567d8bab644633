//! The opening handshake: parsing and validating the HTTP/1.1 request and
//! response heads.

use vstd::prelude::*;
use vstd::slice::slice_to_vec;
use vstd::utf8::encode_utf8;
use crate::headers::{
    accept_key, key_is_valid, spec_accept, spec_key_valid, Connection, Host, Origin, Serialize,
    Upgrade, WebSocketAccept, WebSocketKey, WebSocketProtocol, WebSocketVersion,
};
use crate::headers::strings_bytes;
use crate::http::{append_bytes, contains_name, names_contain};
use crate::util::bytes_to_string;
use vstd::utf8::{encode_utf8_decode_utf8, encode_utf8_valid_utf8};
use crate::http::{
    all_names_in, all_names_in_from, bytes_eq, bytes_eq_ignore_case, eq_ignore_case, field_value,
    fields_view, find_byte, find_field, first_name_in, first_name_in_from, has_token, head_lines,
    names_view, next_byte, parse_fields, split_head, spec_parse_fields, value_has_token, HeaderField,
};
use crate::extensions::{
    clone_extension, extension_name, extension_names, extensions_view, names_of, spec_parse_extensions, Extension,
    ExtensionView, WebSocketExtensions,
};
use crate::result::WebSocketError;

verus! {

/// The bytes of a string literal.
pub open spec fn lit(s: &str) -> Seq<u8> {
    encode_utf8(s@)
}

/// A parsed request head.
pub struct RequestHead {
    pub method: Vec<u8>,
    pub resource: Vec<u8>,
    pub version: Vec<u8>,
    pub fields: Vec<HeaderField>,
}

pub struct RequestHeadView {
    pub method: Seq<u8>,
    pub resource: Seq<u8>,
    pub version: Seq<u8>,
    pub fields: Seq<(Seq<u8>, Seq<u8>)>,
}

impl View for RequestHead {
    type V = RequestHeadView;

    open spec fn view(&self) -> RequestHeadView {
        RequestHeadView {
            method: self.method@,
            resource: self.resource@,
            version: self.version@,
            fields: fields_view(self.fields@),
        }
    }
}

/// A parsed response head.
pub struct ResponseHead {
    pub version: Vec<u8>,
    pub status: u16,
    pub reason: Vec<u8>,
    pub fields: Vec<HeaderField>,
}

pub struct ResponseHeadView {
    pub version: Seq<u8>,
    pub status: u16,
    pub reason: Seq<u8>,
    pub fields: Seq<(Seq<u8>, Seq<u8>)>,
}

impl View for ResponseHead {
    type V = ResponseHeadView;

    open spec fn view(&self) -> ResponseHeadView {
        ResponseHeadView {
            version: self.version@,
            status: self.status,
            reason: self.reason@,
            fields: fields_view(self.fields@),
        }
    }
}

/// A request line: method, target and version, separated by single spaces.
pub open spec fn spec_request_line(line: Seq<u8>) -> Option<(Seq<u8>, Seq<u8>, Seq<u8>)> {
    let a = next_byte(line, 32, 0);
    let b = next_byte(line, 32, a + 1);
    if 0 < a && a + 1 < b && b + 1 < line.len() && next_byte(line, 32, b + 1) == line.len() {
        Some((line.subrange(0, a), line.subrange(a + 1, b), line.subrange(b + 1, line.len() as int)))
    } else {
        None
    }
}

pub open spec fn is_digit(b: u8) -> bool {
    48 <= b <= 57
}

/// A status line: version, a space, three digits, then a space and the
/// reason phrase, or nothing.
pub open spec fn spec_status_line(line: Seq<u8>) -> Option<(Seq<u8>, u16, Seq<u8>)> {
    let a = next_byte(line, 32, 0);
    if 0 < a && a + 4 <= line.len() && is_digit(line[a + 1]) && is_digit(line[a + 2]) && is_digit(
        line[a + 3],
    ) && (a + 4 == line.len() || line[a + 4] == 32) {
        Some(
            (
                line.subrange(0, a),
                ((line[a + 1] - 48) * 100 + (line[a + 2] - 48) * 10 + (line[a + 3] - 48)) as u16,
                if a + 4 == line.len() {
                    seq![]
                } else {
                    line.subrange(a + 5, line.len() as int)
                },
            ),
        )
    } else {
        None
    }
}

/// The request head at the start of `s`, with the number of bytes it takes.
pub open spec fn spec_parse_request(s: Seq<u8>) -> Result<(RequestHeadView, int), WebSocketError> {
    match head_lines(s, 0) {
        None => Err(WebSocketError::NoDataAvailable),
        Some((ls, n)) => if ls.len() == 0 {
            Err(WebSocketError::HttpError("Missing request line"))
        } else {
            match (spec_request_line(ls[0]), spec_parse_fields(ls.drop_first())) {
                (None, _) => Err(WebSocketError::HttpError("Invalid request line")),
                (_, None) => Err(WebSocketError::HttpError("Invalid header line")),
                (Some((m, t, v)), Some(fs)) => Ok(
                    (RequestHeadView { method: m, resource: t, version: v, fields: fs }, n),
                ),
            }
        },
    }
}

/// The response head at the start of `s`, with the number of bytes it takes.
pub open spec fn spec_parse_response(s: Seq<u8>) -> Result<(ResponseHeadView, int), WebSocketError> {
    match head_lines(s, 0) {
        None => Err(WebSocketError::NoDataAvailable),
        Some((ls, n)) => if ls.len() == 0 {
            Err(WebSocketError::HttpError("Missing status line"))
        } else {
            match (spec_status_line(ls[0]), spec_parse_fields(ls.drop_first())) {
                (None, _) => Err(WebSocketError::HttpError("Invalid status line")),
                (_, None) => Err(WebSocketError::HttpError("Invalid header line")),
                (Some((v, c, r)), Some(fs)) => Ok(
                    (ResponseHeadView { version: v, status: c, reason: r, fields: fs }, n),
                ),
            }
        },
    }
}

fn parse_request_line(line: &[u8]) -> (r: Option<(Vec<u8>, Vec<u8>, Vec<u8>)>)
    ensures
        match spec_request_line(line@) {
            Some((m, t, v)) => r matches Some((x, y, z)) && x@ == m && y@ == t && z@ == v,
            None => r is None,
        },
{
    let a = find_byte(line, 32, 0);
    if a == 0 || a >= line.len() {
        return None;
    }
    let b = find_byte(line, 32, a + 1);
    if b <= a + 1 || b >= line.len() - 1 {
        return None;
    }
    let c = find_byte(line, 32, b + 1);
    if c != line.len() {
        return None;
    }
    Some((slice_to_vec(&line[0..a]), slice_to_vec(&line[a + 1..b]), slice_to_vec(&line[b + 1..line.len()])))
}

fn parse_status_line(line: &[u8]) -> (r: Option<(Vec<u8>, u16, Vec<u8>)>)
    ensures
        match spec_status_line(line@) {
            Some((v, c, m)) => r matches Some((x, y, z)) && x@ == v && y == c && z@ == m,
            None => r is None,
        },
{
    let a = find_byte(line, 32, 0);
    if a == 0 || a >= line.len() || line.len() - a < 4 {
        return None;
    }
    let d1 = line[a + 1];
    let d2 = line[a + 2];
    let d3 = line[a + 3];
    if !(48 <= d1 && d1 <= 57 && 48 <= d2 && d2 <= 57 && 48 <= d3 && d3 <= 57) {
        return None;
    }
    if a + 4 < line.len() && line[a + 4] != 32 {
        return None;
    }
    let status: u16 = ((d1 - 48) as u16) * 100 + ((d2 - 48) as u16) * 10 + ((d3 - 48) as u16);
    let reason = if a + 4 == line.len() {
        Vec::new()
    } else {
        slice_to_vec(&line[a + 5..line.len()])
    };
    Some((slice_to_vec(&line[0..a]), status, reason))
}

/// Parses the request head at the start of `bytes`, returning it with the
/// number of bytes it takes. Input that ends before the head does gives
/// `NoDataAvailable`.
pub fn parse_request(bytes: &[u8]) -> (r: Result<(RequestHead, usize), WebSocketError>)
    ensures
        match r {
            Ok((h, n)) => spec_parse_request(bytes@) == Ok::<(RequestHeadView, int), WebSocketError>(
                (h@, n as int),
            ),
            Err(e) => spec_parse_request(bytes@) == Err::<(RequestHeadView, int), WebSocketError>(e),
        },
{
    let (lines, n) = match split_head(bytes) {
        Ok(ln) => ln,
        Err(e) => return Err(e),
    };
    let ghost lv = lines@.map_values(|l: Vec<u8>| l@);
    if lines.len() == 0 {
        return Err(WebSocketError::HttpError("Missing request line"));
    }
    let (method, resource, version) = match parse_request_line(lines[0].as_slice()) {
        Some(t) => t,
        None => return Err(WebSocketError::HttpError("Invalid request line")),
    };
    let mut rest = lines;
    let _first = rest.remove(0);
    assert(rest@.map_values(|l: Vec<u8>| l@) =~= lv.drop_first());
    let fields = match parse_fields(&rest) {
        Some(f) => f,
        None => return Err(WebSocketError::HttpError("Invalid header line")),
    };
    Ok((RequestHead { method, resource, version, fields }, n))
}

/// Parses the response head at the start of `bytes`, returning it with the
/// number of bytes it takes. Input that ends before the head does gives
/// `NoDataAvailable`; the bytes after the head belong to the frame stream.
pub fn parse_response(bytes: &[u8]) -> (r: Result<(ResponseHead, usize), WebSocketError>)
    ensures
        match r {
            Ok((h, n)) => spec_parse_response(bytes@) == Ok::<(ResponseHeadView, int), WebSocketError>(
                (h@, n as int),
            ),
            Err(e) => spec_parse_response(bytes@) == Err::<(ResponseHeadView, int), WebSocketError>(e),
        },
{
    let (lines, n) = match split_head(bytes) {
        Ok(ln) => ln,
        Err(e) => return Err(e),
    };
    let ghost lv = lines@.map_values(|l: Vec<u8>| l@);
    if lines.len() == 0 {
        return Err(WebSocketError::HttpError("Missing status line"));
    }
    let (version, status, reason) = match parse_status_line(lines[0].as_slice()) {
        Some(t) => t,
        None => return Err(WebSocketError::HttpError("Invalid status line")),
    };
    let mut rest = lines;
    let _first = rest.remove(0);
    assert(rest@.map_values(|l: Vec<u8>| l@) =~= lv.drop_first());
    let fields = match parse_fields(&rest) {
        Some(f) => f,
        None => return Err(WebSocketError::HttpError("Invalid header line")),
    };
    Ok((ResponseHead { version, status, reason, fields }, n))
}

pub const GET: &'static str = "GET";
pub const HTTP_1_1: &'static str = "HTTP/1.1";
pub const HOST: &'static str = "Host";
pub const UPGRADE: &'static str = "Upgrade";
pub const WEBSOCKET: &'static str = "websocket";
pub const CONNECTION: &'static str = "Connection";
pub const SEC_WEBSOCKET_VERSION: &'static str = "Sec-WebSocket-Version";
pub const VERSION_13: &'static str = "13";
pub const SEC_WEBSOCKET_KEY: &'static str = "Sec-WebSocket-Key";
pub const SEC_WEBSOCKET_ACCEPT: &'static str = "Sec-WebSocket-Accept";
pub const SEC_WEBSOCKET_PROTOCOL: &'static str = "Sec-WebSocket-Protocol";
pub const SEC_WEBSOCKET_EXTENSIONS: &'static str = "Sec-WebSocket-Extensions";

/// Whether the fields hold `Upgrade: websocket` (up to ASCII case) and a
/// `Connection` header with the `Upgrade` token.
pub open spec fn upgrade_fields_valid(fs: Seq<(Seq<u8>, Seq<u8>)>) -> bool {
    &&& field_value(fs, lit(UPGRADE)) matches Some(u) && eq_ignore_case(u, lit(WEBSOCKET))
    &&& field_value(fs, lit(CONNECTION)) matches Some(c) && has_token(c, lit(UPGRADE))
}

/// The checks a server makes of a handshake request, in order; on success,
/// the client's key.
pub open spec fn spec_validate_request(h: RequestHeadView) -> Result<Seq<u8>, WebSocketError> {
    if h.method != lit(GET) {
        Err(WebSocketError::RequestError("Request method must be GET"))
    } else if h.version != lit(HTTP_1_1) {
        Err(WebSocketError::RequestError("Unsupported request HTTP version"))
    } else if field_value(h.fields, lit(HOST)) is None {
        Err(WebSocketError::RequestError("Missing Host header"))
    } else if !(field_value(h.fields, lit(UPGRADE)) matches Some(u) && eq_ignore_case(u, lit(WEBSOCKET))) {
        Err(WebSocketError::RequestError("Invalid Upgrade header"))
    } else if !(field_value(h.fields, lit(CONNECTION)) matches Some(c) && has_token(c, lit(UPGRADE))) {
        Err(WebSocketError::RequestError("Invalid Connection header"))
    } else if field_value(h.fields, lit(SEC_WEBSOCKET_VERSION)) != Some(lit(VERSION_13)) {
        Err(WebSocketError::RequestError("Unsupported WebSocket version"))
    } else {
        match field_value(h.fields, lit(SEC_WEBSOCKET_KEY)) {
            Some(k) => if spec_key_valid(k) {
                Ok(k)
            } else {
                Err(WebSocketError::RequestError("Invalid Sec-WebSocket-Key"))
            },
            None => Err(WebSocketError::RequestError("Invalid Sec-WebSocket-Key")),
        }
    }
}

/// Checks a handshake request as a server must; on success, returns the
/// client's key.
pub fn validate_request(h: &RequestHead) -> (r: Result<Vec<u8>, WebSocketError>)
    ensures
        match spec_validate_request(h@) {
            Ok(k) => r matches Ok(v) && v@ == k,
            Err(e) => r == Err::<Vec<u8>, WebSocketError>(e),
        },
{
    if !bytes_eq(h.method.as_slice(), GET.as_bytes()) {
        return Err(WebSocketError::RequestError("Request method must be GET"));
    }
    if !bytes_eq(h.version.as_slice(), HTTP_1_1.as_bytes()) {
        return Err(WebSocketError::RequestError("Unsupported request HTTP version"));
    }
    if find_field(&h.fields, HOST.as_bytes()).is_none() {
        return Err(WebSocketError::RequestError("Missing Host header"));
    }
    let upgrade_ok = match find_field(&h.fields, UPGRADE.as_bytes()) {
        Some(u) => bytes_eq_ignore_case(u.as_slice(), WEBSOCKET.as_bytes()),
        None => false,
    };
    if !upgrade_ok {
        return Err(WebSocketError::RequestError("Invalid Upgrade header"));
    }
    let connection_ok = match find_field(&h.fields, CONNECTION.as_bytes()) {
        Some(c) => value_has_token(c.as_slice(), UPGRADE.as_bytes()),
        None => false,
    };
    if !connection_ok {
        return Err(WebSocketError::RequestError("Invalid Connection header"));
    }
    let version_ok = match find_field(&h.fields, SEC_WEBSOCKET_VERSION.as_bytes()) {
        Some(v) => bytes_eq(v.as_slice(), VERSION_13.as_bytes()),
        None => false,
    };
    if !version_ok {
        return Err(WebSocketError::RequestError("Unsupported WebSocket version"));
    }
    match find_field(&h.fields, SEC_WEBSOCKET_KEY.as_bytes()) {
        Some(k) => if key_is_valid(k.as_slice()) {
            Ok(slice_to_vec(k.as_slice()))
        } else {
            Err(WebSocketError::RequestError("Invalid Sec-WebSocket-Key"))
        },
        None => Err(WebSocketError::RequestError("Invalid Sec-WebSocket-Key")),
    }
}

/// The subprotocol a server picks: the first one the client offers that the
/// server supports.
pub open spec fn spec_select_protocol(h: RequestHeadView, supported: Seq<Seq<u8>>) -> Option<Seq<u8>> {
    match field_value(h.fields, lit(SEC_WEBSOCKET_PROTOCOL)) {
        Some(p) => first_name_in_from(p, supported, 0),
        None => None,
    }
}

/// Picks the subprotocol for a request: the first one the client offers
/// that is among `supported`.
pub fn select_protocol(h: &RequestHead, supported: &Vec<Vec<u8>>) -> (r: Option<Vec<u8>>)
    ensures
        match spec_select_protocol(h@, names_view(supported@)) {
            Some(p) => r matches Some(v) && v@ == p,
            None => r is None,
        },
{
    match find_field(&h.fields, SEC_WEBSOCKET_PROTOCOL.as_bytes()) {
        Some(p) => first_name_in(p.as_slice(), supported),
        None => None,
    }
}

/// The checks a client makes of a handshake response to a request with the
/// given key, subprotocols and extension names, in order.
pub open spec fn spec_validate_response(
    h: ResponseHeadView,
    key: Seq<u8>,
    protocols: Seq<Seq<u8>>,
    extensions: Seq<Seq<u8>>,
) -> Result<(), WebSocketError> {
    spec_check_response(h, encode_utf8(spec_accept(key)), protocols, extensions)
}

/// The checks a client makes of a handshake response, in order, given the
/// accept value that answers its key.
pub open spec fn spec_check_response(
    h: ResponseHeadView,
    expected_accept: Seq<u8>,
    protocols: Seq<Seq<u8>>,
    extensions: Seq<Seq<u8>>,
) -> Result<(), WebSocketError> {
    if h.status != 101 {
        Err(WebSocketError::ResponseError("Status code must be Switching Protocols"))
    } else if !(field_value(h.fields, lit(UPGRADE)) matches Some(u) && eq_ignore_case(u, lit(WEBSOCKET))) {
        Err(WebSocketError::ResponseError("Invalid Upgrade header"))
    } else if !(field_value(h.fields, lit(CONNECTION)) matches Some(c) && has_token(c, lit(UPGRADE))) {
        Err(WebSocketError::ResponseError("Invalid Connection header"))
    } else if field_value(h.fields, lit(SEC_WEBSOCKET_ACCEPT)) != Some(expected_accept) {
        Err(WebSocketError::ResponseError("Invalid Sec-WebSocket-Accept"))
    } else if field_value(h.fields, lit(SEC_WEBSOCKET_PROTOCOL)) matches Some(p) && !all_names_in_from(
        p,
        protocols,
        0,
    ) {
        Err(WebSocketError::ResponseError("Unrequested subprotocol"))
    } else if field_value(h.fields, lit(SEC_WEBSOCKET_EXTENSIONS)) matches Some(e) && !all_names_in_from(
        e,
        extensions,
        0,
    ) {
        Err(WebSocketError::ResponseError("Unoffered extension"))
    } else {
        Ok(())
    }
}

/// Checks a handshake response as a client must, for a request made with
/// `key`, offering `protocols` and the extensions named in `extensions`.
pub fn validate_response(h: &ResponseHead, key: &[u8], protocols: &Vec<Vec<u8>>, extensions: &Vec<
    Vec<u8>,
>) -> (r: Result<(), WebSocketError>)
    ensures
        r == spec_validate_response(h@, key@, names_view(protocols@), names_view(extensions@)),
{
    let expected = accept_key(key);
    check_response(h, expected.as_str().as_bytes(), protocols, extensions)
}

/// Checks a handshake response as a client must, given the accept value
/// that answers the request's key, the subprotocols offered and the names of
/// the extensions offered.
pub fn check_response(
    h: &ResponseHead,
    expected_accept: &[u8],
    protocols: &Vec<Vec<u8>>,
    extensions: &Vec<Vec<u8>>,
) -> (r: Result<(), WebSocketError>)
    ensures
        r == spec_check_response(h@, expected_accept@, names_view(protocols@), names_view(extensions@)),
{
    if h.status != 101 {
        return Err(WebSocketError::ResponseError("Status code must be Switching Protocols"));
    }
    let upgrade_ok = match find_field(&h.fields, UPGRADE.as_bytes()) {
        Some(u) => bytes_eq_ignore_case(u.as_slice(), WEBSOCKET.as_bytes()),
        None => false,
    };
    if !upgrade_ok {
        return Err(WebSocketError::ResponseError("Invalid Upgrade header"));
    }
    let connection_ok = match find_field(&h.fields, CONNECTION.as_bytes()) {
        Some(c) => value_has_token(c.as_slice(), UPGRADE.as_bytes()),
        None => false,
    };
    if !connection_ok {
        return Err(WebSocketError::ResponseError("Invalid Connection header"));
    }
    let accept_ok = match find_field(&h.fields, SEC_WEBSOCKET_ACCEPT.as_bytes()) {
        Some(a) => bytes_eq(a.as_slice(), expected_accept),
        None => false,
    };
    if !accept_ok {
        return Err(WebSocketError::ResponseError("Invalid Sec-WebSocket-Accept"));
    }
    match find_field(&h.fields, SEC_WEBSOCKET_PROTOCOL.as_bytes()) {
        Some(p) => if !all_names_in(p.as_slice(), protocols) {
            return Err(WebSocketError::ResponseError("Unrequested subprotocol"));
        },
        None => {},
    }
    match find_field(&h.fields, SEC_WEBSOCKET_EXTENSIONS.as_bytes()) {
        Some(e) => if !all_names_in(e.as_slice(), extensions) {
            return Err(WebSocketError::ResponseError("Unoffered extension"));
        },
        None => {},
    }
    Ok(())
}

/// The options of a client's handshake request.
pub struct RequestOpts {
    /// The resource to request; `/` when `None`.
    pub resource: Option<String>,
    /// The subprotocols to offer, if any.
    pub protocols: Option<Vec<String>>,
}

/// A client's handshake request.
pub struct Request {
    pub resource: String,
    pub host: Host,
    pub upgrade: Upgrade,
    pub connection: Connection,
    pub key: WebSocketKey,
    pub protocol: Option<WebSocketProtocol>,
    pub version: WebSocketVersion,
    pub origin: Option<Origin>,
    pub extensions: Option<WebSocketExtensions>,
}

pub open spec fn opt_serialized<T: Serialize>(o: Option<T>) -> Seq<u8> {
    match o {
        Some(t) => t.spec_serialized(),
        None => seq![],
    }
}

fn serialize_opt<T: Serialize>(o: &Option<T>, out: &mut Vec<u8>)
    ensures
        final(out)@ == old(out)@ + opt_serialized(*o),
{
    match o {
        Some(t) => t.serialize(out),
        None => {
            assert(out@ =~= out@ + seq![]);
        },
    }
}

impl Serialize for Request {
    open spec fn spec_serialized(&self) -> Seq<u8> {
        lit("GET ") + encode_utf8(self.resource@) + lit(" HTTP/1.1\r\n") + self.host.spec_serialized()
            + self.upgrade.spec_serialized() + self.connection.spec_serialized()
            + self.key.spec_serialized() + self.version.spec_serialized() + opt_serialized(self.protocol)
            + opt_serialized(self.extensions) + opt_serialized(self.origin) + lit("\r\n")
    }

    #[verifier::rlimit(40)]
    fn serialize(&self, out: &mut Vec<u8>) {
        let ghost start = out@;
        append_bytes(out, "GET ".as_bytes());
        append_bytes(out, self.resource.as_str().as_bytes());
        append_bytes(out, " HTTP/1.1\r\n".as_bytes());
        let ghost s1 = out@;
        assert(s1 =~= start + (lit("GET ") + encode_utf8(self.resource@) + lit(" HTTP/1.1\r\n")));
        self.host.serialize(out);
        self.upgrade.serialize(out);
        self.connection.serialize(out);
        let ghost s2 = out@;
        assert(s2 =~= s1 + (self.host.spec_serialized() + self.upgrade.spec_serialized()
            + self.connection.spec_serialized()));
        self.key.serialize(out);
        self.version.serialize(out);
        let ghost s3 = out@;
        assert(s3 =~= s2 + (self.key.spec_serialized() + self.version.spec_serialized()));
        serialize_opt(&self.protocol, out);
        serialize_opt(&self.extensions, out);
        serialize_opt(&self.origin, out);
        let ghost s4 = out@;
        assert(s4 =~= s3 + (opt_serialized(self.protocol) + opt_serialized(self.extensions)
            + opt_serialized(self.origin)));
        append_bytes(out, "\r\n".as_bytes());
        let ghost a = lit("GET ") + encode_utf8(self.resource@) + lit(" HTTP/1.1\r\n");
        let ghost b = self.host.spec_serialized() + self.upgrade.spec_serialized()
            + self.connection.spec_serialized();
        let ghost c = self.key.spec_serialized() + self.version.spec_serialized();
        let ghost d = opt_serialized(self.protocol) + opt_serialized(self.extensions) + opt_serialized(
            self.origin,
        );
        assert(out@ =~= start + (a + b + c + d + lit("\r\n")));
        assert(self.spec_serialized() =~= a + b + c + d + lit("\r\n"));
    }
}

impl Request {
    /// A request to `host` with the given key and options. It asks for
    /// version 13 of the protocol.
    pub fn with_key(host: String, options: RequestOpts, key: WebSocketKey) -> (r: Request)
        ensures
            r.host.0 == host,
            r.key == key,
            r.upgrade.0@ == WEBSOCKET@,
            r.connection.0@ == UPGRADE@,
            r.version.0@.len() == 1 && r.version.0@[0]@ == VERSION_13@,
            r.origin is None,
            r.extensions is None,
            match options.resource {
                Some(res) => r.resource@ == res@,
                None => r.resource@ == "/"@,
            },
            match options.protocols {
                Some(p) => r.protocol == Some(WebSocketProtocol(p)),
                None => r.protocol is None,
            },
    {
        let resource = match options.resource {
            Some(res) => res,
            None => "/".to_owned(),
        };
        let protocol = match options.protocols {
            Some(p) => Some(WebSocketProtocol(p)),
            None => None,
        };
        Request {
            resource,
            host: Host(host),
            upgrade: Upgrade(WEBSOCKET.to_owned()),
            connection: Connection(UPGRADE.to_owned()),
            key,
            protocol,
            version: WebSocketVersion(vec![VERSION_13.to_owned()]),
            origin: None,
            extensions: None,
        }
    }

    /// A request to `host` with a fresh random key.
    pub fn new(host: String, options: RequestOpts) -> (r: Request)
        ensures
            r.host.0 == host,
            exists|b: Seq<u8>| b.len() == 16 && r.key.0@ == crate::headers::base64_of(b),
            r.origin is None,
    {
        Request::with_key(host, options, WebSocketKey::new())
    }

    /// Offers the given subprotocols.
    pub fn with_protocols(&mut self, protocols: Vec<String>)
        ensures
            *final(self) == (Request { protocol: Some(WebSocketProtocol(protocols)), ..*old(self) }),
    {
        self.protocol = Some(WebSocketProtocol(protocols));
    }

    /// Offers the given extensions.
    pub fn with_extensions(&mut self, extensions: Vec<Extension>)
        ensures
            *final(self) == (Request { extensions: Some(WebSocketExtensions(extensions)), ..*old(self) }),
    {
        self.extensions = Some(WebSocketExtensions(extensions));
    }

    /// Sends the given origin.
    pub fn with_origin(&mut self, origin: String)
        ensures
            *final(self) == (Request { origin: Some(Origin(origin)), ..*old(self) }),
    {
        self.origin = Some(Origin(origin));
    }

    /// The bytes of this request.
    pub fn to_bytes(&self) -> (r: Vec<u8>)
        ensures
            r@ == self.spec_serialized(),
    {
        let mut out: Vec<u8> = Vec::new();
        self.serialize(&mut out);
        assert(out@ =~= self.spec_serialized());
        out
    }
}

/// A server's answer to a valid handshake request.
pub struct Response {
    pub upgrade: Upgrade,
    pub connection: Connection,
    pub accept: WebSocketAccept,
    pub protocol: Option<WebSocketProtocol>,
    pub extensions: Option<WebSocketExtensions>,
}

impl Serialize for Response {
    open spec fn spec_serialized(&self) -> Seq<u8> {
        lit("HTTP/1.1 101 Switching Protocols\r\n") + self.upgrade.spec_serialized()
            + self.connection.spec_serialized() + self.accept.spec_serialized() + opt_serialized(
            self.protocol,
        ) + opt_serialized(self.extensions) + lit("\r\n")
    }

    fn serialize(&self, out: &mut Vec<u8>) {
        let ghost start = out@;
        append_bytes(out, "HTTP/1.1 101 Switching Protocols\r\n".as_bytes());
        self.upgrade.serialize(out);
        self.connection.serialize(out);
        self.accept.serialize(out);
        serialize_opt(&self.protocol, out);
        serialize_opt(&self.extensions, out);
        append_bytes(out, "\r\n".as_bytes());
        assert(out@ =~= start + self.spec_serialized());
    }
}

impl Response {
    /// The response that accepts a request with the given key.
    pub fn accept(key: &[u8]) -> (r: Response)
        ensures
            r.accept.0@ == spec_accept(key@),
            r.upgrade.0@ == WEBSOCKET@,
            r.connection.0@ == UPGRADE@,
            r.protocol is None,
            r.extensions is None,
    {
        Response {
            upgrade: Upgrade(WEBSOCKET.to_owned()),
            connection: Connection(UPGRADE.to_owned()),
            accept: WebSocketAccept(accept_key(key)),
            protocol: None,
            extensions: None,
        }
    }

    /// The response that accepts a request with the given key, and picks the
    /// given subprotocols.
    pub fn accept_protocols(key: &[u8], protocols: Vec<String>) -> (r: Response)
        ensures
            r.accept.0@ == spec_accept(key@),
            r.upgrade.0@ == WEBSOCKET@,
            r.connection.0@ == UPGRADE@,
            r.protocol matches Some(p) && p.0@ == protocols@,
            r.extensions is None,
    {
        let mut r = Response::accept(key);
        r.protocol = Some(WebSocketProtocol(protocols));
        r
    }

    /// The bytes of this response.
    pub fn to_bytes(&self) -> (r: Vec<u8>)
        ensures
            r@ == self.spec_serialized(),
    {
        let mut out: Vec<u8> = Vec::new();
        self.serialize(&mut out);
        assert(out@ =~= self.spec_serialized());
        out
    }
}

/// The bytes of each string of a list, as vectors.
pub fn strings_to_bytes(items: &Vec<String>) -> (r: Vec<Vec<u8>>)
    ensures
        names_view(r@) == strings_bytes(items@),
{
    let mut out: Vec<Vec<u8>> = Vec::new();
    let mut i: usize = 0;
    while i < items.len()
        invariant
            i <= items@.len(),
            names_view(out@) == strings_bytes(items@).subrange(0, i as int),
        decreases items@.len() - i,
    {
        let ghost before = names_view(out@);
        let v = slice_to_vec(items[i].as_str().as_bytes());
        assert(v@ == encode_utf8(items@[i as int]@));
        out.push(v);
        assert(names_view(out@) =~= before.push(v@));
        assert(names_view(out@) =~= strings_bytes(items@).subrange(0, i + 1));
        i += 1;
    }
    assert(strings_bytes(items@).subrange(0, i as int) =~= strings_bytes(items@));
    out
}

/// What a server makes of the handshake request at the start of `bytes`: the
/// client's key, the number of bytes the request takes, and the subprotocol
/// it picks among `supported`; or the error.
pub open spec fn spec_answer_request(
    bytes: Seq<u8>,
    supported: Seq<Seq<u8>>,
    supported_extensions: Seq<Seq<u8>>,
) -> Result<(Seq<u8>, int, Option<Seq<u8>>, Seq<ExtensionView>), WebSocketError> {
    match spec_parse_request(bytes) {
        Err(e) => Err(e),
        Ok((h, n)) => match spec_validate_request(h) {
            Err(e) => Err(e),
            Ok(k) => match spec_select_extensions(h, supported_extensions) {
                None => Err(WebSocketError::RequestError("Invalid Sec-WebSocket-Extensions")),
                Some(es) => Ok((k, n, spec_select_protocol(h, supported), es)),
            },
        },
    }
}

/// The extensions of `es` whose names are among `supported`, in order.
pub open spec fn filter_supported(es: Seq<ExtensionView>, supported: Seq<Seq<u8>>) -> Seq<ExtensionView>
    decreases es.len(),
{
    if es.len() == 0 {
        seq![]
    } else if contains_name(supported, extension_name(es.last())) {
        filter_supported(es.drop_last(), supported).push(es.last())
    } else {
        filter_supported(es.drop_last(), supported)
    }
}

/// The extensions a server accepts: those the client offers whose names are
/// among `supported`, in the client's order; `None` when the offer cannot be
/// parsed.
pub open spec fn spec_select_extensions(h: RequestHeadView, supported: Seq<Seq<u8>>) -> Option<
    Seq<ExtensionView>,
> {
    match field_value(h.fields, lit(SEC_WEBSOCKET_EXTENSIONS)) {
        None => Some(seq![]),
        Some(v) => match spec_parse_extensions(v) {
            Some(es) => Some(filter_supported(es, supported)),
            None => None,
        },
    }
}

/// Picks the extensions for a request: those the client offers whose names
/// are among `supported`, in the client's order.
pub fn select_extensions(h: &RequestHead, supported: &Vec<Vec<u8>>) -> (r: Result<Vec<Extension>, WebSocketError>)
    ensures
        match spec_select_extensions(h@, names_view(supported@)) {
            Some(es) => r matches Ok(v) && extensions_view(v@) == es,
            None => r == Err::<Vec<Extension>, WebSocketError>(
                WebSocketError::RequestError("Invalid Sec-WebSocket-Extensions"),
            ),
        },
{
    let offered = match find_field(&h.fields, SEC_WEBSOCKET_EXTENSIONS.as_bytes()) {
        None => {
            let v: Vec<Extension> = Vec::new();
            assert(extensions_view(v@) =~= seq![]);
            return Ok(v);
        },
        Some(v) => match WebSocketExtensions::parse(v.as_slice()) {
            Ok(es) => es.0,
            Err(_) => return Err(WebSocketError::RequestError("Invalid Sec-WebSocket-Extensions")),
        },
    };
    let ghost all = extensions_view(offered@);
    let ghost sv = names_view(supported@);
    let mut out: Vec<Extension> = Vec::new();
    let mut i: usize = 0;
    while i < offered.len()
        invariant
            i <= offered@.len(),
            all == extensions_view(offered@),
            sv == names_view(supported@),
            extensions_view(out@) == filter_supported(all.subrange(0, i as int), sv),
        decreases offered@.len() - i,
    {
        let name = offered[i].name_bytes();
        let ghost sub = all.subrange(0, i + 1);
        assert(sub.drop_last() =~= all.subrange(0, i as int));
        assert(sub.last() == offered@[i as int]@);
        if names_contain(supported, name.as_slice()) {
            let e = clone_extension(&offered[i]);
            let ghost before = extensions_view(out@);
            out.push(e);
            assert(extensions_view(out@) =~= before.push(e@));
        }
        i += 1;
    }
    assert(all.subrange(0, i as int) =~= all);
    Ok(out)
}

/// Reads the handshake request at the start of `bytes` as a server: checks
/// it, and builds the response that accepts it, with the first subprotocol
/// the client offers among `supported` and the offered extensions whose
/// names are among `supported_extensions`. Also returns the number of bytes
/// the request takes. A request that fails the checks calls for
/// `bad_request`.
pub fn answer_request(
    bytes: &[u8],
    supported: &Vec<String>,
    supported_extensions: &Vec<Vec<u8>>,
) -> (r: Result<(Response, usize), WebSocketError>)
    ensures
        match spec_answer_request(bytes@, strings_bytes(supported@), names_view(supported_extensions@)) {
            Err(e) => r == Err::<(Response, usize), WebSocketError>(e),
            Ok((k, n, p, es)) => r matches Ok((resp, m)) && m == n && resp.accept.0@ == spec_accept(k)
                && resp.upgrade.0@ == WEBSOCKET@ && resp.connection.0@ == UPGRADE@ && (match p {
                Some(name) => resp.protocol matches Some(q) && strings_bytes(q.0@) == seq![name],
                None => resp.protocol is None,
            }) && (if es.len() == 0 {
                resp.extensions is None
            } else {
                resp.extensions matches Some(x) && extensions_view(x.0@) == es
            }),
        },
{
    let (head, n) = match parse_request(bytes) {
        Ok(hn) => hn,
        Err(e) => return Err(e),
    };
    let key = match validate_request(&head) {
        Ok(k) => k,
        Err(e) => return Err(e),
    };
    let accepted = match select_extensions(&head, supported_extensions) {
        Ok(v) => v,
        Err(e) => return Err(e),
    };
    let mut resp = build_response(&head, key.as_slice(), supported);
    if accepted.len() > 0 {
        resp.extensions = Some(WebSocketExtensions(accepted));
    }
    Ok((resp, n))
}

/// The response that accepts a valid request with the given key, with the
/// first subprotocol the client offers among `supported`.
fn build_response(head: &RequestHead, key: &[u8], supported: &Vec<String>) -> (resp: Response)
    ensures
        resp.accept.0@ == spec_accept(key@),
        resp.upgrade.0@ == WEBSOCKET@,
        resp.connection.0@ == UPGRADE@,
        resp.extensions is None,
        match spec_select_protocol(head@, strings_bytes(supported@)) {
            Some(name) => resp.protocol matches Some(q) && strings_bytes(q.0@) == seq![name],
            None => resp.protocol is None,
        },
{
    let names = strings_to_bytes(supported);
    match select_protocol(head, &names) {
        Some(p) => {
            proof {
                let nv = names_view(names@);
                assert(contains_name(nv, p@)) by {
                    lemma_first_name_in(
                        crate::http::field_value(head@.fields, lit(SEC_WEBSOCKET_PROTOCOL)).unwrap(),
                        nv,
                        0,
                    );
                }
                let k = choose|k: int| 0 <= k < nv.len() && nv[k] == p@;
                encode_utf8_valid_utf8(supported@[k]@);
                encode_utf8_decode_utf8(supported@[k]@);
            }
            match bytes_to_string(p.as_slice()) {
                Ok(name) => {
                    let resp = Response::accept_protocols(key, vec![name]);
                    proof {
                        let q = resp.protocol.unwrap();
                        assert(strings_bytes(q.0@) =~= seq![p@]);
                    }
                    resp
                },
                Err(_) => {
                    assert(false);
                    Response::accept(key)
                },
            }
        },
        None => Response::accept(key),
    }
}

proof fn lemma_first_name_in(v: Seq<u8>, names: Seq<Seq<u8>>, i: int)
    ensures
        first_name_in_from(v, names, i) matches Some(n) ==> contains_name(names, n),
    decreases v.len() - i,
{
    if 0 <= i <= v.len() {
        let j = next_byte(v, 44, i);
        if i <= j < v.len() {
            lemma_first_name_in(v, names, j + 1);
        }
    }
}

/// What a client makes of the handshake response at the start of `bytes`,
/// for a request with the given key, subprotocols and extension names: the
/// number of bytes the response takes, or the error.
pub open spec fn spec_read_response(
    bytes: Seq<u8>,
    key: Seq<u8>,
    protocols: Seq<Seq<u8>>,
    extensions: Seq<Seq<u8>>,
) -> Result<int, WebSocketError> {
    match spec_parse_response(bytes) {
        Err(e) => Err(e),
        Ok((h, n)) => match spec_validate_response(h, key, protocols, extensions) {
            Err(e) => Err(e),
            Ok(()) => Ok(n),
        },
    }
}

/// The subprotocols a request offers.
pub open spec fn request_protocols(req: &Request) -> Seq<Seq<u8>> {
    match req.protocol {
        Some(p) => strings_bytes(p.0@),
        None => seq![],
    }
}

/// The names of the extensions a request offers.
pub open spec fn request_extensions(req: &Request) -> Seq<Seq<u8>> {
    match req.extensions {
        Some(e) => extension_names(e.0@),
        None => seq![],
    }
}

/// Reads the handshake response at the start of `bytes` as the client that
/// sent `request`. Returns the number of bytes the response takes: the bytes
/// after it belong to the frame stream.
pub fn read_response(bytes: &[u8], request: &Request) -> (r: Result<usize, WebSocketError>)
    ensures
        match spec_read_response(
            bytes@,
            encode_utf8(request.key.0@),
            request_protocols(request),
            request_extensions(request),
        ) {
            Ok(n) => r == Ok::<usize, WebSocketError>(n as usize),
            Err(e) => r == Err::<usize, WebSocketError>(e),
        },
{
    let (head, n) = match parse_response(bytes) {
        Ok(hn) => hn,
        Err(e) => return Err(e),
    };
    let protocols = match &request.protocol {
        Some(p) => strings_to_bytes(&p.0),
        None => {
            let v: Vec<Vec<u8>> = Vec::new();
            assert(names_view(v@) =~= seq![]);
            v
        },
    };
    let extensions = match &request.extensions {
        Some(e) => names_of(&e.0),
        None => {
            let v: Vec<Vec<u8>> = Vec::new();
            assert(names_view(v@) =~= seq![]);
            v
        },
    };
    match validate_response(&head, request.key.0.as_str().as_bytes(), &protocols, &extensions) {
        Ok(()) => Ok(n),
        Err(e) => Err(e),
    }
}

/// Determines whether a message is a WebSocket upgrade request.
pub trait IsWsUpgrade {
    spec fn spec_is_ws_upgrade(&self) -> bool;

    fn is_ws_upgrade(&self) -> (r: bool)
        ensures
            r == self.spec_is_ws_upgrade(),
    ;
}

impl IsWsUpgrade for RequestHead {
    /// A request is an upgrade request when it passes a server's checks.
    open spec fn spec_is_ws_upgrade(&self) -> bool {
        spec_validate_request(self@) is Ok
    }

    fn is_ws_upgrade(&self) -> (r: bool) {
        validate_request(self).is_ok()
    }
}

/// Determines whether a response is a successful handshake answer: `Ok(true)`
/// for one, `Ok(false)` for a refusal, `Err(())` for a response that claims
/// to switch protocols but does not upgrade to WebSocket.
pub trait WsHandshakeSucceeded {
    spec fn spec_handshake_succeeded(&self) -> Result<bool, ()>;

    fn handshake_succeeded(&self) -> (r: Result<bool, ()>)
        ensures
            r == self.spec_handshake_succeeded(),
    ;
}

impl WsHandshakeSucceeded for ResponseHead {
    open spec fn spec_handshake_succeeded(&self) -> Result<bool, ()> {
        if self.status != 101 {
            Ok(false)
        } else if upgrade_fields_valid(self@.fields) {
            Ok(true)
        } else {
            Err(())
        }
    }

    fn handshake_succeeded(&self) -> (r: Result<bool, ()>) {
        if self.status != 101 {
            return Ok(false);
        }
        let upgrade_ok = match find_field(&self.fields, UPGRADE.as_bytes()) {
            Some(u) => bytes_eq_ignore_case(u.as_slice(), WEBSOCKET.as_bytes()),
            None => false,
        };
        let connection_ok = match find_field(&self.fields, CONNECTION.as_bytes()) {
            Some(c) => value_has_token(c.as_slice(), UPGRADE.as_bytes()),
            None => false,
        };
        if upgrade_ok && connection_ok {
            Ok(true)
        } else {
            Err(())
        }
    }
}

/// The response that refuses a handshake request.
pub open spec fn bad_request_bytes() -> Seq<u8> {
    lit("HTTP/1.1 400 Bad Request\r\n\r\n")
}

/// The bytes of the response that refuses a handshake request.
pub fn bad_request() -> (r: Vec<u8>)
    ensures
        r@ == bad_request_bytes(),
{
    slice_to_vec("HTTP/1.1 400 Bad Request\r\n\r\n".as_bytes())
}

} // verus!
