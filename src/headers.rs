//! The `Sec-WebSocket-*` header values of the opening handshake.

use vstd::prelude::*;
use vstd::slice::slice_to_vec;
use vstd::utf8::encode_utf8;
use rustc_serialize::base64::{FromBase64, ToBase64, STANDARD};
use crate::handshake::{lit, CONNECTION, HOST, SEC_WEBSOCKET_ACCEPT, SEC_WEBSOCKET_KEY, SEC_WEBSOCKET_PROTOCOL, SEC_WEBSOCKET_VERSION, UPGRADE};
use crate::http::append_bytes;

verus! {

/// The GUID that the accept transform appends to a key.
pub const MAGIC_GUID: &'static str = "258EAFA5-E914-47DA-95CA-C5AB0DC85B11";

/// The SHA-1 digest of some bytes.
pub uninterp spec fn sha1_of(data: Seq<u8>) -> Seq<u8>;

/// The padded, standard-alphabet base64 encoding of some bytes.
pub uninterp spec fn base64_of(data: Seq<u8>) -> Seq<char>;

/// The bytes that some base64 text decodes to, if it is base64.
pub uninterp spec fn base64_decoded(text: Seq<u8>) -> Option<Seq<u8>>;

/// Relies on openssl::sha::sha1: the SHA-1 digest of the input.
#[verifier::external_body]
fn sha1_digest(data: &[u8]) -> (r: [u8; 20])
    ensures
        r@ == sha1_of(data@),
{
    openssl::sha::sha1(data)
}

/// Relies on rustc_serialize's `ToBase64::to_base64` with the STANDARD
/// configuration: padded base64 of the input, without line breaks.
#[verifier::external_body]
fn base64_encode(data: &[u8]) -> (r: String)
    ensures
        r@ == base64_of(data@),
{
    data.to_base64(STANDARD)
}

/// Relies on rustc_serialize's `FromBase64::from_base64` on bytes: the decoded
/// bytes, or `None` when the input is not base64.
#[verifier::external_body]
fn base64_decode(text: &[u8]) -> (r: Option<Vec<u8>>)
    ensures
        match r {
            Some(v) => base64_decoded(text@) == Some(v@),
            None => base64_decoded(text@) is None,
        },
{
    text.from_base64().ok()
}

/// The bytes of the magic GUID.
pub open spec fn magic_guid_bytes() -> Seq<u8> {
    encode_utf8(MAGIC_GUID@)
}

/// The accept transform of a key: `base64(SHA1(key ++ MAGIC_GUID))`.
pub open spec fn spec_accept(key: Seq<u8>) -> Seq<char> {
    base64_of(sha1_of(key + magic_guid_bytes()))
}

/// Computes the accept transform of the bytes of a key.
pub fn accept_key(key: &[u8]) -> (r: String)
    ensures
        r@ == spec_accept(key@),
{
    let mut input = slice_to_vec(key);
    let mut guid = slice_to_vec(MAGIC_GUID.as_bytes());
    input.append(&mut guid);
    let digest = sha1_digest(input.as_slice());
    base64_encode(digest.as_slice())
}

/// Whether a key decodes to the 16 bytes that a key must hold.
pub open spec fn spec_key_valid(key: Seq<u8>) -> bool {
    base64_decoded(key) matches Some(k) && k.len() == 16
}

/// Whether the bytes of a key are base64 for 16 bytes.
pub fn key_is_valid(key: &[u8]) -> (r: bool)
    ensures
        r == spec_key_valid(key@),
{
    match base64_decode(key) {
        Some(k) => k.len() == 16,
        None => false,
    }
}

/// The name of the `Origin` header.
pub const ORIGIN: &'static str = "Origin";

/// The `Sec-WebSocket-Key` header value: 16 random bytes, base64-encoded.
pub struct WebSocketKey(pub String);

/// The `Sec-WebSocket-Accept` header value.
pub struct WebSocketAccept(pub String);

/// The `Host` header value.
pub struct Host(pub String);

/// The `Origin` header value.
pub struct Origin(pub String);

/// The `Upgrade` header value.
pub struct Upgrade(pub String);

/// The `Connection` header value.
pub struct Connection(pub String);

/// The `Sec-WebSocket-Version` header value: a list of versions.
pub struct WebSocketVersion(pub Vec<String>);

/// The `Sec-WebSocket-Protocol` header value: a list of subprotocols.
pub struct WebSocketProtocol(pub Vec<String>);

/// A header line: the name, a colon and a space, the value, CRLF.
pub open spec fn header_line(name: Seq<u8>, value: Seq<u8>) -> Seq<u8> {
    name + lit(": ") + value + lit("\r\n")
}

/// The items of a list, separated by a comma and a space.
pub open spec fn join_list(items: Seq<Seq<u8>>) -> Seq<u8>
    decreases items.len(),
{
    if items.len() == 0 {
        seq![]
    } else if items.len() == 1 {
        items[0]
    } else {
        join_list(items.drop_last()) + lit(", ") + items.last()
    }
}

/// The bytes of each string of a list.
pub open spec fn strings_bytes(items: Seq<String>) -> Seq<Seq<u8>> {
    items.map_values(|s: String| encode_utf8(s@))
}

/// Appends the items of a list to `out`, separated by a comma and a space.
pub fn write_list(out: &mut Vec<u8>, items: &Vec<String>)
    ensures
        final(out)@ == old(out)@ + join_list(strings_bytes(items@)),
{
    let ghost all = strings_bytes(items@);
    let ghost start = out@;
    let mut i: usize = 0;
    while i < items.len()
        invariant
            i <= items@.len(),
            all == strings_bytes(items@),
            out@ == start + join_list(all.subrange(0, i as int)),
        decreases items@.len() - i,
    {
        let ghost prev = out@;
        if i > 0 {
            append_bytes(out, ", ".as_bytes());
        }
        append_bytes(out, items[i].as_str().as_bytes());
        proof {
            let sub = all.subrange(0, i + 1);
            assert(sub.drop_last() =~= all.subrange(0, i as int));
            if i == 0 {
                assert(join_list(all.subrange(0, 0)) =~= seq![]);
                assert(out@ =~= start + join_list(sub));
            } else {
                assert(out@ =~= start + join_list(sub));
            }
        }
        i += 1;
    }
    assert(all.subrange(0, i as int) =~= all);
}

/// A header of the handshake, with its name and value.
pub trait Header {
    spec fn spec_name() -> Seq<u8>;

    spec fn spec_value(&self) -> Seq<u8>;

    /// The header's name.
    fn field() -> (r: &'static str)
        ensures
            encode_utf8(r@) == Self::spec_name(),
    ;

    /// Appends the header's value to `out`.
    fn write_value(&self, out: &mut Vec<u8>)
        ensures
            final(out)@ == old(out)@ + self.spec_value(),
    ;
}

/// Something with a wire form.
pub trait Serialize {
    spec fn spec_serialized(&self) -> Seq<u8>;

    /// Appends the wire form to `out`.
    fn serialize(&self, out: &mut Vec<u8>)
        ensures
            final(out)@ == old(out)@ + self.spec_serialized(),
    ;
}

/// Appends the line of a header to `out`.
pub fn write_header_line<H: Header>(h: &H, out: &mut Vec<u8>)
    ensures
        final(out)@ == old(out)@ + header_line(H::spec_name(), h.spec_value()),
{
    let ghost start = out@;
    append_bytes(out, H::field().as_bytes());
    append_bytes(out, ": ".as_bytes());
    h.write_value(out);
    append_bytes(out, "\r\n".as_bytes());
    assert(out@ =~= start + header_line(H::spec_name(), h.spec_value()));
}

impl WebSocketKey {
    /// Generates a new key from 16 random bytes.
    pub fn new() -> (r: Self)
        ensures
            exists|b: Seq<u8>| b.len() == 16 && r.0@ == base64_of(b),
    {
        let bytes = rand::random::<[u8; 16]>();
        WebSocketKey::from_bytes(bytes)
    }

    /// The key that encodes the given 16 bytes.
    pub fn from_bytes(bytes: [u8; 16]) -> (r: Self)
        ensures
            r.0@ == base64_of(bytes@),
    {
        WebSocketKey(base64_encode(bytes.as_slice()))
    }

    /// The accept value that answers this key.
    pub fn accept(&self) -> (r: WebSocketAccept)
        ensures
            r.0@ == spec_accept(encode_utf8(self.0@)),
    {
        WebSocketAccept(accept_key(self.0.as_str().as_bytes()))
    }
}

impl WebSocketAccept {
    /// The accept value that answers the given key.
    pub fn new(key: &WebSocketKey) -> (r: WebSocketAccept)
        ensures
            r.0@ == spec_accept(encode_utf8(key.0@)),
    {
        key.accept()
    }
}


impl Header for Host {
    open spec fn spec_name() -> Seq<u8> {
        lit(HOST)
    }

    open spec fn spec_value(&self) -> Seq<u8> {
        encode_utf8(self.0@)
    }

    fn field() -> (r: &'static str) {
        HOST
    }

    fn write_value(&self, out: &mut Vec<u8>) {
        append_bytes(out, self.0.as_str().as_bytes());
    }
}

impl Serialize for Host {
    open spec fn spec_serialized(&self) -> Seq<u8> {
        header_line(Self::spec_name(), self.spec_value())
    }

    fn serialize(&self, out: &mut Vec<u8>) {
        write_header_line(self, out);
    }
}

impl Header for Origin {
    open spec fn spec_name() -> Seq<u8> {
        lit(ORIGIN)
    }

    open spec fn spec_value(&self) -> Seq<u8> {
        encode_utf8(self.0@)
    }

    fn field() -> (r: &'static str) {
        ORIGIN
    }

    fn write_value(&self, out: &mut Vec<u8>) {
        append_bytes(out, self.0.as_str().as_bytes());
    }
}

impl Serialize for Origin {
    open spec fn spec_serialized(&self) -> Seq<u8> {
        header_line(Self::spec_name(), self.spec_value())
    }

    fn serialize(&self, out: &mut Vec<u8>) {
        write_header_line(self, out);
    }
}

impl Header for Upgrade {
    open spec fn spec_name() -> Seq<u8> {
        lit(UPGRADE)
    }

    open spec fn spec_value(&self) -> Seq<u8> {
        encode_utf8(self.0@)
    }

    fn field() -> (r: &'static str) {
        UPGRADE
    }

    fn write_value(&self, out: &mut Vec<u8>) {
        append_bytes(out, self.0.as_str().as_bytes());
    }
}

impl Serialize for Upgrade {
    open spec fn spec_serialized(&self) -> Seq<u8> {
        header_line(Self::spec_name(), self.spec_value())
    }

    fn serialize(&self, out: &mut Vec<u8>) {
        write_header_line(self, out);
    }
}

impl Header for Connection {
    open spec fn spec_name() -> Seq<u8> {
        lit(CONNECTION)
    }

    open spec fn spec_value(&self) -> Seq<u8> {
        encode_utf8(self.0@)
    }

    fn field() -> (r: &'static str) {
        CONNECTION
    }

    fn write_value(&self, out: &mut Vec<u8>) {
        append_bytes(out, self.0.as_str().as_bytes());
    }
}

impl Serialize for Connection {
    open spec fn spec_serialized(&self) -> Seq<u8> {
        header_line(Self::spec_name(), self.spec_value())
    }

    fn serialize(&self, out: &mut Vec<u8>) {
        write_header_line(self, out);
    }
}

impl Header for WebSocketKey {
    open spec fn spec_name() -> Seq<u8> {
        lit(SEC_WEBSOCKET_KEY)
    }

    open spec fn spec_value(&self) -> Seq<u8> {
        encode_utf8(self.0@)
    }

    fn field() -> (r: &'static str) {
        SEC_WEBSOCKET_KEY
    }

    fn write_value(&self, out: &mut Vec<u8>) {
        append_bytes(out, self.0.as_str().as_bytes());
    }
}

impl Serialize for WebSocketKey {
    open spec fn spec_serialized(&self) -> Seq<u8> {
        header_line(Self::spec_name(), self.spec_value())
    }

    fn serialize(&self, out: &mut Vec<u8>) {
        write_header_line(self, out);
    }
}

impl Header for WebSocketAccept {
    open spec fn spec_name() -> Seq<u8> {
        lit(SEC_WEBSOCKET_ACCEPT)
    }

    open spec fn spec_value(&self) -> Seq<u8> {
        encode_utf8(self.0@)
    }

    fn field() -> (r: &'static str) {
        SEC_WEBSOCKET_ACCEPT
    }

    fn write_value(&self, out: &mut Vec<u8>) {
        append_bytes(out, self.0.as_str().as_bytes());
    }
}

impl Serialize for WebSocketAccept {
    open spec fn spec_serialized(&self) -> Seq<u8> {
        header_line(Self::spec_name(), self.spec_value())
    }

    fn serialize(&self, out: &mut Vec<u8>) {
        write_header_line(self, out);
    }
}

impl Header for WebSocketVersion {
    open spec fn spec_name() -> Seq<u8> {
        lit(SEC_WEBSOCKET_VERSION)
    }

    open spec fn spec_value(&self) -> Seq<u8> {
        join_list(strings_bytes(self.0@))
    }

    fn field() -> (r: &'static str) {
        SEC_WEBSOCKET_VERSION
    }

    fn write_value(&self, out: &mut Vec<u8>) {
        write_list(out, &self.0);
    }
}

impl Serialize for WebSocketVersion {
    open spec fn spec_serialized(&self) -> Seq<u8> {
        header_line(Self::spec_name(), self.spec_value())
    }

    fn serialize(&self, out: &mut Vec<u8>) {
        write_header_line(self, out);
    }
}

impl Header for WebSocketProtocol {
    open spec fn spec_name() -> Seq<u8> {
        lit(SEC_WEBSOCKET_PROTOCOL)
    }

    open spec fn spec_value(&self) -> Seq<u8> {
        join_list(strings_bytes(self.0@))
    }

    fn field() -> (r: &'static str) {
        SEC_WEBSOCKET_PROTOCOL
    }

    fn write_value(&self, out: &mut Vec<u8>) {
        write_list(out, &self.0);
    }
}

impl Serialize for WebSocketProtocol {
    open spec fn spec_serialized(&self) -> Seq<u8> {
        header_line(Self::spec_name(), self.spec_value())
    }

    fn serialize(&self, out: &mut Vec<u8>) {
        write_header_line(self, out);
    }
}

} // verus!
