//! Endpoint descriptors and the client's handshake request builder.

use vstd::prelude::*;
use vstd::slice::slice_to_vec;
use vstd::utf8::{
    decode_utf8_encode_utf8, encode_utf8, encode_utf8_valid_utf8, is_leading_byte_width_1,
    partial_valid_utf8, partial_valid_utf8_extend_ascii_block, valid_utf8, valid_utf8_concat,
};
use crate::extensions::{Extension, WebSocketExtensions};
use crate::handshake::{lit, Request, RequestOpts};
use crate::headers::{base64_of, WebSocketKey};
use crate::http::{append_bytes, bytes_eq};
use crate::result::{WSUrlErrorKind, WebSocketError};
use crate::util::bytes_to_string;

verus! {

/// openssl::ssl::SslContext, the TLS configuration a client hands to its
/// transport; carried unchanged.
#[verifier::external_type_specification]
#[verifier::external_body]
pub struct ExSslContext(openssl::ssl::SslContext);

/// Where a client connects: `ws` or `wss` (`secure`), host, port and path.
pub struct Endpoint {
    pub secure: bool,
    pub host: String,
    pub port: u16,
    pub path: String,
}

/// The port a scheme uses when none is given: 443 for `wss`, 80 for `ws`.
pub open spec fn default_port(secure: bool) -> u16 {
    if secure {
        443
    } else {
        80
    }
}

/// The decimal digits of a port number.
pub open spec fn port_digits(p: u16) -> Seq<u8>
    decreases p,
{
    if p < 10 {
        seq![(48 + p) as u8]
    } else {
        port_digits(p / 10) + seq![(48 + p % 10) as u8]
    }
}

/// The value of the `Host` header for an endpoint: the host, and `:port`
/// unless the port is the scheme's default.
pub open spec fn host_header(secure: bool, host: Seq<u8>, port: u16) -> Seq<u8> {
    if port == default_port(secure) {
        host
    } else {
        host + lit(":") + port_digits(port)
    }
}

fn write_port(out: &mut Vec<u8>, p: u16)
    ensures
        final(out)@ == old(out)@ + port_digits(p),
    decreases p,
{
    if p < 10 {
        out.push(48 + p as u8);
    } else {
        write_port(out, p / 10);
        out.push(48 + (p % 10) as u8);
    }
}

proof fn lemma_port_digits_ascii(p: u16)
    ensures
        forall|i: int| 0 <= i < port_digits(p).len() ==> #[trigger] port_digits(p)[i] < 128,
    decreases p,
{
    if p >= 10 {
        lemma_port_digits_ascii(p / 10);
        let a = port_digits(p / 10);
        let d = (48 + p % 10) as u8;
        assert(port_digits(p) == a + seq![d]);
        assert forall|i: int| 0 <= i < port_digits(p).len() implies #[trigger] port_digits(p)[i] < 128 by {
            if i < a.len() {
                assert(port_digits(p)[i] == a[i]);
            } else {
                assert(port_digits(p)[i] == d);
            }
        }
    }
}

proof fn lemma_ascii_valid(b: Seq<u8>)
    requires
        forall|i: int| 0 <= i < b.len() ==> #[trigger] b[i] < 128,
    ensures
        valid_utf8(b),
{
    assert(b.subrange(0, 0) =~= Seq::<u8>::empty());
    assert(valid_utf8(Seq::<u8>::empty()));
    assert(partial_valid_utf8(b, 0));
    assert forall|i: int| 0 <= 0 <= i < b.len() <= b.len() implies #[trigger] is_leading_byte_width_1(b[i]) by {
        assert(b[i] < 128);
    }
    partial_valid_utf8_extend_ascii_block(b, 0, b.len() as int);
    assert(b.subrange(0, b.len() as int) =~= b);
}

impl Endpoint {
    /// The endpoint of a scheme, host, optional port and path. The scheme
    /// must be `ws` or `wss`, and the host must not be empty.
    pub fn new(scheme: &str, host: String, port: Option<u16>, path: String) -> (r: Result<Endpoint, WebSocketError>)
        ensures
            (encode_utf8(scheme@) != lit("ws") && encode_utf8(scheme@) != lit("wss")) ==> r matches Err(
                WebSocketError::WebSocketUrlError(WSUrlErrorKind::InvalidScheme),
            ),
            (encode_utf8(scheme@) == lit("ws") || encode_utf8(scheme@) == lit("wss")) && host@.len() == 0
                ==> r matches Err(WebSocketError::WebSocketUrlError(WSUrlErrorKind::NoHostName)),
            (encode_utf8(scheme@) == lit("ws") || encode_utf8(scheme@) == lit("wss")) && host@.len() > 0
                ==> (r matches Ok(e) && e.secure == (encode_utf8(scheme@) == lit("wss")) && e.host@ == host@
                && e.path@ == path@ && e.port == match port {
                Some(p) => p,
                None => default_port(e.secure),
            }),
    {
        let secure = if bytes_eq(scheme.as_bytes(), "wss".as_bytes()) {
            true
        } else if bytes_eq(scheme.as_bytes(), "ws".as_bytes()) {
            false
        } else {
            return Err(WebSocketError::WebSocketUrlError(WSUrlErrorKind::InvalidScheme));
        };
        if host.as_str().is_empty() {
            return Err(WebSocketError::WebSocketUrlError(WSUrlErrorKind::NoHostName));
        }
        let port = match port {
            Some(p) => p,
            None => if secure {
                443
            } else {
                80
            },
        };
        Ok(Endpoint { secure, host, port, path })
    }

    /// The value of the `Host` header for this endpoint.
    pub fn host_header(&self) -> (r: String)
        ensures
            encode_utf8(r@) == host_header(self.secure, encode_utf8(self.host@), self.port),
    {
        let mut out = slice_to_vec(self.host.as_str().as_bytes());
        let default = if self.secure {
            443
        } else {
            80
        };
        if self.port != default {
            let ghost h = out@;
            append_bytes(&mut out, ":".as_bytes());
            let ghost c = out@;
            write_port(&mut out, self.port);
            proof {
                encode_utf8_valid_utf8(self.host@);
                encode_utf8_valid_utf8(":"@);
                lemma_port_digits_ascii(self.port);
                lemma_ascii_valid(port_digits(self.port));
                valid_utf8_concat(h, lit(":"));
                valid_utf8_concat(c, port_digits(self.port));
            }
        } else {
            proof {
                encode_utf8_valid_utf8(self.host@);
            }
        }
        match bytes_to_string(out.as_slice()) {
            Ok(s) => {
                proof {
                    decode_utf8_encode_utf8(out@);
                }
                s
            },
            Err(_) => {
                assert(false);
                self.host.as_str().to_owned()
            },
        }
    }
}

/// Builds clients with a builder-style API.
pub struct ClientBuilder {
    pub endpoint: Endpoint,
    pub protocols: Option<Vec<String>>,
    pub extensions: Option<Vec<Extension>>,
    pub ssl_context: Option<openssl::ssl::SslContext>,
}

/// What can go wrong while a client connects.
pub enum ConnErr {
    /// The endpoint names no host.
    NoHost,
    /// The default TLS context could not be made.
    MakingDefaultContext(openssl::error::ErrorStack),
    /// The TLS connection failed.
    SslConnect(openssl::error::ErrorStack),
    /// The TCP connection failed.
    TcpConnect(std::io::Error),
}

impl ClientBuilder {
    /// A builder for a client of the given endpoint.
    pub fn new(endpoint: Endpoint) -> (r: Self)
        ensures
            r.endpoint == endpoint,
            r.protocols is None,
            r.extensions is None,
            r.ssl_context is None,
    {
        ClientBuilder { endpoint, protocols: None, extensions: None, ssl_context: None }
    }

    /// Offers the given subprotocols.
    pub fn protocols(self, protocols: Vec<String>) -> (r: Self)
        ensures
            r.protocols == Some(protocols),
            r.endpoint == self.endpoint,
            r.extensions == self.extensions,
            r.ssl_context == self.ssl_context,
    {
        ClientBuilder { protocols: Some(protocols), ..self }
    }

    /// Offers the given extensions.
    pub fn extensions(self, extensions: Vec<Extension>) -> (r: Self)
        ensures
            r.extensions == Some(extensions),
            r.endpoint == self.endpoint,
            r.protocols == self.protocols,
            r.ssl_context == self.ssl_context,
    {
        ClientBuilder { extensions: Some(extensions), ..self }
    }

    /// Uses the given TLS context for a `wss` endpoint.
    pub fn ssl_context(self, context: openssl::ssl::SslContext) -> (r: Self)
        ensures
            r.ssl_context == Some(context),
            r.endpoint == self.endpoint,
            r.protocols == self.protocols,
            r.extensions == self.extensions,
    {
        ClientBuilder { ssl_context: Some(context), ..self }
    }

    /// The handshake request for this client, with the given key, and the
    /// endpoint, subprotocols and extensions of the builder.
    pub fn request_with_key(self, key: WebSocketKey) -> (r: (Request, Endpoint, Option<openssl::ssl::SslContext>))
        ensures
            encode_utf8(r.0.host.0@) == host_header(self.endpoint.secure, encode_utf8(self.endpoint.host@), self.endpoint.port),
            r.0.resource@ == self.endpoint.path@,
            r.0.key == key,
            match self.protocols {
                Some(p) => r.0.protocol matches Some(q) && q.0 == p,
                None => r.0.protocol is None,
            },
            match self.extensions {
                Some(e) => r.0.extensions == Some(WebSocketExtensions(e)),
                None => r.0.extensions is None,
            },
            r.1 == self.endpoint,
            r.2 == self.ssl_context,
    {
        let host = self.endpoint.host_header();
        let path = self.endpoint.path.as_str().to_owned();
        let mut request = Request::with_key(host, RequestOpts { resource: Some(path), protocols: self.protocols }, key);
        match self.extensions {
            Some(e) => request.with_extensions(e),
            None => {},
        }
        (request, self.endpoint, self.ssl_context)
    }

    /// The handshake request for this client, with a fresh random key.
    pub fn request(self) -> (r: (Request, Endpoint, Option<openssl::ssl::SslContext>))
        ensures
            encode_utf8(r.0.host.0@) == host_header(self.endpoint.secure, encode_utf8(self.endpoint.host@), self.endpoint.port),
            r.0.resource@ == self.endpoint.path@,
            exists|b: Seq<u8>| b.len() == 16 && r.0.key.0@ == base64_of(b),
            r.1 == self.endpoint,
            r.2 == self.ssl_context,
    {
        self.request_with_key(WebSocketKey::new())
    }
}

} // verus!
