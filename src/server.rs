//! The server side of a connection before its handshake is answered.

use vstd::prelude::*;
use crate::handshake::{answer_request, spec_answer_request, spec_parse_request, Response};
use crate::headers::{spec_accept, strings_bytes};
use crate::extensions::extensions_view;
use crate::http::{append_bytes, head_lines, names_view, next_crlf};
use crate::result::WebSocketError;

verus! {

/// A connection to the server whose handshake request has not been answered
/// yet: it collects the bytes read from the client.
pub struct Connection {
    incoming: Vec<u8>,
}

impl Connection {
    pub closed spec fn spec_incoming(&self) -> Seq<u8> {
        self.incoming@
    }

    /// A connection that has received nothing yet.
    pub fn new() -> (r: Connection)
        ensures
            r.spec_incoming() == Seq::<u8>::empty(),
    {
        Connection { incoming: Vec::new() }
    }

    /// Hands bytes read from the client to the connection.
    pub fn push_bytes(&mut self, data: &[u8])
        ensures
            final(self).spec_incoming() == old(self).spec_incoming() + data@,
    {
        append_bytes(&mut self.incoming, data);
    }

    /// Reads the handshake request from the bytes received, and builds the
    /// response that accepts it, with the first subprotocol the client offers
    /// among `supported` and the offered extensions whose names are among
    /// `supported_extensions`; the request's bytes are consumed. Before the
    /// whole request has arrived this gives `NoDataAvailable`; a request that
    /// fails the checks calls for `bad_request`.
    pub fn read_request(&mut self, supported: &Vec<String>, supported_extensions: &Vec<Vec<u8>>) -> (r:
        Result<Response, WebSocketError>)
        ensures
            match spec_answer_request(
                old(self).spec_incoming(),
                strings_bytes(supported@),
                names_view(supported_extensions@),
            ) {
                Err(e) => r == Err::<Response, WebSocketError>(e) && final(self).spec_incoming()
                    == old(self).spec_incoming(),
                Ok((k, n, p, es)) => r matches Ok(resp) && resp.accept.0@ == spec_accept(k)
                    && final(self).spec_incoming() == old(self).spec_incoming().subrange(
                    n,
                    old(self).spec_incoming().len() as int,
                ) && (match p {
                    Some(name) => resp.protocol matches Some(q) && strings_bytes(q.0@) == seq![name],
                    None => resp.protocol is None,
                }) && (if es.len() == 0 {
                    resp.extensions is None
                } else {
                    resp.extensions matches Some(x) && extensions_view(x.0@) == es
                }),
            },
    {
        match answer_request(self.incoming.as_slice(), supported, supported_extensions) {
            Ok((resp, n)) => {
                proof {
                    lemma_parse_request_size(self.incoming@);
                }
                let rest = self.incoming.split_off(n);
                self.incoming = rest;
                Ok(resp)
            },
            Err(e) => Err(e),
        }
    }

    /// The bytes received after the handshake request: the start of the
    /// frame stream.
    pub fn into_remaining(self) -> (r: Vec<u8>)
        ensures
            r@ == self.spec_incoming(),
    {
        self.incoming
    }
}

proof fn lemma_head_lines_size(s: Seq<u8>, pos: int)
    ensures
        head_lines(s, pos) matches Some((_, n)) ==> n <= s.len(),
    decreases s.len() - pos,
{
    let p = next_crlf(s, pos);
    if pos < 0 || p < pos || p + 2 > s.len() {
    } else if p == pos {
    } else {
        lemma_head_lines_size(s, p + 2);
    }
}

proof fn lemma_parse_request_size(s: Seq<u8>)
    ensures
        spec_parse_request(s) matches Ok((_, n)) ==> n <= s.len(),
{
    lemma_head_lines_size(s, 0);
}

} // verus!
