//! WebSocket extensions and the `Sec-WebSocket-Extensions` header.
//!
//! The library negotiates extensions but performs no payload transform: the
//! negotiated `permessage-deflate` configuration is handed to a compressor
//! outside of it.

use vstd::prelude::*;
use vstd::slice::slice_to_vec;
use vstd::utf8::{decode_utf8_encode_utf8, encode_utf8, valid_utf8};
use crate::handshake::{lit, SEC_WEBSOCKET_EXTENSIONS};
use crate::headers::{join_list, Header, Serialize, header_line, write_header_line};
use crate::http::{append_bytes, bytes_eq, find_byte, next_byte, trim, trim_bytes};
use crate::result::WebSocketError;
use crate::util::bytes_to_string;

verus! {

pub const PERMESSAGE_DEFLATE: &'static str = "permessage-deflate";
pub const SERVER_NO_CONTEXT_TAKEOVER: &'static str = "server_no_context_takeover";
pub const CLIENT_NO_CONTEXT_TAKEOVER: &'static str = "client_no_context_takeover";
pub const SERVER_MAX_WINDOW_BITS: &'static str = "server_max_window_bits";
pub const CLIENT_MAX_WINDOW_BITS: &'static str = "client_max_window_bits";
pub const INVALID_EXTENSION: &'static str = "Invalid Sec-WebSocket-Extensions extension name";

/// Configures the compressor / decompressor of `permessage-deflate`.
#[derive(Eq, PartialEq, Debug, Clone, Copy)]
pub struct DeflateConfig {
    /// `Some(())` asks the peer not to use context takeover.
    pub server_no_context_takeover: Option<()>,
    /// `Some(())` tells the peer that this client will not use context takeover.
    pub client_no_context_takeover: Option<()>,
    /// The base-2 logarithm (8 to 15) of the largest LZ77 window the peer may use.
    pub server_max_window_bits: Option<u8>,
    /// The base-2 logarithm (8 to 15) of the largest LZ77 window this side uses.
    pub client_max_window_bits: Option<u8>,
}

/// The configuration with every parameter absent.
pub open spec fn default_deflate() -> DeflateConfig {
    DeflateConfig {
        server_no_context_takeover: None,
        client_no_context_takeover: None,
        server_max_window_bits: None,
        client_max_window_bits: None,
    }
}

impl Default for DeflateConfig {
    fn default() -> (r: Self)
        ensures
            r == default_deflate(),
    {
        DeflateConfig {
            server_no_context_takeover: None,
            client_no_context_takeover: None,
            server_max_window_bits: None,
            client_max_window_bits: None,
        }
    }
}

/// A parameter for a custom extension.
#[derive(Eq, PartialEq, Clone, Debug)]
pub struct Parameter {
    /// The name of this parameter
    pub name: String,
    /// The value of this parameter, if any
    pub value: Option<String>,
}

/// A custom WebSocket extension.
#[derive(Eq, PartialEq, Clone, Debug)]
pub struct CustomExtension {
    /// The name of this extension
    pub name: String,
    /// The parameters for this extension
    pub params: Vec<Parameter>,
}

/// An extension used in a connection.
#[derive(Eq, PartialEq, Clone, Debug)]
pub enum Extension {
    /// The `permessage-deflate` extension.
    Deflate(DeflateConfig),
    /// A custom extension unknown to this library.
    Custom(CustomExtension),
}

/// A parameter as bytes: its name, and its value if it has one.
pub type ParamView = (Seq<u8>, Option<Seq<u8>>);

/// The mathematical content of an extension, with names and values as bytes.
pub enum ExtensionView {
    Deflate(DeflateConfig),
    Custom(Seq<u8>, Seq<ParamView>),
}

pub open spec fn parameter_view(p: Parameter) -> ParamView {
    (
        encode_utf8(p.name@),
        match p.value {
            Some(v) => Some(encode_utf8(v@)),
            None => None,
        },
    )
}

pub open spec fn parameters_view(ps: Seq<Parameter>) -> Seq<ParamView> {
    ps.map_values(|p: Parameter| parameter_view(p))
}

impl View for Extension {
    type V = ExtensionView;

    open spec fn view(&self) -> ExtensionView {
        match self {
            Extension::Deflate(c) => ExtensionView::Deflate(*c),
            Extension::Custom(e) => ExtensionView::Custom(encode_utf8(e.name@), parameters_view(e.params@)),
        }
    }
}

impl Extension {
    /// The default configuration of the `permessage-deflate` extension.
    pub fn deflate() -> (r: Self)
        ensures
            r@ == ExtensionView::Deflate(default_deflate()),
    {
        Extension::Deflate(DeflateConfig::default())
    }
}

impl CustomExtension {
    /// Creates a new extension with the given name and no parameters.
    pub fn new(name: String) -> (r: Self)
        ensures
            r.name@ == name@,
            r.params@.len() == 0,
    {
        CustomExtension { name, params: Vec::new() }
    }
}

impl Parameter {
    /// Creates a new parameter with the given name and value.
    pub fn new(name: String, value: Option<String>) -> (r: Parameter)
        ensures
            r.name@ == name@,
            r.value == value,
    {
        Parameter { name, value }
    }
}

/// The pieces of `v` from `i` on, separated by `sep`.
pub open spec fn split_from(v: Seq<u8>, sep: u8, i: int) -> Seq<Seq<u8>>
    decreases v.len() - i,
{
    if i < 0 || i > v.len() {
        seq![]
    } else {
        let j = next_byte(v, sep, i);
        if i <= j < v.len() {
            seq![v.subrange(i, j)] + split_from(v, sep, j + 1)
        } else {
            seq![v.subrange(i, v.len() as int)]
        }
    }
}

/// The pieces of `v` separated by `sep`; there is at least one.
pub open spec fn split(v: Seq<u8>, sep: u8) -> Seq<Seq<u8>> {
    split_from(v, sep, 0)
}

pub open spec fn pieces_view(v: Seq<Vec<u8>>) -> Seq<Seq<u8>> {
    v.map_values(|p: Vec<u8>| p@)
}

proof fn lemma_split_nonempty(v: Seq<u8>, sep: u8, i: int)
    requires
        0 <= i <= v.len(),
    ensures
        split_from(v, sep, i).len() >= 1,
    decreases v.len() - i,
{
    let j = next_byte(v, sep, i);
    if i <= j < v.len() {
        lemma_split_nonempty(v, sep, j + 1);
    }
}

/// Splits `v` at every `sep`.
pub fn split_bytes(v: &[u8], sep: u8) -> (r: Vec<Vec<u8>>)
    ensures
        pieces_view(r@) == split(v@, sep),
        r@.len() >= 1,
{
    let mut out: Vec<Vec<u8>> = Vec::new();
    let mut i: usize = 0;
    proof {
        lemma_split_nonempty(v@, sep, 0);
    }
    loop
        invariant
            i <= v@.len(),
            split(v@, sep) == pieces_view(out@) + split_from(v@, sep, i as int),
        decreases v@.len() - i,
    {
        let j = find_byte(v, sep, i);
        let piece = slice_to_vec(&v[i..j]);
        let ghost before = pieces_view(out@);
        out.push(piece);
        assert(pieces_view(out@) =~= before.push(piece@));
        if j >= v.len() {
            assert(split(v@, sep) =~= pieces_view(out@));
            return out;
        }
        assert(before + split_from(v@, sep, i as int) =~= pieces_view(out@) + split_from(v@, sep, j + 1));
        i = j + 1;
    }
}

/// A parameter piece: a name, then optionally `=` and a value; both trimmed.
pub open spec fn spec_parse_param(p: Seq<u8>) -> ParamView {
    let e = next_byte(p, 61, 0);
    if e < p.len() {
        (trim(p.subrange(0, e)), Some(trim(p.subrange(e + 1, p.len() as int))))
    } else {
        (trim(p), None)
    }
}

pub open spec fn raw_param_view(p: (Vec<u8>, Option<Vec<u8>>)) -> ParamView {
    (
        p.0@,
        match p.1 {
            Some(v) => Some(v@),
            None => None,
        },
    )
}

fn parse_param(p: &[u8]) -> (r: (Vec<u8>, Option<Vec<u8>>))
    ensures
        raw_param_view(r) == spec_parse_param(p@),
{
    let e = find_byte(p, 61, 0);
    if e < p.len() {
        (trim_bytes(&p[0..e]), Some(trim_bytes(&p[e + 1..p.len()])))
    } else {
        (trim_bytes(p), None)
    }
}

/// The window size of a `*_max_window_bits` value: a number from 8 to 15.
pub open spec fn window_bits(x: Seq<u8>) -> Option<u8> {
    if x.len() == 1 && 56 <= x[0] <= 57 {
        Some((x[0] - 48) as u8)
    } else if x.len() == 2 && x[0] == 49 && 48 <= x[1] <= 53 {
        Some((x[1] - 38) as u8)
    } else {
        None
    }
}

fn parse_window_bits(x: &[u8]) -> (r: Option<u8>)
    ensures
        r == window_bits(x@),
{
    if x.len() == 1 && 56 <= x[0] && x[0] <= 57 {
        Some(x[0] - 48)
    } else if x.len() == 2 && x[0] == 49 && 48 <= x[1] && x[1] <= 53 {
        Some(x[1] - 38)
    } else {
        None
    }
}

/// The configuration after one `permessage-deflate` parameter (RFC 7692):
/// `None` for an unknown, repeated or malformed parameter. A
/// `client_max_window_bits` without a value stands for 15.
pub open spec fn spec_apply_deflate(c: DeflateConfig, p: ParamView) -> Option<DeflateConfig> {
    let (n, v) = p;
    if n == lit(SERVER_NO_CONTEXT_TAKEOVER) && v is None && c.server_no_context_takeover is None {
        Some(DeflateConfig { server_no_context_takeover: Some(()), ..c })
    } else if n == lit(CLIENT_NO_CONTEXT_TAKEOVER) && v is None && c.client_no_context_takeover is None {
        Some(DeflateConfig { client_no_context_takeover: Some(()), ..c })
    } else if n == lit(SERVER_MAX_WINDOW_BITS) && c.server_max_window_bits is None && (v matches Some(
        x) && window_bits(x) is Some) {
        Some(DeflateConfig { server_max_window_bits: window_bits(v.unwrap()), ..c })
    } else if n == lit(CLIENT_MAX_WINDOW_BITS) && c.client_max_window_bits is None && v is None {
        Some(DeflateConfig { client_max_window_bits: Some(15), ..c })
    } else if n == lit(CLIENT_MAX_WINDOW_BITS) && c.client_max_window_bits is None && (v matches Some(
        x) && window_bits(x) is Some) {
        Some(DeflateConfig { client_max_window_bits: window_bits(v.unwrap()), ..c })
    } else {
        None
    }
}

/// The configuration after the parameters from `i` on.
pub open spec fn spec_deflate_from(ps: Seq<ParamView>, c: DeflateConfig, i: int) -> Option<DeflateConfig>
    decreases ps.len() - i,
{
    if i < 0 || i >= ps.len() {
        Some(c)
    } else {
        match spec_apply_deflate(c, ps[i]) {
            Some(c2) => spec_deflate_from(ps, c2, i + 1),
            None => None,
        }
    }
}

fn apply_deflate(c: DeflateConfig, p: &(Vec<u8>, Option<Vec<u8>>)) -> (r: Option<DeflateConfig>)
    ensures
        r == spec_apply_deflate(c, raw_param_view(*p)),
{
    let n = p.0.as_slice();
    if bytes_eq(n, SERVER_NO_CONTEXT_TAKEOVER.as_bytes()) && p.1.is_none()
        && c.server_no_context_takeover.is_none() {
        return Some(DeflateConfig { server_no_context_takeover: Some(()), ..c });
    }
    if bytes_eq(n, CLIENT_NO_CONTEXT_TAKEOVER.as_bytes()) && p.1.is_none()
        && c.client_no_context_takeover.is_none() {
        return Some(DeflateConfig { client_no_context_takeover: Some(()), ..c });
    }
    let bits = match &p.1 {
        Some(x) => parse_window_bits(x.as_slice()),
        None => None,
    };
    if bytes_eq(n, SERVER_MAX_WINDOW_BITS.as_bytes()) && c.server_max_window_bits.is_none()
        && bits.is_some() {
        return Some(DeflateConfig { server_max_window_bits: bits, ..c });
    }
    if bytes_eq(n, CLIENT_MAX_WINDOW_BITS.as_bytes()) && c.client_max_window_bits.is_none() {
        if p.1.is_none() {
            return Some(DeflateConfig { client_max_window_bits: Some(15), ..c });
        }
        if bits.is_some() {
            return Some(DeflateConfig { client_max_window_bits: bits, ..c });
        }
    }
    None
}

/// Whether every name and value of the parameters is UTF-8.
pub open spec fn params_utf8(ps: Seq<ParamView>) -> bool {
    forall|i: int|
        0 <= i < ps.len() ==> valid_utf8((#[trigger] ps[i]).0) && (ps[i].1 matches Some(v) ==> valid_utf8(v))
}

/// The parameters of the pieces after the first.
pub open spec fn parse_params(pieces: Seq<Seq<u8>>) -> Seq<ParamView> {
    pieces.drop_first().map_values(|p: Seq<u8>| spec_parse_param(p))
}

/// The extension that one element of a `Sec-WebSocket-Extensions` value
/// names: the name, then parameters, separated by semicolons.
pub open spec fn spec_parse_extension(v: Seq<u8>) -> Option<ExtensionView> {
    let pieces = split(v, 59);
    let name = trim(pieces[0]);
    let params = parse_params(pieces);
    if name.len() == 0 {
        None
    } else if name == lit(PERMESSAGE_DEFLATE) {
        match spec_deflate_from(params, default_deflate(), 0) {
            Some(c) => Some(ExtensionView::Deflate(c)),
            None => None,
        }
    } else if valid_utf8(name) && params_utf8(params) {
        Some(ExtensionView::Custom(name, params))
    } else {
        None
    }
}

fn string_of(b: &[u8]) -> (r: Option<String>)
    ensures
        r is Some <==> valid_utf8(b@),
        r matches Some(s) ==> encode_utf8(s@) == b@,
{
    match bytes_to_string(b) {
        Ok(s) => {
            proof {
                decode_utf8_encode_utf8(b@);
            }
            Some(s)
        },
        Err(_) => None,
    }
}

/// Parses one element of a `Sec-WebSocket-Extensions` value.
pub fn parse_extension(v: &[u8]) -> (r: Result<Extension, WebSocketError>)
    ensures
        match spec_parse_extension(v@) {
            Some(e) => r matches Ok(x) && x@ == e,
            None => r == Err::<Extension, WebSocketError>(WebSocketError::ProtocolError(INVALID_EXTENSION)),
        },
{
    let pieces = split_bytes(v, 59);
    let ghost pv = pieces_view(pieces@);
    let name = trim_bytes(pieces[0].as_slice());
    assert(pv[0] == pieces@[0]@);
    assert(name@ == trim(pv[0]));
    let mut params: Vec<(Vec<u8>, Option<Vec<u8>>)> = Vec::new();
    let ghost all = parse_params(pv);
    let mut i: usize = 1;
    while i < pieces.len()
        invariant
            1 <= i <= pieces@.len(),
            pv == pieces_view(pieces@),
            all == parse_params(pv),
            params@.len() == i - 1,
            pv == split(v@, 59),
            forall|k: int| 0 <= k < i - 1 ==> raw_param_view(#[trigger] params@[k]) == all[k],
        decreases pieces@.len() - i,
    {
        let p = parse_param(pieces[i].as_slice());
        params.push(p);
        i += 1;
    }
    if name.len() == 0 {
        return Err(WebSocketError::ProtocolError(INVALID_EXTENSION));
    }
    if bytes_eq(name.as_slice(), PERMESSAGE_DEFLATE.as_bytes()) {
        let mut c = DeflateConfig::default();
        let mut k: usize = 0;
        while k < params.len()
            invariant
                k <= params@.len(),
                params@.len() == all.len(),
                forall|m: int| 0 <= m < all.len() ==> raw_param_view(#[trigger] params@[m]) == all[m],
                spec_deflate_from(all, default_deflate(), 0) == spec_deflate_from(all, c, k as int),
                name@ == lit(PERMESSAGE_DEFLATE),
                name@ == trim(pv[0]),
                pv == split(v@, 59),
                all == parse_params(pv),
            decreases params@.len() - k,
        {
            assert(all[k as int] == raw_param_view(params@[k as int]));
            match apply_deflate(c, &params[k]) {
                Some(c2) => c = c2,
                None => {
                    return Err(WebSocketError::ProtocolError(INVALID_EXTENSION));
                },
            }
            k += 1;
        }
        return Ok(Extension::Deflate(c));
    }
    let ext_name = match string_of(name.as_slice()) {
        Some(s) => s,
        None => return Err(WebSocketError::ProtocolError(INVALID_EXTENSION)),
    };
    let mut out: Vec<Parameter> = Vec::new();
    let mut k: usize = 0;
    while k < params.len()
        invariant
            k <= params@.len(),
            params@.len() == all.len(),
            forall|m: int| 0 <= m < all.len() ==> raw_param_view(#[trigger] params@[m]) == all[m],
            params_utf8(all.subrange(0, k as int)),
            parameters_view(out@) == all.subrange(0, k as int),
            name@ == trim(pv[0]),
            name@ != lit(PERMESSAGE_DEFLATE),
            name@.len() != 0,
            valid_utf8(name@),
            encode_utf8(ext_name@) == name@,
            pv == split(v@, 59),
            all == parse_params(pv),
        decreases params@.len() - k,
    {
        assert(all[k as int] == raw_param_view(params@[k as int]));
        let pname = match string_of(params[k].0.as_slice()) {
            Some(s) => s,
            None => {
                assert(!valid_utf8(all[k as int].0));
                assert(!params_utf8(all));
                return Err(WebSocketError::ProtocolError(INVALID_EXTENSION));
            },
        };
        let pvalue = match &params[k].1 {
            Some(x) => match string_of(x.as_slice()) {
                Some(s) => Some(s),
                None => {
                    assert(!params_utf8(all)) by {
                        assert(all[k as int].1 == Some(x@));
                    }
                    return Err(WebSocketError::ProtocolError(INVALID_EXTENSION));
                },
            },
            None => None,
        };
        let param = Parameter { name: pname, value: pvalue };
        let ghost before = parameters_view(out@);
        out.push(param);
        assert(parameters_view(out@) =~= before.push(parameter_view(param)));
        assert(parameters_view(out@) =~= all.subrange(0, k + 1));
        assert(valid_utf8(all[k as int].0));
        assert(all[k as int].1 matches Some(v) ==> valid_utf8(v));
        assert forall|m: int| 0 <= m < k + 1 implies valid_utf8((#[trigger] all.subrange(0, k + 1)[m]).0) && (
        all.subrange(0, k + 1)[m].1 matches Some(v) ==> valid_utf8(v)) by {
            if m < k {
                assert(all.subrange(0, k + 1)[m] == all.subrange(0, k as int)[m]);
            } else {
                assert(all.subrange(0, k + 1)[m] == all[k as int]);
            }
        }
        k += 1;
    }
    assert(all.subrange(0, k as int) =~= all);
    Ok(Extension::Custom(CustomExtension { name: ext_name, params: out }))
}

/// A parameter on the wire: its name, then `=` and its value if it has one.
pub open spec fn param_bytes(p: ParamView) -> Seq<u8> {
    p.0 + match p.1 {
        Some(v) => lit("=") + v,
        None => seq![],
    }
}

/// Parameters on the wire, each preceded by a semicolon and a space.
pub open spec fn params_bytes(ps: Seq<ParamView>) -> Seq<u8>
    decreases ps.len(),
{
    if ps.len() == 0 {
        seq![]
    } else {
        params_bytes(ps.drop_last()) + lit("; ") + param_bytes(ps.last())
    }
}

/// The decimal digits of a byte.
pub open spec fn decimal(b: u8) -> Seq<u8> {
    if b < 10 {
        seq![(48 + b) as u8]
    } else if b < 100 {
        seq![(48 + b / 10) as u8, (48 + b % 10) as u8]
    } else {
        seq![(48 + b / 100) as u8, (48 + (b / 10) % 10) as u8, (48 + b % 10) as u8]
    }
}

pub open spec fn flag_bytes(set: bool, name: &str) -> Seq<u8> {
    if set {
        lit("; ") + lit(name)
    } else {
        seq![]
    }
}

pub open spec fn bits_bytes(bits: Option<u8>, name: &str) -> Seq<u8> {
    match bits {
        Some(b) => lit("; ") + lit(name) + lit("=") + decimal(b),
        None => seq![],
    }
}

/// The `permessage-deflate` extension on the wire.
pub open spec fn deflate_bytes(c: DeflateConfig) -> Seq<u8> {
    lit(PERMESSAGE_DEFLATE) + flag_bytes(c.server_no_context_takeover is Some, SERVER_NO_CONTEXT_TAKEOVER)
        + flag_bytes(c.client_no_context_takeover is Some, CLIENT_NO_CONTEXT_TAKEOVER) + bits_bytes(
        c.server_max_window_bits,
        SERVER_MAX_WINDOW_BITS,
    ) + bits_bytes(c.client_max_window_bits, CLIENT_MAX_WINDOW_BITS)
}

/// An extension on the wire.
pub open spec fn extension_bytes(e: ExtensionView) -> Seq<u8> {
    match e {
        ExtensionView::Deflate(c) => deflate_bytes(c),
        ExtensionView::Custom(name, ps) => name + params_bytes(ps),
    }
}

fn write_decimal(out: &mut Vec<u8>, b: u8)
    ensures
        final(out)@ == old(out)@ + decimal(b),
{
    let ghost start = out@;
    if b < 10 {
        out.push(48 + b);
    } else if b < 100 {
        out.push(48 + b / 10);
        out.push(48 + b % 10);
    } else {
        out.push(48 + b / 100);
        out.push(48 + (b / 10) % 10);
        out.push(48 + b % 10);
    }
    assert(out@ =~= start + decimal(b));
}

fn write_flag(out: &mut Vec<u8>, set: bool, name: &'static str)
    ensures
        final(out)@ == old(out)@ + flag_bytes(set, name),
{
    let ghost start = out@;
    if set {
        append_bytes(out, "; ".as_bytes());
        append_bytes(out, name.as_bytes());
    }
    assert(out@ =~= start + flag_bytes(set, name));
}

fn write_bits(out: &mut Vec<u8>, bits: Option<u8>, name: &'static str)
    ensures
        final(out)@ == old(out)@ + bits_bytes(bits, name),
{
    let ghost start = out@;
    match bits {
        Some(b) => {
            append_bytes(out, "; ".as_bytes());
            append_bytes(out, name.as_bytes());
            append_bytes(out, "=".as_bytes());
            write_decimal(out, b);
        },
        None => {},
    }
    assert(out@ =~= start + bits_bytes(bits, name));
}

impl Extension {
    /// Appends this extension as it stands in a `Sec-WebSocket-Extensions`
    /// value to `out`.
    pub fn write_to(&self, out: &mut Vec<u8>)
        ensures
            final(out)@ == old(out)@ + extension_bytes(self@),
    {
        let ghost start = out@;
        match self {
            Extension::Deflate(c) => {
                append_bytes(out, PERMESSAGE_DEFLATE.as_bytes());
                write_flag(out, c.server_no_context_takeover.is_some(), SERVER_NO_CONTEXT_TAKEOVER);
                write_flag(out, c.client_no_context_takeover.is_some(), CLIENT_NO_CONTEXT_TAKEOVER);
                write_bits(out, c.server_max_window_bits, SERVER_MAX_WINDOW_BITS);
                write_bits(out, c.client_max_window_bits, CLIENT_MAX_WINDOW_BITS);
                assert(out@ =~= start + extension_bytes(self@));
            },
            Extension::Custom(e) => {
                append_bytes(out, e.name.as_str().as_bytes());
                let ghost all = parameters_view(e.params@);
                let ghost mid = out@;
                let mut i: usize = 0;
                while i < e.params.len()
                    invariant
                        i <= e.params@.len(),
                        all == parameters_view(e.params@),
                        out@ == mid + params_bytes(all.subrange(0, i as int)),
                    decreases e.params@.len() - i,
                {
                    let ghost prev = out@;
                    let p = &e.params[i];
                    append_bytes(out, "; ".as_bytes());
                    append_bytes(out, p.name.as_str().as_bytes());
                    match &p.value {
                        Some(v) => {
                            append_bytes(out, "=".as_bytes());
                            append_bytes(out, v.as_str().as_bytes());
                        },
                        None => {},
                    }
                    assert(all[i as int] == parameter_view(*p));
                    assert(all.subrange(0, i + 1).drop_last() =~= all.subrange(0, i as int));
                    assert(out@ =~= prev + lit("; ") + param_bytes(all[i as int]));
                    i += 1;
                }
                assert(all.subrange(0, i as int) =~= all);
                assert(out@ =~= start + extension_bytes(self@));
            },
        }
    }

    /// This extension as it stands in a `Sec-WebSocket-Extensions` value.
    pub fn to_bytes(&self) -> (r: Vec<u8>)
        ensures
            r@ == extension_bytes(self@),
    {
        let mut out: Vec<u8> = Vec::new();
        self.write_to(&mut out);
        assert(out@ =~= extension_bytes(self@));
        out
    }
}

/// A copy of an extension.
pub fn clone_extension(e: &Extension) -> (r: Extension)
    ensures
        r@ == e@,
{
    match e {
        Extension::Deflate(c) => Extension::Deflate(*c),
        Extension::Custom(c) => {
            let mut params: Vec<Parameter> = Vec::new();
            let mut i: usize = 0;
            while i < c.params.len()
                invariant
                    i <= c.params@.len(),
                    parameters_view(params@) == parameters_view(c.params@).subrange(0, i as int),
                decreases c.params@.len() - i,
            {
                let p = &c.params[i];
                let value = match &p.value {
                    Some(v) => Some(v.as_str().to_owned()),
                    None => None,
                };
                let q = Parameter { name: p.name.as_str().to_owned(), value };
                let ghost before = parameters_view(params@);
                params.push(q);
                assert(parameters_view(params@) =~= before.push(parameter_view(q)));
                assert(parameter_view(q) == parameters_view(c.params@)[i as int]);
                assert(parameters_view(params@) =~= parameters_view(c.params@).subrange(0, i + 1));
                i += 1;
            }
            assert(parameters_view(c.params@).subrange(0, i as int) =~= parameters_view(c.params@));
            Extension::Custom(CustomExtension { name: c.name.as_str().to_owned(), params })
        },
    }
}

/// The name of an extension.
pub open spec fn extension_name(e: ExtensionView) -> Seq<u8> {
    match e {
        ExtensionView::Deflate(_) => lit(PERMESSAGE_DEFLATE),
        ExtensionView::Custom(name, _) => name,
    }
}

impl Extension {
    /// The name of this extension.
    pub fn name_bytes(&self) -> (r: Vec<u8>)
        ensures
            r@ == extension_name(self@),
    {
        match self {
            Extension::Deflate(_) => slice_to_vec(PERMESSAGE_DEFLATE.as_bytes()),
            Extension::Custom(e) => slice_to_vec(e.name.as_str().as_bytes()),
        }
    }
}

/// The names of a list of extensions.
pub open spec fn extension_names(es: Seq<Extension>) -> Seq<Seq<u8>> {
    es.map_values(|e: Extension| extension_name(e@))
}

/// The names of a list of extensions.
pub fn names_of(es: &Vec<Extension>) -> (r: Vec<Vec<u8>>)
    ensures
        crate::http::names_view(r@) == extension_names(es@),
{
    let mut out: Vec<Vec<u8>> = Vec::new();
    let mut i: usize = 0;
    while i < es.len()
        invariant
            i <= es@.len(),
            crate::http::names_view(out@) == extension_names(es@).subrange(0, i as int),
        decreases es@.len() - i,
    {
        let ghost before = crate::http::names_view(out@);
        let n = es[i].name_bytes();
        out.push(n);
        assert(crate::http::names_view(out@) =~= before.push(n@));
        assert(crate::http::names_view(out@) =~= extension_names(es@).subrange(0, i + 1));
        i += 1;
    }
    assert(extension_names(es@).subrange(0, i as int) =~= extension_names(es@));
    out
}

/// Represents a Sec-WebSocket-Extensions header: a list of extensions.
#[derive(PartialEq, Eq, Clone, Debug)]
pub struct WebSocketExtensions(pub Vec<Extension>);

pub open spec fn extensions_view(es: Seq<Extension>) -> Seq<ExtensionView> {
    es.map_values(|e: Extension| e@)
}

/// The extensions of the comma-separated elements from `i` on; elements
/// that are blank are skipped.
pub open spec fn spec_parse_extensions_from(pieces: Seq<Seq<u8>>, i: int) -> Option<Seq<ExtensionView>>
    decreases pieces.len() - i,
{
    if i < 0 || i >= pieces.len() {
        Some(seq![])
    } else if trim(pieces[i]).len() == 0 {
        spec_parse_extensions_from(pieces, i + 1)
    } else {
        match (spec_parse_extension(pieces[i]), spec_parse_extensions_from(pieces, i + 1)) {
            (Some(e), Some(rest)) => Some(seq![e] + rest),
            _ => None,
        }
    }
}

/// The extensions of a `Sec-WebSocket-Extensions` value.
pub open spec fn spec_parse_extensions(v: Seq<u8>) -> Option<Seq<ExtensionView>> {
    spec_parse_extensions_from(split(v, 44), 0)
}

impl WebSocketExtensions {
    /// Parses a `Sec-WebSocket-Extensions` value.
    pub fn parse(value: &[u8]) -> (r: Result<WebSocketExtensions, WebSocketError>)
        ensures
            match spec_parse_extensions(value@) {
                Some(es) => r matches Ok(x) && extensions_view(x.0@) == es,
                None => r == Err::<WebSocketExtensions, WebSocketError>(
                    WebSocketError::ProtocolError(INVALID_EXTENSION),
                ),
            },
    {
        let pieces = split_bytes(value, 44);
        let ghost pv = pieces_view(pieces@);
        let mut out: Vec<Extension> = Vec::new();
        let mut i: usize = 0;
        while i < pieces.len()
            invariant
                i <= pieces@.len(),
                pv == pieces_view(pieces@),
                pv == split(value@, 44),
                match spec_parse_extensions_from(pv, i as int) {
                    Some(rest) => spec_parse_extensions(value@) == Some(extensions_view(out@) + rest),
                    None => spec_parse_extensions(value@) is None,
                },
            decreases pieces@.len() - i,
        {
            assert(pv[i as int] == pieces@[i as int]@);
            let t = trim_bytes(pieces[i].as_slice());
            if t.len() != 0 {
                match parse_extension(pieces[i].as_slice()) {
                    Ok(e) => {
                        let ghost before = extensions_view(out@);
                        out.push(e);
                        assert(extensions_view(out@) =~= before.push(e@));
                        proof {
                            match spec_parse_extensions_from(pv, i + 1) {
                                Some(rest) => {
                                    assert(before + (seq![e@] + rest) =~= before.push(e@) + rest);
                                },
                                None => {},
                            }
                        }
                    },
                    Err(e) => return Err(e),
                }
            }
            i += 1;
        }
        assert(extensions_view(out@) + seq![] =~= extensions_view(out@));
        Ok(WebSocketExtensions(out))
    }
}

impl Header for WebSocketExtensions {
    open spec fn spec_name() -> Seq<u8> {
        lit(SEC_WEBSOCKET_EXTENSIONS)
    }

    open spec fn spec_value(&self) -> Seq<u8> {
        join_list(extensions_view(self.0@).map_values(|e: ExtensionView| extension_bytes(e)))
    }

    fn field() -> (r: &'static str) {
        SEC_WEBSOCKET_EXTENSIONS
    }

    fn write_value(&self, out: &mut Vec<u8>) {
        let ghost all = extensions_view(self.0@).map_values(|e: ExtensionView| extension_bytes(e));
        let ghost start = out@;
        let mut i: usize = 0;
        while i < self.0.len()
            invariant
                i <= self.0@.len(),
                all == extensions_view(self.0@).map_values(|e: ExtensionView| extension_bytes(e)),
                out@ == start + join_list(all.subrange(0, i as int)),
            decreases self.0@.len() - i,
        {
            let ghost prev = out@;
            if i > 0 {
                append_bytes(out, ", ".as_bytes());
            }
            self.0[i].write_to(out);
            proof {
                let sub = all.subrange(0, i + 1);
                assert(sub.drop_last() =~= all.subrange(0, i as int));
                assert(all[i as int] == extension_bytes(self.0@[i as int]@));
                if i == 0 {
                    assert(join_list(all.subrange(0, 0)) =~= seq![]);
                }
                assert(out@ =~= start + join_list(sub));
            }
            i += 1;
        }
        assert(all.subrange(0, i as int) =~= all);
    }
}

impl Serialize for WebSocketExtensions {
    open spec fn spec_serialized(&self) -> Seq<u8> {
        header_line(Self::spec_name(), self.spec_value())
    }

    fn serialize(&self, out: &mut Vec<u8>) {
        write_header_line(self, out);
    }
}

} // verus!
