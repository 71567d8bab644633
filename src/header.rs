//! Reading and writing data frame headers (RFC 6455, section 5.2).

use vstd::prelude::*;
use crate::dataframe::Opcode;
use crate::result::WebSocketError;

verus! {

/// The `FIN` bit of the first header byte.
pub const FIN: u8 = 0x80;

/// The `RSV1` bit of the first header byte.
pub const RSV1: u8 = 0x40;

/// The `RSV2` bit of the first header byte.
pub const RSV2: u8 = 0x20;

/// The `RSV3` bit of the first header byte.
pub const RSV3: u8 = 0x10;

/// Represents a data frame header.
#[derive(Debug, Clone, Copy, PartialEq, Eq)]
pub struct DataFrameHeader {
    /// The bit flags for the first byte of the header (`FIN`, `RSV1..3`).
    pub flags: u8,
    /// The opcode of the header - must be < 16.
    pub opcode: u8,
    /// The masking key, if any.
    pub mask: Option<[u8; 4]>,
    /// The length of the payload.
    pub len: u64,
}

/// The mathematical content of a header: the masking key as a sequence.
pub struct HeaderView {
    pub flags: u8,
    pub opcode: u8,
    pub mask: Option<Seq<u8>>,
    pub len: u64,
}

pub open spec fn key_view(mask: Option<[u8; 4]>) -> Option<Seq<u8>> {
    match mask {
        Some(k) => Some(k@),
        None => None,
    }
}

impl View for DataFrameHeader {
    type V = HeaderView;

    open spec fn view(&self) -> HeaderView {
        HeaderView { flags: self.flags, opcode: self.opcode, mask: key_view(self.mask), len: self.len }
    }
}

impl DataFrameHeader {
    /// Only the four flag bits may be set in `flags`.
    pub open spec fn wf(self) -> bool {
        self.flags & 0x0F == 0
    }

    /// Whether `write_header` accepts this header.
    pub open spec fn writable(self) -> bool {
        self.opcode <= 15 && !(self.opcode >= 8 && self.len >= 126)
    }

    /// Creates a header for a payload of the given length.
    pub fn new(fin: bool, reserved: [bool; 3], opcode: Opcode, mask: Option<[u8; 4]>, len: u64) -> (r: Self)
        ensures
            r.wf(),
            r.opcode == opcode.spec_value(),
            r.opcode < 16,
            r.mask == mask,
            r.len == len,
            (r.flags & FIN != 0) == fin,
            (r.flags & RSV1 != 0) == reserved[0],
            (r.flags & RSV2 != 0) == reserved[1],
            (r.flags & RSV3 != 0) == reserved[2],
    {
        let a: u8 = if fin { FIN } else { 0 };
        let b: u8 = if reserved[0] { RSV1 } else { 0 };
        let c: u8 = if reserved[1] { RSV2 } else { 0 };
        let d: u8 = if reserved[2] { RSV3 } else { 0 };
        let flags: u8 = a | b | c | d;
        assert((a == 0 || a == 0x80) && (b == 0 || b == 0x40) && (c == 0 || c == 0x20) && (d == 0
            || d == 0x10) ==> {
            let f = a | b | c | d;
            &&& f & 0x0F == 0
            &&& (f & 0x80 != 0) == (a != 0)
            &&& (f & 0x40 != 0) == (b != 0)
            &&& (f & 0x20 != 0) == (c != 0)
            &&& (f & 0x10 != 0) == (d != 0)
        }) by (bit_vector);
        DataFrameHeader { flags, opcode: opcode.value(), mask, len }
    }
}

/// The big-endian bytes of a 16-bit value.
pub open spec fn be16_bytes(v: u16) -> Seq<u8> {
    seq![(v >> 8) as u8, v as u8]
}

/// The big-endian bytes of a 64-bit value.
pub open spec fn be64_bytes(v: u64) -> Seq<u8> {
    seq![
        (v >> 56) as u8,
        (v >> 48) as u8,
        (v >> 40) as u8,
        (v >> 32) as u8,
        (v >> 24) as u8,
        (v >> 16) as u8,
        (v >> 8) as u8,
        v as u8,
    ]
}

/// The 16-bit value of two big-endian bytes.
pub open spec fn be16_value(a: u8, b: u8) -> u16 {
    ((a as u16) << 8u16) | (b as u16)
}

/// The 64-bit value of the eight big-endian bytes of `s` starting at `at`.
pub open spec fn be64_value(s: Seq<u8>, at: int) -> u64 {
    ((s[at] as u64) << 56u64) | ((s[at + 1] as u64) << 48u64) | ((s[at + 2] as u64) << 40u64) | ((s[at
        + 3] as u64) << 32u64) | ((s[at + 4] as u64) << 24u64) | ((s[at + 5] as u64) << 16u64) | ((s[at
        + 6] as u64) << 8u64) | (s[at + 7] as u64)
}

/// The 7-bit length field of the second header byte.
pub open spec fn len_marker(len: u64) -> u8 {
    if len <= 125 {
        len as u8
    } else if len <= 65535 {
        126
    } else {
        127
    }
}

/// The extended payload length that follows the first two bytes.
pub open spec fn ext_len_bytes(len: u64) -> Seq<u8> {
    if len <= 125 {
        seq![]
    } else if len <= 65535 {
        be16_bytes(len as u16)
    } else {
        be64_bytes(len)
    }
}

pub open spec fn key_bytes(mask: Option<Seq<u8>>) -> Seq<u8> {
    match mask {
        Some(k) => k,
        None => seq![],
    }
}

/// The bytes of a header on the wire.
pub open spec fn header_bytes(h: HeaderView) -> Seq<u8> {
    seq![h.flags | h.opcode, (if h.mask is Some { 0x80u8 } else { 0u8 }) | len_marker(h.len)]
        + ext_len_bytes(h.len) + key_bytes(h.mask)
}

/// The number of bytes of a header with this length and masking: the length
/// determines how many extended length bytes follow.
pub open spec fn header_size(len: u64, masked: bool) -> nat {
    (if len <= 125 {
        2nat
    } else if len <= 65535 {
        4nat
    } else {
        10nat
    }) + (if masked {
        4nat
    } else {
        0nat
    })
}

/// A written header is 2, 4 or 10 bytes long, depending on the payload
/// length, plus four bytes when it carries a masking key.
pub proof fn lemma_header_size(h: DataFrameHeader)
    ensures
        header_bytes(h@).len() == header_size(h.len, h.mask is Some),
{
}

/// Writes a data frame header.
pub fn write_header(out: &mut Vec<u8>, header: DataFrameHeader) -> (r: Result<(), WebSocketError>)
    ensures
        r is Ok <==> header.writable(),
        r is Ok ==> final(out)@ == old(out)@ + header_bytes(header@),
        r is Err ==> final(out)@ == old(out)@ && r matches Err(WebSocketError::DataFrameError(_)),
{
    if header.opcode > 0xF {
        return Err(WebSocketError::DataFrameError("Invalid data frame opcode"));
    }
    if header.opcode >= 8 && header.len >= 126 {
        return Err(WebSocketError::DataFrameError("Control frame length too long"));
    }
    let ghost start = out@;
    out.push(header.flags | header.opcode);
    let mask_bit: u8 = if header.mask.is_some() { 0x80 } else { 0x00 };
    let marker: u8 = if header.len <= 125 {
        header.len as u8
    } else if header.len <= 65535 {
        126
    } else {
        127
    };
    out.push(mask_bit | marker);
    let len = header.len;
    if len >= 126 && len <= 65535 {
        out.push((len >> 8) as u8);
        out.push(len as u8);
        proof {
            let v = len as u16;
            assert((v >> 8) as u8 == (len >> 8) as u8 && v as u8 == len as u8) by (bit_vector)
                requires v == len as u16, len <= 65535;
        }
    } else if len > 65535 {
        out.push((len >> 56) as u8);
        out.push((len >> 48) as u8);
        out.push((len >> 40) as u8);
        out.push((len >> 32) as u8);
        out.push((len >> 24) as u8);
        out.push((len >> 16) as u8);
        out.push((len >> 8) as u8);
        out.push(len as u8);
    }
    match header.mask {
        Some(k) => {
            out.push(k[0]);
            out.push(k[1]);
            out.push(k[2]);
            out.push(k[3]);
            assert(k@ =~= seq![k[0], k[1], k[2], k[3]]);
        },
        None => {},
    }
    assert(out@ =~= start + header_bytes(header@));
    Ok(())
}

/// The header at the start of `s`, with its size in bytes; or the error
/// that reading it gives. Input that ends too early gives `NoDataAvailable`.
pub open spec fn spec_read_header(s: Seq<u8>) -> Result<(HeaderView, int), WebSocketError> {
    if s.len() < 2 {
        Err(WebSocketError::NoDataAvailable)
    } else {
        let b0 = s[0];
        let b1 = s[1];
        let flags = b0 & 0xF0u8;
        let opcode = b0 & 0x0Fu8;
        let marker = b1 & 0x7Fu8;
        let len_end: Result<(u64, int), WebSocketError> = if marker <= 125 {
            Ok((marker as u64, 2))
        } else if marker == 126 {
            if s.len() < 4 {
                Err(WebSocketError::NoDataAvailable)
            } else if be16_value(s[2], s[3]) <= 125 {
                Err(WebSocketError::DataFrameError("Invalid data frame length"))
            } else {
                Ok((be16_value(s[2], s[3]) as u64, 4))
            }
        } else {
            if s.len() < 10 {
                Err(WebSocketError::NoDataAvailable)
            } else if be64_value(s, 2) <= 65535 {
                Err(WebSocketError::DataFrameError("Invalid data frame length"))
            } else {
                Ok((be64_value(s, 2), 10))
            }
        };
        match len_end {
            Err(e) => Err(e),
            Ok((len, end)) => {
                if opcode >= 8 && len >= 126 {
                    Err(WebSocketError::DataFrameError("Control frame length too long"))
                } else if opcode >= 8 && flags & FIN == 0 {
                    Err(WebSocketError::DataFrameError("Illegal fragmented control frame"))
                } else if b1 & 0x80u8 == 0x80u8 {
                    if s.len() < end + 4 {
                        Err(WebSocketError::NoDataAvailable)
                    } else {
                        Ok(
                            (
                                HeaderView {
                                    flags,
                                    opcode,
                                    mask: Some(s.subrange(end, end + 4)),
                                    len,
                                },
                                end + 4,
                            ),
                        )
                    }
                } else {
                    Ok((HeaderView { flags, opcode, mask: None, len }, end))
                }
            },
        }
    }
}

/// Reads a data frame header from the start of `bytes`, returning it with the
/// number of bytes it took.
pub fn read_header(bytes: &[u8]) -> (r: Result<(DataFrameHeader, usize), WebSocketError>)
    ensures
        match r {
            Ok((h, n)) => spec_read_header(bytes@) == Ok::<(HeaderView, int), WebSocketError>(
                (h@, n as int),
            ),
            Err(e) => spec_read_header(bytes@) == Err::<(HeaderView, int), WebSocketError>(e),
        },
        r matches Ok((h, _)) ==> h.wf() && h.opcode < 16,
{
    if bytes.len() < 2 {
        return Err(WebSocketError::NoDataAvailable);
    }
    let b0 = bytes[0];
    let b1 = bytes[1];
    let flags = b0 & 0xF0u8;
    let opcode = b0 & 0x0Fu8;
    let marker = b1 & 0x7Fu8;
    assert(flags & 0x0F == 0 && opcode < 16) by (bit_vector)
        requires
            flags == b0 & 0xF0u8,
            opcode == b0 & 0x0Fu8,
    ;
    let len: u64;
    let end: usize;
    if marker <= 125 {
        len = marker as u64;
        end = 2;
    } else if marker == 126 {
        if bytes.len() < 4 {
            return Err(WebSocketError::NoDataAvailable);
        }
        let v: u16 = ((bytes[2] as u16) << 8u16) | (bytes[3] as u16);
        if v <= 125 {
            return Err(WebSocketError::DataFrameError("Invalid data frame length"));
        }
        len = v as u64;
        end = 4;
    } else {
        if bytes.len() < 10 {
            return Err(WebSocketError::NoDataAvailable);
        }
        let v: u64 = ((bytes[2] as u64) << 56u64) | ((bytes[3] as u64) << 48u64) | ((bytes[4] as u64)
            << 40u64) | ((bytes[5] as u64) << 32u64) | ((bytes[6] as u64) << 24u64) | ((bytes[7] as u64)
            << 16u64) | ((bytes[8] as u64) << 8u64) | (bytes[9] as u64);
        if v <= 65535 {
            return Err(WebSocketError::DataFrameError("Invalid data frame length"));
        }
        len = v;
        end = 10;
    }
    if opcode >= 8 && len >= 126 {
        return Err(WebSocketError::DataFrameError("Control frame length too long"));
    }
    if opcode >= 8 && flags & FIN == 0 {
        return Err(WebSocketError::DataFrameError("Illegal fragmented control frame"));
    }
    if b1 & 0x80u8 == 0x80u8 {
        if bytes.len() < end + 4 {
            return Err(WebSocketError::NoDataAvailable);
        }
        let k: [u8; 4] = [bytes[end], bytes[end + 1], bytes[end + 2], bytes[end + 3]];
        assert(k@ =~= bytes@.subrange(end as int, end + 4));
        Ok((DataFrameHeader { flags, opcode, mask: Some(k), len }, end + 4))
    } else {
        Ok((DataFrameHeader { flags, opcode, mask: None, len }, end))
    }
}

proof fn lemma_be16_round_trip(v: u16)
    ensures
        be16_value((v >> 8) as u8, v as u8) == v,
{
    assert(((((v >> 8) as u8) as u16) << 8u16) | ((v as u8) as u16) == v) by (bit_vector);
}

proof fn lemma_be64_round_trip(v: u64)
    ensures
        be64_value(be64_bytes(v), 0) == v,
{
    let s = be64_bytes(v);
    assert(s[0] == (v >> 56) as u8 && s[1] == (v >> 48) as u8 && s[2] == (v >> 40) as u8 && s[3] == (v
        >> 32) as u8 && s[4] == (v >> 24) as u8 && s[5] == (v >> 16) as u8 && s[6] == (v >> 8) as u8
        && s[7] == v as u8);
    assert(((((v >> 56) as u8) as u64) << 56u64) | ((((v >> 48) as u8) as u64) << 48u64) | ((((v
        >> 40) as u8) as u64) << 40u64) | ((((v >> 32) as u8) as u64) << 32u64) | ((((v >> 24) as u8)
        as u64) << 24u64) | ((((v >> 16) as u8) as u64) << 16u64) | ((((v >> 8) as u8) as u64) << 8u64)
        | ((v as u8) as u64) == v) by (bit_vector);
}

/// Reading back a written header gives the same header, whatever bytes
/// follow it. (Control headers must carry `FIN`: reading rejects the others.)
pub proof fn lemma_header_round_trip(h: DataFrameHeader, rest: Seq<u8>)
    requires
        h.wf(),
        h.writable(),
        h.opcode >= 8 ==> h.flags & FIN != 0,
    ensures
        spec_read_header(header_bytes(h@) + rest) == Ok::<(HeaderView, int), WebSocketError>(
            (h@, header_bytes(h@).len() as int),
        ),
{
    lemma_header_view_round_trip(h@, rest);
}

/// The header round trip, stated of a header's mathematical content.
pub proof fn lemma_header_view_round_trip(h: HeaderView, rest: Seq<u8>)
    requires
        h.flags & 0x0F == 0,
        h.opcode <= 15,
        h.opcode >= 8 ==> h.len < 126,
        h.opcode >= 8 ==> h.flags & FIN != 0,
        h.mask matches Some(k) ==> k.len() == 4,
    ensures
        spec_read_header(header_bytes(h) + rest) == Ok::<(HeaderView, int), WebSocketError>(
            (h, header_bytes(h).len() as int),
        ),
{
    let hb = header_bytes(h);
    let s = hb + rest;
    let flags = h.flags;
    let opcode = h.opcode;
    let b0 = flags | opcode;
    assert(b0 & 0xF0u8 == flags && b0 & 0x0Fu8 == opcode) by (bit_vector)
        requires
            flags & 0x0F == 0,
            opcode <= 15,
            b0 == flags | opcode,
    ;
    let mb: u8 = if h.mask is Some { 0x80u8 } else { 0u8 };
    let marker = len_marker(h.len);
    let b1 = mb | marker;
    assert(b1 & 0x7Fu8 == marker && ((b1 & 0x80u8 == 0x80u8) == (mb == 0x80u8))) by (bit_vector)
        requires
            mb == 0x80u8 || mb == 0u8,
            marker <= 127,
            b1 == mb | marker,
    ;
    assert(s[0] == b0 && s[1] == b1);
    if h.len > 125 && h.len <= 65535 {
        lemma_be16_round_trip(h.len as u16);
        assert(s[2] == ((h.len as u16) >> 8) as u8 && s[3] == (h.len as u16) as u8);
    } else if h.len > 65535 {
        lemma_be64_round_trip(h.len);
        assert(s.subrange(2, 10) =~= be64_bytes(h.len));
        assert(be64_value(s, 2) == be64_value(be64_bytes(h.len), 0));
    }
    match h.mask {
        Some(k) => {
            let end = hb.len() - 4;
            assert(s.subrange(end, end + 4) =~= k);
        },
        None => {},
    }
    let r = spec_read_header(s);
    assert(r == Ok::<(HeaderView, int), WebSocketError>((h, hb.len() as int)));
}

} // verus!
