//! Opcodes and data frames.

use vstd::prelude::*;
use vstd::slice::slice_to_vec;
use crate::header::{
    DataFrameHeader, HeaderView, header_bytes, read_header, spec_read_header, write_header, FIN, RSV1,
    RSV2, RSV3,
};
use crate::header::lemma_header_view_round_trip;
use crate::mask::{lemma_mask_involution, mask_data, masked};
use crate::result::WebSocketError;

verus! {

/// Represents a WebSocket data frame opcode.
#[derive(Clone, Copy, Debug, PartialEq, Eq, Structural)]
pub enum Opcode {
    /// A continuation data frame
    Continuation,
    /// A UTF-8 text data frame
    Text,
    /// A binary data frame
    Binary,
    /// An undefined non-control data frame
    NonControl1,
    /// An undefined non-control data frame
    NonControl2,
    /// An undefined non-control data frame
    NonControl3,
    /// An undefined non-control data frame
    NonControl4,
    /// An undefined non-control data frame
    NonControl5,
    /// A close data frame
    Close,
    /// A ping data frame
    Ping,
    /// A pong data frame
    Pong,
    /// An undefined control data frame
    Control1,
    /// An undefined control data frame
    Control2,
    /// An undefined control data frame
    Control3,
    /// An undefined control data frame
    Control4,
    /// An undefined control data frame
    Control5,
}

impl Opcode {
    /// The 4-bit value of this opcode on the wire.
    pub open spec fn spec_value(self) -> u8 {
        match self {
            Opcode::Continuation => 0,
            Opcode::Text => 1,
            Opcode::Binary => 2,
            Opcode::NonControl1 => 3,
            Opcode::NonControl2 => 4,
            Opcode::NonControl3 => 5,
            Opcode::NonControl4 => 6,
            Opcode::NonControl5 => 7,
            Opcode::Close => 8,
            Opcode::Ping => 9,
            Opcode::Pong => 10,
            Opcode::Control1 => 11,
            Opcode::Control2 => 12,
            Opcode::Control3 => 13,
            Opcode::Control4 => 14,
            Opcode::Control5 => 15,
        }
    }

    /// The opcode of a nibble.
    pub open spec fn from_value(v: u8) -> Opcode {
        match v {
            0 => Opcode::Continuation,
            1 => Opcode::Text,
            2 => Opcode::Binary,
            3 => Opcode::NonControl1,
            4 => Opcode::NonControl2,
            5 => Opcode::NonControl3,
            6 => Opcode::NonControl4,
            7 => Opcode::NonControl5,
            8 => Opcode::Close,
            9 => Opcode::Ping,
            10 => Opcode::Pong,
            11 => Opcode::Control1,
            12 => Opcode::Control2,
            13 => Opcode::Control3,
            14 => Opcode::Control4,
            _ => Opcode::Control5,
        }
    }

    /// Control opcodes are those in `8..=15`.
    pub open spec fn spec_is_control(self) -> bool {
        self.spec_value() >= 8
    }

    /// Attempts to form an Opcode from a nibble.
    ///
    /// Returns the Opcode, or None if the opcode is out of range.
    pub fn new(op: u8) -> (r: Option<Opcode>)
        ensures
            op < 16 <==> r is Some,
            r matches Some(o) ==> o.spec_value() == op && o == Opcode::from_value(op),
    {
        match op {
            0 => Some(Opcode::Continuation),
            1 => Some(Opcode::Text),
            2 => Some(Opcode::Binary),
            3 => Some(Opcode::NonControl1),
            4 => Some(Opcode::NonControl2),
            5 => Some(Opcode::NonControl3),
            6 => Some(Opcode::NonControl4),
            7 => Some(Opcode::NonControl5),
            8 => Some(Opcode::Close),
            9 => Some(Opcode::Ping),
            10 => Some(Opcode::Pong),
            11 => Some(Opcode::Control1),
            12 => Some(Opcode::Control2),
            13 => Some(Opcode::Control3),
            14 => Some(Opcode::Control4),
            15 => Some(Opcode::Control5),
            _ => None,
        }
    }

    /// The 4-bit value of this opcode on the wire.
    pub fn value(&self) -> (r: u8)
        ensures
            r == self.spec_value(),
            r < 16,
    {
        match self {
            Opcode::Continuation => 0,
            Opcode::Text => 1,
            Opcode::Binary => 2,
            Opcode::NonControl1 => 3,
            Opcode::NonControl2 => 4,
            Opcode::NonControl3 => 5,
            Opcode::NonControl4 => 6,
            Opcode::NonControl5 => 7,
            Opcode::Close => 8,
            Opcode::Ping => 9,
            Opcode::Pong => 10,
            Opcode::Control1 => 11,
            Opcode::Control2 => 12,
            Opcode::Control3 => 13,
            Opcode::Control4 => 14,
            Opcode::Control5 => 15,
        }
    }

    /// Whether this is a control opcode (`8..=15`).
    pub fn is_control(&self) -> (r: bool)
        ensures
            r == self.spec_is_control(),
    {
        self.value() >= 8
    }
}

/// Represents a WebSocket data frame.
///
/// The data held in a DataFrame is never masked: masking and unmasking are
/// done when the frame is written and read.
#[derive(Debug, Clone, PartialEq, Eq)]
pub struct DataFrame {
    /// Whether or not this constitutes the end of a message
    pub finished: bool,
    /// The reserved portion of the data frame (RFC6455 5.2)
    pub reserved: [bool; 3],
    /// The opcode associated with this data frame
    pub opcode: Opcode,
    /// The payload associated with this data frame
    pub data: Vec<u8>,
}

/// The mathematical content of a data frame.
pub struct FrameView {
    pub finished: bool,
    pub reserved: Seq<bool>,
    pub opcode: Opcode,
    pub data: Seq<u8>,
}

impl View for DataFrame {
    type V = FrameView;

    open spec fn view(&self) -> FrameView {
        FrameView {
            finished: self.finished,
            reserved: self.reserved@,
            opcode: self.opcode,
            data: self.data@,
        }
    }
}

/// A data frame borrowed from elsewhere: its first header byte (flags and
/// opcode) and its unmasked payload.
pub struct DataFrameRef<'a> {
    pub meta: u8,
    pub data: &'a [u8],
}

impl<'a> DataFrameRef<'a> {
    /// A view of an owned frame.
    pub fn from_frame(frame: &'a DataFrame) -> (r: DataFrameRef<'a>)
        ensures
            r.meta == frame_flags(frame@) | frame.opcode.spec_value(),
            r.data@ == frame.data@,
    {
        let h = frame.header(None);
        DataFrameRef { meta: h.flags | h.opcode, data: frame.data.as_slice() }
    }

    /// The opcode of the frame.
    pub fn opcode(&self) -> (r: Opcode)
        ensures
            r.spec_value() == self.meta & 0x0F,
    {
        let m = self.meta;
        let v = m & 0x0F;
        assert(v < 16) by (bit_vector)
            requires
                v == m & 0x0F,
        ;
        match Opcode::new(v) {
            Some(o) => o,
            None => {
                assert(false);
                Opcode::Continuation
            },
        }
    }

    /// Whether the frame ends its message.
    pub fn is_last(&self) -> (r: bool)
        ensures
            r == (self.meta & FIN != 0),
    {
        self.meta & FIN != 0
    }

    /// The reserved bits of the frame.
    pub fn reserved(&self) -> (r: [bool; 3])
        ensures
            r@ == seq![self.meta & RSV1 != 0, self.meta & RSV2 != 0, self.meta & RSV3 != 0],
    {
        let r = [self.meta & RSV1 != 0, self.meta & RSV2 != 0, self.meta & RSV3 != 0];
        assert(r@ =~= seq![self.meta & RSV1 != 0, self.meta & RSV2 != 0, self.meta & RSV3 != 0]);
        r
    }
}

/// A frame is writable unless it is a control frame with over 125 bytes.
pub open spec fn frame_writable(f: FrameView) -> bool {
    f.opcode.spec_is_control() ==> f.data.len() <= 125
}

/// The flags byte of a frame's header.
pub open spec fn frame_flags(f: FrameView) -> u8 {
    (if f.finished { FIN } else { 0u8 }) | (if f.reserved[0] { RSV1 } else { 0u8 }) | (if f.reserved[1] {
        RSV2
    } else {
        0u8
    }) | (if f.reserved[2] { RSV3 } else { 0u8 })
}

/// The header that precedes a frame sent with the given masking key.
pub open spec fn frame_header(f: FrameView, mask: Option<Seq<u8>>) -> HeaderView {
    HeaderView { flags: frame_flags(f), opcode: f.opcode.spec_value(), mask, len: f.data.len() as u64 }
}

/// The payload as it stands on the wire.
pub open spec fn wire_payload(data: Seq<u8>, mask: Option<Seq<u8>>) -> Seq<u8> {
    match mask {
        Some(k) => masked(data, k),
        None => data,
    }
}

/// The bytes of a frame on the wire.
pub open spec fn frame_bytes(f: FrameView, mask: Option<Seq<u8>>) -> Seq<u8> {
    header_bytes(frame_header(f, mask)) + wire_payload(f.data, mask)
}

/// The frame at the start of `s`, with its size in bytes, or the error that
/// reading it gives. `masked` says whether the frame must carry a mask.
pub open spec fn spec_read_dataframe(s: Seq<u8>, masked: bool) -> Result<(FrameView, int), WebSocketError> {
    match spec_read_header(s) {
        Err(e) => Err(e),
        Ok((h, n)) => {
            if h.mask is Some && !masked {
                Err(WebSocketError::DataFrameError("Expected unmasked data frame"))
            } else if h.mask is None && masked {
                Err(WebSocketError::DataFrameError("Expected masked data frame"))
            } else if s.len() < n + h.len {
                Err(WebSocketError::NoDataAvailable)
            } else {
                Ok(
                    (
                        FrameView {
                            finished: h.flags & FIN != 0,
                            reserved: seq![h.flags & RSV1 != 0, h.flags & RSV2 != 0, h.flags & RSV3 != 0],
                            opcode: Opcode::from_value(h.opcode),
                            data: wire_payload(s.subrange(n, n + h.len), h.mask),
                        },
                        n + h.len,
                    ),
                )
            }
        },
    }
}

proof fn lemma_flags_bits(f: FrameView)
    requires
        f.reserved.len() == 3,
    ensures
        frame_flags(f) & 0x0F == 0,
        (frame_flags(f) & FIN != 0) == f.finished,
        (frame_flags(f) & RSV1 != 0) == f.reserved[0],
        (frame_flags(f) & RSV2 != 0) == f.reserved[1],
        (frame_flags(f) & RSV3 != 0) == f.reserved[2],
{
    let a: u8 = if f.finished { FIN } else { 0u8 };
    let b: u8 = if f.reserved[0] { RSV1 } else { 0u8 };
    let c: u8 = if f.reserved[1] { RSV2 } else { 0u8 };
    let d: u8 = if f.reserved[2] { RSV3 } else { 0u8 };
    let g = frame_flags(f);
    assert(g == a | b | c | d);
    assert((a == 0 || a == 0x80) && (b == 0 || b == 0x40) && (c == 0 || c == 0x20) && (d == 0 || d
        == 0x10) ==> {
        let x = a | b | c | d;
        &&& x & 0x0F == 0
        &&& (x & 0x80 != 0) == (a != 0)
        &&& (x & 0x40 != 0) == (b != 0)
        &&& (x & 0x20 != 0) == (c != 0)
        &&& (x & 0x10 != 0) == (d != 0)
    }) by (bit_vector);
}

/// Reading back a written frame gives the same frame, unmasked, whatever
/// bytes follow it; the reader expects a mask exactly when one was used.
/// (A control frame must be final: reading rejects the others.)
pub proof fn lemma_frame_round_trip(f: FrameView, mask: Option<Seq<u8>>, rest: Seq<u8>)
    requires
        f.reserved.len() == 3,
        frame_writable(f),
        f.opcode.spec_is_control() ==> f.finished,
        f.data.len() <= u64::MAX,
        mask matches Some(k) ==> k.len() == 4,
    ensures
        spec_read_dataframe(frame_bytes(f, mask) + rest, mask is Some) == Ok::<(FrameView, int), WebSocketError>(
            (f, frame_bytes(f, mask).len() as int),
        ),
{
    let h = frame_header(f, mask);
    let wire = wire_payload(f.data, mask);
    lemma_flags_bits(f);
    assert(f.opcode.spec_value() <= 15);
    lemma_header_view_round_trip(h, wire + rest);
    let hb = header_bytes(h);
    let s = frame_bytes(f, mask) + rest;
    assert(s =~= hb + (wire + rest));
    let n = hb.len() as int;
    assert(wire.len() == f.data.len());
    assert(s.subrange(n, n + h.len) =~= wire);
    match mask {
        Some(k) => {
            lemma_mask_involution(f.data, k);
        },
        None => {},
    }
    assert(wire_payload(s.subrange(n, n + h.len), mask) == f.data);
    assert(seq![h.flags & RSV1 != 0, h.flags & RSV2 != 0, h.flags & RSV3 != 0] =~= f.reserved);
    assert(Opcode::from_value(f.opcode.spec_value()) == f.opcode);
    assert(frame_bytes(f, mask).len() == n + h.len);
}

impl DataFrame {
    /// Creates a new DataFrame with no reserved bits set.
    pub fn new(finished: bool, opcode: Opcode, data: Vec<u8>) -> (r: DataFrame)
        ensures
            r@ == (FrameView { finished, reserved: seq![false, false, false], opcode, data: data@ }),
    {
        let r = DataFrame { finished, reserved: [false; 3], opcode, data };
        assert(r.reserved@ =~= seq![false, false, false]);
        r
    }

    /// A final frame with no reserved bits set: the whole of a message.
    pub fn oneshot(opcode: Opcode, data: Vec<u8>) -> (r: DataFrame)
        ensures
            r@ == (FrameView { finished: true, reserved: seq![false, false, false], opcode, data: data@ }),
    {
        DataFrame::new(true, opcode, data)
    }

    /// The header of this frame when sent with the given masking key.
    pub fn header(&self, mask: Option<[u8; 4]>) -> (r: DataFrameHeader)
        ensures
            r@ == frame_header(self@, crate::header::key_view(mask)),
            r.wf(),
            r.opcode < 16,
            r.len == self.data@.len(),
    {
        let h = DataFrameHeader::new(
            self.finished,
            self.reserved,
            self.opcode,
            mask,
            self.data.len() as u64,
        );
        let f = h.flags;
        let ghost g = frame_flags(self@);
        assert(f == g) by {
            let a: u8 = if self.finished { FIN } else { 0u8 };
            let b: u8 = if self.reserved[0] { RSV1 } else { 0u8 };
            let c: u8 = if self.reserved[1] { RSV2 } else { 0u8 };
            let d: u8 = if self.reserved[2] { RSV3 } else { 0u8 };
            assert(g == a | b | c | d);
            assert(f & 0x0F == 0 && (f & 0x80 != 0) == (a != 0) && (f & 0x40 != 0) == (b != 0) && (f
                & 0x20 != 0) == (c != 0) && (f & 0x10 != 0) == (d != 0) && (a == 0 || a == 0x80) && (b
                == 0 || b == 0x40) && (c == 0 || c == 0x20) && (d == 0 || d == 0x10) ==> f == a | b | c
                | d) by (bit_vector);
        }
        h
    }

    /// Writes this frame, masked with the given key if there is one.
    pub fn write_to(&self, out: &mut Vec<u8>, mask: Option<[u8; 4]>) -> (r: Result<(), WebSocketError>)
        ensures
            r is Ok <==> frame_writable(self@),
            r is Ok ==> final(out)@ == old(out)@ + frame_bytes(self@, crate::header::key_view(mask)),
            r is Err ==> final(out)@ == old(out)@ && r matches Err(WebSocketError::DataFrameError(_)),
    {
        let h = self.header(mask);
        assert(h.len == self.data@.len());
        match write_header(out, h) {
            Ok(()) => {},
            Err(e) => return Err(e),
        }
        let mut payload = match mask {
            Some(k) => mask_data(k, self.data.as_slice()),
            None => slice_to_vec(self.data.as_slice()),
        };
        out.append(&mut payload);
        Ok(())
    }

    /// Reads one frame from the start of `bytes`, returning it with the number
    /// of bytes it took. `should_be_masked` says whether the frame must
    /// carry a masking key; the frame is returned unmasked.
    pub fn read_dataframe(bytes: &[u8], should_be_masked: bool) -> (r: Result<(DataFrame, usize), WebSocketError>)
        ensures
            match r {
                Ok((f, n)) => spec_read_dataframe(bytes@, should_be_masked) == Ok::<(FrameView, int), WebSocketError>(
                    (f@, n as int),
                ),
                Err(e) => spec_read_dataframe(bytes@, should_be_masked) == Err::<(FrameView, int), WebSocketError>(e),
            },
    {
        let (header, n) = match read_header(bytes) {
            Ok(hn) => hn,
            Err(e) => return Err(e),
        };
        if header.mask.is_some() && !should_be_masked {
            return Err(WebSocketError::DataFrameError("Expected unmasked data frame"));
        }
        if header.mask.is_none() && should_be_masked {
            return Err(WebSocketError::DataFrameError("Expected masked data frame"));
        }
        if ((bytes.len() - n) as u64) < header.len {
            return Err(WebSocketError::NoDataAvailable);
        }
        let end = n + header.len as usize;
        let raw = &bytes[n..end];
        let data = match header.mask {
            Some(k) => mask_data(k, raw),
            None => slice_to_vec(raw),
        };
        let opcode = match Opcode::new(header.opcode) {
            Some(o) => o,
            None => {
                assert(false);
                Opcode::Continuation
            },
        };
        let reserved = [header.flags & RSV1 != 0, header.flags & RSV2 != 0, header.flags & RSV3 != 0];
        let f = DataFrame { finished: header.flags & FIN != 0, reserved, opcode, data };
        assert(f.reserved@ =~= seq![header.flags & RSV1 != 0, header.flags & RSV2 != 0, header.flags & RSV3 != 0]);
        Ok((f, end))
    }
}

} // verus!
