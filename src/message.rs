//! Messages, and their correspondence with data frames.

use vstd::prelude::*;
use vstd::slice::slice_to_vec;
use vstd::utf8::{decode_utf8, encode_utf8, encode_utf8_decode_utf8, encode_utf8_valid_utf8, valid_utf8};
use crate::dataframe::{DataFrame, FrameView, Opcode};
use crate::header::{be16_bytes, be16_value};
use crate::result::WebSocketError;
use crate::util::bytes_to_string;

verus! {

/// Represents data contained in a Close message.
#[derive(PartialEq, Eq, Clone, Debug)]
pub struct CloseData {
    /// The status-code of the CloseData
    pub status_code: u16,
    /// The reason-phrase of the CloseData
    pub reason: String,
}

/// Represents a WebSocket message.
#[derive(PartialEq, Eq, Clone, Debug)]
pub enum Message {
    /// A message containing UTF-8 text data
    Text(String),
    /// A message containing binary data
    Binary(Vec<u8>),
    /// A message which indicates closure of the WebSocket connection.
    /// This message may or may not contain data.
    Close(Option<CloseData>),
    /// A ping message - should be responded to with a pong message.
    /// Usually the pong message will be sent with the same data as the
    /// received ping message.
    Ping(Vec<u8>),
    /// A pong message, sent in response to a Ping message, usually
    /// containing the same data as the received ping message.
    Pong(Vec<u8>),
}

/// The mathematical content of a message.
pub enum MessageView {
    Text(Seq<char>),
    Binary(Seq<u8>),
    Close(Option<(u16, Seq<char>)>),
    Ping(Seq<u8>),
    Pong(Seq<u8>),
}

impl View for Message {
    type V = MessageView;

    open spec fn view(&self) -> MessageView {
        match self {
            Message::Text(s) => MessageView::Text(s@),
            Message::Binary(b) => MessageView::Binary(b@),
            Message::Close(None) => MessageView::Close(None),
            Message::Close(Some(c)) => MessageView::Close(Some((c.status_code, c.reason@))),
            Message::Ping(b) => MessageView::Ping(b@),
            Message::Pong(b) => MessageView::Pong(b@),
        }
    }
}

/// The bytes of a close payload: the status code, big-endian, then the reason.
pub open spec fn close_payload(code: u16, reason: Seq<char>) -> Seq<u8> {
    be16_bytes(code) + encode_utf8(reason)
}

/// The opcode of the frame that carries a message.
pub open spec fn message_opcode(m: MessageView) -> Opcode {
    match m {
        MessageView::Text(_) => Opcode::Text,
        MessageView::Binary(_) => Opcode::Binary,
        MessageView::Close(_) => Opcode::Close,
        MessageView::Ping(_) => Opcode::Ping,
        MessageView::Pong(_) => Opcode::Pong,
    }
}

/// The payload bytes of a message.
pub open spec fn message_payload(m: MessageView) -> Seq<u8> {
    match m {
        MessageView::Text(s) => encode_utf8(s),
        MessageView::Binary(b) => b,
        MessageView::Close(None) => seq![],
        MessageView::Close(Some((code, reason))) => close_payload(code, reason),
        MessageView::Ping(b) => b,
        MessageView::Pong(b) => b,
    }
}

/// The message that an opcode and an assembled payload make, or `None` when
/// they make none (bad UTF-8, a one-byte close payload, an opcode that
/// carries no message).
pub open spec fn spec_message_from_data(opcode: Opcode, data: Seq<u8>) -> Option<MessageView> {
    match opcode {
        Opcode::Text => if valid_utf8(data) {
            Some(MessageView::Text(decode_utf8(data)))
        } else {
            None
        },
        Opcode::Binary => Some(MessageView::Binary(data)),
        Opcode::Close => if data.len() == 0 {
            Some(MessageView::Close(None))
        } else if data.len() == 1 {
            None
        } else if valid_utf8(data.subrange(2, data.len() as int)) {
            Some(
                MessageView::Close(
                    Some(
                        (
                            be16_value(data[0], data[1]),
                            decode_utf8(data.subrange(2, data.len() as int)),
                        ),
                    ),
                ),
            )
        } else {
            None
        },
        Opcode::Ping => Some(MessageView::Ping(data)),
        Opcode::Pong => Some(MessageView::Pong(data)),
        _ => None,
    }
}

/// The payloads of a sequence of frames, one after the other.
pub open spec fn concat_data(frames: Seq<FrameView>) -> Seq<u8>
    decreases frames.len(),
{
    if frames.len() == 0 {
        seq![]
    } else {
        concat_data(frames.drop_last()) + frames.last().data
    }
}

/// No reserved bit is set.
pub open spec fn no_reserved(f: FrameView) -> bool {
    !f.reserved[0] && !f.reserved[1] && !f.reserved[2]
}

/// A non-empty sequence of frames, none with reserved bits, all but the
/// first of them continuation frames.
pub open spec fn frames_well_formed(frames: Seq<FrameView>) -> bool {
    &&& frames.len() > 0
    &&& forall|i: int| 0 <= i < frames.len() ==> no_reserved(#[trigger] frames[i])
    &&& forall|i: int| 1 <= i < frames.len() ==> (#[trigger] frames[i]).opcode == Opcode::Continuation
}

/// The message that a sequence of frames makes, if any.
pub open spec fn spec_from_dataframes(frames: Seq<FrameView>) -> Option<MessageView> {
    if frames_well_formed(frames) {
        spec_message_from_data(frames[0].opcode, concat_data(frames))
    } else {
        None
    }
}

/// The frames that carry a message: a single final frame.
pub open spec fn spec_to_dataframes(m: MessageView) -> Seq<FrameView> {
    seq![
        FrameView {
            finished: true,
            reserved: seq![false, false, false],
            opcode: message_opcode(m),
            data: message_payload(m),
        },
    ]
}

proof fn lemma_concat_single(frames: Seq<FrameView>)
    requires
        frames.len() == 1,
    ensures
        concat_data(frames) == frames[0].data,
{
    assert(frames.drop_last() =~= Seq::<FrameView>::empty());
    assert(concat_data(frames.drop_last()) == Seq::<u8>::empty());
    assert(concat_data(frames) =~= frames[0].data);
}

pub open spec fn frame_views(frames: Seq<DataFrame>) -> Seq<FrameView> {
    frames.map_values(|f: DataFrame| f@)
}

/// Reading back the frames that carry a message gives that message.
pub proof fn lemma_message_round_trip(m: MessageView)
    ensures
        spec_from_dataframes(spec_to_dataframes(m)) == Some(m),
{
    let frames = spec_to_dataframes(m);
    lemma_concat_single(frames);
    match m {
        MessageView::Text(s) => {
            encode_utf8_valid_utf8(s);
            encode_utf8_decode_utf8(s);
        },
        MessageView::Close(Some((code, reason))) => {
            let data = close_payload(code, reason);
            assert(data.subrange(2, data.len() as int) =~= encode_utf8(reason));
            encode_utf8_valid_utf8(reason);
            encode_utf8_decode_utf8(reason);
            assert(be16_value((code >> 8) as u8, code as u8) == code) by (bit_vector);
        },
        _ => {},
    }
}

/// A message is carried by one final frame: control messages in particular
/// are never fragmented.
pub proof fn lemma_control_frames_unfragmented(m: MessageView)
    ensures
        spec_to_dataframes(m).len() == 1,
        forall|i: int|
            0 <= i < spec_to_dataframes(m).len() ==> (#[trigger] spec_to_dataframes(m)[i]).finished,
{
}

impl CloseData {
    /// Create a new CloseData object.
    pub fn new(status_code: u16, reason: String) -> (r: CloseData)
        ensures
            r.status_code == status_code,
            r.reason@ == reason@,
    {
        CloseData { status_code, reason }
    }

    /// Convert this into a vector of bytes: the status code, big-endian, then
    /// the reason.
    pub fn into_bytes(self) -> (r: Vec<u8>)
        ensures
            r@ == close_payload(self.status_code, self.reason@),
    {
        let mut buf: Vec<u8> = Vec::new();
        buf.push((self.status_code >> 8) as u8);
        buf.push(self.status_code as u8);
        let mut reason = slice_to_vec(self.reason.as_str().as_bytes());
        buf.append(&mut reason);
        assert(buf@ =~= close_payload(self.status_code, self.reason@));
        buf
    }
}

/// The status code for the Close frame that answers a payload that makes no
/// message: 1007 (inconsistent data) for bad UTF-8, 1002 (protocol error)
/// otherwise.
pub open spec fn spec_failure_code(opcode: Opcode, data: Seq<u8>) -> u16 {
    match opcode {
        Opcode::Text => 1007,
        Opcode::Close => if data.len() >= 2 {
            1007
        } else {
            1002
        },
        _ => 1002,
    }
}

/// The protocol error that goes with a failure code.
pub open spec fn failure_error(code: u16) -> WebSocketError {
    if code == 1007 {
        WebSocketError::ProtocolError("Invalid UTF-8 in message")
    } else {
        WebSocketError::ProtocolError("Invalid message")
    }
}

pub(crate) fn failure_to_error(code: u16) -> (r: WebSocketError)
    ensures
        r == failure_error(code),
{
    if code == 1007 {
        WebSocketError::ProtocolError("Invalid UTF-8 in message")
    } else {
        WebSocketError::ProtocolError("Invalid message")
    }
}

/// Forms a message from an opcode and its assembled payload, or gives the
/// status code of the Close frame that the failure calls for.
pub fn decode_message(opcode: Opcode, data: Vec<u8>) -> (r: Result<Message, u16>)
    ensures
        match spec_message_from_data(opcode, data@) {
            Some(m) => r is Ok && r->Ok_0@ == m,
            None => r == Err::<Message, u16>(spec_failure_code(opcode, data@)),
        },
{
    match opcode {
        Opcode::Text => match bytes_to_string(data.as_slice()) {
            Ok(s) => Ok(Message::Text(s)),
            Err(_) => Err(1007),
        },
        Opcode::Binary => Ok(Message::Binary(data)),
        Opcode::Close => {
            if data.len() == 0 {
                Ok(Message::Close(None))
            } else if data.len() == 1 {
                Err(1002)
            } else {
                let status_code: u16 = ((data[0] as u16) << 8u16) | (data[1] as u16);
                let rest = &data.as_slice()[2..data.len()];
                match bytes_to_string(rest) {
                    Ok(reason) => Ok(Message::Close(Some(CloseData { status_code, reason }))),
                    Err(_) => Err(1007),
                }
            }
        },
        Opcode::Ping => Ok(Message::Ping(data)),
        Opcode::Pong => Ok(Message::Pong(data)),
        _ => Err(1002),
    }
}

/// Forms a message from an opcode and its assembled payload.
pub fn message_from_data(opcode: Opcode, data: Vec<u8>) -> (r: Result<Message, WebSocketError>)
    ensures
        match spec_message_from_data(opcode, data@) {
            Some(m) => r is Ok && r->Ok_0@ == m,
            None => r == Err::<Message, WebSocketError>(failure_error(spec_failure_code(opcode, data@))),
        },
{
    match decode_message(opcode, data) {
        Ok(m) => Ok(m),
        Err(code) => Err(failure_to_error(code)),
    }
}

/// The status code for the Close frame that answers frames that make no
/// message.
pub open spec fn spec_frames_failure_code(frames: Seq<FrameView>) -> u16 {
    if frames_well_formed(frames) {
        spec_failure_code(frames[0].opcode, concat_data(frames))
    } else {
        1002
    }
}

/// Forms a message from a series of data frames, or gives the status code of
/// the Close frame that the failure calls for.
pub fn assemble_dataframes(frames: Vec<DataFrame>) -> (r: Result<Message, u16>)
    ensures
        match spec_from_dataframes(frame_views(frames@)) {
            Some(m) => r is Ok && r->Ok_0@ == m,
            None => r == Err::<Message, u16>(spec_frames_failure_code(frame_views(frames@))),
        },
{
    let ghost fv = frame_views(frames@);
    if frames.len() == 0 {
        return Err(1002);
    }
    let first = &frames[0];
    if first.reserved[0] || first.reserved[1] || first.reserved[2] {
        return Err(1002);
    }
    let mut data = slice_to_vec(first.data.as_slice());
    proof {
        lemma_concat_single(fv.subrange(0, 1));
    }
    let mut i: usize = 1;
    while i < frames.len()
        invariant
            1 <= i <= frames@.len(),
            fv == frame_views(frames@),
            fv.len() == frames@.len(),
            no_reserved(fv[0]),
            forall|j: int| 0 <= j < i ==> no_reserved(#[trigger] fv[j]),
            forall|j: int| 1 <= j < i ==> (#[trigger] fv[j]).opcode == Opcode::Continuation,
            data@ == concat_data(fv.subrange(0, i as int)),
        decreases frames@.len() - i,
    {
        let frame = &frames[i];
        if frame.opcode != Opcode::Continuation {
            assert(!frames_well_formed(fv)) by {
                assert(fv[i as int].opcode != Opcode::Continuation);
            }
            return Err(1002);
        }
        if frame.reserved[0] || frame.reserved[1] || frame.reserved[2] {
            assert(!frames_well_formed(fv)) by {
                assert(!no_reserved(fv[i as int]));
            }
            return Err(1002);
        }
        let mut more = slice_to_vec(frame.data.as_slice());
        data.append(&mut more);
        assert(fv.subrange(0, i + 1).drop_last() =~= fv.subrange(0, i as int));
        i += 1;
    }
    assert(fv.subrange(0, i as int) =~= fv);
    decode_message(first.opcode, data)
}

impl Message {
    /// Attempt to form a message from a series of data frames.
    pub fn from_dataframes(frames: Vec<DataFrame>) -> (r: Result<Message, WebSocketError>)
        ensures
            match spec_from_dataframes(frame_views(frames@)) {
                Some(m) => r is Ok && r->Ok_0@ == m,
                None => r == Err::<Message, WebSocketError>(
                    failure_error(spec_frames_failure_code(frame_views(frames@))),
                ),
            },
    {
        match assemble_dataframes(frames) {
            Ok(m) => Ok(m),
            Err(code) => Err(failure_to_error(code)),
        }
    }

    /// The payload bytes of this message.
    pub fn payload(&self) -> (r: Vec<u8>)
        ensures
            r@ == message_payload(self@),
    {
        match self {
            Message::Text(s) => slice_to_vec(s.as_str().as_bytes()),
            Message::Binary(b) => slice_to_vec(b.as_slice()),
            Message::Close(None) => Vec::new(),
            Message::Close(Some(c)) => {
                let mut buf: Vec<u8> = Vec::new();
                buf.push((c.status_code >> 8) as u8);
                buf.push(c.status_code as u8);
                let mut reason = slice_to_vec(c.reason.as_str().as_bytes());
                buf.append(&mut reason);
                assert(buf@ =~= close_payload(c.status_code, c.reason@));
                buf
            },
            Message::Ping(b) => slice_to_vec(b.as_slice()),
            Message::Pong(b) => slice_to_vec(b.as_slice()),
        }
    }

    /// The opcode of the frame that carries this message.
    pub fn opcode(&self) -> (r: Opcode)
        ensures
            r == message_opcode(self@),
    {
        match self {
            Message::Text(_) => Opcode::Text,
            Message::Binary(_) => Opcode::Binary,
            Message::Close(_) => Opcode::Close,
            Message::Ping(_) => Opcode::Ping,
            Message::Pong(_) => Opcode::Pong,
        }
    }

    /// The data frames that carry this message: a single final frame.
    pub fn to_dataframes(&self) -> (r: Vec<DataFrame>)
        ensures
            r@.len() == 1,
            frame_views(r@) == spec_to_dataframes(self@),
    {
        let frame = DataFrame::new(true, self.opcode(), self.payload());
        let r = vec![frame];
        assert(frame_views(r@) =~= spec_to_dataframes(self@));
        r
    }
}

} // verus!
