//! The sending half of a session.

use vstd::prelude::*;
use crate::dataframe::{frame_bytes, frame_writable, DataFrame, FrameView};
use crate::header::{header_bytes, key_view, len_marker};
use crate::mask::gen_mask;
use crate::message::{frame_views, spec_to_dataframes, Message, MessageView};
use crate::result::WebSocketError;

verus! {

/// A frame's second byte carries the mask bit exactly when the frame is sent
/// with a masking key.
pub proof fn lemma_mask_bit(f: FrameView, mask: Option<Seq<u8>>)
    ensures
        frame_bytes(f, mask).len() >= 2,
        (frame_bytes(f, mask)[1] & 0x80u8 == 0x80u8) == (mask is Some),
{
    let h = crate::dataframe::frame_header(f, mask);
    let mb: u8 = if mask is Some { 0x80u8 } else { 0u8 };
    let marker = len_marker(h.len);
    assert(header_bytes(h)[1] == mb | marker);
    assert(((mb | marker) & 0x80u8 == 0x80u8) == (mb == 0x80u8)) by (bit_vector)
        requires
            mb == 0x80u8 || mb == 0u8,
            marker <= 127,
    ;
}

/// A Close message whose code must never appear on the wire: 1005 stands
/// for "no code" and 1006 for an abnormal closure.
pub open spec fn reserved_close(m: MessageView) -> bool {
    m matches MessageView::Close(Some((code, _))) && (code == 1005 || code == 1006)
}

/// Whether a message can be sent: its frame is writable (a control message
/// carries at most 125 bytes) and it carries no reserved close code.
pub open spec fn message_sendable(m: MessageView) -> bool {
    frame_writable(spec_to_dataframes(m)[0]) && !reserved_close(m)
}

/// Writes data frames and messages for one side of a connection. A client's
/// sender masks every frame; a server's sender masks none.
pub struct Sender {
    mask: bool,
}

impl Sender {
    /// Whether this sender masks its frames (it is a client's).
    pub closed spec fn spec_masks(&self) -> bool {
        self.mask
    }

    /// Creates a sender; `mask` is true for the client side of a connection.
    pub fn new(mask: bool) -> (r: Sender)
        ensures
            r.spec_masks() == mask,
    {
        Sender { mask }
    }

    /// Whether this sender masks its frames (it is a client's).
    pub fn masks(&self) -> (r: bool)
        ensures
            r == self.spec_masks(),
    {
        self.mask
    }

    /// The key this sender uses for a frame, given a key drawn at random.
    pub open spec fn key_for(&self, key: [u8; 4]) -> Option<Seq<u8>> {
        if self.spec_masks() {
            Some(key@)
        } else {
            None
        }
    }

    /// Appends the bytes of a data frame to `out`, masked with `key` when
    /// this is a client's sender.
    pub fn send_dataframe_with_key(&self, out: &mut Vec<u8>, dataframe: &DataFrame, key: [u8; 4]) -> (r:
        Result<(), WebSocketError>)
        ensures
            r is Ok <==> frame_writable(dataframe@),
            r is Ok ==> final(out)@ == old(out)@ + frame_bytes(dataframe@, self.key_for(key)),
            r is Ok ==> (final(out)@[old(out)@.len() as int + 1] & 0x80u8 == 0x80u8) == self.spec_masks(),
            r is Err ==> final(out)@ == old(out)@ && r matches Err(WebSocketError::DataFrameError(_)),
    {
        let mask = if self.mask { Some(key) } else { None };
        let r = dataframe.write_to(out, mask);
        proof {
            lemma_mask_bit(dataframe@, self.key_for(key));
            assert(key_view(mask) == self.key_for(key));
        }
        r
    }

    /// Appends the bytes of a data frame to `out`. A client's sender masks it
    /// with a fresh random key.
    pub fn send_dataframe(&self, out: &mut Vec<u8>, dataframe: &DataFrame) -> (r: Result<(), WebSocketError>)
        ensures
            r is Ok <==> frame_writable(dataframe@),
            r is Ok ==> exists|key: [u8; 4]|
                final(out)@ == old(out)@ + frame_bytes(dataframe@, #[trigger] self.key_for(key)),
            r is Ok ==> (final(out)@[old(out)@.len() as int + 1] & 0x80u8 == 0x80u8) == self.spec_masks(),
            r is Err ==> final(out)@ == old(out)@ && r matches Err(WebSocketError::DataFrameError(_)),
    {
        let key = if self.mask { gen_mask() } else { [0u8; 4] };
        self.send_dataframe_with_key(out, dataframe, key)
    }

    /// Appends the bytes of a message to `out`, each frame masked with `key`
    /// when this is a client's sender. A Close message with one of the codes
    /// that must not be sent (1005, 1006) is refused.
    pub fn send_message_with_key(&self, out: &mut Vec<u8>, message: &Message, key: [u8; 4]) -> (r: Result<
        (),
        WebSocketError,
    >)
        ensures
            r is Ok <==> message_sendable(message@),
            r is Ok ==> final(out)@ == old(out)@ + frame_bytes(
                spec_to_dataframes(message@)[0],
                self.key_for(key),
            ),
            r is Ok ==> (final(out)@[old(out)@.len() as int + 1] & 0x80u8 == 0x80u8) == self.spec_masks(),
            r is Err ==> final(out)@ == old(out)@,
            reserved_close(message@) ==> r matches Err(WebSocketError::ProtocolError(_)),
            !reserved_close(message@) && r is Err ==> r matches Err(WebSocketError::DataFrameError(_)),
    {
        match message {
            Message::Close(Some(c)) => if c.status_code == 1005 || c.status_code == 1006 {
                return Err(WebSocketError::ProtocolError("Reserved close code"));
            },
            _ => {},
        }
        let frames = message.to_dataframes();
        proof {
            assert(frame_views(frames@)[0] == frames@[0]@);
        }
        self.send_dataframe_with_key(out, &frames[0], key)
    }

    /// Appends the bytes of a message to `out`. A client's sender masks it
    /// with a fresh random key.
    pub fn send_message(&self, out: &mut Vec<u8>, message: &Message) -> (r: Result<(), WebSocketError>)
        ensures
            r is Ok <==> message_sendable(message@),
            r is Ok ==> exists|key: [u8; 4]|
                final(out)@ == old(out)@ + frame_bytes(
                    spec_to_dataframes(message@)[0],
                    #[trigger] self.key_for(key),
                ),
            r is Ok ==> (final(out)@[old(out)@.len() as int + 1] & 0x80u8 == 0x80u8) == self.spec_masks(),
            r is Err ==> final(out)@ == old(out)@,
            reserved_close(message@) ==> r matches Err(WebSocketError::ProtocolError(_)),
            !reserved_close(message@) && r is Err ==> r matches Err(WebSocketError::DataFrameError(_)),
    {
        let key = if self.mask { gen_mask() } else { [0u8; 4] };
        self.send_message_with_key(out, message, key)
    }
}

} // verus!
