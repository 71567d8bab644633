//! The receiving half of a session: frame reading and message reassembly.

use vstd::prelude::*;
use crate::dataframe::{spec_read_dataframe, DataFrame, FrameView, Opcode};
use crate::message::{
    assemble_dataframes, failure_error, failure_to_error, frame_views, spec_frames_failure_code,
    spec_from_dataframes, Message, MessageView,
};
use crate::result::WebSocketError;

verus! {

/// What the receiving side holds: bytes read but not yet consumed, the
/// frames of a message whose final fragment has not come, and whether frames
/// must be masked.
pub struct ReceiverView {
    pub incoming: Seq<u8>,
    pub pending: Seq<FrameView>,
    pub masked: bool,
    /// The status code of the Close frame that the last failed read calls for.
    pub close_code: Option<u16>,
}

/// One step of reassembly: the frames of a complete message, `None` when the
/// message is not complete yet, or a protocol error; with the new pending
/// frames.
pub open spec fn spec_reassemble(pending: Seq<FrameView>, f: FrameView) -> (
    Result<Option<Seq<FrameView>>, WebSocketError>,
    Seq<FrameView>,
) {
    if pending.len() == 0 {
        if f.opcode == Opcode::Continuation {
            (Err(WebSocketError::ProtocolError("Unexpected continuation data frame opcode")), pending)
        } else if f.finished {
            (Ok(Some(seq![f])), pending)
        } else {
            (Ok(None), seq![f])
        }
    } else if f.opcode == Opcode::Continuation {
        if f.finished {
            (Ok(Some(pending.push(f))), seq![])
        } else {
            (Ok(None), pending.push(f))
        }
    } else if f.opcode.spec_is_control() {
        (Ok(Some(seq![f])), pending)
    } else {
        (Err(WebSocketError::ProtocolError("Unexpected data frame opcode")), pending)
    }
}

/// The frames of the next message, read from what the receiver holds, with
/// the receiver's state afterwards. Control frames that arrive between the
/// fragments of a message come out on their own, before the message.
pub open spec fn spec_next_frames(v: ReceiverView) -> (Result<Seq<FrameView>, WebSocketError>, ReceiverView)
    decreases v.incoming.len(),
{
    match spec_read_dataframe(v.incoming, v.masked) {
        Err(e) => (Err(e), v),
        Ok((f, n)) => {
            let rest = v.incoming.subrange(n, v.incoming.len() as int);
            let (res, pending) = spec_reassemble(v.pending, f);
            let v1 = ReceiverView { incoming: rest, pending, ..v };
            match res {
                Err(e) => (Err(e), v1),
                Ok(Some(frames)) => (Ok(frames), v1),
                Ok(None) => if 0 < n <= v.incoming.len() {
                    spec_next_frames(v1)
                } else {
                    (Err(WebSocketError::NoDataAvailable), v)
                },
            }
        },
    }
}

/// The next message read from what the receiver holds, with the receiver's
/// state afterwards. A failure other than input that ends too early records
/// the status code that the Close frame answering it must carry.
pub open spec fn spec_next_message(v: ReceiverView) -> (Result<MessageView, WebSocketError>, ReceiverView) {
    let (res, v1) = spec_next_frames(v);
    match res {
        Err(WebSocketError::NoDataAvailable) => (Err(WebSocketError::NoDataAvailable), v1),
        Err(e) => (Err(e), ReceiverView { close_code: Some(1002), ..v1 }),
        Ok(frames) => match spec_from_dataframes(frames) {
            Some(m) => (Ok(m), v1),
            None => {
                let code = spec_frames_failure_code(frames);
                (Err(failure_error(code)), ReceiverView { close_code: Some(code), ..v1 })
            },
        },
    }
}

/// A frame read from input takes at least two bytes of it.
proof fn lemma_read_consumes(s: Seq<u8>, masked: bool)
    ensures
        spec_read_dataframe(s, masked) matches Ok((f, n)) ==> 2 <= n <= s.len(),
{
}

/// Reads data frames and messages for one side of a connection from the
/// bytes handed to it.
pub struct Receiver {
    incoming: Vec<u8>,
    buffer: Vec<DataFrame>,
    masked: bool,
    close_code: Option<u16>,
}

impl View for Receiver {
    type V = ReceiverView;

    closed spec fn view(&self) -> ReceiverView {
        ReceiverView {
            incoming: self.incoming@,
            pending: frame_views(self.buffer@),
            masked: self.masked,
            close_code: self.close_code,
        }
    }
}

impl Receiver {
    /// Creates a receiver holding no bytes. `masked` is true for the server
    /// side of a connection, which only accepts masked frames.
    pub fn new(masked: bool) -> (r: Receiver)
        ensures
            r@ == (ReceiverView { incoming: seq![], pending: seq![], masked, close_code: None }),
    {
        let r = Receiver { incoming: Vec::new(), buffer: Vec::new(), masked, close_code: None };
        assert(frame_views(r.buffer@) =~= seq![]);
        r
    }

    /// Hands bytes read from the transport to the receiver.
    pub fn push_bytes(&mut self, data: &[u8])
        ensures
            final(self)@ == (ReceiverView { incoming: old(self)@.incoming + data@, ..old(self)@ }),
    {
        let mut i: usize = 0;
        while i < data.len()
            invariant
                i <= data@.len(),
                self.buffer == old(self).buffer,
                self.masked == old(self).masked,
                self.close_code == old(self).close_code,
                self.incoming@ == old(self).incoming@ + data@.subrange(0, i as int),
            decreases data@.len() - i,
        {
            self.incoming.push(data[i]);
            i += 1;
            assert(self.incoming@ =~= old(self).incoming@ + data@.subrange(0, i as int));
        }
        assert(data@.subrange(0, i as int) =~= data@);
    }

    /// The number of bytes held that no frame has consumed yet.
    pub fn buffered_len(&self) -> (r: usize)
        ensures
            r == self@.incoming.len(),
    {
        self.incoming.len()
    }

    /// Reads a single data frame from the bytes held. Input that ends before
    /// the frame does gives `NoDataAvailable` and consumes nothing.
    pub fn recv_dataframe(&mut self) -> (r: Result<DataFrame, WebSocketError>)
        ensures
            match spec_read_dataframe(old(self)@.incoming, old(self)@.masked) {
                Ok((f, n)) => r is Ok && r->Ok_0@ == f && final(self)@ == (ReceiverView {
                    incoming: old(self)@.incoming.subrange(n, old(self)@.incoming.len() as int),
                    ..old(self)@
                }),
                Err(e) => r == Err::<DataFrame, WebSocketError>(e) && final(self)@ == old(self)@,
            },
    {
        match DataFrame::read_dataframe(self.incoming.as_slice(), self.masked) {
            Ok((f, n)) => {
                proof {
                    lemma_read_consumes(self.incoming@, self.masked);
                }
                let rest = self.incoming.split_off(n);
                self.incoming = rest;
                Ok(f)
            },
            Err(e) => Err(e),
        }
    }

    /// Takes one frame into the reassembly buffer: returns the frames of a
    /// complete message, `None` when the message is not complete yet, or a
    /// protocol error.
    pub fn reassemble(&mut self, frame: DataFrame) -> (r: Result<Option<Vec<DataFrame>>, WebSocketError>)
        ensures
            ({
                let (res, pending) = spec_reassemble(old(self)@.pending, frame@);
                &&& final(self)@ == (ReceiverView { pending, ..old(self)@ })
                &&& match res {
                    Ok(Some(frames)) => r matches Ok(Some(v)) && frame_views(v@) == frames,
                    Ok(None) => r matches Ok(None),
                    Err(e) => r == Err::<Option<Vec<DataFrame>>, WebSocketError>(e),
                }
            }),
    {
        let ghost old_pending = frame_views(self.buffer@);
        if self.buffer.len() == 0 {
            if frame.opcode == Opcode::Continuation {
                return Err(WebSocketError::ProtocolError("Unexpected continuation data frame opcode"));
            }
            if frame.finished {
                let v = vec![frame];
                assert(frame_views(v@) =~= seq![frame@]);
                return Ok(Some(v));
            }
            self.buffer.push(frame);
            assert(frame_views(self.buffer@) =~= seq![frame@]);
            return Ok(None);
        }
        if frame.opcode == Opcode::Continuation {
            let finished = frame.finished;
            self.buffer.push(frame);
            assert(frame_views(self.buffer@) =~= old_pending.push(frame@));
            if finished {
                let mut done: Vec<DataFrame> = Vec::new();
                std::mem::swap(&mut done, &mut self.buffer);
                assert(frame_views(self.buffer@) =~= seq![]);
                return Ok(Some(done));
            }
            return Ok(None);
        }
        if frame.opcode.is_control() {
            let v = vec![frame];
            assert(frame_views(v@) =~= seq![frame@]);
            return Ok(Some(v));
        }
        Err(WebSocketError::ProtocolError("Unexpected data frame opcode"))
    }

    /// Returns the data frames that constitute one message. A control frame
    /// that arrives between the fragments of a message is returned on its
    /// own, and the fragments read so far are kept.
    pub fn recv_message_dataframes(&mut self) -> (r: Result<Vec<DataFrame>, WebSocketError>)
        ensures
            ({
                let (res, v) = spec_next_frames(old(self)@);
                &&& final(self)@ == v
                &&& match res {
                    Ok(frames) => r is Ok && frame_views(r->Ok_0@) == frames,
                    Err(e) => r == Err::<Vec<DataFrame>, WebSocketError>(e),
                }
            }),
    {
        loop
            invariant
                spec_next_frames(self@) == spec_next_frames(old(self)@),
            decreases self@.incoming.len(),
        {
            let ghost before = self@;
            proof {
                lemma_read_consumes(before.incoming, before.masked);
            }
            let frame = match self.recv_dataframe() {
                Ok(f) => f,
                Err(e) => return Err(e),
            };
            match self.reassemble(frame) {
                Ok(Some(frames)) => return Ok(frames),
                Ok(None) => {},
                Err(e) => return Err(e),
            }
        }
    }

    /// Reads a single message. Control messages that arrive between the
    /// fragments of a data message come first, on their own.
    pub fn recv_message(&mut self) -> (r: Result<Message, WebSocketError>)
        ensures
            ({
                let (res, v) = spec_next_message(old(self)@);
                &&& final(self)@ == v
                &&& match res {
                    Ok(m) => r is Ok && r->Ok_0@ == m,
                    Err(e) => r == Err::<Message, WebSocketError>(e),
                }
            }),
    {
        let frames = match self.recv_message_dataframes() {
            Ok(frames) => frames,
            Err(WebSocketError::NoDataAvailable) => return Err(WebSocketError::NoDataAvailable),
            Err(e) => {
                self.close_code = Some(1002);
                return Err(e);
            },
        };
        match assemble_dataframes(frames) {
            Ok(m) => Ok(m),
            Err(code) => {
                self.close_code = Some(code);
                Err(failure_to_error(code))
            },
        }
    }

    /// The status code of the Close frame that the last failed read calls
    /// for: 1007 after a payload that is not UTF-8, 1002 after another
    /// protocol or framing error. `None` while no read has failed.
    pub fn close_code(&self) -> (r: Option<u16>)
        ensures
            r == self@.close_code,
    {
        self.close_code
    }
}

} // verus!
