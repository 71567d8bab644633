//! The session: a sender and a receiver over one connection, and the
//! lifecycle of the closing handshake.

use vstd::prelude::*;
use crate::dataframe::DataFrame;
use crate::message::Message;
use crate::receiver::{spec_next_message, Receiver, ReceiverView};
use crate::result::WebSocketError;
use crate::sender::Sender;

verus! {

/// Where a session stands in the closing handshake.
#[derive(Clone, Copy, Debug, PartialEq, Eq, Structural)]
pub enum SessionState {
    /// No Close frame has been sent or received.
    Open,
    /// This side has sent a Close frame.
    ClosingLocal,
    /// The peer has sent a Close frame.
    ClosingPeer,
    /// Both sides have sent a Close frame, or a fatal error occurred.
    Closed,
}

impl SessionState {
    pub open spec fn spec_after_close_sent(self) -> SessionState {
        match self {
            SessionState::Open => SessionState::ClosingLocal,
            SessionState::ClosingPeer => SessionState::Closed,
            s => s,
        }
    }

    pub open spec fn spec_after_close_received(self) -> SessionState {
        match self {
            SessionState::Open => SessionState::ClosingPeer,
            SessionState::ClosingLocal => SessionState::Closed,
            s => s,
        }
    }

    /// The state after this side sends a Close frame.
    pub fn after_close_sent(self) -> (r: SessionState)
        ensures
            r == self.spec_after_close_sent(),
    {
        match self {
            SessionState::Open => SessionState::ClosingLocal,
            SessionState::ClosingPeer => SessionState::Closed,
            s => s,
        }
    }

    /// The state after the peer's Close frame arrives.
    pub fn after_close_received(self) -> (r: SessionState)
        ensures
            r == self.spec_after_close_received(),
    {
        match self {
            SessionState::Open => SessionState::ClosingPeer,
            SessionState::ClosingLocal => SessionState::Closed,
            s => s,
        }
    }

    /// The state after a fatal error: closed.
    pub fn after_fatal_error(self) -> (r: SessionState)
        ensures
            r == SessionState::Closed,
    {
        SessionState::Closed
    }

    /// Whether this side may still send a Close frame: it has sent none.
    pub fn may_send_close(&self) -> (r: bool)
        ensures
            r == (*self == SessionState::Open || *self == SessionState::ClosingPeer),
    {
        match self {
            SessionState::Open | SessionState::ClosingPeer => true,
            _ => false,
        }
    }
}

/// This side sends at most one Close frame: once it has sent one, it may
/// send no other, whatever arrives.
pub proof fn lemma_one_close_sent(s: SessionState)
    ensures
        s.spec_after_close_sent() != SessionState::Open && s.spec_after_close_sent()
            != SessionState::ClosingPeer,
        s.spec_after_close_sent().spec_after_close_received() != SessionState::Open
            && s.spec_after_close_sent().spec_after_close_received() != SessionState::ClosingPeer,
{
}

/// A WebSocket client: a sender and a receiver, which `split` hands out to
/// be driven independently.
pub struct Client {
    sender: Sender,
    receiver: Receiver,
}

impl Client {
    pub closed spec fn spec_sender(&self) -> Sender {
        self.sender
    }

    pub closed spec fn spec_receiver(&self) -> Receiver {
        self.receiver
    }

    /// Creates a client from the given sender and receiver.
    pub fn new(sender: Sender, receiver: Receiver) -> (r: Client)
        ensures
            r.spec_sender() == sender,
            r.spec_receiver() == receiver,
    {
        Client { sender, receiver }
    }

    /// Appends the bytes of a message to `out`.
    pub fn send_message(&self, out: &mut Vec<u8>, message: &Message) -> (r: Result<(), WebSocketError>)
        ensures
            r is Ok <==> crate::sender::message_sendable(message@),
            r is Ok ==> exists|key: [u8; 4]|
                final(out)@ == old(out)@ + crate::dataframe::frame_bytes(
                    crate::message::spec_to_dataframes(message@)[0],
                    #[trigger] self.spec_sender().key_for(key),
                ),
            r is Err ==> final(out)@ == old(out)@,
    {
        let r = self.sender.send_message(out, message);
        proof {
            if r is Ok {
                let f = crate::message::spec_to_dataframes(message@)[0];
                let k = choose|key: [u8; 4]|
                    final(out)@ == old(out)@ + crate::dataframe::frame_bytes(f, #[trigger] self.sender.key_for(key));
                assert(self.spec_sender().key_for(k) == self.sender.key_for(k));
            }
        }
        r
    }

    /// Appends the bytes of a data frame to `out`.
    pub fn send_dataframe(&self, out: &mut Vec<u8>, dataframe: &DataFrame) -> (r: Result<(), WebSocketError>)
        ensures
            r is Ok <==> crate::dataframe::frame_writable(dataframe@),
            r is Ok ==> exists|key: [u8; 4]|
                final(out)@ == old(out)@ + crate::dataframe::frame_bytes(
                    dataframe@,
                    #[trigger] self.spec_sender().key_for(key),
                ),
            r is Err ==> final(out)@ == old(out)@,
    {
        let r = self.sender.send_dataframe(out, dataframe);
        proof {
            if r is Ok {
                let k = choose|key: [u8; 4]|
                    final(out)@ == old(out)@ + crate::dataframe::frame_bytes(dataframe@, #[trigger] self.sender.key_for(key));
                assert(self.spec_sender().key_for(k) == self.sender.key_for(k));
            }
        }
        r
    }

    /// Hands bytes read from the transport to the receiver.
    pub fn push_bytes(&mut self, data: &[u8])
        ensures
            final(self).spec_receiver()@ == (ReceiverView {
                incoming: old(self).spec_receiver()@.incoming + data@,
                ..old(self).spec_receiver()@
            }),
            final(self).spec_sender() == old(self).spec_sender(),
    {
        self.receiver.push_bytes(data);
    }

    /// Reads a single message from the bytes received.
    pub fn recv_message(&mut self) -> (r: Result<Message, WebSocketError>)
        ensures
            ({
                let (res, v) = spec_next_message(old(self).spec_receiver()@);
                &&& final(self).spec_receiver()@ == v
                &&& match res {
                    Ok(m) => r is Ok && r->Ok_0@ == m,
                    Err(e) => r == Err::<Message, WebSocketError>(e),
                }
            }),
            final(self).spec_sender() == old(self).spec_sender(),
    {
        self.receiver.recv_message()
    }

    /// Returns a reference to the sender.
    pub fn get_sender(&self) -> (r: &Sender)
        ensures
            *r == self.spec_sender(),
    {
        &self.sender
    }

    /// Returns a reference to the receiver.
    pub fn get_reciever(&self) -> (r: &Receiver)
        ensures
            *r == self.spec_receiver(),
    {
        &self.receiver
    }

    /// Split this client into its sender and receiver, to be driven
    /// independently.
    pub fn split(self) -> (r: (Sender, Receiver))
        ensures
            r.0 == self.spec_sender(),
            r.1 == self.spec_receiver(),
    {
        (self.sender, self.receiver)
    }
}

} // verus!
