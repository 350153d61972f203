//! The peer's side of request and reply: correlation ids, the message that
//! carries a request, and which received datagram is the awaited reply.
use vstd::prelude::*;
use crate::error::{ErrorKind, NetworkError, NetworkErrorKind};
use crate::message::{parse_message, Message, MessageView, Payload, PayloadKind};

verus! {

/// The correlation id that follows `id`, wrapping from the largest to zero.
pub open spec fn next_msg_id(id: u32) -> u32 {
    ((id as nat + 1) % 0x1_0000_0000) as u32
}

/// Whether `b` is the reply awaited for correlation id `msg_id` with payload
/// kind `kind`: it reads as a message that carries both.
pub open spec fn is_awaited_reply(b: Seq<u8>, msg_id: u32, kind: PayloadKind) -> bool {
    parse_message(b) matches Some(m) && m.msg_id == msg_id && m.kind == kind
}

/// A peer's request state: its id and the last correlation id it used.
pub struct PeerState {
    peer_id: String,
    current_msg_id: u32,
}

impl PeerState {
    pub closed spec fn spec_peer_id(&self) -> Seq<char> {
        self.peer_id@
    }

    pub closed spec fn spec_msg_id(&self) -> u32 {
        self.current_msg_id
    }

    /// A peer with id `peer_id` (empty if none is given) whose correlation
    /// ids start after a random value.
    pub fn new(peer_id: Option<String>) -> (r: PeerState)
        ensures
            peer_id matches Some(id) ==> r.spec_peer_id() == id@,
            peer_id is None ==> r.spec_peer_id() == Seq::<char>::empty(),
    {
        let start: u32 = rand::random();
        let id = match peer_id {
            Some(id) => id,
            None => String::new(),
        };
        PeerState { peer_id: id, current_msg_id: start }
    }

    /// A peer whose correlation ids start after `start`.
    pub fn with_start(peer_id: String, start: u32) -> (r: PeerState)
        ensures
            r.spec_peer_id() == peer_id@,
            r.spec_msg_id() == start,
    {
        PeerState { peer_id, current_msg_id: start }
    }

    pub fn peer_id(&self) -> (r: &String)
        ensures
            r@ == self.spec_peer_id(),
    {
        &self.peer_id
    }

    /// The last correlation id used.
    pub fn msg_id(&self) -> (r: u32)
        ensures
            r == self.spec_msg_id(),
    {
        self.current_msg_id
    }

    /// Wraps `payload` in a message with the next correlation id.
    pub fn new_message<P: Payload>(&mut self, payload: P) -> (r: Message)
        ensures
            final(self).spec_peer_id() == old(self).spec_peer_id(),
            final(self).spec_msg_id() == next_msg_id(old(self).spec_msg_id()),
            r@ == (MessageView {
                peer_id: old(self).spec_peer_id(),
                msg_id: next_msg_id(old(self).spec_msg_id()),
                kind: P::spec_kind(),
                payload: P::spec_encode(payload@),
            }),
    {
        self.current_msg_id = if self.current_msg_id == 0xffff_ffff {
            0
        } else {
            self.current_msg_id + 1
        };
        Message::new(self.peer_id.clone(), self.current_msg_id, payload)
    }
}

/// How long a request waits for its reply, in milliseconds.
pub const ACK_TIMEOUT_MS: u64 = 3000;

/// The deadline of a request sent at `sent_at_ms`.
pub open spec fn deadline_of(sent_at_ms: u64) -> nat {
    (sent_at_ms + ACK_TIMEOUT_MS) as nat
}

/// What a peer waiting for a reply does next.
#[derive(Debug)]
pub enum WaitStep {
    /// The awaited reply arrived.
    Accept(Message),
    /// Nothing useful arrived yet; keep receiving until the same deadline.
    KeepWaiting,
    /// The deadline has passed.
    TimedOut,
}

/// A peer waiting for the reply to one request. The deadline is set when
/// the request is sent and is not moved by datagrams that are discarded.
pub struct ReplyWait {
    msg_id: u32,
    kind: PayloadKind,
    deadline_ms: u64,
}

impl ReplyWait {
    pub closed spec fn spec_msg_id(&self) -> u32 {
        self.msg_id
    }

    pub closed spec fn spec_kind(&self) -> PayloadKind {
        self.kind
    }

    pub closed spec fn spec_deadline(&self) -> nat {
        self.deadline_ms as nat
    }

    /// Waits for the reply with correlation id `msg_id` and payload kind
    /// `kind` to a request sent at `sent_at_ms`.
    pub fn new(msg_id: u32, kind: PayloadKind, sent_at_ms: u64) -> (r: ReplyWait)
        requires
            sent_at_ms + ACK_TIMEOUT_MS <= u64::MAX,
        ensures
            r.spec_msg_id() == msg_id,
            r.spec_kind() == kind,
            r.spec_deadline() == deadline_of(sent_at_ms),
    {
        ReplyWait { msg_id, kind, deadline_ms: sent_at_ms + ACK_TIMEOUT_MS }
    }

    pub fn deadline_ms(&self) -> (r: u64)
        ensures
            r == self.spec_deadline(),
    {
        self.deadline_ms
    }

    /// A datagram arrived at `now_ms`. Past the deadline the wait has timed
    /// out whatever arrived; before it, the datagram is accepted if it is
    /// the awaited reply and discarded otherwise.
    pub fn on_datagram(&self, datagram: &[u8], now_ms: u64) -> (r: WaitStep)
        ensures
            now_ms >= self.spec_deadline() ==> r is TimedOut,
            now_ms < self.spec_deadline() ==> match r {
                WaitStep::Accept(m) => is_awaited_reply(datagram@, self.spec_msg_id(), self.spec_kind())
                    && parse_message(datagram@) == Some(m@),
                WaitStep::KeepWaiting => !is_awaited_reply(
                    datagram@,
                    self.spec_msg_id(),
                    self.spec_kind(),
                ),
                WaitStep::TimedOut => false,
            },
    {
        if now_ms >= self.deadline_ms {
            return WaitStep::TimedOut;
        }
        match accept_reply(datagram, self.msg_id, self.kind) {
            Some(m) => WaitStep::Accept(m),
            None => WaitStep::KeepWaiting,
        }
    }

    /// The clock read `now_ms` while nothing arrived: the wait has timed out
    /// exactly when the deadline has passed.
    pub fn on_timer(&self, now_ms: u64) -> (r: WaitStep)
        ensures
            r is TimedOut <==> now_ms >= self.spec_deadline(),
            r is TimedOut || r is KeepWaiting,
    {
        if now_ms >= self.deadline_ms {
            WaitStep::TimedOut
        } else {
            WaitStep::KeepWaiting
        }
    }
}

/// Reads a received datagram and keeps it only if it is the reply awaited
/// for correlation id `msg_id` with payload kind `kind`. Anything else
/// (unreadable bytes, another id, another kind) is discarded.
pub fn accept_reply(datagram: &[u8], msg_id: u32, kind: PayloadKind) -> (r: Option<Message>)
    ensures
        r is Some <==> is_awaited_reply(datagram@, msg_id, kind),
        r matches Some(m) ==> parse_message(datagram@) == Some(m@),
{
    match Message::from_bytes(datagram) {
        Ok(m) => if m.msg_id() == msg_id && m.kind() == kind {
            Some(m)
        } else {
            None
        },
        Err(_) => None,
    }
}

/// The payload of an accepted reply, as the type the request expects.
pub fn reply_payload<R: Payload>(message: &Message) -> (r: Result<R, NetworkError>)
    ensures
        message@.kind != R::spec_kind() ==> r == Err::<R, NetworkError>(
            NetworkError { kind: NetworkErrorKind::Deserialize(ErrorKind::WrongKind) },
        ),
        message@.kind == R::spec_kind() ==> match R::spec_decode(message@.payload) {
            Some(v) => (r matches Ok(p) && p@ == v),
            None => r == Err::<R, NetworkError>(
                NetworkError { kind: NetworkErrorKind::Deserialize(ErrorKind::FromBytes) },
            ),
        },
{
    match R::from_message(message) {
        Ok(p) => Ok(p),
        Err(e) => Err(NetworkError::from(e)),
    }
}

} // verus!
