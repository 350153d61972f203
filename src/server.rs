//! The server's decisions: what to answer to each datagram, the rate-limit
//! key of a source, and how the supervisor treats a task that ended.
use vstd::prelude::*;
use crate::error::ErrorKind;
use crate::message::{Message, MessageView, Payload, PayloadKind, parse_message, message_bytes};
use crate::payloads::{
    decode_empty, decode_sample_request, decode_text, encode_addr,
    encode_start_reply, Ack, AddrView, PeerAddr, ProbeReply, ProbeRequest, SampleRequest,
    StartReply, StartRequest, StopRequest,
};
use crate::rate_limiter::{service, RateLimiter};
use crate::state::{request_key, start_request, stop_request, PeerPair, Sample, State};

verus! {

/// Why a message got no reply.
#[derive(PartialEq, Eq, Structural, Debug, Clone, Copy)]
pub enum HandleError {
    /// Its payload could not be read as its kind's payload.
    Decode(ErrorKind),
    /// The server does not handle messages of this kind.
    Unexpected(PayloadKind),
    /// No free connection id was found; the server cannot go on.
    ConnectionIdsExhausted,
}

impl HandleError {
    /// Whether the error means the server cannot go on.
    pub fn is_fatal(&self) -> (r: bool)
        ensures
            r == (*self == HandleError::ConnectionIdsExhausted),
    {
        match self {
            HandleError::ConnectionIdsExhausted => true,
            _ => false,
        }
    }
}

/// The server state as plain values.
pub ghost struct StateView {
    pub requests: Map<PeerPair, bool>,
    pub ids: Set<u32>,
    pub pair_ids: Map<PeerPair, u32>,
    pub samples: Seq<Sample>,
}

impl View for State {
    type V = StateView;

    open spec fn view(&self) -> StateView {
        StateView {
            requests: self.connect_requests@,
            ids: self.connect_ids@,
            pair_ids: self.pair_ids@,
            samples: self.samples@,
        }
    }
}

/// A reply from the server `server_id` to correlation id `msg_id`.
pub open spec fn reply_view(server_id: Seq<char>, msg_id: u32, kind: PayloadKind, payload: Seq<u8>) -> MessageView {
    MessageView { peer_id: server_id, msg_id, kind, payload }
}

/// Handling message `m` from source `src` takes the state from `s` to `t`
/// and gives `r`.
///
/// - A probe request is answered with the source address as seen.
/// - A start request goes to the connect matcher. Once the connection may go
///   on, the pair's connection id is sent back. The first time, a connection
///   id that was not live is made live and kept for the pair; if none can be
///   found the error is `ConnectionIdsExhausted`, which cannot happen while
///   no id is live.
/// - A stop request clears the pair and its connection id, and is
///   acknowledged.
/// - A sample request appends a sample and is acknowledged.
/// - A payload that does not read as its kind's, or a kind that the server
///   does not handle, changes nothing and gets no reply.
pub open spec fn handles(
    s: StateView,
    t: StateView,
    server_id: Seq<char>,
    src: AddrView,
    m: MessageView,
    r: Result<MessageView, HandleError>,
) -> bool {
    let unchanged = t == s;
    match m.kind {
        PayloadKind::ProbeRequest => match decode_empty(m.payload) {
            Some(_) => unchanged && r == Ok::<MessageView, HandleError>(
                reply_view(server_id, m.msg_id, PayloadKind::ProbeReply, encode_addr(src)),
            ),
            None => unchanged && r == Err::<MessageView, HandleError>(
                HandleError::Decode(ErrorKind::FromBytes),
            ),
        },
        PayloadKind::StartRequest => match decode_text(m.payload) {
            Some(to) => {
                let (go_on, requests) = start_request(s.requests, m.peer_id, to);
                let key = request_key(s.requests, m.peer_id, to);
                &&& t.requests == requests
                &&& t.samples == s.samples
                &&& if !go_on {
                    t.ids == s.ids && t.pair_ids == s.pair_ids && r == Ok::<
                        MessageView,
                        HandleError,
                    >(
                        reply_view(
                            server_id,
                            m.msg_id,
                            PayloadKind::StartReply,
                            encode_start_reply(None),
                        ),
                    )
                } else if s.pair_ids.contains_key(key) {
                    t.ids == s.ids && t.pair_ids == s.pair_ids && r == Ok::<
                        MessageView,
                        HandleError,
                    >(
                        reply_view(
                            server_id,
                            m.msg_id,
                            PayloadKind::StartReply,
                            encode_start_reply(Some(s.pair_ids[key])),
                        ),
                    )
                } else {
                    &&& s.ids.is_empty() ==> r is Ok
                    &&& match r {
                        Ok(reply) => exists|id: u32|
                            !s.ids.contains(id) && t.ids == s.ids.insert(id) && t.pair_ids
                                == s.pair_ids.insert(key, id) && reply == #[trigger] reply_view(
                                server_id,
                                m.msg_id,
                                PayloadKind::StartReply,
                                encode_start_reply(Some(id)),
                            ),
                        Err(e) => e == HandleError::ConnectionIdsExhausted && t.ids == s.ids
                            && t.pair_ids == s.pair_ids,
                    }
                }
            },
            None => unchanged && r == Err::<MessageView, HandleError>(
                HandleError::Decode(ErrorKind::FromBytes),
            ),
        },
        PayloadKind::StopRequest => match decode_text(m.payload) {
            Some(to) => t == StateView {
                requests: stop_request(s.requests, m.peer_id, to),
                pair_ids: s.pair_ids.remove((m.peer_id, to)).remove((to, m.peer_id)),
                ..s
            }
                && r == Ok::<MessageView, HandleError>(
                reply_view(server_id, m.msg_id, PayloadKind::Ack, Seq::empty()),
            ),
            None => unchanged && r == Err::<MessageView, HandleError>(
                HandleError::Decode(ErrorKind::FromBytes),
            ),
        },
        PayloadKind::SampleRequest => match decode_sample_request(m.payload) {
            Some((connection_id, src_port, seq_number)) => t.requests == s.requests && t.ids
                == s.ids && t.pair_ids == s.pair_ids && t.samples.len() == s.samples.len() + 1 && t.samples.drop_last()
                == s.samples && t.samples.last().peer_id@ == m.peer_id
                && t.samples.last().peer_addr@ == src && t.samples.last().connection_id
                == connection_id && t.samples.last().src_port == src_port
                && t.samples.last().seq_number == seq_number && r == Ok::<
                MessageView,
                HandleError,
            >(reply_view(server_id, m.msg_id, PayloadKind::Ack, Seq::empty())),
            None => unchanged && r == Err::<MessageView, HandleError>(
                HandleError::Decode(ErrorKind::FromBytes),
            ),
        },
        _ => unchanged && r == Err::<MessageView, HandleError>(HandleError::Unexpected(m.kind)),
    }
}

/// The plain value of a handling result.
pub open spec fn result_view(r: Result<Message, HandleError>) -> Result<MessageView, HandleError> {
    match r {
        Ok(m) => Ok(m@),
        Err(e) => Err(e),
    }
}

impl State {
    /// Handles a message from `peer_addr` and gives the reply that the
    /// server `server_id` sends back.
    pub fn handle_message(&mut self, server_id: &String, peer_addr: PeerAddr, message: &Message) -> (r: Result<Message, HandleError>)
        requires
            old(self).wf(),
        ensures
            final(self).wf(),
            handles(old(self)@, final(self)@, server_id@, peer_addr@, message@, result_view(r)),
    {
        match message.kind() {
            PayloadKind::ProbeRequest => match ProbeRequest::from_message(message) {
                Ok(_) => {
                    let reply = ProbeReply { public_addr: peer_addr };
                    Ok(Message::new(server_id.clone(), message.msg_id(), reply))
                },
                Err(e) => Err(HandleError::Decode(*e.kind())),
            },
            PayloadKind::StartRequest => match StartRequest::from_message(message) {
                Ok(payload) => {
                    let from = message.peer_id();
                    let to = &payload.connect_to;
                    let reverse = self.connect_requests.has_request(to, from);
                    let go_on = self.connect_requests.handle_start_request(from, to);
                    let connection_id = if !go_on {
                        None
                    } else {
                        let (a, b) = if reverse {
                            (to, from)
                        } else {
                            (from, to)
                        };
                        match self.pair_ids.get(a, b) {
                            Some(id) => Some(id),
                            None => match self.connect_ids.new_connection_id() {
                                Some(id) => {
                                    self.pair_ids.insert(a, b, id);
                                    Some(id)
                                },
                                None => return Err(HandleError::ConnectionIdsExhausted),
                            },
                        }
                    };
                    let reply = StartReply { connection_id };
                    let m = Message::new(server_id.clone(), message.msg_id(), reply);
                    proof {
                        if let Some(id) = connection_id {
                            assert(m@ == reply_view(
                                server_id@,
                                message@.msg_id,
                                PayloadKind::StartReply,
                                encode_start_reply(Some(id)),
                            ));
                        }
                    }
                    Ok(m)
                },
                Err(e) => Err(HandleError::Decode(*e.kind())),
            },
            PayloadKind::StopRequest => match StopRequest::from_message(message) {
                Ok(payload) => {
                    self.connect_requests.handle_stop_request(
                        message.peer_id(),
                        &payload.connect_to,
                    );
                    self.pair_ids.remove_pair(message.peer_id(), &payload.connect_to);
                    Ok(Message::new(server_id.clone(), message.msg_id(), Ack {}))
                },
                Err(e) => Err(HandleError::Decode(*e.kind())),
            },
            PayloadKind::SampleRequest => match SampleRequest::from_message(message) {
                Ok(payload) => {
                    let sample = Sample {
                        peer_id: message.peer_id().clone(),
                        peer_addr,
                        connection_id: payload.connection_id,
                        src_port: payload.src_port,
                        seq_number: payload.seq_number,
                    };
                    self.samples.insert_sample(sample);
                    proof {
                        assert(self.samples@.drop_last() =~= old(self).samples@);
                    }
                    Ok(Message::new(server_id.clone(), message.msg_id(), Ack {}))
                },
                Err(e) => Err(HandleError::Decode(*e.kind())),
            },
            other => Err(HandleError::Unexpected(other)),
        }
    }
}

/// Folds bytes into a 32-bit key: `h * 31 + byte` for each byte, modulo 2^32.
pub open spec fn fold_key(h: nat, s: Seq<u8>) -> nat
    decreases s.len(),
{
    if s.len() == 0 {
        h
    } else {
        fold_key(((h * 31 + s[0]) % 0x1_0000_0000) as nat, s.drop_first())
    }
}

/// The rate-limit key of a source address: its octets and then its port
/// folded into 32 bits.
pub open spec fn source_key_of(a: AddrView) -> u32 {
    ((fold_key(0, a.octets) * 31 + a.port) % 0x1_0000_0000) as u32
}

fn fold_octets(s: &[u8]) -> (r: u32)
    ensures
        r as nat == fold_key(0, s@),
{
    let mut h: u32 = 0;
    let mut i: usize = 0;
    proof {
        assert(s@.subrange(0, s@.len() as int) =~= s@);
    }
    while i < s.len()
        invariant
            i <= s@.len(),
            fold_key(h as nat, s@.subrange(i as int, s@.len() as int)) == fold_key(0, s@),
        decreases s@.len() - i,
    {
        let next: u64 = (h as u64 * 31 + s[i] as u64) % 0x1_0000_0000;
        proof {
            assert(s@.subrange(i as int, s@.len() as int).drop_first() =~= s@.subrange(
                i + 1,
                s@.len() as int,
            ));
        }
        h = next as u32;
        i = i + 1;
    }
    h
}

/// The rate-limit key of a source address.
pub fn source_key(addr: &PeerAddr) -> (r: u32)
    ensures
        r == source_key_of(addr@),
{
    let (h, port) = match addr {
        PeerAddr::V4(octets, port) => (fold_octets(octets.as_slice()), *port),
        PeerAddr::V6(octets, port) => (fold_octets(octets.as_slice()), *port),
    };
    ((h as u64 * 31 + port as u64) % 0x1_0000_0000) as u32
}

/// What a handling result `res` becomes on the wire: a reply's bytes; no
/// reply for an error that the server survives; the error itself for one it
/// does not.
pub open spec fn datagram_outcome(res: Result<MessageView, HandleError>, r: Result<Option<Vec<u8>>, HandleError>) -> bool {
    match res {
        Ok(reply) => (r matches Ok(Some(b)) && b@ == message_bytes(reply)),
        Err(e) => if e == HandleError::ConnectionIdsExhausted {
            r == Err::<Option<Vec<u8>>, HandleError>(e)
        } else {
            r matches Ok(None)
        },
    }
}

impl State {
    /// Handles one datagram that arrived from `source` at `now_ms`: it is
    /// rate-limited by its source first, then read as a message and
    /// handled. Gives the bytes to send back, if any. Datagrams that are
    /// refused by the limiter, that do not read as a message, or whose
    /// handling failed in a way the server survives, get no reply and change
    /// nothing. Only `ConnectionIdsExhausted` comes back as an error.
    pub fn handle_datagram(
        &mut self,
        limiter: &mut RateLimiter,
        server_id: &String,
        datagram: &[u8],
        source: PeerAddr,
        now_ms: u64,
    ) -> (r: Result<Option<Vec<u8>>, HandleError>)
        requires
            old(self).wf(),
            old(limiter).wf(),
        ensures
            final(self).wf(),
            final(limiter).wf(),
            final(limiter).spec_limit_count() == old(limiter).spec_limit_count(),
            final(limiter).spec_limit_ms() == old(limiter).spec_limit_ms(),
            final(limiter).spec_expire_ms() == old(limiter).spec_expire_ms(),
            ({
                let (served, buckets) = service(
                    old(limiter)@,
                    old(limiter).spec_limit_count(),
                    old(limiter).spec_limit_ms(),
                    old(limiter).spec_expire_ms(),
                    source_key_of(source@),
                    now_ms,
                );
                &&& final(limiter)@ == buckets
                &&& !served ==> (r matches Ok(None) && final(self)@ == old(self)@)
                &&& served ==> match parse_message(datagram@) {
                    None => (r matches Ok(None) && final(self)@ == old(self)@),
                    Some(m) => exists|res: Result<MessageView, HandleError>|
                        #[trigger] handles(old(self)@, final(self)@, server_id@, source@, m, res)
                            && datagram_outcome(res, r),
                }
            }),
    {
        if !limiter.can_service(source_key(&source), now_ms) {
            return Ok(None);
        }
        let message = match Message::from_bytes(datagram) {
            Ok(m) => m,
            Err(_) => return Ok(None),
        };
        let handled = self.handle_message(server_id, source, &message);
        let ghost res = result_view(handled);
        let r = match handled {
            Ok(reply) => Ok(Some(reply.to_bytes())),
            Err(e) => if e.is_fatal() {
                Err(e)
            } else {
                Ok(None)
            },
        };
        proof {
            assert(handles(old(self)@, self@, server_id@, source@, message@, res));
            assert(datagram_outcome(res, r));
        }
        r
    }
}

/// How a supervised task ended.
#[derive(PartialEq, Eq, Structural, Debug, Clone, Copy)]
pub enum TaskOutcome {
    /// It returned normally.
    Finished,
    /// It returned an error, or was cancelled.
    Failed,
    /// It hit a fault that breaks an invariant (a panic).
    Faulted,
}

/// What the supervisor does about a task that ended.
#[derive(PartialEq, Eq, Structural, Debug, Clone, Copy)]
pub enum SupervisorAction {
    /// Log it and keep waiting on the other tasks.
    KeepWaiting,
    /// Raise the fault again and end the process.
    Terminate,
}

/// A fault ends the process; an error or a normal end does not stop the
/// other tasks.
pub fn supervise(outcome: TaskOutcome) -> (r: SupervisorAction)
    ensures
        r == SupervisorAction::Terminate <==> outcome == TaskOutcome::Faulted,
{
    match outcome {
        TaskOutcome::Faulted => SupervisorAction::Terminate,
        _ => SupervisorAction::KeepWaiting,
    }
}

/// A rendezvous server over a set of UDP ports: one listener per port.
pub struct RendezvousServer {
    ports: Vec<u16>,
}

impl RendezvousServer {
    pub closed spec fn spec_ports(&self) -> Seq<u16> {
        self.ports@
    }

    pub fn new(ports: Vec<u16>) -> (r: RendezvousServer)
        ensures
            r.spec_ports() == ports@,
    {
        RendezvousServer { ports }
    }

    /// A server over the ports `from` to `to`, both included.
    pub fn with_port_range(from: u16, to: u16) -> (r: RendezvousServer)
        ensures
            r.spec_ports().len() == if from <= to {
                to - from + 1
            } else {
                0
            },
            forall|i: int| 0 <= i < r.spec_ports().len() ==> r.spec_ports()[i] == from + i,
    {
        let mut ports: Vec<u16> = Vec::new();
        if from <= to {
            let mut p: u16 = from;
            loop
                invariant_except_break
                    from <= p <= to,
                    ports@.len() == p - from,
                invariant
                    forall|i: int| 0 <= i < ports@.len() ==> ports@[i] == from + i,
                ensures
                    ports@.len() == to - from + 1,
                decreases to - p,
            {
                ports.push(p);
                if p == to {
                    break;
                }
                p = p + 1;
            }
        }
        RendezvousServer { ports }
    }

    pub fn ports(&self) -> (r: &Vec<u16>)
        ensures
            r@ == self.spec_ports(),
    {
        &self.ports
    }
}

} // verus!
