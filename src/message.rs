//! Message envelope and typed payloads.
//!
//! A message on the wire is the sender's peer id (a text field), the
//! correlation id and the payload kind's tag (variable-length integers), and
//! the payload's bytes (a byte field). The payload bytes mean something only
//! when read back as the type that the kind names.
use vstd::prelude::*;
use vstd::utf8::*;
use crate::error::{Error, ErrorKind};
use crate::codec::{
    bytes_field, lemma_parse_bytes_field, lemma_parse_bytes_field_inverse, lemma_parse_text_field,
    lemma_parse_text_field_inverse, lemma_parse_varint, lemma_parse_varint_inverse, parse_bytes_field,
    parse_text_field, parse_varint, read_bytes_field, read_text_field, read_varint, text_field, varint,
    write_bytes_field, write_text_field, write_varint,
};

verus! {

/// The closed set of payload kinds. The tag on the wire is an integer, so a
/// decoder meeting a tag it does not know rejects the message.
#[derive(PartialEq, Eq, Structural, Debug, Clone, Copy, Hash)]
pub enum PayloadKind {
    ProbeRequest,
    ProbeReply,
    StartRequest,
    StartReply,
    StopRequest,
    Ack,
    SampleRequest,
    SampleReply,
}

/// The integer that stands for `k` on the wire.
pub open spec fn kind_tag(k: PayloadKind) -> nat {
    match k {
        PayloadKind::ProbeRequest => 0,
        PayloadKind::ProbeReply => 1,
        PayloadKind::StartRequest => 2,
        PayloadKind::StartReply => 3,
        PayloadKind::StopRequest => 4,
        PayloadKind::Ack => 5,
        PayloadKind::SampleRequest => 6,
        PayloadKind::SampleReply => 7,
    }
}

/// The kind that a wire tag stands for, if it names one.
pub open spec fn kind_of_tag(t: nat) -> Option<PayloadKind> {
    if t == 0 {
        Some(PayloadKind::ProbeRequest)
    } else if t == 1 {
        Some(PayloadKind::ProbeReply)
    } else if t == 2 {
        Some(PayloadKind::StartRequest)
    } else if t == 3 {
        Some(PayloadKind::StartReply)
    } else if t == 4 {
        Some(PayloadKind::StopRequest)
    } else if t == 5 {
        Some(PayloadKind::Ack)
    } else if t == 6 {
        Some(PayloadKind::SampleRequest)
    } else if t == 7 {
        Some(PayloadKind::SampleReply)
    } else {
        None
    }
}

impl PayloadKind {
    /// The wire tag of this kind.
    pub fn tag(&self) -> (r: u64)
        ensures
            r == kind_tag(*self),
    {
        match self {
            PayloadKind::ProbeRequest => 0,
            PayloadKind::ProbeReply => 1,
            PayloadKind::StartRequest => 2,
            PayloadKind::StartReply => 3,
            PayloadKind::StopRequest => 4,
            PayloadKind::Ack => 5,
            PayloadKind::SampleRequest => 6,
            PayloadKind::SampleReply => 7,
        }
    }

    /// The kind that wire tag `t` names; `None` for a tag this decoder does
    /// not know.
    pub fn from_tag(t: u64) -> (r: Option<PayloadKind>)
        ensures
            r == kind_of_tag(t as nat),
    {
        if t == 0 {
            Some(PayloadKind::ProbeRequest)
        } else if t == 1 {
            Some(PayloadKind::ProbeReply)
        } else if t == 2 {
            Some(PayloadKind::StartRequest)
        } else if t == 3 {
            Some(PayloadKind::StartReply)
        } else if t == 4 {
            Some(PayloadKind::StopRequest)
        } else if t == 5 {
            Some(PayloadKind::Ack)
        } else if t == 6 {
            Some(PayloadKind::SampleRequest)
        } else if t == 7 {
            Some(PayloadKind::SampleReply)
        } else {
            None
        }
    }
}

/// Each kind's tag names that kind and no other.
pub proof fn lemma_kind_tag(k: PayloadKind)
    ensures
        kind_of_tag(kind_tag(k)) == Some(k),
{
}

/// A typed payload. Each payload type has exactly one kind.
pub trait Payload: Sized + View {
    /// The type's kind as a constant. Verified code reads it through
    /// `kind()`, whose contract names it.
    const KIND: PayloadKind;

    spec fn spec_kind() -> PayloadKind;

    /// Values of the type that can be written: those whose bytes have a
    /// length that a length prefix can hold.
    spec fn valid(v: Self::V) -> bool;

    /// The payload's bytes.
    spec fn spec_encode(v: Self::V) -> Seq<u8>;

    /// The value that a payload's bytes stand for, if any.
    spec fn spec_decode(b: Seq<u8>) -> Option<Self::V>;

    proof fn lemma_decode_encode(v: Self::V)
        requires
            Self::valid(v),
        ensures
            Self::spec_decode(Self::spec_encode(v)) == Some(v),
            Self::spec_encode(v).len() <= u64::MAX,
    ;

    fn kind() -> (k: PayloadKind)
        ensures
            k == Self::spec_kind(),
    ;

    fn to_bytes(&self) -> (r: Vec<u8>)
        ensures
            Self::valid(self@),
            r@ == Self::spec_encode(self@),
    ;

    fn decode(b: &[u8]) -> (r: Option<Self>)
        ensures
            r is Some <==> Self::spec_decode(b@) is Some,
            r matches Some(p) ==> Self::spec_decode(b@) == Some(p@),
    ;

    /// Reads the payload of `message`, which must carry this type's kind.
    fn from_message(message: &Message) -> (r: Result<Self, Error>)
        ensures
            message@.kind != Self::spec_kind() ==> (r matches Err(e) && e.spec_kind()
                == ErrorKind::WrongKind),
            message@.kind == Self::spec_kind() ==> match Self::spec_decode(message@.payload) {
                Some(v) => (r matches Ok(p) && p@ == v),
                None => (r matches Err(e) && e.spec_kind() == ErrorKind::FromBytes),
            },
    {
        if message.kind() != Self::kind() {
            return Err(Error::new(ErrorKind::WrongKind));
        }
        match Self::decode(message.payload()) {
            Some(p) => Ok(p),
            None => Err(Error::new(ErrorKind::FromBytes)),
        }
    }
}

/// The envelope as a mathematical value.
pub ghost struct MessageView {
    pub peer_id: Seq<char>,
    pub msg_id: u32,
    pub kind: PayloadKind,
    pub payload: Seq<u8>,
}

/// An envelope: who sent it, the correlation id, the payload kind and the
/// payload's bytes.
#[derive(Debug)]
pub struct Message {
    peer_id: String,
    msg_id: u32,
    kind: PayloadKind,
    payload: Vec<u8>,
}

impl View for Message {
    type V = MessageView;

    closed spec fn view(&self) -> MessageView {
        MessageView {
            peer_id: self.peer_id@,
            msg_id: self.msg_id,
            kind: self.kind,
            payload: self.payload@,
        }
    }
}

/// A message that can be written: the lengths of its fields fit the
/// length prefix.
pub open spec fn valid_message(m: MessageView) -> bool {
    encode_utf8(m.peer_id).len() <= u64::MAX && m.payload.len() <= u64::MAX
}

/// The bytes of a message on the wire.
pub open spec fn message_bytes(m: MessageView) -> Seq<u8> {
    text_field(m.peer_id) + varint(m.msg_id as nat) + varint(kind_tag(m.kind)) + bytes_field(
        m.payload,
    )
}

/// Reads a whole message from `b`; trailing bytes are refused.
pub open spec fn parse_message(b: Seq<u8>) -> Option<MessageView> {
    match parse_text_field(b) {
        Some((peer_id, k1)) => {
            let b1 = b.subrange(k1 as int, b.len() as int);
            match parse_varint(b1) {
                Some((msg_id, k2)) => {
                    let b2 = b1.subrange(k2 as int, b1.len() as int);
                    match parse_varint(b2) {
                        Some((tag, k3)) => {
                            let b3 = b2.subrange(k3 as int, b2.len() as int);
                            match (kind_of_tag(tag), parse_bytes_field(b3)) {
                                (Some(kind), Some((payload, k4))) => if msg_id <= u32::MAX
                                    && k4 == b3.len() {
                                    Some(
                                        MessageView {
                                            peer_id,
                                            msg_id: msg_id as u32,
                                            kind,
                                            payload,
                                        },
                                    )
                                } else {
                                    None
                                },
                                _ => None,
                            }
                        },
                        None => None,
                    }
                },
                None => None,
            }
        },
        None => None,
    }
}

/// Writing a valid message and reading the bytes back gives the message.
pub proof fn lemma_parse_message(m: MessageView)
    requires
        valid_message(m),
    ensures
        parse_message(message_bytes(m)) == Some(m),
{
    let t = text_field(m.peer_id);
    let v1 = varint(m.msg_id as nat);
    let v2 = varint(kind_tag(m.kind));
    let f = bytes_field(m.payload);
    let b = message_bytes(m);
    assert(b =~= t + (v1 + v2 + f));
    lemma_parse_text_field(m.peer_id, v1 + v2 + f);
    let b1 = b.subrange(t.len() as int, b.len() as int);
    assert(b1 =~= v1 + (v2 + f));
    lemma_parse_varint(m.msg_id as nat, v2 + f);
    let b2 = b1.subrange(v1.len() as int, b1.len() as int);
    assert(b2 =~= v2 + f);
    lemma_parse_varint(kind_tag(m.kind), f);
    let b3 = b2.subrange(v2.len() as int, b2.len() as int);
    assert(b3 =~= f + Seq::<u8>::empty());
    lemma_parse_bytes_field(m.payload, Seq::empty());
}

/// Bytes that read as a message are exactly that message's bytes.
pub proof fn lemma_parse_message_inverse(b: Seq<u8>)
    requires
        parse_message(b) is Some,
    ensures
        valid_message(parse_message(b).unwrap()),
        message_bytes(parse_message(b).unwrap()) == b,
{
    let m = parse_message(b).unwrap();
    lemma_parse_text_field_inverse(b);
    let (peer_id, k1) = parse_text_field(b).unwrap();
    let b1 = b.subrange(k1 as int, b.len() as int);
    lemma_parse_varint_inverse(b1);
    let (msg_id, k2) = parse_varint(b1).unwrap();
    let b2 = b1.subrange(k2 as int, b1.len() as int);
    lemma_parse_varint_inverse(b2);
    let (tag, k3) = parse_varint(b2).unwrap();
    let b3 = b2.subrange(k3 as int, b2.len() as int);
    lemma_parse_bytes_field_inverse(b3);
    let (payload, k4) = parse_bytes_field(b3).unwrap();
    assert(kind_tag(m.kind) == tag);
    assert(b3 =~= b3.subrange(0, k4 as int));
    assert(b2 =~= b2.subrange(0, k3 as int) + b3);
    assert(b1 =~= b1.subrange(0, k2 as int) + b2);
    assert(b =~= b.subrange(0, k1 as int) + b1);
}

impl Message {
    /// Wraps `payload` with its kind and the correlation id `msg_id`.
    pub fn new<P: Payload>(peer_id: String, msg_id: u32, payload: P) -> (r: Message)
        ensures
            r@ == (MessageView {
                peer_id: peer_id@,
                msg_id,
                kind: P::spec_kind(),
                payload: P::spec_encode(payload@),
            }),
    {
        Message { peer_id, msg_id, kind: P::kind(), payload: payload.to_bytes() }
    }

    pub fn peer_id(&self) -> (r: &String)
        ensures
            r@ == self@.peer_id,
    {
        &self.peer_id
    }

    pub fn msg_id(&self) -> (r: u32)
        ensures
            r == self@.msg_id,
    {
        self.msg_id
    }

    pub fn payload(&self) -> (r: &[u8])
        ensures
            r@ == self@.payload,
    {
        self.payload.as_slice()
    }

    /// The message's bytes on the wire.
    pub fn to_bytes(&self) -> (r: Vec<u8>)
        ensures
            r@ == message_bytes(self@),
            valid_message(self@),
    {
        let mut out: Vec<u8> = Vec::new();
        write_text_field(&mut out, self.peer_id.as_str());
        write_varint(&mut out, self.msg_id as u64);
        write_varint(&mut out, self.kind.tag());
        write_bytes_field(&mut out, self.payload.as_slice());
        // Lengths of slices and vectors fit in `usize`, hence in 64 bits.
        let id_len = self.peer_id.as_str().as_bytes().len();
        let payload_len = self.payload.len();
        proof {
            assert(out@ =~= message_bytes(self@));
            assert(id_len <= u64::MAX && payload_len <= u64::MAX);
        }
        out
    }

    /// Reads a message from a whole datagram. Any bytes that are not exactly
    /// a message's bytes give an error of kind `FromBytes`.
    pub fn from_bytes(b: &[u8]) -> (r: Result<Message, Error>)
        ensures
            parse_message(b@) is Some <==> r is Ok,
            r matches Ok(m) ==> parse_message(b@) == Some(m@),
            r matches Err(e) ==> e.spec_kind() == ErrorKind::FromBytes,
    {
        let (peer_id, p1) = match read_text_field(b, 0) {
            Some(x) => x,
            None => {
                proof {
                    assert(b@.subrange(0, b@.len() as int) =~= b@);
                }
                return Err(Error::new(ErrorKind::FromBytes));
            },
        };
        proof {
            assert(b@.subrange(0, b@.len() as int) =~= b@);
        }
        let ghost b1 = b@.subrange(p1 as int, b@.len() as int);
        let (msg_id, p2) = match read_varint(b, p1) {
            Some(x) => x,
            None => return Err(Error::new(ErrorKind::FromBytes)),
        };
        let ghost b2 = b1.subrange((p2 - p1) as int, b1.len() as int);
        proof {
            assert(b2 =~= b@.subrange(p2 as int, b@.len() as int));
        }
        let (tag, p3) = match read_varint(b, p2) {
            Some(x) => x,
            None => return Err(Error::new(ErrorKind::FromBytes)),
        };
        let ghost b3 = b2.subrange((p3 - p2) as int, b2.len() as int);
        proof {
            assert(b3 =~= b@.subrange(p3 as int, b@.len() as int));
        }
        let kind = match PayloadKind::from_tag(tag) {
            Some(k) => k,
            None => return Err(Error::new(ErrorKind::FromBytes)),
        };
        let (payload, p4) = match read_bytes_field(b, p3) {
            Some(x) => x,
            None => return Err(Error::new(ErrorKind::FromBytes)),
        };
        if msg_id > 0xffff_ffff || p4 != b.len() {
            return Err(Error::new(ErrorKind::FromBytes));
        }
        Ok(Message { peer_id, msg_id: msg_id as u32, kind, payload })
    }

    pub fn kind(&self) -> (r: PayloadKind)
        ensures
            r == self@.kind,
    {
        self.kind
    }
}

/// Round trip: a valid payload wrapped in a message with any peer id and
/// correlation id, written to bytes and read back, gives the same message;
/// its kind is the payload type's kind, and its payload bytes read back as
/// the same payload.
pub proof fn law_round_trip<P: Payload>(peer_id: Seq<char>, msg_id: u32, p: P::V)
    requires
        encode_utf8(peer_id).len() <= u64::MAX,
        P::valid(p),
    ensures
        ({
            let m = MessageView { peer_id, msg_id, kind: P::spec_kind(), payload: P::spec_encode(p) };
            &&& parse_message(message_bytes(m)) == Some(m)
            &&& parse_message(message_bytes(m)).unwrap().kind == P::spec_kind()
            &&& P::spec_decode(parse_message(message_bytes(m)).unwrap().payload) == Some(p)
        }),
{
    P::lemma_decode_encode(p);
    let m = MessageView { peer_id, msg_id, kind: P::spec_kind(), payload: P::spec_encode(p) };
    lemma_parse_message(m);
}

/// Corruption: after any one byte of a message's bytes is replaced, the
/// bytes either read as a message whose bytes they are exactly, or are
/// refused.
pub proof fn law_corrupted_byte(m: MessageView, i: int, x: u8)
    requires
        valid_message(m),
        0 <= i < message_bytes(m).len(),
    ensures
        ({
            let b = message_bytes(m).update(i, x);
            parse_message(b) is None || (valid_message(parse_message(b).unwrap())
                && message_bytes(parse_message(b).unwrap()) == b)
        }),
{
    let b = message_bytes(m).update(i, x);
    if parse_message(b) is Some {
        lemma_parse_message_inverse(b);
    }
}

/// Kind uniqueness: no two kinds share a wire tag.
pub proof fn law_kind_tags_distinct(k1: PayloadKind, k2: PayloadKind)
    ensures
        kind_tag(k1) == kind_tag(k2) ==> k1 == k2,
{
    lemma_kind_tag(k1);
    lemma_kind_tag(k2);
}

} // verus!
