//! The payload types of the protocol and their bytes.
use vstd::prelude::*;
use crate::codec::{
    lemma_parse_text_field, lemma_parse_varint, lemma_varint_bounded, parse_text_field, parse_varint, read_array,
    read_text_field, read_varint, text_field, varint, write_raw, write_text_field, write_varint,
};
use crate::message::{kind_tag, Payload, PayloadKind};

verus! {

/// Reads a variable-length integer no greater than `max` from the front of `b`.
pub open spec fn parse_uint(b: Seq<u8>, max: nat) -> Option<(nat, nat)> {
    match parse_varint(b) {
        Some((v, k)) => if v <= max {
            Some((v, k))
        } else {
            None
        },
        None => None,
    }
}

proof fn lemma_parse_uint(n: nat, max: nat, rest: Seq<u8>)
    requires
        n <= max,
        n <= u64::MAX,
    ensures
        parse_uint(varint(n) + rest, max) == Some((n, varint(n).len())),
{
    lemma_parse_varint(n, rest);
}

/// Reads a variable-length integer no greater than `max` at `pos`.
fn read_uint(b: &[u8], pos: usize, max: u64) -> (r: Option<(u64, usize)>)
    requires
        pos <= b@.len(),
    ensures
        r matches Some((v, end)) ==> pos < end <= b@.len() && parse_uint(
            b@.subrange(pos as int, b@.len() as int),
            max as nat,
        ) == Some((v as nat, (end - pos) as nat)),
        r is None <==> parse_uint(b@.subrange(pos as int, b@.len() as int), max as nat) is None,
{
    match read_varint(b, pos) {
        Some((v, end)) => if v <= max {
            Some((v, end))
        } else {
            None
        },
        None => None,
    }
}

/// The bytes of a payload without content: none.
pub open spec fn decode_empty(b: Seq<u8>) -> Option<()> {
    if b.len() == 0 {
        Some(())
    } else {
        None
    }
}

/// Asks the server for the sender's address as the server sees it.
#[derive(Debug, Clone, Copy)]
pub struct ProbeRequest {}

impl View for ProbeRequest {
    type V = ();

    open spec fn view(&self) -> () {
        ()
    }
}

impl Payload for ProbeRequest {
    const KIND: PayloadKind = PayloadKind::ProbeRequest;

    open spec fn spec_kind() -> PayloadKind {
        PayloadKind::ProbeRequest
    }

    open spec fn valid(v: ()) -> bool {
        true
    }

    open spec fn spec_encode(v: ()) -> Seq<u8> {
        Seq::empty()
    }

    open spec fn spec_decode(b: Seq<u8>) -> Option<()> {
        decode_empty(b)
    }

    proof fn lemma_decode_encode(v: ()) {
    }

    fn kind() -> (k: PayloadKind) {
        Self::KIND
    }

    fn to_bytes(&self) -> (r: Vec<u8>) {
        Vec::new()
    }

    fn decode(b: &[u8]) -> (r: Option<Self>) {
        if b.len() == 0 {
            Some(ProbeRequest {})
        } else {
            None
        }
    }
}

/// Acknowledges a request that has no other answer.
#[derive(Debug, Clone, Copy)]
pub struct Ack {}

impl View for Ack {
    type V = ();

    open spec fn view(&self) -> () {
        ()
    }
}

impl Payload for Ack {
    const KIND: PayloadKind = PayloadKind::Ack;

    open spec fn spec_kind() -> PayloadKind {
        PayloadKind::Ack
    }

    open spec fn valid(v: ()) -> bool {
        true
    }

    open spec fn spec_encode(v: ()) -> Seq<u8> {
        Seq::empty()
    }

    open spec fn spec_decode(b: Seq<u8>) -> Option<()> {
        decode_empty(b)
    }

    proof fn lemma_decode_encode(v: ()) {
    }

    fn kind() -> (k: PayloadKind) {
        Self::KIND
    }

    fn to_bytes(&self) -> (r: Vec<u8>) {
        Vec::new()
    }

    fn decode(b: &[u8]) -> (r: Option<Self>) {
        if b.len() == 0 {
            Some(Ack {})
        } else {
            None
        }
    }
}

/// Answers a sample request.
#[derive(Debug, Clone, Copy)]
pub struct SampleReply {}

impl View for SampleReply {
    type V = ();

    open spec fn view(&self) -> () {
        ()
    }
}

impl Payload for SampleReply {
    const KIND: PayloadKind = PayloadKind::SampleReply;

    open spec fn spec_kind() -> PayloadKind {
        PayloadKind::SampleReply
    }

    open spec fn valid(v: ()) -> bool {
        true
    }

    open spec fn spec_encode(v: ()) -> Seq<u8> {
        Seq::empty()
    }

    open spec fn spec_decode(b: Seq<u8>) -> Option<()> {
        decode_empty(b)
    }

    proof fn lemma_decode_encode(v: ()) {
    }

    fn kind() -> (k: PayloadKind) {
        Self::KIND
    }

    fn to_bytes(&self) -> (r: Vec<u8>) {
        Vec::new()
    }

    fn decode(b: &[u8]) -> (r: Option<Self>) {
        if b.len() == 0 {
            Some(SampleReply {})
        } else {
            None
        }
    }
}

/// The bytes of a text payload: the text as a length-framed field.
pub open spec fn decode_text(b: Seq<u8>) -> Option<Seq<char>> {
    match parse_text_field(b) {
        Some((s, k)) => if k == b.len() {
            Some(s)
        } else {
            None
        },
        None => None,
    }
}

proof fn lemma_decode_text(s: Seq<char>)
    requires
        text_field(s).len() <= u64::MAX,
    ensures
        decode_text(text_field(s)) == Some(s),
{
    assert(text_field(s) + Seq::<u8>::empty() =~= text_field(s));
    lemma_parse_text_field(s, Seq::empty());
}

fn read_text_payload(b: &[u8]) -> (r: Option<String>)
    ensures
        r is Some <==> decode_text(b@) is Some,
        r matches Some(s) ==> decode_text(b@) == Some(s@),
{
    proof {
        assert(b@.subrange(0, b@.len() as int) =~= b@);
    }
    match read_text_field(b, 0) {
        Some((s, end)) => if end == b.len() {
            Some(s)
        } else {
            None
        },
        None => None,
    }
}

fn write_text_payload(s: &String) -> (r: Vec<u8>)
    ensures
        r@ == text_field(s@),
        r@.len() <= u64::MAX,
{
    let mut out: Vec<u8> = Vec::new();
    write_text_field(&mut out, s.as_str());
    // A vector's length fits in `usize`, hence in 64 bits.
    let len = out.len();
    proof {
        assert(len <= u64::MAX);
    }
    out
}

/// Asks the server to let the sender connect to the peer `connect_to`.
#[derive(Debug, Clone)]
pub struct StartRequest {
    pub connect_to: String,
}

impl View for StartRequest {
    type V = Seq<char>;

    open spec fn view(&self) -> Seq<char> {
        self.connect_to@
    }
}

impl Payload for StartRequest {
    const KIND: PayloadKind = PayloadKind::StartRequest;

    open spec fn spec_kind() -> PayloadKind {
        PayloadKind::StartRequest
    }

    open spec fn valid(v: Seq<char>) -> bool {
        text_field(v).len() <= u64::MAX
    }

    open spec fn spec_encode(v: Seq<char>) -> Seq<u8> {
        text_field(v)
    }

    open spec fn spec_decode(b: Seq<u8>) -> Option<Seq<char>> {
        decode_text(b)
    }

    proof fn lemma_decode_encode(v: Seq<char>) {
        lemma_decode_text(v);
    }

    fn kind() -> (k: PayloadKind) {
        Self::KIND
    }

    fn to_bytes(&self) -> (r: Vec<u8>) {
        write_text_payload(&self.connect_to)
    }

    fn decode(b: &[u8]) -> (r: Option<Self>) {
        match read_text_payload(b) {
            Some(connect_to) => Some(StartRequest { connect_to }),
            None => None,
        }
    }
}

/// Asks the server to forget the sender's request to connect to `connect_to`.
#[derive(Debug, Clone)]
pub struct StopRequest {
    pub connect_to: String,
}

impl View for StopRequest {
    type V = Seq<char>;

    open spec fn view(&self) -> Seq<char> {
        self.connect_to@
    }
}

impl Payload for StopRequest {
    const KIND: PayloadKind = PayloadKind::StopRequest;

    open spec fn spec_kind() -> PayloadKind {
        PayloadKind::StopRequest
    }

    open spec fn valid(v: Seq<char>) -> bool {
        text_field(v).len() <= u64::MAX
    }

    open spec fn spec_encode(v: Seq<char>) -> Seq<u8> {
        text_field(v)
    }

    open spec fn spec_decode(b: Seq<u8>) -> Option<Seq<char>> {
        decode_text(b)
    }

    proof fn lemma_decode_encode(v: Seq<char>) {
        lemma_decode_text(v);
    }

    fn kind() -> (k: PayloadKind) {
        Self::KIND
    }

    fn to_bytes(&self) -> (r: Vec<u8>) {
        write_text_payload(&self.connect_to)
    }

    fn decode(b: &[u8]) -> (r: Option<Self>) {
        match read_text_payload(b) {
            Some(connect_to) => Some(StopRequest { connect_to }),
            None => None,
        }
    }
}

/// The bytes of a start reply: `0` when the connection may not go on yet;
/// `1` and the connection id when it may.
pub open spec fn encode_start_reply(v: Option<u32>) -> Seq<u8> {
    match v {
        None => seq![0u8],
        Some(id) => seq![1u8] + varint(id as nat),
    }
}

pub open spec fn decode_start_reply(b: Seq<u8>) -> Option<Option<u32>> {
    if b.len() == 1 && b[0] == 0 {
        Some(None)
    } else if b.len() >= 1 && b[0] == 1 {
        match parse_uint(b.drop_first(), u32::MAX as nat) {
            Some((id, k)) => if k + 1 == b.len() {
                Some(Some(id as u32))
            } else {
                None
            },
            None => None,
        }
    } else {
        None
    }
}

/// Answers a start request: carries a connection id once both peers have
/// asked to connect to each other.
#[derive(Debug, Clone, Copy)]
pub struct StartReply {
    pub connection_id: Option<u32>,
}

impl View for StartReply {
    type V = Option<u32>;

    open spec fn view(&self) -> Option<u32> {
        self.connection_id
    }
}

impl Payload for StartReply {
    const KIND: PayloadKind = PayloadKind::StartReply;

    open spec fn spec_kind() -> PayloadKind {
        PayloadKind::StartReply
    }

    open spec fn valid(v: Option<u32>) -> bool {
        true
    }

    open spec fn spec_encode(v: Option<u32>) -> Seq<u8> {
        encode_start_reply(v)
    }

    open spec fn spec_decode(b: Seq<u8>) -> Option<Option<u32>> {
        decode_start_reply(b)
    }

    proof fn lemma_decode_encode(v: Option<u32>) {
        if let Some(id) = v {
            let b = encode_start_reply(v);
            assert(b.drop_first() =~= varint(id as nat) + Seq::<u8>::empty());
            lemma_parse_uint(id as nat, u32::MAX as nat, Seq::empty());
            lemma_varint_bounded(id as nat);
        }
    }

    fn kind() -> (k: PayloadKind) {
        Self::KIND
    }

    fn to_bytes(&self) -> (r: Vec<u8>) {
        let mut out: Vec<u8> = Vec::new();
        match self.connection_id {
            None => {
                out.push(0);
                proof {
                    assert(out@ =~= seq![0u8]);
                }
            },
            Some(id) => {
                out.push(1);
                write_varint(&mut out, id as u64);
                proof {
                    assert(out@ =~= seq![1u8] + varint(id as nat));
                }
            },
        }
        out
    }

    fn decode(b: &[u8]) -> (r: Option<Self>) {
        if b.len() == 1 && b[0] == 0 {
            Some(StartReply { connection_id: None })
        } else if b.len() >= 1 && b[0] == 1 {
            proof {
                assert(b@.subrange(1, b@.len() as int) =~= b@.drop_first());
            }
            match read_uint(b, 1, 0xffff_ffff) {
                Some((id, end)) => if end == b.len() {
                    Some(StartReply { connection_id: Some(id as u32) })
                } else {
                    None
                },
                None => None,
            }
        } else {
            None
        }
    }
}

/// The bytes of a sample request: the connection id, the sender's source
/// port and the sequence number, each a variable-length integer.
pub open spec fn encode_sample_request(v: (u32, u16, u16)) -> Seq<u8> {
    varint(v.0 as nat) + varint(v.1 as nat) + varint(v.2 as nat)
}

pub open spec fn decode_sample_request(b: Seq<u8>) -> Option<(u32, u16, u16)> {
    match parse_uint(b, u32::MAX as nat) {
        Some((id, k1)) => {
            let b1 = b.subrange(k1 as int, b.len() as int);
            match parse_uint(b1, u16::MAX as nat) {
                Some((port, k2)) => {
                    let b2 = b1.subrange(k2 as int, b1.len() as int);
                    match parse_uint(b2, u16::MAX as nat) {
                        Some((seq_number, k3)) => if k3 == b2.len() {
                            Some((id as u32, port as u16, seq_number as u16))
                        } else {
                            None
                        },
                        None => None,
                    }
                },
                None => None,
            }
        },
        None => None,
    }
}

/// Reports one sample datagram of a connection to the server.
#[derive(Debug, Clone, Copy)]
pub struct SampleRequest {
    pub connection_id: u32,
    pub src_port: u16,
    pub seq_number: u16,
}

impl View for SampleRequest {
    type V = (u32, u16, u16);

    open spec fn view(&self) -> (u32, u16, u16) {
        (self.connection_id, self.src_port, self.seq_number)
    }
}

impl Payload for SampleRequest {
    const KIND: PayloadKind = PayloadKind::SampleRequest;

    open spec fn spec_kind() -> PayloadKind {
        PayloadKind::SampleRequest
    }

    open spec fn valid(v: (u32, u16, u16)) -> bool {
        true
    }

    open spec fn spec_encode(v: (u32, u16, u16)) -> Seq<u8> {
        encode_sample_request(v)
    }

    open spec fn spec_decode(b: Seq<u8>) -> Option<(u32, u16, u16)> {
        decode_sample_request(b)
    }

    proof fn lemma_decode_encode(v: (u32, u16, u16)) {
        let a = varint(v.0 as nat);
        let p = varint(v.1 as nat);
        let q = varint(v.2 as nat);
        let b = encode_sample_request(v);
        assert(b =~= a + (p + q));
        lemma_parse_uint(v.0 as nat, u32::MAX as nat, p + q);
        let b1 = b.subrange(a.len() as int, b.len() as int);
        assert(b1 =~= p + q);
        lemma_parse_uint(v.1 as nat, u16::MAX as nat, q);
        let b2 = b1.subrange(p.len() as int, b1.len() as int);
        assert(b2 =~= q + Seq::<u8>::empty());
        lemma_parse_uint(v.2 as nat, u16::MAX as nat, Seq::empty());
        lemma_varint_bounded(v.0 as nat);
        lemma_varint_bounded(v.1 as nat);
        lemma_varint_bounded(v.2 as nat);
    }

    fn kind() -> (k: PayloadKind) {
        Self::KIND
    }

    fn to_bytes(&self) -> (r: Vec<u8>) {
        let mut out: Vec<u8> = Vec::new();
        write_varint(&mut out, self.connection_id as u64);
        write_varint(&mut out, self.src_port as u64);
        write_varint(&mut out, self.seq_number as u64);
        proof {
            assert(out@ =~= encode_sample_request(self@));
        }
        out
    }

    fn decode(b: &[u8]) -> (r: Option<Self>) {
        proof {
            assert(b@.subrange(0, b@.len() as int) =~= b@);
        }
        let (id, p1) = match read_uint(b, 0, 0xffff_ffff) {
            Some(x) => x,
            None => return None,
        };
        let ghost b1 = b@.subrange(p1 as int, b@.len() as int);
        let (port, p2) = match read_uint(b, p1, 0xffff) {
            Some(x) => x,
            None => return None,
        };
        let ghost b2 = b1.subrange((p2 - p1) as int, b1.len() as int);
        proof {
            assert(b2 =~= b@.subrange(p2 as int, b@.len() as int));
        }
        let (seq_number, p3) = match read_uint(b, p2, 0xffff) {
            Some(x) => x,
            None => return None,
        };
        if p3 != b.len() {
            return None;
        }
        Some(SampleRequest { connection_id: id as u32, src_port: port as u16, seq_number: seq_number as u16 })
    }
}

/// A UDP socket address: an IPv4 or IPv6 address and a port.
#[derive(PartialEq, Eq, Debug, Clone, Copy, Hash)]
pub enum PeerAddr {
    /// Four octets and a port.
    V4([u8; 4], u16),
    /// Sixteen octets and a port.
    V6([u8; 16], u16),
}

/// An address as its octets (four or sixteen) and its port.
pub ghost struct AddrView {
    pub octets: Seq<u8>,
    pub port: u16,
}

impl View for PeerAddr {
    type V = AddrView;

    open spec fn view(&self) -> AddrView {
        match self {
            PeerAddr::V4(octets, port) => AddrView { octets: octets@, port: *port },
            PeerAddr::V6(octets, port) => AddrView { octets: octets@, port: *port },
        }
    }
}

impl PeerAddr {
    pub fn port(&self) -> (r: u16)
        ensures
            r == self@.port,
    {
        match self {
            PeerAddr::V4(_, port) => *port,
            PeerAddr::V6(_, port) => *port,
        }
    }
}

/// The bytes of an address: `0` and four octets, or `1` and sixteen octets,
/// then the port as a variable-length integer.
pub open spec fn encode_addr(a: AddrView) -> Seq<u8> {
    (if a.octets.len() == 4 {
        seq![0u8]
    } else {
        seq![1u8]
    }) + a.octets + varint(a.port as nat)
}

pub open spec fn decode_addr(b: Seq<u8>) -> Option<AddrView> {
    if b.len() >= 1 && (b[0] == 0 || b[0] == 1) {
        let n: nat = if b[0] == 0 {
            4
        } else {
            16
        };
        if b.len() >= 1 + n {
            match parse_uint(b.subrange((1 + n) as int, b.len() as int), u16::MAX as nat) {
                Some((port, k)) => if 1 + n + k == b.len() {
                    Some(AddrView { octets: b.subrange(1, (1 + n) as int), port: port as u16 })
                } else {
                    None
                },
                None => None,
            }
        } else {
            None
        }
    } else {
        None
    }
}

/// Reports the sender's address as the server saw it.
#[derive(Debug, Clone, Copy)]
pub struct ProbeReply {
    pub public_addr: PeerAddr,
}

impl View for ProbeReply {
    type V = AddrView;

    open spec fn view(&self) -> AddrView {
        self.public_addr@
    }
}

impl Payload for ProbeReply {
    const KIND: PayloadKind = PayloadKind::ProbeReply;

    open spec fn spec_kind() -> PayloadKind {
        PayloadKind::ProbeReply
    }

    open spec fn valid(v: AddrView) -> bool {
        v.octets.len() == 4 || v.octets.len() == 16
    }

    open spec fn spec_encode(v: AddrView) -> Seq<u8> {
        encode_addr(v)
    }

    open spec fn spec_decode(b: Seq<u8>) -> Option<AddrView> {
        decode_addr(b)
    }

    proof fn lemma_decode_encode(v: AddrView) {
        let b = encode_addr(v);
        let n = v.octets.len();
        let pv = varint(v.port as nat);
        assert(b.subrange((1 + n) as int, b.len() as int) =~= pv + Seq::<u8>::empty());
        assert(b.subrange(1, (1 + n) as int) =~= v.octets);
        lemma_parse_uint(v.port as nat, u16::MAX as nat, Seq::empty());
        lemma_varint_bounded(v.port as nat);
    }

    fn kind() -> (k: PayloadKind) {
        Self::KIND
    }

    fn to_bytes(&self) -> (r: Vec<u8>) {
        let mut out: Vec<u8> = Vec::new();
        match &self.public_addr {
            PeerAddr::V4(octets, port) => {
                out.push(0);
                write_raw(&mut out, octets.as_slice());
                write_varint(&mut out, *port as u64);
            },
            PeerAddr::V6(octets, port) => {
                out.push(1);
                write_raw(&mut out, octets.as_slice());
                write_varint(&mut out, *port as u64);
            },
        }
        proof {
            assert(out@ =~= encode_addr(self@));
            lemma_varint_bounded(self@.port as nat);
        }
        out
    }

    fn decode(b: &[u8]) -> (r: Option<Self>) {
        if b.len() < 1 || (b[0] != 0 && b[0] != 1) {
            return None;
        }
        let n: usize = if b[0] == 0 {
            4
        } else {
            16
        };
        if b.len() < 1 + n {
            return None;
        }
        let (port, end) = match read_uint(b, 1 + n, 0xffff) {
            Some(x) => x,
            None => return None,
        };
        if end != b.len() {
            return None;
        }
        let public_addr = if n == 4 {
            PeerAddr::V4(read_array(b, 1), port as u16)
        } else {
            PeerAddr::V6(read_array(b, 1), port as u16)
        };
        Some(ProbeReply { public_addr })
    }
}

/// Kind uniqueness: the payload types have pairwise distinct kinds.
pub proof fn law_payload_kinds_distinct()
    ensures
        seq![
            ProbeRequest::spec_kind(),
            ProbeReply::spec_kind(),
            StartRequest::spec_kind(),
            StartReply::spec_kind(),
            StopRequest::spec_kind(),
            Ack::spec_kind(),
            SampleRequest::spec_kind(),
            SampleReply::spec_kind(),
        ].no_duplicates(),
{
    let s = seq![
        ProbeRequest::spec_kind(),
        ProbeReply::spec_kind(),
        StartRequest::spec_kind(),
        StartReply::spec_kind(),
        StopRequest::spec_kind(),
        Ack::spec_kind(),
        SampleRequest::spec_kind(),
        SampleReply::spec_kind(),
    ];
    assert forall|i: int, j: int| 0 <= i < s.len() && 0 <= j < s.len() && i != j implies s[i]
        != s[j] by {
        assert(kind_tag(s[i]) == i && kind_tag(s[j]) == j);
    }
}

} // verus!
