//! Server-side rendezvous state: the two-party connect matcher, the live
//! connection ids and the sample ledger.
use vstd::prelude::*;
use dashmap::{DashMap, DashSet};
use crate::payloads::PeerAddr;

verus! {

/// Directed connect requests, keyed by (requesting peer, requested peer).
pub type RequestMap = DashMap<(String, String), bool>;

/// A directed pair of peer ids.
pub type PeerPair = (Seq<char>, Seq<char>);

/// The directed connect requests that a table holds: key `(a, b)` is there
/// once `a` has asked to connect to `b`; its value is true once `b` has
/// asked too.
pub uninterp spec fn request_table(m: RequestMap) -> Map<PeerPair, bool>;

/// Relies on `DashMap::new`: a new map is empty.
#[verifier::external_body]
fn new_request_table() -> (r: RequestMap)
    ensures
        request_table(r).dom().is_empty(),
{
    DashMap::new()
}

/// Relies on `DashMap::get`: the value under the key, if there is one.
/// `String` keys compare by their characters.
#[verifier::external_body]
fn request_get(m: &RequestMap, key: &(String, String)) -> (r: Option<bool>)
    ensures
        r == (if request_table(*m).contains_key((key.0@, key.1@)) {
            Some(request_table(*m)[(key.0@, key.1@)])
        } else {
            None
        }),
{
    m.get(key).map(|v| *v.value())
}

/// Relies on `DashMap::insert`: afterwards the key maps to the value and
/// nothing else changed.
#[verifier::external_body]
fn request_insert(m: &mut RequestMap, key: (String, String), value: bool)
    ensures
        request_table(*final(m)) == request_table(*old(m)).insert((key.0@, key.1@), value),
{
    m.insert(key, value);
}

/// Relies on `DashMap::remove`: afterwards the key is absent and nothing
/// else changed; gives the value that was there.
#[verifier::external_body]
fn request_remove(m: &mut RequestMap, key: &(String, String)) -> (r: Option<bool>)
    ensures
        request_table(*final(m)) == request_table(*old(m)).remove((key.0@, key.1@)),
        r == (if request_table(*old(m)).contains_key((key.0@, key.1@)) {
            Some(request_table(*old(m))[(key.0@, key.1@)])
        } else {
            None
        }),
{
    m.remove(key).map(|(_, v)| v)
}

/// One directed request: requesting peer, requested peer, and whether the
/// requested peer has asked too.
pub type RequestEntry = (String, String, bool);

/// Relies on `DashMap::iter`: while the map is borrowed, it visits each
/// entry once, in an order the map chooses. The result holds exactly the
/// table's entries.
#[verifier::external_body]
fn request_entries(m: &RequestMap) -> (r: Vec<RequestEntry>)
    ensures
        forall|i: int|
            0 <= i < r@.len() ==> request_table(*m).contains_key((#[trigger] r@[i].0@, r@[i].1@))
                && request_table(*m)[(r@[i].0@, r@[i].1@)] == r@[i].2,
        forall|k: PeerPair|
            #[trigger] request_table(*m).contains_key(k) ==> exists|i: int|
                0 <= i < r@.len() && (r@[i].0@, r@[i].1@) == k,
{
    m.iter().map(|e| (e.key().0.clone(), e.key().1.clone(), *e.value())).collect()
}

/// Where the connect handshake between two peers stands.
#[derive(PartialEq, Eq, Structural, Debug, Clone, Copy)]
pub enum PairState {
    Absent,
    OneSideRequested,
    BothRequested,
}

/// The handshake state of peers `a` and `b` in table `t`, whichever of
/// them asked first.
pub open spec fn pair_state(t: Map<PeerPair, bool>, a: Seq<char>, b: Seq<char>) -> PairState {
    if (t.contains_key((a, b)) && t[(a, b)]) || (t.contains_key((b, a)) && t[(b, a)]) {
        PairState::BothRequested
    } else if t.contains_key((a, b)) || t.contains_key((b, a)) {
        PairState::OneSideRequested
    } else {
        PairState::Absent
    }
}

/// A table holds at most one direction of each pair of distinct peers.
pub open spec fn requests_wf(t: Map<PeerPair, bool>) -> bool {
    forall|a: Seq<char>, b: Seq<char>|
        a != b && #[trigger] t.contains_key((a, b)) ==> !t.contains_key((b, a))
}

/// A start request from `from` to `to`: whether the connection may go on,
/// and the table after it. If `to` had already asked for `from`, both have
/// now asked; if `from` had asked before, nothing changes; otherwise the
/// request is recorded as one-sided.
pub open spec fn start_request(t: Map<PeerPair, bool>, from: Seq<char>, to: Seq<char>) -> (bool, Map<PeerPair, bool>) {
    if t.contains_key((to, from)) {
        (true, t.insert((to, from), true))
    } else if t.contains_key((from, to)) {
        (t[(from, to)], t)
    } else {
        (false, t.insert((from, to), false))
    }
}

/// A stop request between `from` and `to`: the record of the pair is
/// removed, in whichever direction it was made.
pub open spec fn stop_request(t: Map<PeerPair, bool>, from: Seq<char>, to: Seq<char>) -> Map<PeerPair, bool> {
    if t.contains_key((from, to)) {
        t.remove((from, to))
    } else {
        t.remove((to, from))
    }
}

proof fn lemma_start_wf(t: Map<PeerPair, bool>, from: Seq<char>, to: Seq<char>)
    requires
        requests_wf(t),
    ensures
        requests_wf(start_request(t, from, to).1),
{
    let t2 = start_request(t, from, to).1;
    assert forall|a: Seq<char>, b: Seq<char>|
        a != b && #[trigger] t2.contains_key((a, b)) implies !t2.contains_key((b, a)) by {
        assert(t.contains_key((a, b)) || (a, b) == (from, to));
        assert(t.contains_key((b, a)) ==> t2.contains_key((b, a)));
        if t.contains_key((a, b)) {
            assert(!t.contains_key((b, a)));
        }
    }
}

proof fn lemma_stop_wf(t: Map<PeerPair, bool>, from: Seq<char>, to: Seq<char>)
    requires
        requests_wf(t),
    ensures
        requests_wf(stop_request(t, from, to)),
{
    let t2 = stop_request(t, from, to);
    assert forall|a: Seq<char>, b: Seq<char>|
        a != b && #[trigger] t2.contains_key((a, b)) implies !t2.contains_key((b, a)) by {
        assert(t.contains_key((a, b)));
    }
}

/// Rendezvous symmetry: when neither of two peers has asked yet, the first
/// to ask is told to wait and the second is told to go on, whichever asks
/// first; both have then asked.
pub proof fn law_rendezvous_symmetry(t: Map<PeerPair, bool>, a: Seq<char>, b: Seq<char>)
    requires
        pair_state(t, a, b) == PairState::Absent,
    ensures
        ({
            let (r1, t1) = start_request(t, a, b);
            let (r2, t2) = start_request(t1, b, a);
            !r1 && r2 && pair_state(t1, a, b) == PairState::OneSideRequested && pair_state(
                t2,
                a,
                b,
            ) == PairState::BothRequested
        }),
{
}

/// Rendezvous idempotence: once both peers have asked, asking again is told
/// to go on and leaves both asked.
pub proof fn law_rendezvous_idempotent(t: Map<PeerPair, bool>, a: Seq<char>, b: Seq<char>)
    requires
        pair_state(t, a, b) == PairState::BothRequested,
    ensures
        start_request(t, a, b).0,
        pair_state(start_request(t, a, b).1, a, b) == PairState::BothRequested,
{
}

/// A stop clears the pair: after both peers have asked, a stop leaves the
/// pair absent, and a later start request is treated as a first one.
pub proof fn law_stop_clears(t: Map<PeerPair, bool>, a: Seq<char>, b: Seq<char>)
    requires
        requests_wf(t),
        pair_state(t, a, b) == PairState::BothRequested,
    ensures
        pair_state(stop_request(t, a, b), a, b) == PairState::Absent,
        !start_request(stop_request(t, a, b), a, b).0,
        pair_state(start_request(stop_request(t, a, b), a, b).1, a, b)
            == PairState::OneSideRequested,
{
}

/// The connect matcher: records directed start requests until both peers of
/// a pair have asked for each other.
pub struct ConnectRequests {
    data: RequestMap,
}

impl View for ConnectRequests {
    type V = Map<PeerPair, bool>;

    closed spec fn view(&self) -> Map<PeerPair, bool> {
        request_table(self.data)
    }
}

impl ConnectRequests {
    pub open spec fn wf(&self) -> bool {
        requests_wf(self@)
    }

    pub fn new() -> (r: ConnectRequests)
        ensures
            r@.dom().is_empty(),
            r.wf(),
    {
        ConnectRequests { data: new_request_table() }
    }

    /// Records a request from `from_peer` to connect to `to_peer`. Returns
    /// true once both peers have asked to connect to each other.
    pub fn handle_start_request(&mut self, from_peer: &String, to_peer: &String) -> (r: bool)
        requires
            old(self).wf(),
        ensures
            final(self).wf(),
            (r, final(self)@) == start_request(old(self)@, from_peer@, to_peer@),
    {
        proof {
            lemma_start_wf(self@, from_peer@, to_peer@);
        }
        let key_rev = (to_peer.clone(), from_peer.clone());
        if request_get(&self.data, &key_rev).is_some() {
            request_insert(&mut self.data, key_rev, true);
            return true;
        }
        let key = (from_peer.clone(), to_peer.clone());
        match request_get(&self.data, &key) {
            Some(both) => both,
            None => {
                request_insert(&mut self.data, key, false);
                false
            },
        }
    }

    /// Forgets the request between the two peers, in whichever direction it
    /// was made; nothing happens if there is none.
    pub fn handle_stop_request(&mut self, from_peer: &String, to_peer: &String)
        requires
            old(self).wf(),
        ensures
            final(self).wf(),
            final(self)@ == stop_request(old(self)@, from_peer@, to_peer@),
    {
        proof {
            lemma_stop_wf(self@, from_peer@, to_peer@);
        }
        let key = (from_peer.clone(), to_peer.clone());
        if request_remove(&mut self.data, &key).is_none() {
            let key_rev = (to_peer.clone(), from_peer.clone());
            request_remove(&mut self.data, &key_rev);
        }
    }

    /// A snapshot of the recorded requests, in no particular order.
    pub fn entries(&self) -> (r: Vec<RequestEntry>)
        ensures
            forall|i: int|
                0 <= i < r@.len() ==> self@.contains_key((#[trigger] r@[i].0@, r@[i].1@))
                    && self@[(r@[i].0@, r@[i].1@)] == r@[i].2,
            forall|k: PeerPair|
                #[trigger] self@.contains_key(k) ==> exists|i: int|
                    0 <= i < r@.len() && (r@[i].0@, r@[i].1@) == k,
    {
        request_entries(&self.data)
    }

    /// Whether `from` has asked to connect to `to`.
    pub fn has_request(&self, from: &String, to: &String) -> (r: bool)
        ensures
            r == self@.contains_key((from@, to@)),
    {
        request_get(&self.data, &(from.clone(), to.clone())).is_some()
    }

    /// Where the handshake between `a` and `b` stands.
    pub fn pair_state(&self, a: &String, b: &String) -> (r: PairState)
        ensures
            r == pair_state(self@, a@, b@),
    {
        let ab = request_get(&self.data, &(a.clone(), b.clone()));
        let ba = request_get(&self.data, &(b.clone(), a.clone()));
        if ab == Some(true) || ba == Some(true) {
            PairState::BothRequested
        } else if ab.is_some() || ba.is_some() {
            PairState::OneSideRequested
        } else {
            PairState::Absent
        }
    }
}

/// The connection ids that a set holds.
pub uninterp spec fn id_set(s: DashSet<u32>) -> Set<u32>;

/// Relies on `DashSet::new`: a new set is empty.
#[verifier::external_body]
fn new_id_set() -> (r: DashSet<u32>)
    ensures
        id_set(r).is_empty(),
{
    DashSet::new()
}

/// Relies on `DashSet::insert`: afterwards the id is in the set; gives true
/// exactly when it was not there before.
#[verifier::external_body]
fn id_insert(s: &mut DashSet<u32>, id: u32) -> (r: bool)
    ensures
        id_set(*final(s)) == id_set(*old(s)).insert(id),
        r == !id_set(*old(s)).contains(id),
{
    s.insert(id)
}

/// Relies on `DashSet::contains`: whether the id is in the set.
#[verifier::external_body]
fn id_contains(s: &DashSet<u32>, id: u32) -> (r: bool)
    ensures
        r == id_set(*s).contains(id),
{
    s.contains(&id)
}

/// Relies on `rand::random`: a value drawn from the thread-local generator;
/// nothing is promised of it.
pub assume_specification<T>[ rand::random::<T> ]() -> T
    where
        rand::distributions::Standard: rand::distributions::Distribution<T>,
;

/// How many random ids are drawn before allocation gives up.
pub const MAX_ID_TRIES: usize = 100;

/// The connection ids that are live.
pub struct ConnectionIds {
    data: DashSet<u32>,
}

impl View for ConnectionIds {
    type V = Set<u32>;

    closed spec fn view(&self) -> Set<u32> {
        id_set(self.data)
    }
}

impl ConnectionIds {
    pub fn new() -> (r: ConnectionIds)
        ensures
            r@.is_empty(),
    {
        ConnectionIds { data: new_id_set() }
    }

    pub fn contains(&self, id: u32) -> (r: bool)
        ensures
            r == self@.contains(id),
    {
        id_contains(&self.data, id)
    }

    /// Makes live the first of `draws` that is not live yet, and gives it;
    /// gives `None`, changing nothing, if every draw is live.
    pub fn claim_first_free(&mut self, draws: &[u32]) -> (r: Option<u32>)
        ensures
            r == first_free(old(self)@, draws@),
            final(self)@ == match r {
                Some(id) => old(self)@.insert(id),
                None => old(self)@,
            },
    {
        let mut i: usize = 0;
        proof {
            assert(draws@.subrange(0, draws@.len() as int) =~= draws@);
        }
        while i < draws.len()
            invariant
                i <= draws@.len(),
                self@ == old(self)@,
                first_free(old(self)@, draws@) == first_free(old(self)@, draws@.subrange(
                    i as int,
                    draws@.len() as int,
                )),
            decreases draws@.len() - i,
        {
            let id = draws[i];
            proof {
                assert(draws@.subrange(i as int, draws@.len() as int).drop_first() =~= draws@.subrange(
                    i + 1,
                    draws@.len() as int,
                ));
            }
            if id_insert(&mut self.data, id) {
                return Some(id);
            }
            proof {
                assert(self@ =~= old(self)@);
            }
            i = i + 1;
        }
        proof {
            assert(draws@.subrange(i as int, draws@.len() as int) =~= Seq::<u32>::empty());
        }
        None
    }

    /// Allocates a random id that is not live yet and makes it live: draws
    /// `MAX_ID_TRIES` random ids and claims the first free one. Gives `None`,
    /// and changes nothing, only if every draw hit a live id; with no live id
    /// it always succeeds.
    pub fn new_connection_id(&mut self) -> (r: Option<u32>)
        ensures
            r matches Some(id) ==> !old(self)@.contains(id) && final(self)@ == old(self)@.insert(id),
            r is None ==> final(self)@ == old(self)@,
            old(self)@.is_empty() ==> r is Some,
    {
        let mut draws: Vec<u32> = Vec::new();
        while draws.len() < MAX_ID_TRIES
            invariant
                draws@.len() <= MAX_ID_TRIES,
            decreases MAX_ID_TRIES - draws@.len(),
        {
            let id: u32 = rand::random();
            draws.push(id);
        }
        proof {
            lemma_first_free(old(self)@, draws@);
        }
        self.claim_first_free(draws.as_slice())
    }
}

/// The first of `draws` that is not in `live`; `None` if all are.
pub open spec fn first_free(live: Set<u32>, draws: Seq<u32>) -> Option<u32>
    decreases draws.len(),
{
    if draws.len() == 0 {
        None
    } else if !live.contains(draws[0]) {
        Some(draws[0])
    } else {
        first_free(live, draws.drop_first())
    }
}

/// The first free draw is a draw that is not live; there is none only if
/// every draw is live, which cannot be when nothing is live and there is a
/// draw.
pub proof fn lemma_first_free(live: Set<u32>, draws: Seq<u32>)
    ensures
        first_free(live, draws) matches Some(id) ==> !live.contains(id) && draws.contains(id),
        first_free(live, draws) is None <==> forall|i: int| 0 <= i < draws.len() ==> live.contains(#[trigger] draws[i]),
        live.is_empty() && draws.len() > 0 ==> first_free(live, draws) is Some,
    decreases draws.len(),
{
    if draws.len() > 0 {
        lemma_first_free(live, draws.drop_first());
        if live.contains(draws[0]) {
            if first_free(live, draws.drop_first()) is Some {
                assert(draws.drop_first().contains(first_free(live, draws).unwrap()));
                let j = choose|j: int| 0 <= j < draws.drop_first().len() && draws.drop_first()[j] == first_free(live, draws).unwrap();
                assert(draws[j + 1] == draws.drop_first()[j]);
            }
            assert((forall|i: int| 0 <= i < draws.len() ==> live.contains(#[trigger] draws[i])) <==> (forall|i: int| 0 <= i < draws.drop_first().len() ==> live.contains(#[trigger] draws.drop_first()[i]))) by {
                assert forall|i: int| 0 <= i < draws.drop_first().len() implies draws.drop_first()[i] == draws[i + 1] by {}
                if forall|i: int| 0 <= i < draws.drop_first().len() ==> live.contains(#[trigger] draws.drop_first()[i]) {
                    assert forall|i: int| 0 <= i < draws.len() implies live.contains(#[trigger] draws[i]) by {
                        if i > 0 {
                            assert(draws[i] == draws.drop_first()[i - 1]);
                        }
                    }
                }
            }
        } else {
            assert(draws.contains(draws[0]) && draws[0] == draws[0]);
            assert(!live.contains(draws[0]));
        }
    }
}

/// One sample datagram that a peer reported.
#[derive(Debug, Clone)]
pub struct Sample {
    /// Peer that sent the sample.
    pub peer_id: String,
    /// The source address of the datagram as the server received it.
    pub peer_addr: PeerAddr,
    /// Connection the sample belongs to.
    pub connection_id: u32,
    /// The local port the peer says it sent from.
    pub src_port: u16,
    /// The sample's sequence number.
    pub seq_number: u16,
}

/// The sample ledger: samples in the order they came, none dropped.
pub struct Samples {
    data: Vec<Sample>,
}

impl View for Samples {
    type V = Seq<Sample>;

    closed spec fn view(&self) -> Seq<Sample> {
        self.data@
    }
}

impl Samples {
    pub fn new() -> (r: Samples)
        ensures
            r@ == Seq::<Sample>::empty(),
    {
        Samples { data: Vec::new() }
    }

    /// Appends a sample.
    pub fn insert_sample(&mut self, sample: Sample)
        ensures
            final(self)@ == old(self)@.push(sample),
    {
        self.data.push(sample);
    }

    pub fn len(&self) -> (r: usize)
        ensures
            r == self@.len(),
    {
        self.data.len()
    }

    /// The sample at position `i`, in the order they were inserted.
    pub fn get(&self, i: usize) -> (r: &Sample)
        requires
            i < self@.len(),
        ensures
            *r == self@[i as int],
    {
        &self.data[i]
    }
}

/// Connection ids of matched pairs, keyed by a pair's directed request.
pub type PairIdMap = DashMap<(String, String), u32>;

/// The connection id of each matched pair, under the key of its request.
pub uninterp spec fn pair_id_table(m: PairIdMap) -> Map<PeerPair, u32>;

/// Relies on `DashMap::new`: a new map is empty.
#[verifier::external_body]
fn new_pair_id_table() -> (r: PairIdMap)
    ensures
        pair_id_table(r).dom().is_empty(),
{
    DashMap::new()
}

/// Relies on `DashMap::get`: a copy of the id under the key, if any.
#[verifier::external_body]
fn pair_id_get(m: &PairIdMap, key: &(String, String)) -> (r: Option<u32>)
    ensures
        r == (if pair_id_table(*m).contains_key((key.0@, key.1@)) {
            Some(pair_id_table(*m)[(key.0@, key.1@)])
        } else {
            None
        }),
{
    m.get(key).map(|v| *v.value())
}

/// Relies on `DashMap::insert`: afterwards the key maps to the id and
/// nothing else changed.
#[verifier::external_body]
fn pair_id_insert(m: &mut PairIdMap, key: (String, String), id: u32)
    ensures
        pair_id_table(*final(m)) == pair_id_table(*old(m)).insert((key.0@, key.1@), id),
{
    m.insert(key, id);
}

/// Relies on `DashMap::remove`: afterwards the key is absent and nothing
/// else changed.
#[verifier::external_body]
fn pair_id_remove(m: &mut PairIdMap, key: &(String, String)) -> (r: Option<u32>)
    ensures
        pair_id_table(*final(m)) == pair_id_table(*old(m)).remove((key.0@, key.1@)),
        r == (if pair_id_table(*old(m)).contains_key((key.0@, key.1@)) {
            Some(pair_id_table(*old(m))[(key.0@, key.1@)])
        } else {
            None
        }),
{
    m.remove(key).map(|(_, v)| v)
}

/// The directed request under which a start request from `from` to `to`
/// is recorded: the other peer's request if it exists, else this one.
pub open spec fn request_key(t: Map<PeerPair, bool>, from: Seq<char>, to: Seq<char>) -> PeerPair {
    if t.contains_key((to, from)) {
        (to, from)
    } else {
        (from, to)
    }
}

/// The connection ids given to matched pairs. A pair gets its id once, when
/// both peers have asked, and keeps it until the pair is stopped.
pub struct PairIds {
    data: PairIdMap,
}

impl View for PairIds {
    type V = Map<PeerPair, u32>;

    closed spec fn view(&self) -> Map<PeerPair, u32> {
        pair_id_table(self.data)
    }
}

impl PairIds {
    pub fn new() -> (r: PairIds)
        ensures
            r@.dom().is_empty(),
    {
        PairIds { data: new_pair_id_table() }
    }

    /// The id of the pair recorded under `(a, b)`, if it has one.
    pub fn get(&self, a: &String, b: &String) -> (r: Option<u32>)
        ensures
            r == (if self@.contains_key((a@, b@)) {
                Some(self@[(a@, b@)])
            } else {
                None
            }),
    {
        pair_id_get(&self.data, &(a.clone(), b.clone()))
    }

    /// Gives the pair recorded under `(a, b)` the id `id`.
    pub fn insert(&mut self, a: &String, b: &String, id: u32)
        ensures
            final(self)@ == old(self)@.insert((a@, b@), id),
    {
        pair_id_insert(&mut self.data, (a.clone(), b.clone()), id);
    }

    /// Forgets the id of the pair of `a` and `b`, in both directions.
    pub fn remove_pair(&mut self, a: &String, b: &String)
        ensures
            final(self)@ == old(self)@.remove((a@, b@)).remove((b@, a@)),
    {
        pair_id_remove(&mut self.data, &(a.clone(), b.clone()));
        pair_id_remove(&mut self.data, &(b.clone(), a.clone()));
    }
}

/// The server's state: connect requests, live connection ids and samples.
pub struct State {
    pub connect_requests: ConnectRequests,
    pub connect_ids: ConnectionIds,
    pub pair_ids: PairIds,
    pub samples: Samples,
}

impl State {
    pub open spec fn wf(&self) -> bool {
        self.connect_requests.wf()
    }

    pub fn new() -> (r: State)
        ensures
            r.wf(),
            r.connect_requests@.dom().is_empty(),
            r.connect_ids@.is_empty(),
            r.pair_ids@.dom().is_empty(),
            r.samples@ == Seq::<Sample>::empty(),
    {
        State {
            connect_requests: ConnectRequests::new(),
            connect_ids: ConnectionIds::new(),
            pair_ids: PairIds::new(),
            samples: Samples::new(),
        }
    }
}

} // verus!
