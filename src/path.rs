use vstd::prelude::*;

use crate::area::AreaType;
use crate::digest::{hex_lower, is_lower_hex_char, sha1_hex, sha1_of};

verus! {

/// A directed hop between two consecutive stops: `(from, to)`.
pub type StopPair = (u16, u16);

/// The two bytes of a stop id, most significant first.
pub open spec fn stop_bytes(id: u16) -> Seq<u8> {
    seq![(id / 256) as u8, (id % 256) as u8]
}

/// The stop ids of a sequence, two bytes each, with a single zero byte between
/// two consecutive stops and none after the last.
pub open spec fn encode_stops(s: Seq<u16>) -> Seq<u8>
    decreases s.len(),
{
    if s.len() == 0 {
        Seq::empty()
    } else if s.len() == 1 {
        stop_bytes(s[0])
    } else {
        encode_stops(s.drop_last()) + seq![0u8] + stop_bytes(s.last())
    }
}

/// The bytes that identify a path: the classification byte, two zero bytes,
/// then the encoded stops.
pub open spec fn encode_path(ty: AreaType, s: Seq<u16>) -> Seq<u8> {
    seq![ty.spec_code(), 0u8, 0u8] + encode_stops(s)
}

/// The fingerprint of a stop sequence within a classification: the lowercase
/// hexadecimal SHA-1 digest of its encoding.
pub open spec fn fingerprint(ty: AreaType, s: Seq<u16>) -> Seq<char> {
    hex_lower(sha1_of(encode_path(ty, s)))
}

/// Where each stop lands in the encoding: stop `i` takes bytes `3i` and `3i + 1`.
pub proof fn lemma_encode_stops_layout(s: Seq<u16>)
    ensures
        s.len() == 0 ==> encode_stops(s).len() == 0,
        s.len() > 0 ==> encode_stops(s).len() == 3 * s.len() - 1,
        forall|i: int|
            0 <= i < s.len() ==> {
                &&& #[trigger] encode_stops(s)[3 * i] == (s[i] / 256) as u8
                &&& encode_stops(s)[3 * i + 1] == (s[i] % 256) as u8
            },
    decreases s.len(),
{
    if s.len() > 1 {
        let p = s.drop_last();
        lemma_encode_stops_layout(p);
        assert forall|i: int| 0 <= i < s.len() implies {
            &&& #[trigger] encode_stops(s)[3 * i] == (s[i] / 256) as u8
            &&& encode_stops(s)[3 * i + 1] == (s[i] % 256) as u8
        } by {
            if i < s.len() - 1 {
                assert(p[i] == s[i]);
                assert(encode_stops(p)[3 * i] == (p[i] / 256) as u8);
            }
        }
    }
}

/// Two equal encodings come from the same classification and the same stop
/// sequence.
pub proof fn lemma_encode_path_injective(t1: AreaType, s1: Seq<u16>, t2: AreaType, s2: Seq<u16>)
    requires
        encode_path(t1, s1) == encode_path(t2, s2),
    ensures
        t1 == t2,
        s1 == s2,
{
    let e1 = encode_path(t1, s1);
    let e2 = encode_path(t2, s2);
    assert(e1[0] == t1.spec_code());
    assert(e2[0] == t2.spec_code());
    lemma_encode_stops_layout(s1);
    lemma_encode_stops_layout(s2);
    assert(encode_stops(s1) =~= e1.subrange(3, e1.len() as int));
    assert(encode_stops(s2) =~= e2.subrange(3, e2.len() as int));
    assert(s1.len() == s2.len());
    assert forall|i: int| 0 <= i < s1.len() implies s1[i] == s2[i] by {
        let b1 = encode_stops(s1);
        assert(b1[3 * i] == (s1[i] / 256) as u8);
        assert(b1[3 * i + 1] == (s1[i] % 256) as u8);
        assert(b1[3 * i] == (s2[i] / 256) as u8);
        assert(b1[3 * i + 1] == (s2[i] % 256) as u8);
    }
    assert(s1 =~= s2);
}

/// Equal classifications and equal stop sequences give equal fingerprints.
pub proof fn lemma_fingerprint_deterministic(ty: AreaType, s1: Seq<u16>, s2: Seq<u16>)
    requires
        s1 == s2,
    ensures
        fingerprint(ty, s1) == fingerprint(ty, s2),
{
}

/// A sequence that is not its own reverse is hashed from other bytes than its
/// reverse.
pub proof fn lemma_reversed_encoding_differs(ty: AreaType, s: Seq<u16>)
    requires
        s != s.reverse(),
    ensures
        encode_path(ty, s) != encode_path(ty, s.reverse()),
{
    if encode_path(ty, s) == encode_path(ty, s.reverse()) {
        lemma_encode_path_injective(ty, s, ty, s.reverse());
    }
}

/// The same sequence under two classifications is hashed from other bytes.
pub proof fn lemma_classification_encoding_differs(s: Seq<u16>)
    ensures
        encode_path(AreaType::U, s) != encode_path(AreaType::E, s),
{
    assert(encode_path(AreaType::U, s)[0] != encode_path(AreaType::E, s)[0]);
}

/// The identifying bytes of a path.
pub fn encode_path_bytes(ty: AreaType, seq: &Vec<u16>) -> (r: Vec<u8>)
    ensures
        r@ == encode_path(ty, seq@),
{
    let mut data: Vec<u8> = Vec::new();
    data.push(ty.code());
    data.push(0u8);
    data.push(0u8);
    let mut i: usize = 0;
    while i < seq.len()
        invariant
            0 <= i <= seq.len(),
            data@ == encode_path(ty, seq@.subrange(0, i as int)),
        decreases seq.len() - i,
    {
        if i > 0 {
            data.push(0u8);
        }
        let v = seq[i];
        data.push((v / 256) as u8);
        data.push((v % 256) as u8);
        proof {
            let p = seq@.subrange(0, i + 1);
            assert(p.drop_last() =~= seq@.subrange(0, i as int));
            assert(p.last() == v);
            assert(data@ =~= encode_path(ty, p));
        }
        i += 1;
    }
    proof {
        assert(seq@.subrange(0, seq.len() as int) =~= seq@);
    }
    data
}

/// The fingerprint of a stop sequence in an area: a 40-digit lowercase
/// hexadecimal string, usable as a record id. Distinct sequences are encoded
/// to distinct bytes; two of them sharing a fingerprint would take a SHA-1
/// collision, an accepted risk that nothing here detects.
pub fn sequence_hash(ty: AreaType, seq: &Vec<u16>) -> (r: String)
    ensures
        r@ == fingerprint(ty, seq@),
        r@.len() == 40,
        forall|i: int| 0 <= i < r@.len() ==> is_lower_hex_char(#[trigger] r@[i]),
{
    let data = encode_path_bytes(ty, seq);
    sha1_hex(&data)
}

/// How vehicles move along a path.
#[derive(Clone, Copy, Debug, PartialEq, Eq, Structural, Hash)]
pub enum RoutingType {
    Bus,
    Railway,
    Cableway,
}

impl Default for RoutingType {
    fn default() -> (r: Self)
        ensures
            r == RoutingType::Bus,
    {
        RoutingType::Bus
    }
}

/// Whether each hop starts where the previous one ended.
pub open spec fn edges_chained(e: Seq<StopPair>) -> bool {
    forall|i: int| 0 < i < e.len() ==> (#[trigger] e[i]).0 == e[i - 1].1
}

/// The stops that a chain of hops visits: the start of the first hop, then the
/// end of each hop.
pub open spec fn sequence_of_edges(e: Seq<StopPair>) -> Seq<u16> {
    if e.len() == 0 {
        Seq::empty()
    } else {
        seq![e[0].0] + e.map_values(|p: StopPair| p.1)
    }
}

/// The hops between consecutive stops of a sequence.
pub open spec fn edges_of_sequence(s: Seq<u16>) -> Seq<StopPair> {
    if s.len() == 0 {
        Seq::empty()
    } else {
        Seq::new((s.len() - 1) as nat, |i: int| (s[i], s[i + 1]))
    }
}

/// Rebuilding the stops of a chain of hops and then taking its hops gives the
/// chain back.
pub proof fn lemma_edges_round_trip(e: Seq<StopPair>)
    requires
        edges_chained(e),
    ensures
        edges_of_sequence(sequence_of_edges(e)) == e,
{
    if e.len() > 0 {
        let s = sequence_of_edges(e);
        assert forall|i: int| 0 <= i < e.len() implies edges_of_sequence(s)[i] == e[i] by {
            if i > 0 {
                assert(e[i].0 == e[i - 1].1);
            }
        }
        assert(edges_of_sequence(s) =~= e);
    }
}

/// A routable path: an ordered sequence of stops within an area, keyed by its
/// fingerprint.
#[derive(Debug)]
pub struct Path {
    pub id: String,
    pub ty: AreaType,
    pub sequence: Vec<u16>,
    pub rty: RoutingType,
}

impl Path {
    pub fn new(sequence: Vec<u16>, ty: AreaType, rty: RoutingType) -> (r: Self)
        ensures
            r.id@ == fingerprint(ty, sequence@),
            r.sequence@ == sequence@,
            r.ty == ty,
            r.rty == rty,
    {
        let id = sequence_hash(ty, &sequence);
        Path { id, sequence, ty, rty }
    }

    /// The stops visited by a chain of hops; an empty chain gives no stops.
    pub fn segments_to_sequence(segments: Vec<StopPair>) -> (r: Vec<u16>)
        requires
            edges_chained(segments@),
        ensures
            r@ == sequence_of_edges(segments@),
    {
        let mut o: Vec<u16> = Vec::new();
        if segments.len() == 0 {
            return o;
        }
        o.push(segments[0].0);
        let mut prev: u16 = segments[0].0;
        let mut i: usize = 0;
        while i < segments.len()
            invariant
                0 <= i <= segments.len(),
                edges_chained(segments@),
                segments.len() > 0,
                o@ =~= seq![segments@[0].0] + segments@.subrange(0, i as int).map_values(
                    |p: StopPair| p.1,
                ),
                i == 0 ==> prev == segments@[0].0,
                i > 0 ==> prev == segments@[i - 1].1,
            decreases segments.len() - i,
        {
            let (s1, s2) = segments[i];
            if i > 0 {
                assert(segments@[i as int].0 == segments@[i - 1].1);
            }
            assert(s1 == prev);
            o.push(s2);
            prev = s2;
            proof {
                assert(segments@.subrange(0, i + 1).map_values(|p: StopPair| p.1) =~=
                    segments@.subrange(0, i as int).map_values(|p: StopPair| p.1).push(s2));
            }
            i += 1;
        }
        proof {
            assert(segments@.subrange(0, segments.len() as int) =~= segments@);
        }
        o
    }

    pub fn new_from_segments(segments: Vec<StopPair>, ty: AreaType) -> (r: Self)
        requires
            edges_chained(segments@),
        ensures
            r.sequence@ == sequence_of_edges(segments@),
            r.id@ == fingerprint(ty, sequence_of_edges(segments@)),
            r.ty == ty,
            r.rty == RoutingType::Bus,
    {
        Self::new_from_segments_with_type(segments, ty, RoutingType::default())
    }

    pub fn new_from_segments_with_type(segments: Vec<StopPair>, ty: AreaType, routing_ty: RoutingType) -> (r: Self)
        requires
            edges_chained(segments@),
        ensures
            r.sequence@ == sequence_of_edges(segments@),
            r.id@ == fingerprint(ty, sequence_of_edges(segments@)),
            r.ty == ty,
            r.rty == routing_ty,
    {
        Self::new(Self::segments_to_sequence(segments), ty, routing_ty)
    }

    /// The hops between consecutive stops of the path.
    pub fn segments(&self) -> (r: Vec<StopPair>)
        requires
            self.sequence.len() > 0,
        ensures
            r@ == edges_of_sequence(self.sequence@),
    {
        let mut o: Vec<StopPair> = Vec::new();
        let mut p: u16 = self.sequence[0];
        let mut i: usize = 1;
        while i < self.sequence.len()
            invariant
                1 <= i <= self.sequence.len(),
                p == self.sequence@[i - 1],
                o@ =~= edges_of_sequence(self.sequence@.subrange(0, i as int)),
            decreases self.sequence.len() - i,
        {
            let s = self.sequence[i];
            o.push((p, s));
            p = s;
            i += 1;
            assert(o@ =~= edges_of_sequence(self.sequence@.subrange(0, i as int)));
        }
        proof {
            assert(self.sequence@.subrange(0, self.sequence.len() as int) =~= self.sequence@);
        }
        o
    }
}

/// Whether two stop sequences are equal, element by element.
fn same_stops(a: &Vec<u16>, b: &Vec<u16>) -> (r: bool)
    ensures
        r == (a@ == b@),
{
    if a.len() != b.len() {
        return false;
    }
    let mut i: usize = 0;
    while i < a.len()
        invariant
            0 <= i <= a.len(),
            a.len() == b.len(),
            forall|j: int| 0 <= j < i ==> a@[j] == b@[j],
        decreases a.len() - i,
    {
        if a[i] != b[i] {
            return false;
        }
        i += 1;
    }
    assert(a@ =~= b@);
    true
}

impl PartialEq for Path {
    fn eq(&self, other: &Path) -> (r: bool) {
        self.id == other.id || same_stops(&self.sequence, &other.sequence)
    }
}

impl vstd::std_specs::cmp::PartialEqSpecImpl for Path {
    open spec fn obeys_eq_spec() -> bool {
        true
    }

    open spec fn eq_spec(&self, other: &Path) -> bool {
        self.id@ == other.id@ || self.sequence@ == other.sequence@
    }
}

impl PartialEq<Vec<u16>> for Path {
    /// Whether the path visits exactly these stops, in this order.
    fn eq(&self, other: &Vec<u16>) -> (r: bool) {
        same_stops(&self.sequence, other)
    }
}

impl vstd::std_specs::cmp::PartialEqSpecImpl<Vec<u16>> for Path {
    open spec fn obeys_eq_spec() -> bool {
        true
    }

    open spec fn eq_spec(&self, other: &Vec<u16>) -> bool {
        self.sequence@ == other@
    }
}

} // verus!
