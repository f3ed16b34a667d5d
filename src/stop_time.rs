use std::collections::HashMap;

use vstd::prelude::*;

use vstd::std_specs::iter::IteratorSpec;

use crate::text::{decimal, lemma_parse_decimal, parse_stop_key, parse_u16, stop_key};

verus! {

broadcast use vstd::std_specs::hash::group_hash_axioms;

/// Arrival and departure at a stop, in seconds relative to the trip's
/// reference departure.
#[derive(Clone, Copy, Debug, PartialEq, Eq, Structural)]
pub struct StopTime {
    pub arrival: i64,
    pub departure: i64,
}

/// A stored key that is not the decimal form of a stop id.
#[derive(Clone, Copy, Debug, PartialEq, Eq, Structural)]
pub struct StopKeyError;

/// Whether every key of stored entries reads as a stop id.
pub open spec fn all_keys_parse(e: Seq<(String, StopTime)>) -> bool {
    forall|i: int| 0 <= i < e.len() ==> (#[trigger] parse_u16(e[i].0@)) is Some
}

/// The map that stored entries stand for: each key read as a stop id, a later
/// entry replacing an earlier one with the same id.
pub open spec fn keyed_map(e: Seq<(String, StopTime)>) -> Map<u16, StopTime>
    decreases e.len(),
{
    if e.len() == 0 {
        Map::empty()
    } else {
        keyed_map(e.drop_last()).insert(parse_u16(e.last().0@)->0, e.last().1)
    }
}

/// Whether `e` is the stored form of `m`: one entry per stop, keyed by the
/// decimal form of the stop id, with the stop's offsets.
pub open spec fn stored_form(m: Map<u16, StopTime>, e: Seq<(String, StopTime)>) -> bool {
    &&& e.len() == m.len()
    &&& forall|i: int|
        0 <= i < e.len() ==> (#[trigger] parse_u16(e[i].0@) matches Some(k) && e[i].0@ == decimal(
            k as nat,
        ) && m.contains_key(k) && m[k] == e[i].1)
    &&& forall|k: u16|
        #[trigger] m.contains_key(k) ==> exists|i: int|
            0 <= i < e.len() && e[i].0@ == decimal(k as nat) && e[i].1 == m[k]
}

/// Entries whose keys all read as stops of `m` with `m`'s offsets build a map
/// that agrees with `m` on the stops they name.
proof fn lemma_keyed_map_agrees(m: Map<u16, StopTime>, e: Seq<(String, StopTime)>)
    requires
        forall|i: int|
            0 <= i < e.len() ==> (#[trigger] parse_u16(e[i].0@) matches Some(k) && m.contains_key(k)
                && m[k] == e[i].1),
    ensures
        all_keys_parse(e),
        forall|k: u16|
            #[trigger] keyed_map(e).contains_key(k) <==> exists|i: int|
                0 <= i < e.len() && parse_u16(e[i].0@) == Some(k),
        forall|k: u16| #[trigger] keyed_map(e).contains_key(k) ==> m.contains_key(k) && keyed_map(e)[k] == m[k],
    decreases e.len(),
{
    if e.len() > 0 {
        let p = e.drop_last();
        assert forall|i: int| 0 <= i < p.len() implies (#[trigger] parse_u16(p[i].0@) matches Some(k)
            && m.contains_key(k) && m[k] == p[i].1) by {
            assert(p[i] == e[i]);
        }
        lemma_keyed_map_agrees(m, p);
        let last = e.last();
        let n = e.len() - 1;
        assert(e[n] == last);
        assert(parse_u16(e[n].0@) matches Some(k) && m.contains_key(k) && m[k] == e[n].1);
        let kl = parse_u16(last.0@)->0;
        assert(keyed_map(e) == keyed_map(p).insert(kl, last.1));
        assert forall|k: u16| #[trigger] keyed_map(e).contains_key(k) implies exists|i: int|
            0 <= i < e.len() && parse_u16(e[i].0@) == Some(k) by {
            if k == kl {
                assert(parse_u16(e[n].0@) == Some(k));
            } else {
                assert(keyed_map(p).contains_key(k));
                let i = choose|i: int| 0 <= i < p.len() && parse_u16(p[i].0@) == Some(k);
                assert(p[i] == e[i]);
                assert(parse_u16(e[i].0@) == Some(k));
            }
        }
        assert forall|k: u16| (exists|i: int| 0 <= i < e.len() && parse_u16(e[i].0@) == Some(k))
            implies #[trigger] keyed_map(e).contains_key(k) by {
            let i = choose|i: int| 0 <= i < e.len() && parse_u16(e[i].0@) == Some(k);
            if i < n {
                assert(p[i] == e[i]);
                assert(parse_u16(p[i].0@) == Some(k));
                assert(keyed_map(p).contains_key(k));
            }
        }
        assert forall|k: u16| #[trigger] keyed_map(e).contains_key(k) implies m.contains_key(k)
            && keyed_map(e)[k] == m[k] by {
            if k != kl {
                assert(keyed_map(p).contains_key(k));
            }
        }
        assert forall|i: int| 0 <= i < e.len() implies (#[trigger] parse_u16(e[i].0@)) is Some by {
            if i < n {
                assert(p[i] == e[i]);
            }
        }
    }
}

/// Reading back the stored form of a stop-time map gives the same map.
pub proof fn lemma_stored_form_round_trip(m: Map<u16, StopTime>, e: Seq<(String, StopTime)>)
    requires
        stored_form(m, e),
    ensures
        all_keys_parse(e),
        keyed_map(e) == m,
{
    lemma_keyed_map_agrees(m, e);
    assert forall|k: u16| #[trigger] m.contains_key(k) implies keyed_map(e).contains_key(k) by {
        let i = choose|i: int| 0 <= i < e.len() && e[i].0@ == decimal(k as nat) && e[i].1 == m[k];
        lemma_parse_decimal(k);
        assert(parse_u16(e[i].0@) == Some(k));
    }
    assert(keyed_map(e) =~= m);
}

/// The time offsets of a trip, keyed by stop id.
#[derive(Debug)]
pub struct StopTimes(pub(crate) HashMap<u16, StopTime>);

impl View for StopTimes {
    type V = Map<u16, StopTime>;

    closed spec fn view(&self) -> Map<u16, StopTime> {
        self.0@
    }
}

impl PartialEq for StopTimes {
    /// Equal when both hold the same stops with the same offsets.
    fn eq(&self, other: &StopTimes) -> (r: bool) {
        if self.0.len() != other.0.len() {
            return false;
        }
        for (k, v) in it: self.0.iter()
            invariant
                self@.len() == other@.len(),
                it.seq() == vstd::std_specs::hash::spec_hash_map_iter(&self.0).remaining(),
                forall|j: int|
                    0 <= j < it.index() ==> other@.contains_key(*(#[trigger] it.seq()[j]).0)
                        && other@[*it.seq()[j].0] == *it.seq()[j].1,
        {
            match other.0.get(k) {
                Some(w) => {
                    if *w != *v {
                        return false;
                    }
                },
                None => {
                    return false;
                },
            }
        }
        proof {
            let rem = vstd::std_specs::hash::spec_hash_map_iter(&self.0).remaining();
            assert forall|k: u16| #[trigger] self@.contains_key(k) implies other@.contains_key(k)
                && other@[k] == self@[k] by {
                assert(rem.contains((&k, &self@[k])));
                let i = choose|i: int| 0 <= i < rem.len() && rem[i] == (&k, &self@[k]);
                assert(other@.contains_key(*rem[i].0));
            }
            vstd::set_lib::lemma_subset_equality(self@.dom(), other@.dom());
            assert(self@ =~= other@);
        }
        true
    }
}

impl vstd::std_specs::cmp::PartialEqSpecImpl for StopTimes {
    open spec fn obeys_eq_spec() -> bool {
        true
    }

    open spec fn eq_spec(&self, other: &StopTimes) -> bool {
        self@ == other@
    }
}

impl Clone for StopTimes {
    fn clone(&self) -> (r: Self)
        ensures
            r@ == self@,
    {
        StopTimes(self.0.clone())
    }
}

impl StopTimes {
    pub fn new() -> (r: Self)
        ensures
            r@ == Map::<u16, StopTime>::empty(),
    {
        StopTimes(HashMap::new())
    }

    pub fn from_map(times: HashMap<u16, StopTime>) -> (r: Self)
        ensures
            r@ == times@,
    {
        StopTimes(times)
    }

    /// Sets the offsets of a stop, replacing any earlier ones.
    pub fn insert(&mut self, stop: u16, time: StopTime)
        ensures
            final(self)@ == old(self)@.insert(stop, time),
    {
        self.0.insert(stop, time);
    }

    /// The entries as stored: each stop id in its decimal form, with its offsets.
    pub fn to_keyed(&self) -> (r: Vec<(String, StopTime)>)
        ensures
            stored_form(self@, r@),
    {
        let entries = self.iter();
        let mut o: Vec<(String, StopTime)> = Vec::new();
        let mut i: usize = 0;
        while i < entries.len()
            invariant
                0 <= i <= entries.len(),
                o@.len() == i,
                forall|j: int|
                    0 <= j < i ==> (#[trigger] o@[j]).0@ == decimal(entries@[j].0 as nat) && o@[j].1
                        == entries@[j].1,
            decreases entries.len() - i,
        {
            let (k, t) = entries[i];
            o.push((stop_key(k), t));
            i += 1;
        }
        proof {
            assert forall|i: int| 0 <= i < o@.len() implies (#[trigger] parse_u16(o@[i].0@) matches Some(k)
                && o@[i].0@ == decimal(k as nat) && self@.contains_key(k) && self@[k] == o@[i].1) by {
                let k = entries@[i].0;
                lemma_parse_decimal(k);
                assert(self@.contains_key(k) && self@[k] == entries@[i].1);
                assert(o@[i].0@ == decimal(k as nat) && o@[i].1 == self@[k]);
            }
            assert forall|k: u16| #[trigger] self@.contains_key(k) implies exists|i: int|
                0 <= i < o@.len() && o@[i].0@ == decimal(k as nat) && o@[i].1 == self@[k] by {
                let i = choose|i: int| 0 <= i < entries@.len() && entries@[i].0 == k;
                assert(o@[i].0@ == decimal(k as nat));
            }
        }
        o
    }

    /// Reads stored entries back; fails when a key is not the decimal form of
    /// a stop id.
    pub fn from_keyed(entries: Vec<(String, StopTime)>) -> (r: Result<StopTimes, StopKeyError>)
        ensures
            all_keys_parse(entries@) ==> (r matches Ok(t) && t@ == keyed_map(entries@)),
            !all_keys_parse(entries@) ==> r == Err::<StopTimes, StopKeyError>(StopKeyError),
    {
        let mut o = StopTimes::new();
        let mut i: usize = 0;
        while i < entries.len()
            invariant
                0 <= i <= entries.len(),
                all_keys_parse(entries@.subrange(0, i as int)),
                o@ == keyed_map(entries@.subrange(0, i as int)),
            decreases entries.len() - i,
        {
            let ghost p = entries@.subrange(0, i + 1);
            assert(p.drop_last() =~= entries@.subrange(0, i as int));
            match parse_stop_key(entries[i].0.as_str()) {
                Some(k) => {
                    o.insert(k, entries[i].1);
                },
                None => {
                    assert(parse_u16(entries@[i as int].0@) is None);
                    return Err(StopKeyError);
                },
            }
            i += 1;
            assert(all_keys_parse(p)) by {
                assert forall|j: int| 0 <= j < p.len() implies (#[trigger] parse_u16(p[j].0@)) is Some by {
                    if j < i - 1 {
                        assert(p[j] == entries@.subrange(0, i - 1)[j]);
                    }
                }
            }
        }
        assert(entries@.subrange(0, entries.len() as int) =~= entries@);
        Ok(o)
    }

    pub fn len(&self) -> (r: usize)
        ensures
            r == self@.len(),
    {
        self.0.len()
    }

    pub fn has_stop(&self, stop: &u16) -> (r: bool)
        ensures
            r == self@.contains_key(*stop),
    {
        self.0.contains_key(stop)
    }

    pub fn get(&self, stop: &u16) -> (r: Option<&StopTime>)
        ensures
            r matches Some(t) ==> self@.contains_key(*stop) && self@[*stop] == *t,
            r is None ==> !self@.contains_key(*stop),
    {
        self.0.get(stop)
    }

    /// Every stop with its offsets, once each, in no particular order.
    pub fn iter(&self) -> (r: Vec<(u16, StopTime)>)
        ensures
            r@.len() == self@.len(),
            forall|i: int|
                0 <= i < r@.len() ==> self@.contains_key(#[trigger] r@[i].0) && self@[r@[i].0] == r@[i].1,
            forall|k: u16| #[trigger] self@.contains_key(k) ==> exists|i: int| 0 <= i < r@.len() && r@[i].0 == k,
    {
        let mut o: Vec<(u16, StopTime)> = Vec::new();
        for (k, v) in it: self.0.iter()
            invariant
                o@.len() == it.index(),
                forall|j: int| 0 <= j < it.index() ==> o@[j] == (*it.seq()[j].0, *it.seq()[j].1),
                it.seq() == vstd::std_specs::hash::spec_hash_map_iter(&self.0).remaining(),
        {
            o.push((*k, *v));
        }
        proof {
            let rem = vstd::std_specs::hash::spec_hash_map_iter(&self.0).remaining();
            assert forall|k: u16| #[trigger] self@.contains_key(k) implies exists|i: int|
                0 <= i < o@.len() && o@[i].0 == k by {
                assert(rem.contains((&k, &self@[k])));
                let i = choose|i: int| 0 <= i < rem.len() && rem[i] == (&k, &self@[k]);
                assert(o@[i].0 == k);
            }
        }
        o
    }
}

} // verus!
