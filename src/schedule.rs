use vstd::prelude::*;

use crate::area::AreaType;
use crate::stop_time::{StopTime, StopTimes};
use crate::trip::{Direction, Trip};

verus! {

/// The later of a stop's two offsets.
pub open spec fn latest_offset(t: StopTime) -> i64 {
    if t.arrival >= t.departure {
        t.arrival
    } else {
        t.departure
    }
}

/// Whether `k` is a stop of `times` whose later offset is the largest of all.
pub open spec fn is_final_stop(times: Map<u16, StopTime>, k: u16) -> bool {
    &&& times.contains_key(k)
    &&& forall|j: u16| #[trigger] times.contains_key(j) ==> latest_offset(times[j]) <= latest_offset(times[k])
}

/// Whether every departure offset of `times`, added to `departure`, fits in
/// an `i64`.
pub open spec fn offsets_fit(times: Map<u16, StopTime>, departure: i64) -> bool {
    forall|k: u16| #[trigger] times.contains_key(k) ==> i64::MIN <= departure + times[k].departure <= i64::MAX
}

/// Copies of the trip's fields that speed up queries on schedules.
#[derive(Debug)]
pub struct ScheduleHints {
    pub route: u16,
    pub ty: AreaType,
    pub times: StopTimes,
    pub direction: Direction,
}

impl ScheduleHints {
    pub fn from_trip(trip: &Trip) -> (r: Self)
        ensures
            r.route == trip.route,
            r.ty == trip.ty,
            r.times@ == trip.times@,
            r.direction == trip.direction,
    {
        ScheduleHints {
            route: trip.route,
            ty: trip.ty,
            times: trip.times.clone(),
            direction: trip.direction,
        }
    }
}

impl PartialEq for ScheduleHints {
    fn eq(&self, other: &ScheduleHints) -> (r: bool) {
        self.route == other.route && self.ty == other.ty && self.times == other.times
            && self.direction == other.direction
    }
}

impl vstd::std_specs::cmp::PartialEqSpecImpl for ScheduleHints {
    open spec fn obeys_eq_spec() -> bool {
        true
    }

    open spec fn eq_spec(&self, other: &ScheduleHints) -> bool {
        &&& self.route == other.route
        &&& self.ty == other.ty
        &&& self.times@ == other.times@
        &&& self.direction == other.direction
    }
}

/// A trip bound to a departure instant. Instants are seconds since the Unix
/// epoch.
#[derive(Debug)]
pub struct Schedule {
    pub id: String,
    pub departure: i64,
    pub arrival: i64,
    pub hints: ScheduleHints,
}

impl Schedule {
    /// The schedule of `trip` leaving at `departure`: it arrives at the
    /// departure offset of the stop whose later offset is the largest.
    pub fn from_trip(trip: &Trip, departure: i64) -> (r: Self)
        requires
            trip.times@.len() > 0,
            offsets_fit(trip.times@, departure),
        ensures
            r.id == trip.id,
            r.departure == departure,
            r.hints.route == trip.route,
            r.hints.ty == trip.ty,
            r.hints.times@ == trip.times@,
            r.hints.direction == trip.direction,
            exists|k: u16|
                is_final_stop(trip.times@, k) && r.arrival == departure + #[trigger] trip.times@[k].departure,
    {
        let hints = ScheduleHints::from_trip(trip);
        let entries = hints.times.iter();
        let mut best: usize = 0;
        let mut i: usize = 1;
        let ghost m = trip.times@;
        assert(m.dom().len() > 0);
        while i < entries.len()
            invariant
                1 <= i <= entries.len(),
                entries@.len() == m.len(),
                0 <= best < i,
                forall|j: int| 0 <= j < entries@.len() ==> m.contains_key(#[trigger] entries@[j].0) && m[entries@[j].0] == entries@[j].1,
                forall|j: int| 0 <= j < i ==> latest_offset(#[trigger] entries@[j].1) <= latest_offset(entries@[best as int].1),
            decreases entries.len() - i,
        {
            let (_, t) = entries[i];
            let (_, b) = entries[best];
            let tk = if t.arrival >= t.departure { t.arrival } else { t.departure };
            let bk = if b.arrival >= b.departure { b.arrival } else { b.departure };
            if tk >= bk {
                best = i;
            }
            i += 1;
        }
        let (k, t) = entries[best];
        proof {
            assert forall|j: u16| #[trigger] m.contains_key(j) implies latest_offset(m[j]) <= latest_offset(m[k]) by {
                let x = choose|x: int| 0 <= x < entries@.len() && entries@[x].0 == j;
                assert(m[j] == entries@[x].1);
            }
            assert(is_final_stop(m, k));
        }
        let arrival = departure + t.departure;
        Schedule { id: trip.id.clone(), departure, hints, arrival }
    }
}

impl PartialEq for Schedule {
    /// Schedules are equal when they are the same trip leaving at the same
    /// instant.
    fn eq(&self, other: &Schedule) -> (r: bool) {
        self.id == other.id && self.departure == other.departure
    }
}

impl vstd::std_specs::cmp::PartialEqSpecImpl for Schedule {
    open spec fn obeys_eq_spec() -> bool {
        true
    }

    open spec fn eq_spec(&self, other: &Schedule) -> bool {
        self.id@ == other.id@ && self.departure == other.departure
    }
}

impl Eq for Schedule {

}

/// Relies on `String`'s `Hash`: feeds the string to the hasher. Nothing is
/// claimed of the hasher's state.
pub assume_specification<H: core::hash::Hasher>[ <String as core::hash::Hash>::hash::<H> ](
    s: &String,
    state: &mut H,
);

/// Relies on `i64`'s `Hash`: feeds the integer to the hasher. Nothing is
/// claimed of the hasher's state.
pub assume_specification<H: core::hash::Hasher>[ <i64 as core::hash::Hash>::hash::<H> ](
    v: &i64,
    state: &mut H,
);

impl core::hash::Hash for Schedule {
    /// Hashes the two fields that equality looks at.
    fn hash<H: core::hash::Hasher>(&self, state: &mut H) {
        self.id.hash(state);
        self.departure.hash(state);
    }
}

} // verus!
