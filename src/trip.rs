use std::collections::HashMap;

use vstd::prelude::*;
use vstd::std_specs::cmp::PartialEqSpec;

use crate::area::AreaType;
use crate::path::{fingerprint, sequence_hash};
use crate::stop_time::{StopTime, StopTimes};

verus! {

/// Seconds in four hours: reference departures before this time of day are
/// taken to belong to the next calendar day.
pub const ROLLOVER_LIMIT: i64 = 14400;

/// Seconds in a day.
pub const DAY: i64 = 86400;

/// The way a trip runs along its route.
#[derive(Clone, Copy, Debug, PartialEq, Eq, Structural)]
pub enum Direction {
    Forward,
    Backward,
}

/// Text that names no direction.
#[derive(Clone, Copy, Debug, PartialEq, Eq, Structural)]
pub struct DirectionParseError;

impl Direction {
    /// The direction that an upstream code stands for: 0 forward, 1 backward.
    pub open spec fn spec_from_code(code: u16) -> Option<Direction> {
        if code == 0 {
            Some(Direction::Forward)
        } else if code == 1 {
            Some(Direction::Backward)
        } else {
            None
        }
    }

    /// The direction that an upstream code stands for; `None` for a code other
    /// than 0 and 1.
    pub fn from_code(code: u16) -> (r: Option<Direction>)
        ensures
            r == Self::spec_from_code(code),
    {
        if code == 0 {
            Some(Direction::Forward)
        } else if code == 1 {
            Some(Direction::Backward)
        } else {
            None
        }
    }

    /// The one-letter tag of the direction.
    pub open spec fn spec_char(self) -> char {
        match self {
            Direction::Forward => 'f',
            Direction::Backward => 'b',
        }
    }

    pub fn as_char(&self) -> (r: char)
        ensures
            r == self.spec_char(),
    {
        match self {
            Direction::Forward => 'f',
            Direction::Backward => 'b',
        }
    }

    /// The tag as text, as stored.
    pub fn as_str(&self) -> (r: &'static str)
        ensures
            r@ == seq![self.spec_char()],
    {
        proof {
            reveal_strlit("f");
            reveal_strlit("b");
        }
        match self {
            Direction::Forward => "f",
            Direction::Backward => "b",
        }
    }

    /// Reads a tag: `f` is forward, `b` backward, anything else an error.
    pub fn parse(s: &str) -> (r: Result<Direction, DirectionParseError>)
        ensures
            s@ == seq!['f'] ==> r == Ok::<Direction, DirectionParseError>(Direction::Forward),
            s@ == seq!['b'] ==> r == Ok::<Direction, DirectionParseError>(Direction::Backward),
            s@ != seq!['f'] && s@ != seq!['b'] ==> r == Err::<Direction, DirectionParseError>(
                DirectionParseError,
            ),
    {
        if s.unicode_len() != 1 {
            return Err(DirectionParseError);
        }
        let c = s.get_char(0);
        if c == 'f' {
            assert(s@ =~= seq!['f']);
            Ok(Direction::Forward)
        } else if c == 'b' {
            assert(s@ =~= seq!['b']);
            Ok(Direction::Backward)
        } else {
            Err(DirectionParseError)
        }
    }
}

impl std::str::FromStr for Direction {
    type Err = DirectionParseError;

    fn from_str(s: &str) -> Result<Direction, DirectionParseError> {
        Direction::parse(s)
    }
}

/// One stop of an upstream trip record: its 1-based position along the trip,
/// the stop, and arrival and departure as seconds after midnight.
#[derive(Clone, Copy, Debug, PartialEq, Eq, Structural)]
pub struct RawStopTime {
    pub sequence: u32,
    pub stop: u16,
    pub arrival: i32,
    pub departure: i32,
}

/// A trip as the upstream feed reports it. The delay is in whole seconds,
/// already truncated from the feed's fractional value.
#[derive(Debug)]
pub struct RawTrip {
    pub id: String,
    pub delay: Option<i32>,
    pub direction: u16,
    pub next_stop: u16,
    pub last_stop: u16,
    pub bus_id: Option<u16>,
    pub route: u16,
    pub stop_times: Vec<RawStopTime>,
    pub ty: AreaType,
    pub headsign: String,
    pub last_event: Option<i64>,
}

/// Why an upstream trip record cannot be normalized.
#[derive(Clone, Copy, Debug, PartialEq, Eq, Structural)]
pub enum NormalizeError {
    /// No stop has sequence position 1.
    MissingReferenceStop,
    /// The direction code is neither 0 nor 1.
    UnknownDirection(u16),
}

/// The departure of the first entry at sequence position 1, if any.
pub open spec fn reference_departure(st: Seq<RawStopTime>) -> Option<i32>
    decreases st.len(),
{
    if st.len() == 0 {
        None
    } else if st[0].sequence == 1 {
        Some(st[0].departure)
    } else {
        reference_departure(st.drop_first())
    }
}

/// The offsets of an entry from a reference time.
pub open spec fn offset_of(e: RawStopTime, reference: i32) -> StopTime {
    StopTime {
        arrival: (e.arrival - reference) as i64,
        departure: (e.departure - reference) as i64,
    }
}

/// The offsets of all entries keyed by stop, a later entry for the same stop
/// replacing an earlier one.
pub open spec fn offsets_of(st: Seq<RawStopTime>, reference: i32) -> Map<u16, StopTime>
    decreases st.len(),
{
    if st.len() == 0 {
        Map::empty()
    } else {
        offsets_of(st.drop_last(), reference).insert(st.last().stop, offset_of(st.last(), reference))
    }
}

/// The stops of the entries, in entry order.
pub open spec fn stops_of(st: Seq<RawStopTime>) -> Seq<u16> {
    st.map_values(|e: RawStopTime| e.stop)
}

/// The reference departure, moved to the next day when it is before 04:00.
pub open spec fn resolve_departure(reference: int) -> int {
    if reference < ROLLOVER_LIMIT {
        reference + DAY
    } else {
        reference
    }
}

/// A terminal-stop field: 0 stands for no stop.
pub open spec fn stop_pointer(v: u16) -> Option<u16> {
    if v == 0 {
        None
    } else {
        Some(v)
    }
}

/// A trip of the data model, with stop times relative to its first departure.
#[derive(Debug)]
pub struct Trip {
    pub id: String,
    pub delay: i32,
    pub direction: Direction,
    pub next_stop: Option<u16>,
    pub last_stop: Option<u16>,
    pub bus_id: Option<u16>,
    pub route: u16,
    pub headsign: String,
    /// The fingerprint of the trip's stop sequence.
    pub path: String,
    pub times: StopTimes,
    pub ty: AreaType,
    /// When the trip was last observed, in seconds since the Unix epoch.
    pub last_event: Option<i64>,
}

/// Whether `t` and `dep` are what normalizing `raw` gives, `raw` having a
/// reference stop and a known direction.
pub open spec fn normalized(raw: RawTrip, t: Trip, dep: i64) -> bool {
    let reference = reference_departure(raw.stop_times@)->0;
    &&& t.id@ == raw.id@
    &&& t.delay == match raw.delay {
        Some(d) => d,
        None => 0i32,
    }
    &&& Direction::spec_from_code(raw.direction) == Some(t.direction)
    &&& t.next_stop == stop_pointer(raw.next_stop)
    &&& t.last_stop == stop_pointer(raw.last_stop)
    &&& t.bus_id == raw.bus_id
    &&& t.route == raw.route
    &&& t.headsign@ == raw.headsign@
    &&& t.path@ == fingerprint(raw.ty, stops_of(raw.stop_times@))
    &&& t.times@ == offsets_of(raw.stop_times@, reference)
    &&& t.ty == raw.ty
    &&& t.last_event == raw.last_event
    &&& dep == resolve_departure(reference as int)
}

/// Whether two trips agree on every field.
pub open spec fn deep_equal(a: Trip, b: Trip) -> bool {
    &&& a.id@ == b.id@
    &&& a.delay == b.delay
    &&& a.direction == b.direction
    &&& a.next_stop == b.next_stop
    &&& a.last_stop == b.last_stop
    &&& a.bus_id == b.bus_id
    &&& a.route == b.route
    &&& a.headsign@ == b.headsign@
    &&& a.path@ == b.path@
    &&& a.times@ == b.times@
    &&& a.ty == b.ty
    &&& a.last_event == b.last_event
}

/// Trips with the same id are the same trip whatever their other fields hold,
/// while trips that differ in any one field are not deep-equal, whether or not
/// their ids match.
pub proof fn lemma_identity_and_deep_equality(a: Trip, b: Trip)
    ensures
        a.id@ == b.id@ ==> a.eq_spec(&b),
        deep_equal(a, b) ==> a.eq_spec(&b),
        a.times@ != b.times@ || a.delay != b.delay || a.direction != b.direction || a.next_stop
            != b.next_stop || a.last_stop != b.last_stop || a.bus_id != b.bus_id || a.route
            != b.route || a.headsign@ != b.headsign@ || a.path@ != b.path@ || a.ty != b.ty
            || a.last_event != b.last_event ==> !deep_equal(a, b),
{
}

/// The departure of the first entry at sequence position 1.
fn find_reference(st: &Vec<RawStopTime>) -> (r: Option<i32>)
    ensures
        r == reference_departure(st@),
{
    let mut i: usize = 0;
    assert(st@.subrange(0, st.len() as int) =~= st@);
    while i < st.len()
        invariant
            0 <= i <= st.len(),
            reference_departure(st@) == reference_departure(st@.subrange(i as int, st.len() as int)),
        decreases st.len() - i,
    {
        let ghost rest = st@.subrange(i as int, st.len() as int);
        if st[i].sequence == 1 {
            assert(rest[0] == st@[i as int]);
            return Some(st[i].departure);
        }
        assert(rest.drop_first() =~= st@.subrange(i + 1, st.len() as int));
        i += 1;
    }
    assert(st@.subrange(i as int, st.len() as int) =~= Seq::<RawStopTime>::empty());
    None
}

impl Trip {
    pub fn new(
        id: String,
        delay: i32,
        direction: Direction,
        next_stop: u16,
        last_stop: u16,
        bus_id: Option<u16>,
        route: u16,
        headsign: String,
        path: String,
        times: HashMap<u16, StopTime>,
        ty: AreaType,
        last_event: Option<i64>,
    ) -> (r: Self)
        ensures
            r.id == id,
            r.delay == delay,
            r.direction == direction,
            r.next_stop == stop_pointer(next_stop),
            r.last_stop == stop_pointer(last_stop),
            r.bus_id == bus_id,
            r.route == route,
            r.headsign == headsign,
            r.path == path,
            r.times@ == times@,
            r.ty == ty,
            r.last_event == last_event,
    {
        Trip {
            id,
            delay,
            direction,
            next_stop: if next_stop == 0 { None } else { Some(next_stop) },
            last_stop: if last_stop == 0 { None } else { Some(last_stop) },
            bus_id,
            route,
            headsign,
            path,
            times: StopTimes::from_map(times),
            ty,
            last_event,
        }
    }

    /// Whether the two trips agree on every field, stop times included.
    pub fn deep_cmp(&self, other: &Self) -> (r: bool)
        ensures
            r == deep_equal(*self, *other),
    {
        self.id == other.id && self.delay == other.delay && self.direction == other.direction
            && self.next_stop == other.next_stop && self.last_stop == other.last_stop
            && self.bus_id == other.bus_id && self.route == other.route && self.headsign
            == other.headsign && self.path == other.path && self.times == other.times && self.ty
            == other.ty && self.last_event == other.last_event
    }

    /// Takes the live position of `other` (delay, next and last stop, vehicle)
    /// and keeps every other field of `self`.
    pub fn merge(self, other: Self) -> (r: Self)
        ensures
            r.id == self.id,
            r.direction == self.direction,
            r.route == self.route,
            r.headsign == self.headsign,
            r.path == self.path,
            r.times == self.times,
            r.ty == self.ty,
            r.last_event == self.last_event,
            r.delay == other.delay,
            r.next_stop == other.next_stop,
            r.last_stop == other.last_stop,
            r.bus_id == other.bus_id,
    {
        let Trip { delay, next_stop, last_stop, bus_id, .. } = other;
        Trip { delay, next_stop, last_stop, bus_id, ..self }
    }

    /// Normalizes an upstream trip record: stop times become offsets from the
    /// departure at sequence position 1, the stop sequence gets its
    /// fingerprint, and that departure, moved to the next day when before
    /// 04:00, is returned beside the trip.
    pub fn from_tt(value: RawTrip) -> (r: Result<(Trip, i64), NormalizeError>)
        ensures
            reference_departure(value.stop_times@) is None ==> r == Err::<(Trip, i64), NormalizeError>(
                NormalizeError::MissingReferenceStop,
            ),
            reference_departure(value.stop_times@) is Some && Direction::spec_from_code(
                value.direction,
            ) is None ==> r == Err::<(Trip, i64), NormalizeError>(
                NormalizeError::UnknownDirection(value.direction),
            ),
            reference_departure(value.stop_times@) is Some && Direction::spec_from_code(
                value.direction,
            ) is Some ==> (r matches Ok((t, dep)) && normalized(value, t, dep)),
    {
        let ghost raw = value;
        let RawTrip {
            id,
            delay,
            direction,
            next_stop,
            last_stop,
            bus_id,
            route,
            stop_times,
            ty,
            headsign,
            last_event,
        } = value;
        let reference = match find_reference(&stop_times) {
            Some(d) => d,
            None => {
                return Err(NormalizeError::MissingReferenceStop);
            },
        };
        let mut times = StopTimes::new();
        let mut stops: Vec<u16> = Vec::new();
        let mut i: usize = 0;
        while i < stop_times.len()
            invariant
                0 <= i <= stop_times.len(),
                times@ == offsets_of(stop_times@.subrange(0, i as int), reference),
                stops@ == stops_of(stop_times@.subrange(0, i as int)),
            decreases stop_times.len() - i,
        {
            let e = stop_times[i];
            let arrival: i64 = e.arrival as i64 - reference as i64;
            let departure: i64 = e.departure as i64 - reference as i64;
            times.insert(e.stop, StopTime { arrival, departure });
            stops.push(e.stop);
            proof {
                let p = stop_times@.subrange(0, i + 1);
                assert(p.drop_last() =~= stop_times@.subrange(0, i as int));
                assert(p.last() == e);
                assert(stops@ =~= stops_of(p));
            }
            i += 1;
        }
        proof {
            assert(stop_times@.subrange(0, stop_times.len() as int) =~= stop_times@);
        }
        let path = sequence_hash(ty, &stops);
        let dep: i64 = if (reference as i64) < ROLLOVER_LIMIT {
            reference as i64 + DAY
        } else {
            reference as i64
        };
        let direction = match Direction::from_code(direction) {
            Some(d) => d,
            None => {
                return Err(NormalizeError::UnknownDirection(direction));
            },
        };
        let delay: i32 = match delay {
            Some(d) => d,
            None => 0,
        };
        let trip = Trip {
            id,
            delay,
            direction,
            next_stop: if next_stop == 0 { None } else { Some(next_stop) },
            last_stop: if last_stop == 0 { None } else { Some(last_stop) },
            bus_id,
            route,
            headsign,
            path,
            times,
            ty,
            last_event,
        };
        Ok((trip, dep))
    }
}

impl PartialEq for Trip {
    /// Trips are the same trip when their ids match.
    fn eq(&self, other: &Trip) -> (r: bool) {
        self.id == other.id
    }
}

impl vstd::std_specs::cmp::PartialEqSpecImpl for Trip {
    open spec fn obeys_eq_spec() -> bool {
        true
    }

    open spec fn eq_spec(&self, other: &Trip) -> bool {
        self.id@ == other.id@
    }
}

} // verus!
