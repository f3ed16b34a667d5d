//! Shared data model of a public-transit tracking platform: path identities,
//! trip normalization and the records exchanged with storage.

pub mod area;
pub mod digest;
pub mod helpers;
pub mod path;
pub mod route;
pub mod schedule;
pub mod stop_time;
pub mod text;
pub mod trip;
pub mod ty;

pub use area::{Area, AreaType};
pub use helpers::{AreaHelper, InArea};
pub use path::{sequence_hash, Path, RoutingType, StopPair};
pub use route::Route;
pub use schedule::{Schedule, ScheduleHints};
pub use stop_time::{StopKeyError, StopTime, StopTimes};
pub use text::{parse_stop_key, stop_key};
pub use trip::{Direction, DirectionParseError, NormalizeError, RawStopTime, RawTrip, Trip};
pub use ty::{Identification, Type};

use vstd::prelude::*;

verus! {

/// A record of this model that can be built from a record of the upstream
/// feed.
pub trait FromTT<F>: Sized {
    fn from_tt(value: F) -> Self;
}

} // verus!
