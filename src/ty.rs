use vstd::prelude::*;

verus! {

/// The kinds of record that storage keeps, one collection each.
#[derive(Clone, Copy, Debug, PartialEq, Eq, Structural)]
pub enum Type {
    Area,
    Stop,
    Route,
    Trip,
    Path,
    Segment,
    Schedule,
}

/// How records of a kind are keyed in storage.
#[derive(Clone, Copy, Debug, PartialEq, Eq, Structural)]
pub enum Identification {
    /// By their `id` field.
    Id,
    /// By origin, destination and area classification.
    FromTo,
    /// By trip id and departure instant.
    IdDate,
}

impl Type {
    /// The name of the collection that holds records of this kind.
    pub open spec fn spec_collection(self) -> Seq<char> {
        match self {
            Type::Area => "areas"@,
            Type::Stop => "stops"@,
            Type::Trip => "trips"@,
            Type::Path => "paths"@,
            Type::Route => "routes"@,
            Type::Segment => "segments"@,
            Type::Schedule => "schedules"@,
        }
    }

    pub fn collection(&self) -> (r: &'static str)
        ensures
            r@ == self.spec_collection(),
    {
        match self {
            Type::Area => "areas",
            Type::Stop => "stops",
            Type::Trip => "trips",
            Type::Path => "paths",
            Type::Route => "routes",
            Type::Segment => "segments",
            Type::Schedule => "schedules",
        }
    }

    pub open spec fn spec_identify(self) -> Identification {
        match self {
            Type::Segment => Identification::FromTo,
            Type::Schedule => Identification::IdDate,
            _ => Identification::Id,
        }
    }

    pub fn identify(&self) -> (r: Identification)
        ensures
            r == self.spec_identify(),
    {
        match self {
            Type::Segment => Identification::FromTo,
            Type::Schedule => Identification::IdDate,
            _ => Identification::Id,
        }
    }
}

} // verus!
