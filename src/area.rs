use vstd::prelude::*;

use crate::helpers::InArea;

verus! {

/// Coarse zoning of the transit network: urban or extra-urban.
#[derive(Clone, Copy, Debug, PartialEq, Eq, Structural, Hash)]
pub enum AreaType {
    /// Extra-urban area.
    E,
    /// Urban area.
    U,
}

impl AreaType {
    /// The single byte that stands for the classification in a path fingerprint.
    pub open spec fn spec_code(self) -> u8 {
        match self {
            AreaType::E => 0x65u8,
            AreaType::U => 0x75u8,
        }
    }

    /// The byte of the classification, from a fixed table (`e` and `u` in ASCII).
    pub fn code(&self) -> (r: u8)
        ensures
            r == self.spec_code(),
    {
        match self {
            AreaType::E => 0x65u8,
            AreaType::U => 0x75u8,
        }
    }
}

/// A named area of the network.
#[derive(Debug)]
pub struct Area {
    pub id: u16,
    pub label: String,
    pub ty: AreaType,
}

impl Area {
    pub fn new(id: u16, label: String, ty: AreaType) -> (r: Self)
        ensures
            r.id == id,
            r.label == label,
            r.ty == ty,
    {
        Area { id, label, ty }
    }
}

impl InArea for Area {
    open spec fn spec_ty(&self) -> AreaType {
        self.ty
    }

    open spec fn spec_id(&self) -> u16 {
        self.id
    }

    fn ty(&self) -> (r: AreaType) {
        self.ty
    }

    fn id(&self) -> (r: u16) {
        self.id
    }
}

} // verus!
