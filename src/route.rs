use vstd::prelude::*;

use crate::area::AreaType;
use crate::path::RoutingType;

verus! {

/// A transit line.
#[derive(Debug)]
pub struct Route {
    pub id: u16,
    /// The upstream route type code: 2 railway, 3 bus, 5 cableway.
    pub ty: u16,
    pub area: u16,
    pub area_ty: AreaType,
    pub color: String,
    pub name: String,
    pub code: String,
}

/// The routing category that a route type code stands for.
pub open spec fn routing_of_code(code: u16) -> Option<RoutingType> {
    if code == 2 {
        Some(RoutingType::Railway)
    } else if code == 3 {
        Some(RoutingType::Bus)
    } else if code == 5 {
        Some(RoutingType::Cableway)
    } else {
        None
    }
}

impl Route {
    pub fn new(
        id: u16,
        ty: u16,
        area: u16,
        area_ty: AreaType,
        color: String,
        name: String,
        code: String,
    ) -> (r: Self)
        ensures
            r.id == id,
            r.ty == ty,
            r.area == area,
            r.area_ty == area_ty,
            r.color == color,
            r.name == name,
            r.code == code,
    {
        Route { id, area, color, name, code, ty, area_ty }
    }

    /// The routing category, decided by the route type code alone; `None` for
    /// a code other than 2, 3 and 5, which callers reject.
    pub fn routing_type(&self) -> (r: Option<RoutingType>)
        ensures
            r == routing_of_code(self.ty),
    {
        if self.ty == 2 {
            Some(RoutingType::Railway)
        } else if self.ty == 3 {
            Some(RoutingType::Bus)
        } else if self.ty == 5 {
            Some(RoutingType::Cableway)
        } else {
            None
        }
    }
}

} // verus!
