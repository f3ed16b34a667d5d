use std::collections::HashMap;

use vstd::prelude::*;

use crate::area::AreaType;

verus! {

broadcast use vstd::std_specs::hash::group_hash_axioms;

/// A record that lives in one area and has an id there.
pub trait InArea {
    spec fn spec_ty(&self) -> AreaType;

    spec fn spec_id(&self) -> u16;

    fn ty(&self) -> (r: AreaType)
        ensures
            r == self.spec_ty(),
    ;

    fn id(&self) -> (r: u16)
        ensures
            r == self.spec_id(),
    ;
}

/// Records kept apart by area classification, each part keyed by id.
pub struct AreaHelper<T: InArea> {
    urban: HashMap<u16, T>,
    extra: HashMap<u16, T>,
}

impl<T: InArea> AreaHelper<T> {
    /// The records of one classification.
    pub closed spec fn part(&self, ty: AreaType) -> Map<u16, T> {
        match ty {
            AreaType::E => self.extra@,
            AreaType::U => self.urban@,
        }
    }

    pub fn new() -> (r: Self)
        ensures
            r.part(AreaType::U) == Map::<u16, T>::empty(),
            r.part(AreaType::E) == Map::<u16, T>::empty(),
    {
        AreaHelper { urban: HashMap::new(), extra: HashMap::new() }
    }

    /// Files a record under its classification and id, replacing any record
    /// with the same id there.
    pub fn insert(&mut self, s: T)
        ensures
            final(self).part(s.spec_ty()) == old(self).part(s.spec_ty()).insert(s.spec_id(), s),
            forall|t: AreaType| t != s.spec_ty() ==> #[trigger] final(self).part(t) == old(self).part(t),
    {
        let ty = s.ty();
        let id = s.id();
        match ty {
            AreaType::E => {
                self.extra.insert(id, s);
            },
            AreaType::U => {
                self.urban.insert(id, s);
            },
        }
    }

    pub fn urban(&self) -> (r: &HashMap<u16, T>)
        ensures
            r@ == self.part(AreaType::U),
    {
        self.get(AreaType::U)
    }

    pub fn urban_mut(&mut self) -> (r: &mut HashMap<u16, T>)
        ensures
            r@ == old(self).part(AreaType::U),
            final(self).part(AreaType::U) == final(r)@,
            final(self).part(AreaType::E) == old(self).part(AreaType::E),
    {
        self.get_mut(AreaType::U)
    }

    pub fn extra(&self) -> (r: &HashMap<u16, T>)
        ensures
            r@ == self.part(AreaType::E),
    {
        self.get(AreaType::E)
    }

    pub fn extra_mut(&mut self) -> (r: &mut HashMap<u16, T>)
        ensures
            r@ == old(self).part(AreaType::E),
            final(self).part(AreaType::E) == final(r)@,
            final(self).part(AreaType::U) == old(self).part(AreaType::U),
    {
        self.get_mut(AreaType::E)
    }

    pub fn get(&self, ty: AreaType) -> (r: &HashMap<u16, T>)
        ensures
            r@ == self.part(ty),
    {
        match ty {
            AreaType::E => &self.extra,
            AreaType::U => &self.urban,
        }
    }

    pub fn get_mut(&mut self, ty: AreaType) -> (r: &mut HashMap<u16, T>)
        ensures
            r@ == old(self).part(ty),
            final(self).part(ty) == final(r)@,
            forall|t: AreaType| t != ty ==> #[trigger] final(self).part(t) == old(self).part(t),
    {
        match ty {
            AreaType::E => &mut self.extra,
            AreaType::U => &mut self.urban,
        }
    }
}

impl<T: InArea> Default for AreaHelper<T> {
    fn default() -> (r: Self)
        ensures
            r.part(AreaType::U) == Map::<u16, T>::empty(),
            r.part(AreaType::E) == Map::<u16, T>::empty(),
    {
        Self::new()
    }
}

} // verus!
