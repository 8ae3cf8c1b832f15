//! A store that holds at most one value of each type.

use crate::erased::erase;
use crate::erased::type_id_of;
use crate::erased::view_as;
use crate::erased::Erased;
use crate::error::Dependency;
use crate::error::DeployError;
use crate::type_index::TypeIndex;
use std::any::TypeId;
use vstd::prelude::*;

verus! {

/// At most one value for each type.
pub struct TypedMap {
    pub map: TypeIndex<Erased>,
}

impl View for TypedMap {
    type V = Map<TypeId, Erased>;

    open spec fn view(&self) -> Map<TypeId, Erased> {
        self.map@
    }
}

impl TypedMap {
    /// A store that holds nothing.
    pub fn new() -> (r: Self)
        ensures
            r@ == Map::<TypeId, Erased>::empty(),
    {
        Self { map: TypeIndex::new() }
    }

    /// Stores `value` as the one value of its type, in place of an earlier
    /// value of that type.
    pub fn insert<T: 'static + Send + Sync>(&mut self, value: T)
        ensures
            exists|key: TypeId, stored: Erased| final(self)@ == old(self)@.insert(key, stored),
    {
        let key = type_id_of::<T>();
        let stored = erase(value);
        let ghost kept = stored;
        self.map.put(key, stored);
        assert(self@ == old(self)@.insert(key, kept));
    }

    /// The value of type `T`, if one is stored.
    pub fn try_get<T: 'static + Send + Sync>(&self) -> (r: Option<&T>)
        ensures
            self@ == Map::<TypeId, Erased>::empty() ==> r is None,
    {
        let key = type_id_of::<T>();
        match self.map.find(&key) {
            Some(stored) => view_as::<T>(stored),
            None => None,
        }
    }

    /// The value of type `T`.
    ///
    /// Fails where no value of that type is stored.
    pub fn get<T: 'static + Send + Sync>(&self) -> (r: Result<&T, DeployError>)
        ensures
            r matches Err(e) ==> e == DeployError::MissingDependency(Dependency::Unregistered),
            self@ == Map::<TypeId, Erased>::empty() ==> r is Err,
    {
        match self.try_get::<T>() {
            Some(value) => Ok(value),
            None => Err(DeployError::MissingDependency(Dependency::Unregistered)),
        }
    }
}

} // verus!
