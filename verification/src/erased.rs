//! Values whose type is known only at run time, and the identifiers of
//! their types. The registries keep their values in this form.

use std::any::Any;
use std::any::TypeId;
use std::sync::Arc;
use vstd::prelude::*;

verus! {

/// The identifier that the standard library gives to a type.
#[verifier::external_type_specification]
#[verifier::external_body]
pub struct ExTypeId(TypeId);

/// A shared value of a type that is known only at run time: the standard
/// library's `Arc<dyn Any + Send + Sync>`.
#[verifier::external_body]
pub struct Erased {
    inner: Arc<dyn Any + Send + Sync>,
}

/// `TypeId::of`: the identifier of the type `T`.
#[verifier::external_body]
pub(crate) fn type_id_of<T: 'static>() -> (id: TypeId) {
    TypeId::of::<T>()
}

/// `TypeId`'s `==`: two identifiers are equal exactly when they are the
/// same identifier.
#[verifier::external_body]
pub(crate) fn same_type(a: &TypeId, b: &TypeId) -> (r: bool)
    ensures
        r == (*a == *b),
{
    a == b
}

/// `Arc::new`: puts `value` behind a shared pointer, its type forgotten.
#[verifier::external_body]
pub(crate) fn erase<T: 'static + Send + Sync>(value: T) -> (r: Erased) {
    Erased { inner: Arc::new(value) }
}

/// `Arc::clone`: another pointer to the same value.
#[verifier::external_body]
pub(crate) fn share(value: &Erased) -> (r: Erased)
    ensures
        r == *value,
{
    Erased { inner: Arc::clone(&value.inner) }
}

/// `<dyn Any>::downcast_ref`: the value, if it is of type `T`.
#[verifier::external_body]
pub(crate) fn view_as<T: 'static>(value: &Erased) -> (r: Option<&T>) {
    value.inner.downcast_ref::<T>()
}

/// `Arc::downcast`: the shared pointer with its type restored, if the value
/// is of type `T`.
#[verifier::external_body]
pub(crate) fn restore<T: 'static + Send + Sync>(value: Erased) -> (r: Option<Arc<T>>) {
    value.inner.downcast::<T>().ok()
}

} // verus!
