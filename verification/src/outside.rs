//! What the library takes from `iced_core`, `iced_futures` and `iced_runtime` without proof.
use iced_core::window::Id;
use iced_futures::Subscription;
use iced_runtime::user_interface::Cache;
use vstd::prelude::*;

verus! {

/// The id of a window, [`iced_core::window::Id`]: a number that only `iced_core` can read.
#[verifier::external_type_specification]
#[verifier::external_body]
pub struct ExId(iced_core::window::Id);

/// What a user interface leaves behind for the next one that is built in its place,
/// [`iced_runtime::user_interface::Cache`].
#[verifier::external_type_specification]
#[verifier::external_body]
pub struct ExCache(iced_runtime::user_interface::Cache);

/// Work for the background that produces values, [`iced_runtime::Task`].
#[verifier::external_type_specification]
#[verifier::external_body]
#[verifier::reject_recursive_types(T)]
pub struct ExTask<T>(iced_runtime::Task<T>);

/// What an application listens to, [`iced_futures::Subscription`].
#[verifier::external_type_specification]
#[verifier::external_body]
#[verifier::reject_recursive_types(T)]
pub struct ExSubscription<T>(iced_futures::Subscription<T>);

/// Calls `==` of [`iced_core::window::Id`].
///
/// An `Id` holds one number and its `PartialEq` is derived, so two ids compare equal exactly
/// when they are the same value.
#[verifier::external_body]
pub(crate) fn same_id(a: &Id, b: &Id) -> (same: bool)
    ensures
        same == (*a == *b),
{
    a == b
}

/// Calls [`iced_core::window::Id::unique`].
///
/// The id comes from a counter that the whole process shares, so nothing is claimed of it.
#[verifier::external_body]
pub(crate) fn unique_id() -> (id: Id) {
    Id::unique()
}

/// [`Cache::default`](iced_runtime::user_interface::Cache) makes the cache that holds nothing.
/// A cache cannot be looked into, so nothing is claimed of it.
pub assume_specification[ <Cache as Default>::default ]() -> (cache: Cache)
;

/// [`Subscription::none`] makes the subscription that listens to nothing. A subscription cannot be
/// looked into, so nothing is claimed of it.
pub assume_specification<T>[ Subscription::<T>::none ]() -> (subscription: Subscription<T>)
;

} // verus!
