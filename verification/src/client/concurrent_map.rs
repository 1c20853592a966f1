//! The concurrent map of the `dashmap` crate, in which the feeds keep their latest values.
use vstd::prelude::*;

verus! {

/// `dashmap::DashMap`. Verified code sees nothing inside one: the modules that keep one name
/// its contents and reach them through wrappers.
#[verifier::external_type_specification]
#[verifier::external_body]
#[verifier::reject_recursive_types(K)]
#[verifier::reject_recursive_types(V)]
#[verifier::reject_recursive_types(S)]
pub struct OutsideDashMap<K, V, S>(dashmap::DashMap<K, V, S>);

} // verus!
