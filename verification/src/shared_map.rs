//! The concurrent hash map of the `dashmap` crate, declared for use in
//! fields and signatures. What a map holds is named per use, beside the
//! operations that use it.
use dashmap::DashMap;
use vstd::prelude::*;

verus! {

/// `dashmap::DashMap`, seen from verified code as an opaque value.
#[verifier::external_type_specification]
#[verifier::external_body]
#[verifier::reject_recursive_types(K)]
#[verifier::reject_recursive_types(V)]
#[verifier::reject_recursive_types(S)]
pub struct ExDashMap<K, V, S>(DashMap<K, V, S>);

} // verus!
