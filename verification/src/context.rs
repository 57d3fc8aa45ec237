//! What the resolvers are handed: the stub storage pool. Runtime-specific
//! environment handles live with the surrounding program, not here.

use vstd::prelude::*;

use crate::database::DatabasePool;

verus! {

/// The per-request context the resolvers read.
pub struct Context {
    pub db: DatabasePool,
}

} // verus!
