use vstd::prelude::*;

verus! {

/// The server that caches the answers handed to it (see `Cacher`).
pub struct CacheServer {}

} // verus!
