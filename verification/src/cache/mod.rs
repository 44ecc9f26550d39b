//! The tile cache: a memory tier and a disk tier, each with its own byte
//! budget and its own least-recently-used eviction.

use vstd::prelude::*;

pub use budget::{
    CacheBudget, ContentCache, IosContentCacheStub, IosPersistentCacheStub, PersistentCache,
};

pub mod budget;
pub mod laws;
pub mod lru;
pub mod tile;
pub mod tiered;

verus! {

} // verus!
