//! Byte budgets of the two tiers, and the platform presets they come from.

use vstd::prelude::*;

use crate::error::CoreError;

verus! {

/// The memory limit of the constrained (mobile) preset: 256 MiB.
pub const CONSTRAINED_MEMORY_LIMIT: usize = 268_435_456;

/// The disk limit of the constrained (mobile) preset: 256 MiB.
pub const CONSTRAINED_DISK_LIMIT: usize = 268_435_456;

/// The memory limit of the desktop preset: 2 GiB.
pub const DESKTOP_MEMORY_LIMIT: usize = 2_147_483_648;

/// The disk limit of the desktop preset: 2 GiB.
pub const DESKTOP_DISK_LIMIT: usize = 2_147_483_648;

/// The capability of naming the budget of a memory tier.
pub trait ContentCache {
    /// The memory limit, in bytes.
    spec fn memory_limit(&self) -> nat;

    /// The memory limit of the active configuration, in bytes.
    fn memory_limit_bytes(&self) -> (n: usize)
        ensures
            n == self.memory_limit(),
    ;
}

/// The capability of naming the budget of a disk tier.
pub trait PersistentCache {
    /// The disk limit, in bytes.
    spec fn disk_limit(&self) -> nat;

    /// The disk limit of the active configuration, in bytes.
    fn disk_limit_bytes(&self) -> (n: usize)
        ensures
            n == self.disk_limit(),
    ;
}

/// The memory-tier preset of the constrained platform.
#[derive(Clone, Copy, Debug)]
pub struct IosContentCacheStub;

impl IosContentCacheStub {
    pub fn new() -> (preset: IosContentCacheStub)
        ensures
            preset.memory_limit() == CONSTRAINED_MEMORY_LIMIT,
    {
        IosContentCacheStub
    }
}

impl ContentCache for IosContentCacheStub {
    open spec fn memory_limit(&self) -> nat {
        CONSTRAINED_MEMORY_LIMIT as nat
    }

    fn memory_limit_bytes(&self) -> (n: usize) {
        CONSTRAINED_MEMORY_LIMIT
    }
}

impl Default for IosContentCacheStub {
    fn default() -> (preset: IosContentCacheStub)
        ensures
            preset.memory_limit() == CONSTRAINED_MEMORY_LIMIT,
    {
        IosContentCacheStub::new()
    }
}

/// The disk-tier preset of the constrained platform.
#[derive(Clone, Copy, Debug)]
pub struct IosPersistentCacheStub;

impl IosPersistentCacheStub {
    pub fn new() -> (preset: IosPersistentCacheStub)
        ensures
            preset.disk_limit() == CONSTRAINED_DISK_LIMIT,
    {
        IosPersistentCacheStub
    }
}

impl PersistentCache for IosPersistentCacheStub {
    open spec fn disk_limit(&self) -> nat {
        CONSTRAINED_DISK_LIMIT as nat
    }

    fn disk_limit_bytes(&self) -> (n: usize) {
        CONSTRAINED_DISK_LIMIT
    }
}

impl Default for IosPersistentCacheStub {
    fn default() -> (preset: IosPersistentCacheStub)
        ensures
            preset.disk_limit() == CONSTRAINED_DISK_LIMIT,
    {
        IosPersistentCacheStub::new()
    }
}

/// The memory-tier preset of the desktop platform.
#[derive(Clone, Copy, Debug)]
pub struct DesktopContentCache;

impl ContentCache for DesktopContentCache {
    open spec fn memory_limit(&self) -> nat {
        DESKTOP_MEMORY_LIMIT as nat
    }

    fn memory_limit_bytes(&self) -> (n: usize) {
        DESKTOP_MEMORY_LIMIT
    }
}

/// The disk-tier preset of the desktop platform.
#[derive(Clone, Copy, Debug)]
pub struct DesktopPersistentCache;

impl PersistentCache for DesktopPersistentCache {
    open spec fn disk_limit(&self) -> nat {
        DESKTOP_DISK_LIMIT as nat
    }

    fn disk_limit_bytes(&self) -> (n: usize) {
        DESKTOP_DISK_LIMIT
    }
}

/// The two byte limits a cache is built with. Both are positive.
#[derive(Clone, Copy, Debug)]
pub struct CacheBudget {
    memory_limit_bytes: usize,
    disk_limit_bytes: usize,
}

impl CacheBudget {
    #[verifier::type_invariant]
    spec fn positive(self) -> bool {
        self.memory_limit_bytes > 0 && self.disk_limit_bytes > 0
    }

    /// A budget of the two given limits; a zero limit is refused.
    pub fn new(memory_limit_bytes: usize, disk_limit_bytes: usize) -> (outcome: Result<
        CacheBudget,
        CoreError,
    >)
        ensures
            outcome is Err <==> memory_limit_bytes == 0 || disk_limit_bytes == 0,
            outcome matches Err(e) ==> e == CoreError::InvalidBudget,
            outcome matches Ok(budget) ==> budget.memory_limit() == memory_limit_bytes
                && budget.disk_limit() == disk_limit_bytes,
    {
        if memory_limit_bytes == 0 || disk_limit_bytes == 0 {
            Err(CoreError::InvalidBudget)
        } else {
            Ok(CacheBudget { memory_limit_bytes, disk_limit_bytes })
        }
    }

    /// The budget that a memory preset and a disk preset name together.
    pub fn from_presets<M: ContentCache, P: PersistentCache>(memory: &M, disk: &P) -> (outcome:
        Result<CacheBudget, CoreError>)
        ensures
            outcome is Err <==> memory.memory_limit() == 0 || disk.disk_limit() == 0,
            outcome matches Err(e) ==> e == CoreError::InvalidBudget,
            outcome matches Ok(budget) ==> budget.memory_limit() == memory.memory_limit()
                && budget.disk_limit() == disk.disk_limit(),
    {
        CacheBudget::new(memory.memory_limit_bytes(), disk.disk_limit_bytes())
    }

    /// The budget of the constrained platform: 256 MiB in memory, 256 MiB on disk.
    pub fn constrained() -> (budget: CacheBudget)
        ensures
            budget.memory_limit() == CONSTRAINED_MEMORY_LIMIT,
            budget.disk_limit() == CONSTRAINED_DISK_LIMIT,
    {
        CacheBudget {
            memory_limit_bytes: CONSTRAINED_MEMORY_LIMIT,
            disk_limit_bytes: CONSTRAINED_DISK_LIMIT,
        }
    }

    /// The budget of the desktop platform: 2 GiB in memory, 2 GiB on disk.
    pub fn desktop() -> (budget: CacheBudget)
        ensures
            budget.memory_limit() == DESKTOP_MEMORY_LIMIT,
            budget.disk_limit() == DESKTOP_DISK_LIMIT,
    {
        CacheBudget {
            memory_limit_bytes: DESKTOP_MEMORY_LIMIT,
            disk_limit_bytes: DESKTOP_DISK_LIMIT,
        }
    }

    /// The memory limit, in bytes.
    pub closed spec fn memory_limit(self) -> nat {
        self.memory_limit_bytes as nat
    }

    /// The disk limit, in bytes.
    pub closed spec fn disk_limit(self) -> nat {
        self.disk_limit_bytes as nat
    }
}

impl ContentCache for CacheBudget {
    open spec fn memory_limit(&self) -> nat {
        CacheBudget::memory_limit(*self)
    }

    fn memory_limit_bytes(&self) -> (n: usize)
        ensures
            n > 0,
    {
        proof {
            use_type_invariant(self);
        }
        self.memory_limit_bytes
    }
}

impl PersistentCache for CacheBudget {
    open spec fn disk_limit(&self) -> nat {
        CacheBudget::disk_limit(*self)
    }

    fn disk_limit_bytes(&self) -> (n: usize)
        ensures
            n > 0,
    {
        proof {
            use_type_invariant(self);
        }
        self.disk_limit_bytes
    }
}

/// The constrained preset is a distinct, smaller budget than the desktop one.
pub proof fn lemma_constrained_below_desktop()
    ensures
        IosContentCacheStub.memory_limit() < DesktopContentCache.memory_limit(),
        IosPersistentCacheStub.disk_limit() < DesktopPersistentCache.disk_limit(),
{
}

} // verus!
