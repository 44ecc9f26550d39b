//! Tiles: the unit of caching.

use vstd::prelude::*;

verus! {

/// Identifies one decoded tile: where it lies on the remote framebuffer and
/// which version of that region's content it holds.
#[derive(Clone, Copy, Debug, PartialEq, Eq, Hash, Structural)]
pub struct TileKey {
    /// Region id or packed tile coordinate.
    pub region: u64,
    /// Content version or content hash of the region.
    pub version: u64,
}

/// The decoded pixels of one tile, as the cache holds them.
#[derive(Debug, PartialEq, Eq)]
pub struct TileEntry {
    /// Decoded pixel data; its length is the size the entry is accounted at.
    pub data: Vec<u8>,
    /// Whether the disk tier already holds a copy of exactly these bytes.
    pub disk_backed: bool,
}

/// What a `TileEntry` stands for in contracts.
pub struct TileData {
    pub bytes: Seq<u8>,
    pub disk_backed: bool,
}

impl View for TileEntry {
    type V = TileData;

    open spec fn view(&self) -> TileData {
        TileData { bytes: self.data@, disk_backed: self.disk_backed }
    }
}

impl TileEntry {
    /// A freshly decoded tile, not yet persisted anywhere.
    pub fn new(data: Vec<u8>) -> (entry: TileEntry)
        ensures
            entry@ == (TileData { bytes: data@, disk_backed: false }),
    {
        TileEntry { data, disk_backed: false }
    }

    /// The number of bytes this entry occupies in a tier.
    pub fn size(&self) -> (n: usize)
        ensures
            n == self@.bytes.len(),
    {
        self.data.len()
    }

    /// A copy with the same bytes and the same flag.
    pub fn duplicate(&self) -> (copy: TileEntry)
        ensures
            copy@ == self@,
    {
        let data = self.data.clone();
        assert(data@ =~= self.data@);
        TileEntry { data, disk_backed: self.disk_backed }
    }
}

impl Clone for TileEntry {
    fn clone(&self) -> (copy: TileEntry)
        ensures
            copy@ == self@,
    {
        self.duplicate()
    }
}

} // verus!
