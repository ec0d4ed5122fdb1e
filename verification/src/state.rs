//! Compact block-state identity and per-voxel state.

use vstd::prelude::*;

verus! {

/// Identifies one resolved blockstate variant: an index into a block
/// registry together with a dense index (`augment`) selecting which of the
/// block's baked meshes is in use.
#[derive(Hash, Clone, Copy, PartialEq, Eq, Structural, Debug)]
pub struct BlockstateKey {
    /// Index into the block registry.
    pub block: u16,
    /// Selects a specific resolved variant/mesh of the block without
    /// comparing strings at render time.
    pub augment: u16,
}

/// The packed 32-bit form of a key: `block` in the high 16 bits,
/// `augment` in the low 16 bits.
pub open spec fn spec_pack(key: BlockstateKey) -> u32 {
    (key.block * 0x10000 + key.augment) as u32
}

/// The key a packed 32-bit value decodes to.
pub open spec fn spec_unpack(packed: u32) -> BlockstateKey {
    BlockstateKey { block: (packed / 0x10000) as u16, augment: (packed % 0x10000) as u16 }
}

impl BlockstateKey {
    /// Packs the key losslessly into one 32-bit integer.
    pub fn pack(&self) -> (r: u32)
        ensures
            r == spec_pack(*self),
    {
        let r = ((self.block as u32) << 16u32) | (self.augment as u32);
        proof {
            let b = self.block;
            let a = self.augment;
            assert(((b as u32) << 16u32) | (a as u32) == b * 0x10000 + a) by (bit_vector);
        }
        r
    }
}

/// Packing then unpacking returns the original key, for every key.
pub proof fn lemma_pack_unpack_roundtrip(key: BlockstateKey)
    ensures
        spec_unpack(spec_pack(key)) == key,
{
    assert(spec_pack(key) / 0x10000 == key.block);
    assert(spec_pack(key) % 0x10000 == key.augment);
}

impl From<(u16, u16)> for BlockstateKey {
    /// The key with the given block and augment indices.
    fn from(tuple: (u16, u16)) -> (r: Self) {
        BlockstateKey { block: tuple.0, augment: tuple.1 }
    }
}

impl vstd::std_specs::convert::FromSpecImpl<(u16, u16)> for BlockstateKey {
    open spec fn obeys_from_spec() -> bool {
        true
    }

    open spec fn from_spec(tuple: (u16, u16)) -> BlockstateKey {
        BlockstateKey { block: tuple.0, augment: tuple.1 }
    }
}

impl From<u32> for BlockstateKey {
    /// Unpacks a packed 32-bit key: `block` from the high 16 bits,
    /// `augment` from the low 16 bits.
    fn from(packed: u32) -> (r: Self) {
        let block = (packed >> 16u32) as u16;
        let augment = (packed & 0xffffu32) as u16;
        proof {
            assert((packed >> 16u32) as u16 == (packed / 0x10000) as u16) by (bit_vector);
            assert((packed & 0xffffu32) as u16 == (packed % 0x10000) as u16) by (bit_vector);
        }
        BlockstateKey { block, augment }
    }
}

impl vstd::std_specs::convert::FromSpecImpl<u32> for BlockstateKey {
    open spec fn obeys_from_spec() -> bool {
        true
    }

    open spec fn from_spec(packed: u32) -> BlockstateKey {
        spec_unpack(packed)
    }
}

/// The content of one voxel as a chunk mesher sees it.
#[derive(Clone, Copy, PartialEq, Eq, Structural, Debug)]
pub enum ChunkBlockState {
    /// Empty and fully transparent; carries no key.
    Air,
    /// Occupied by the blockstate variant the key identifies.
    State(BlockstateKey),
}

impl ChunkBlockState {
    /// True exactly when the voxel holds no block.
    pub fn is_air(&self) -> (r: bool)
        ensures
            r == (*self is Air),
    {
        match self {
            ChunkBlockState::Air => true,
            ChunkBlockState::State(_) => false,
        }
    }
}

/// Render-relevant settings of a block.
pub struct RenderSettings {
    /// Whether the block is fully opaque.
    pub opaque: bool,
}

} // verus!
