//! The closed set of voxel materials. `Air` is the sentinel "empty" value.

use vstd::prelude::*;

verus! {

/// A voxel material. The ordinal values (0 for `Air` up to 5 for `Sand`)
/// are stable, and are produced and consumed only through the explicit
/// conversions below, never by numeric reinterpretation.
#[derive(Clone, Copy, Debug, PartialEq, Eq, Structural)]
pub enum BlockType {
    Air,
    Stone,
    Dirt,
    Grass,
    Water,
    Sand,
}

/// The stable ordinal of each material.
pub open spec fn spec_ordinal(b: BlockType) -> u16 {
    match b {
        BlockType::Air => 0,
        BlockType::Stone => 1,
        BlockType::Dirt => 2,
        BlockType::Grass => 3,
        BlockType::Water => 4,
        BlockType::Sand => 5,
    }
}

/// Solid for occlusion purposes: anything but air and water.
pub open spec fn spec_solid(b: BlockType) -> bool {
    b != BlockType::Air && b != BlockType::Water
}

impl BlockType {
    /// The stable ordinal value of this material.
    pub fn ordinal(self) -> (r: u16)
        ensures
            r == spec_ordinal(self),
    {
        match self {
            BlockType::Air => 0,
            BlockType::Stone => 1,
            BlockType::Dirt => 2,
            BlockType::Grass => 3,
            BlockType::Water => 4,
            BlockType::Sand => 5,
        }
    }

    /// The material with the given ordinal, or `None` for an unknown value.
    pub fn from_ordinal(value: u16) -> (r: Option<BlockType>)
        ensures
            r matches Some(b) ==> spec_ordinal(b) == value,
            r is None <==> value > 5,
    {
        match value {
            0 => Some(BlockType::Air),
            1 => Some(BlockType::Stone),
            2 => Some(BlockType::Dirt),
            3 => Some(BlockType::Grass),
            4 => Some(BlockType::Water),
            5 => Some(BlockType::Sand),
            _ => None,
        }
    }

    /// True when this material occludes: anything but air and water.
    pub fn is_solid(self) -> (r: bool)
        ensures
            r == spec_solid(self),
    {
        !matches!(self, BlockType::Air | BlockType::Water)
    }
}

} // verus!
