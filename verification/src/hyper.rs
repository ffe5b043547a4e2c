//! A sparse octree over block materials: a region is empty, solid with a
//! single material, or split into eight sub-regions.

use vstd::prelude::*;
use crate::block::BlockType;

verus! {

/// One level of the octree: nothing, a uniform region, or eight children.
pub enum OctaHyperChunk<T> {
    Empty,
    Solid(T),
    SubChunk(SubOHCChunk<T>),
}

/// The eight children of a split region, with the level they sit at.
pub struct SubOHCChunk<T> {
    pub level: i32,
    pub leafs: Box<[OctaHyperChunk<T>; 8]>,
}

impl OctaHyperChunk<BlockType> {
    /// A world with nothing in it.
    pub fn new() -> (r: Self)
        ensures
            r is Empty,
    {
        OctaHyperChunk::Empty
    }
}

} // verus!
