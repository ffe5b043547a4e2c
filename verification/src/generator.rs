//! Block selection: which material a world position holds, given the
//! terrain height there. The height field itself is an external
//! collaborator (a noise function); this module owns only the decision
//! table on top of it, and the routine that pours the chosen materials
//! into a chunk.

use vstd::prelude::*;
use crate::block::BlockType;
use crate::chunk::CHUNK_VOLUME;
use crate::chunk::Chunk;
use crate::coords::Coord3;
use crate::coords::dist2i;

verus! {

/// Depth below the surface at which ground turns to stone.
pub const STONE_LAYER: i32 = 5;

/// The water surface height.
pub const WATER_LEVEL: i32 = 4;

/// Radius of the generated world: outside it everything is air.
pub const RANGE: i32 = 300;

/// The material at a world position with the given terrain height:
/// air beyond the world radius; grass on the surface above the waterline;
/// sand on the surface at the waterline and on the ground one below a
/// submerged surface; stone deep below the surface; dirt in between;
/// water up to the water level; air above.
pub open spec fn spec_voxel_type(w: Coord3, terrain_height: int) -> BlockType {
    let wy = w.y as int;
    let th = terrain_height;
    if dist2i(w, Coord3 { x: 0, y: 0, z: 0 }) > RANGE * RANGE {
        BlockType::Air
    } else if wy == th && wy > WATER_LEVEL + 1 {
        BlockType::Grass
    } else if wy == th || (wy == th - 1 && th < WATER_LEVEL) {
        BlockType::Sand
    } else if wy <= th - STONE_LAYER {
        BlockType::Stone
    } else if wy < th {
        BlockType::Dirt
    } else if wy <= WATER_LEVEL {
        BlockType::Water
    } else {
        BlockType::Air
    }
}

/// The material at a world position, given the terrain height there.
pub fn get_voxel_type(world_position: Coord3, terrain_height: i32) -> (b: BlockType)
    ensures
        b == spec_voxel_type(world_position, terrain_height as int),
{
    let wy = world_position.y as i64;
    let th = terrain_height as i64;
    let d = crate::coords::distance2_wide(world_position, Coord3 { x: 0, y: 0, z: 0 });
    if d > (RANGE as i128) * (RANGE as i128) {
        BlockType::Air
    } else if wy == th && wy > (WATER_LEVEL as i64) + 1 {
        BlockType::Grass
    } else if wy == th || (wy == th - 1 && th < WATER_LEVEL as i64) {
        BlockType::Sand
    } else if wy <= th - (STONE_LAYER as i64) {
        BlockType::Stone
    } else if wy < th {
        BlockType::Dirt
    } else if wy <= WATER_LEVEL as i64 {
        BlockType::Water
    } else {
        BlockType::Air
    }
}

/// Pours generated materials into a chunk: for every local coordinate
/// whose chosen material is not air, the voxel is set; air cells are left
/// untouched. The caller supplies one material per dense index, as the
/// generator contract chose them.
pub fn generate_chunk(chunk: &mut Chunk, types: &Vec<BlockType>)
    requires
        old(chunk).wf(),
        types@.len() == CHUNK_VOLUME,
    ensures
        final(chunk).wf(),
        final(chunk).spec_position() == old(chunk).spec_position(),
        forall|i: int|
            0 <= i < CHUNK_VOLUME ==> final(chunk).spec_table()[i] == (if types@[i]
                != BlockType::Air {
                types@[i]
            } else {
                old(chunk).spec_table()[i]
            }),
{
    let mut index: usize = 0;
    while index < CHUNK_VOLUME
        invariant
            chunk.wf(),
            types@.len() == CHUNK_VOLUME,
            index <= CHUNK_VOLUME,
            chunk.spec_position() == old(chunk).spec_position(),
            forall|i: int|
                0 <= i < index ==> chunk.spec_table()[i] == (if types@[i] != BlockType::Air {
                    types@[i]
                } else {
                    old(chunk).spec_table()[i]
                }),
            forall|i: int|
                index <= i < CHUNK_VOLUME ==> chunk.spec_table()[i] == old(chunk).spec_table()[i],
        decreases CHUNK_VOLUME - index,
    {
        let value = types[index];
        if !matches!(value, BlockType::Air) {
            let local = Chunk::get_local_position_from_index(index);
            let r = chunk.set_voxel(local, value);
            proof {
                assert(r is Ok);
            }
        }
        index += 1;
    }
}

} // verus!
