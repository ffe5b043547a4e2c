//! The chunk store: a concurrent map from chunk-space coordinates to
//! chunks, with the one derived capability every cross-chunk read goes
//! through: `get_voxel` on a world position. An absent chunk resolves to
//! air by policy, never to an error, so a partially streamed world still
//! meshes.

use vstd::prelude::*;
use dashmap::DashMap;
use crate::block::BlockType;
use crate::chunk::CHUNK_SIZE;
use crate::chunk::Chunk;
use crate::chunk::spec_index_of;
use crate::coords::Coord3;

verus! {

/// Declares dashmap::DashMap so that values of it can flow through
/// verified signatures; its contents are visible only through
/// `chunk_map_view`.
#[verifier::external_type_specification]
#[verifier::external_body]
#[verifier::reject_recursive_types(K)]
#[verifier::reject_recursive_types(V)]
#[verifier::reject_recursive_types(S)]
pub struct ExDashMap<K, V, S>(DashMap<K, V, S>);

/// The contents of a chunk store, as a mathematical map.
pub uninterp spec fn chunk_map_view(m: DashMap<Coord3, Chunk>) -> Map<Coord3, Chunk>;

/// Relies on dashmap::DashMap::get: returns the value stored under the
/// key, or `None` when the key is absent. The guard is turned into an
/// owned chunk by the derived `Clone`, a field-for-field copy.
#[verifier::external_body]
fn chunk_map_get(m: &DashMap<Coord3, Chunk>, key: &Coord3) -> (r: Option<Chunk>)
    ensures
        chunk_map_view(*m).dom().contains(*key) ==> r == Some(chunk_map_view(*m)[*key]),
        !chunk_map_view(*m).dom().contains(*key) ==> r is None,
{
    m.get(key).map(|c| c.clone())
}

/// The material a chunk store holds at a world position: the value in the
/// owning chunk's table, or air when that chunk is absent.
pub open spec fn spec_store_voxel(view: Map<Coord3, Chunk>, w: Coord3) -> BlockType {
    let s = CHUNK_SIZE as int;
    let cp = Coord3 { x: (w.x as int / s) as i32, y: (w.y as int / s) as i32, z: (w.z as int / s) as i32 };
    let lp = Coord3 { x: (w.x as int % s) as i32, y: (w.y as int % s) as i32, z: (w.z as int % s) as i32 };
    if view.dom().contains(cp) {
        view[cp].spec_table()[spec_index_of(lp)]
    } else {
        BlockType::Air
    }
}

/// Anything that can answer "what material is at this world position".
/// The registry below implements it; the mesh computations are generic
/// over it.
pub trait ChunkMaster {
    /// Well-formedness of the store behind this master.
    spec fn master_wf(&self) -> bool;

    /// What `get_voxel` returns, as a function of the store's contents.
    spec fn spec_voxel(&self, world_position: Coord3) -> BlockType;

    /// The material at a world position; air where no chunk is loaded.
    fn get_voxel(&self, world_position: Coord3) -> (r: BlockType)
        requires
            self.master_wf(),
        ensures
            r == self.spec_voxel(world_position),
    ;
}

impl ChunkMaster for DashMap<Coord3, Chunk> {
    /// Every stored chunk is well-formed.
    open spec fn master_wf(&self) -> bool {
        forall|c: Coord3|
            #[trigger] chunk_map_view(*self).dom().contains(c) ==> chunk_map_view(*self)[c].wf()
    }

    open spec fn spec_voxel(&self, world_position: Coord3) -> BlockType {
        spec_store_voxel(chunk_map_view(*self), world_position)
    }

    fn get_voxel(&self, world_position: Coord3) -> (r: BlockType) {
        let chunk_position = world_position.div_euclid(CHUNK_SIZE as i32);
        let local_position = world_position.mod_euclid(CHUNK_SIZE as i32);
        match chunk_map_get(self, &chunk_position) {
            Some(chunk) => chunk.get_voxel(local_position),
            None => BlockType::Air,
        }
    }
}

} // verus!
