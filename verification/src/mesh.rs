//! Per-voxel mesh masks: which of the six faces are hidden by neighbors
//! (face culling), and which face corners are darkened (ambient
//! occlusion). Both read across chunk boundaries through a `ChunkMaster`,
//! so a neighbor in another chunk resolves exactly as a local one does.

use vstd::prelude::*;
use crate::block::BlockType;
use crate::block::spec_solid;
use crate::chunk::CHUNK_SIZE;
use crate::chunk::CHUNK_VOLUME;
use crate::chunk::Chunk;
use crate::chunk::local_in_bounds;
use crate::chunk::spec_index_of;
use crate::chunk::spec_is_outer;
use crate::chunk::spec_local_of;
use crate::chunk::chunk_pos_in_range;
use crate::coords::Coord3;
use crate::coords::neighbor_offsets;
use crate::registry::ChunkMaster;

verus! {

broadcast use vstd::seq_lib::group_seq_properties;

/// The world position of a (possibly out-of-bounds) local coordinate of a
/// chunk.
pub open spec fn spec_world_at(chunk: Chunk, l: Coord3) -> Coord3 {
    Coord3 {
        x: (chunk.spec_position().x * CHUNK_SIZE + l.x) as i32,
        y: (chunk.spec_position().y * CHUNK_SIZE + l.y) as i32,
        z: (chunk.spec_position().z * CHUNK_SIZE + l.z) as i32,
    }
}

/// The material at a local position: read from the chunk's own table when
/// inside, resolved through the master at the world position when outside.
pub open spec fn spec_sample<M: ChunkMaster>(chunk: Chunk, master: M, l: Coord3) -> BlockType {
    if spec_is_outer(l) {
        master.spec_voxel(spec_world_at(chunk, l))
    } else {
        chunk.spec_table()[spec_index_of(l)]
    }
}

/// The face-neighbor offset for direction `d`: the same order as
/// `neighbor_offsets`, written as a case split so that a symbolic
/// direction reduces.
pub open spec fn spec_neighbor(d: int) -> Coord3 {
    if d == 0 {
        Coord3 { x: 0, y: 1, z: 0 }
    } else if d == 1 {
        Coord3 { x: 0, y: -1i32, z: 0 }
    } else if d == 2 {
        Coord3 { x: 1, y: 0, z: 0 }
    } else if d == 3 {
        Coord3 { x: -1i32, y: 0, z: 0 }
    } else if d == 4 {
        Coord3 { x: 0, y: 0, z: 1 }
    } else {
        Coord3 { x: 0, y: 0, z: -1i32 }
    }
}

/// The two offset views agree on the six directions.
pub proof fn lemma_neighbor_offsets_agree(d: int)
    requires
        0 <= d < 6,
    ensures
        neighbor_offsets()[d] == spec_neighbor(d),
{
}

/// The position of the voxel's face-`d` neighbor.
pub open spec fn spec_face_neighbor(l: Coord3, d: int) -> Coord3 {
    let o = spec_neighbor(d);
    Coord3 { x: (l.x + o.x) as i32, y: (l.y + o.y) as i32, z: (l.z + o.z) as i32 }
}

/// Whether face `d` (index into `neighbor_offsets`) of the voxel at `l` is
/// culled: the neighbor hides it unless the neighbor is air, or is water
/// while the voxel itself is not (water surfaces stay visible against
/// water).
pub open spec fn spec_face_bit<M: ChunkMaster>(chunk: Chunk, master: M, l: Coord3, d: int) -> bool {
    let nb = spec_sample(chunk, master, spec_face_neighbor(l, d));
    let cur = chunk.spec_table()[spec_index_of(l)];
    !(nb == BlockType::Air || (cur != BlockType::Water && nb == BlockType::Water))
}

/// The first `n` bits of the face mask.
pub open spec fn spec_face_mask_upto<M: ChunkMaster>(
    chunk: Chunk,
    master: M,
    l: Coord3,
    n: int,
) -> u8
    decreases n,
{
    if n <= 0 {
        0u8
    } else if spec_face_bit(chunk, master, l, n - 1) {
        spec_face_mask_upto(chunk, master, l, n - 1) | (1u8 << ((n - 1) as u8))
    } else {
        spec_face_mask_upto(chunk, master, l, n - 1)
    }
}

/// The 6-bit face mask of the voxel at `l`: bit `d` is set when face `d`
/// is hidden.
pub open spec fn spec_face_mask<M: ChunkMaster>(chunk: Chunk, master: M, l: Coord3) -> u8 {
    spec_face_mask_upto(chunk, master, l, 6)
}

/// One entry of the faces table: the face mask for an occupied voxel, 0
/// for air.
pub open spec fn spec_face_entry<M: ChunkMaster>(chunk: Chunk, master: M, i: int) -> u8 {
    if chunk.spec_table()[i] != BlockType::Air {
        spec_face_mask(chunk, master, spec_local_of(i))
    } else {
        0u8
    }
}

/// The canonical corner sample offsets for corner `cnt` of the +y face:
/// two edge-adjacent positions and the diagonal between them.
pub open spec fn spec_ao_base(cnt: int) -> (Coord3, Coord3, Coord3) {
    if cnt == 0 {
        (
            Coord3 { x: 0, y: 1, z: -1i32 },
            Coord3 { x: -1i32, y: 1, z: 0 },
            Coord3 { x: -1i32, y: 1, z: -1i32 },
        )
    } else if cnt == 1 {
        (
            Coord3 { x: 0, y: 1, z: -1i32 },
            Coord3 { x: 1, y: 1, z: 0 },
            Coord3 { x: 1, y: 1, z: -1i32 },
        )
    } else if cnt == 2 {
        (
            Coord3 { x: 0, y: 1, z: 1 },
            Coord3 { x: 1, y: 1, z: 0 },
            Coord3 { x: 1, y: 1, z: 1 },
        )
    } else {
        (
            Coord3 { x: 0, y: 1, z: 1 },
            Coord3 { x: -1i32, y: 1, z: 0 },
            Coord3 { x: -1i32, y: 1, z: 1 },
        )
    }
}

/// Projects a +y-face offset onto the axis of face `f`: identity for the
/// y axis, swap x/y for the x axis, swap y/z for the z axis.
pub open spec fn spec_ao_perm(axis: int, c: Coord3) -> Coord3 {
    if axis == 2 {
        Coord3 { x: c.x, y: c.z, z: c.y }
    } else if axis == 0 {
        c
    } else {
        Coord3 { x: c.y, y: c.x, z: c.z }
    }
}

/// The sample offset for face `f`, corner `cnt`, and position `which`
/// (0 = side1, 1 = side2, 2 = corner): the canonical offset mirrored for a
/// negative direction and projected onto the face's axis.
pub open spec fn spec_ao_offset(f: int, which: int, cnt: int) -> Coord3 {
    let dir: int = if f % 2 == 0 {
        1
    } else {
        -1
    };
    let base = spec_ao_base(cnt);
    let b = if which == 0 {
        base.0
    } else if which == 1 {
        base.1
    } else {
        base.2
    };
    spec_ao_perm(f / 2, Coord3 { x: (b.x * dir) as i32, y: (b.y * dir) as i32, z: (b.z * dir) as i32 })
}

/// The sampled position for face `f`, corner `cnt`, and position `which`
/// of the voxel at `l`.
pub open spec fn spec_ao_sample_pos(l: Coord3, f: int, which: int, cnt: int) -> Coord3 {
    let o = spec_ao_offset(f, which, cnt);
    Coord3 { x: (l.x + o.x) as i32, y: (l.y + o.y) as i32, z: (l.z + o.z) as i32 }
}

/// Whether corner `cnt` of face `f` of the voxel at `l` is occluded: both
/// sides solid gives the maximal category 0, otherwise the category is 3
/// minus the number of solid samples; the bit is set when the category is
/// below 3, that is when anything at all occludes.
pub open spec fn spec_ao_bit<M: ChunkMaster>(
    chunk: Chunk,
    master: M,
    l: Coord3,
    f: int,
    cnt: int,
) -> bool {
    let side1 = spec_solid(spec_sample(chunk, master, spec_ao_sample_pos(l, f, 0, cnt)));
    let side2 = spec_solid(spec_sample(chunk, master, spec_ao_sample_pos(l, f, 1, cnt)));
    let corner = spec_solid(spec_sample(chunk, master, spec_ao_sample_pos(l, f, 2, cnt)));
    let ao_type: int = if side1 && side2 {
        0
    } else {
        3 - ((if side1 {
            1int
        } else {
            0int
        }) + (if side2 {
            1int
        } else {
            0int
        }) + (if corner {
            1int
        } else {
            0int
        }))
    };
    ao_type < 3
}

/// The first `n` bits of the ambient-occlusion mask; bit `f * 4 + cnt`
/// stands for corner `cnt` of face `f`.
pub open spec fn spec_ao_mask_upto<M: ChunkMaster>(
    chunk: Chunk,
    master: M,
    l: Coord3,
    n: int,
) -> u32
    decreases n,
{
    if n <= 0 {
        0u32
    } else if spec_ao_bit(chunk, master, l, (n - 1) / 4, (n - 1) % 4) {
        spec_ao_mask_upto(chunk, master, l, n - 1) | (1u32 << ((n - 1) as u32))
    } else {
        spec_ao_mask_upto(chunk, master, l, n - 1)
    }
}

/// The 24-bit ambient-occlusion mask of the voxel at `l`.
pub open spec fn spec_ao_mask<M: ChunkMaster>(chunk: Chunk, master: M, l: Coord3) -> u32 {
    spec_ao_mask_upto(chunk, master, l, 24)
}

/// One entry of the ambient-occlusion table: the mask for an occupied
/// voxel whose face mask is not zero, 0 otherwise.
pub open spec fn spec_ao_entry<M: ChunkMaster>(
    chunk: Chunk,
    master: M,
    i: int,
    faces: Seq<u8>,
) -> u32 {
    if chunk.spec_table()[i] != BlockType::Air && faces[i] != 0 {
        spec_ao_mask(chunk, master, spec_local_of(i))
    } else {
        0u32
    }
}

/// A zero-filled table with one entry per voxel.
fn zero_table_u8() -> (r: Vec<u8>)
    ensures
        r@.len() == CHUNK_VOLUME,
        forall|i: int| 0 <= i < CHUNK_VOLUME ==> r@[i] == 0u8,
{
    let mut table: Vec<u8> = Vec::new();
    let mut i: usize = 0;
    while i < CHUNK_VOLUME
        invariant
            i <= CHUNK_VOLUME,
            table@.len() == i,
            forall|j: int| 0 <= j < i ==> table@[j] == 0u8,
        decreases CHUNK_VOLUME - i,
    {
        table.push(0u8);
        i += 1;
    }
    table
}

/// A zero-filled 32-bit table with one entry per voxel.
fn zero_table_u32() -> (r: Vec<u32>)
    ensures
        r@.len() == CHUNK_VOLUME,
        forall|i: int| 0 <= i < CHUNK_VOLUME ==> r@[i] == 0u32,
{
    let mut table: Vec<u32> = Vec::new();
    let mut i: usize = 0;
    while i < CHUNK_VOLUME
        invariant
            i <= CHUNK_VOLUME,
            table@.len() == i,
            forall|j: int| 0 <= j < i ==> table@[j] == 0u32,
        decreases CHUNK_VOLUME - i,
    {
        table.push(0u32);
        i += 1;
    }
    table
}

/// The face-neighbor offset for direction `d`, as executable code.
fn neighbor_dir(d: u8) -> (r: Coord3)
    requires
        d < 6,
    ensures
        r == spec_neighbor(d as int),
        -1 <= r.x <= 1,
        -1 <= r.y <= 1,
        -1 <= r.z <= 1,
{
    if d == 0 {
        Coord3 { x: 0, y: 1, z: 0 }
    } else if d == 1 {
        Coord3 { x: 0, y: -1, z: 0 }
    } else if d == 2 {
        Coord3 { x: 1, y: 0, z: 0 }
    } else if d == 3 {
        Coord3 { x: -1, y: 0, z: 0 }
    } else if d == 4 {
        Coord3 { x: 0, y: 0, z: 1 }
    } else {
        Coord3 { x: 0, y: 0, z: -1 }
    }
}

/// The corner sample offset for face `f`, corner `cnt`, and position
/// `which`, as executable code.
fn ao_offset(f: u8, which: u8, cnt: u8) -> (r: Coord3)
    requires
        f < 6,
        which < 3,
        cnt < 4,
    ensures
        r == spec_ao_offset(f as int, which as int, cnt as int),
        -1 <= r.x <= 1,
        -1 <= r.y <= 1,
        -1 <= r.z <= 1,
{
    let dir: i32 = if f % 2 == 0 {
        1
    } else {
        -1
    };
    let base: Coord3 = if cnt == 0 {
        if which == 0 {
            Coord3 { x: 0, y: 1, z: -1 }
        } else if which == 1 {
            Coord3 { x: -1, y: 1, z: 0 }
        } else {
            Coord3 { x: -1, y: 1, z: -1 }
        }
    } else if cnt == 1 {
        if which == 0 {
            Coord3 { x: 0, y: 1, z: -1 }
        } else if which == 1 {
            Coord3 { x: 1, y: 1, z: 0 }
        } else {
            Coord3 { x: 1, y: 1, z: -1 }
        }
    } else if cnt == 2 {
        if which == 0 {
            Coord3 { x: 0, y: 1, z: 1 }
        } else if which == 1 {
            Coord3 { x: 1, y: 1, z: 0 }
        } else {
            Coord3 { x: 1, y: 1, z: 1 }
        }
    } else {
        if which == 0 {
            Coord3 { x: 0, y: 1, z: 1 }
        } else if which == 1 {
            Coord3 { x: -1, y: 1, z: 0 }
        } else {
            Coord3 { x: -1, y: 1, z: 1 }
        }
    };
    let scaled = base.scale(dir);
    let axis = f / 2;
    if axis == 2 {
        scaled.xzy()
    } else if axis == 0 {
        scaled
    } else {
        scaled.yxz()
    }
}

impl Chunk {
    /// Computes the 6-bit face mask of every occupied voxel: for each of
    /// the six directions the neighboring position is read, locally or
    /// through the master when it lies outside this chunk, and the face
    /// bit is set exactly when the neighbor hides the face.
    pub fn calculate_faces_table<M: ChunkMaster>(&self, master: &M) -> (r: Vec<u8>)
        requires
            self.wf(),
            master.master_wf(),
            chunk_pos_in_range(self.spec_position()),
        ensures
            r@.len() == CHUNK_VOLUME,
            forall|u: usize|
                u < CHUNK_VOLUME ==> r@[u as int] == #[trigger] spec_face_entry(
                    *self,
                    *master,
                    u as int,
                ),
    {
        let mut faces_table: Vec<u8> = zero_table_u8();
        let voxels = self.get_voxels();
        let mut vi: usize = 0;
        while vi < voxels.len()
            invariant
                self.wf(),
                master.master_wf(),
                chunk_pos_in_range(self.spec_position()),
                voxels@ == self.spec_occupied(),
                vi <= voxels@.len(),
                faces_table@.len() == CHUNK_VOLUME,
                forall|u: usize|
                    u < CHUNK_VOLUME ==> faces_table@[u as int] == (if self.spec_occupied().take(
                        vi as int,
                    ).contains(u) {
                        spec_face_entry(*self, *master, u as int)
                    } else {
                        0u8
                    }),
            decreases voxels@.len() - vi,
        {
            let index: usize = voxels[vi];
            let local_position = Chunk::get_local_position_from_index(index);
            let current_block = self.get_voxel_from_index(index);
            let mut mesh_type_mask: u8 = 0;
            let mut d: u8 = 0;
            proof {
                assert(self.spec_occupied().contains(index));
                assert(current_block != BlockType::Air);
            }
            while d < 6
                invariant
                    self.wf(),
                    master.master_wf(),
                    chunk_pos_in_range(self.spec_position()),
                    local_in_bounds(local_position),
                    index < CHUNK_VOLUME,
                    local_position == spec_local_of(index as int),
                    spec_index_of(local_position) == index,
                    current_block == self.spec_table()[index as int],
                    d <= 6,
                    mesh_type_mask == spec_face_mask_upto(*self, *master, local_position, d as int),
                decreases 6 - d,
            {
                let pos = local_position.add(neighbor_dir(d));
                let block_type = if Chunk::is_outer(pos) {
                    let world_position = self.get_world_position(pos);
                    master.get_voxel(world_position)
                } else {
                    self.get_voxel(pos)
                };
                proof {
                    assert(block_type == spec_sample(*self, *master, pos));
                }
                if !(block_type == BlockType::Air || (current_block != BlockType::Water
                    && block_type == BlockType::Water)) {
                    mesh_type_mask = mesh_type_mask | (1u8 << d);
                }
                d += 1;
            }
            faces_table[index] = mesh_type_mask;
            proof {
                assert(self.spec_occupied().take(vi as int + 1) =~= self.spec_occupied().take(
                    vi as int,
                ).push(index));
                assert(mesh_type_mask == spec_face_entry(*self, *master, index as int));
            }
            vi += 1;
        }
        proof {
            assert(self.spec_occupied().take(voxels@.len() as int) =~= self.spec_occupied());
        }
        faces_table
    }

    /// Computes the 24-bit ambient-occlusion mask of every occupied voxel
    /// with a non-zero face mask: for each face and each of its four
    /// corners, two side samples and a diagonal are resolved exactly as
    /// face culling resolves neighbors, and the corner bit is set when
    /// anything among them occludes.
    #[verifier::rlimit(100)]
    pub fn calculate_ambient_occlusion<M: ChunkMaster>(
        &self,
        master: &M,
        faces_table: &Vec<u8>,
    ) -> (r: Vec<u32>)
        requires
            self.wf(),
            master.master_wf(),
            chunk_pos_in_range(self.spec_position()),
            faces_table@.len() == CHUNK_VOLUME,
        ensures
            r@.len() == CHUNK_VOLUME,
            forall|u: usize|
                u < CHUNK_VOLUME ==> r@[u as int] == #[trigger] spec_ao_entry(
                    *self,
                    *master,
                    u as int,
                    faces_table@,
                ),
    {
        let mut ao_mask_table: Vec<u32> = zero_table_u32();
        let voxels = self.get_voxels();
        let mut vi: usize = 0;
        while vi < voxels.len()
            invariant
                self.wf(),
                master.master_wf(),
                chunk_pos_in_range(self.spec_position()),
                faces_table@.len() == CHUNK_VOLUME,
                voxels@ == self.spec_occupied(),
                vi <= voxels@.len(),
                ao_mask_table@.len() == CHUNK_VOLUME,
                forall|u: usize|
                    u < CHUNK_VOLUME ==> ao_mask_table@[u as int] == (if self.spec_occupied().take(
                        vi as int,
                    ).contains(u) {
                        spec_ao_entry(*self, *master, u as int, faces_table@)
                    } else {
                        0u32
                    }),
            decreases voxels@.len() - vi,
        {
            let index: usize = voxels[vi];
            let local_position = Chunk::get_local_position_from_index(index);
            proof {
                assert(self.spec_occupied().contains(index));
                assert(self.spec_table()[index as int] != BlockType::Air);
            }
            if faces_table[index] != 0 {
                let mut msk: u32 = 0;
                let mut f: u8 = 0;
                while f < 6
                    invariant
                        self.wf(),
                        master.master_wf(),
                        chunk_pos_in_range(self.spec_position()),
                        local_in_bounds(local_position),
                        f <= 6,
                        msk == spec_ao_mask_upto(*self, *master, local_position, 4 * f as int),
                    decreases 6 - f,
                {
                    let mut cnt: u8 = 0;
                    while cnt < 4
                        invariant
                            self.wf(),
                            master.master_wf(),
                            chunk_pos_in_range(self.spec_position()),
                            local_in_bounds(local_position),
                            f < 6,
                            cnt <= 4,
                            msk == spec_ao_mask_upto(
                                *self,
                                *master,
                                local_position,
                                4 * f as int + cnt as int,
                            ),
                        decreases 4 - cnt,
                    {
                        let side1p = local_position.add(ao_offset(f, 0, cnt));
                        let side2p = local_position.add(ao_offset(f, 1, cnt));
                        let cornerp = local_position.add(ao_offset(f, 2, cnt));
                        let side1_block = if Chunk::is_outer(side1p) {
                            master.get_voxel(self.get_world_position(side1p))
                        } else {
                            self.get_voxel(side1p)
                        };
                        let side2_block = if Chunk::is_outer(side2p) {
                            master.get_voxel(self.get_world_position(side2p))
                        } else {
                            self.get_voxel(side2p)
                        };
                        let corner_block = if Chunk::is_outer(cornerp) {
                            master.get_voxel(self.get_world_position(cornerp))
                        } else {
                            self.get_voxel(cornerp)
                        };
                        proof {
                            assert(side1_block == spec_sample(*self, *master, side1p));
                            assert(side2_block == spec_sample(*self, *master, side2p));
                            assert(corner_block == spec_sample(*self, *master, cornerp));
                        }
                        let side1 = side1_block.is_solid();
                        let side2 = side2_block.is_solid();
                        let corner = corner_block.is_solid();
                        let mut solid_count: i32 = 0;
                        if side1 {
                            solid_count += 1;
                        }
                        if side2 {
                            solid_count += 1;
                        }
                        if corner {
                            solid_count += 1;
                        }
                        let ao_type: i32 = if side1 && side2 {
                            0
                        } else {
                            3 - solid_count
                        };
                        if ao_type < 3 {
                            msk = msk | (1u32 << (4 * f + cnt));
                        }
                        proof {
                            assert(spec_ao_bit(
                                *self,
                                *master,
                                local_position,
                                f as int,
                                cnt as int,
                            ) == (ao_type < 3));
                        }
                        cnt += 1;
                    }
                    f += 1;
                }
                ao_mask_table[index] = msk;
            }
            proof {
                assert(self.spec_occupied().take(vi as int + 1) =~= self.spec_occupied().take(
                    vi as int,
                ).push(index));
            }
            vi += 1;
        }
        proof {
            assert(self.spec_occupied().take(voxels@.len() as int) =~= self.spec_occupied());
        }
        ao_mask_table
    }
}

/// A voxel each of whose six neighbors is solid and not water has every
/// face culled: its face mask is `0b111111`.
pub proof fn lemma_face_mask_all_solid<M: ChunkMaster>(chunk: Chunk, master: M, l: Coord3)
    requires
        chunk.wf(),
        local_in_bounds(l),
        forall|d: int|
            0 <= d < 6 ==> spec_solid(#[trigger] spec_sample(chunk, master, spec_face_neighbor(
                l,
                d,
            ))),
    ensures
        spec_face_mask(chunk, master, l) == 0x3fu8,
{
    assert forall|d: int| 0 <= d < 6 implies spec_face_bit(chunk, master, l, d) by {
        assert(spec_solid(spec_sample(chunk, master, spec_face_neighbor(l, d))));
    }
    assert(spec_face_mask_upto(chunk, master, l, 0) == 0u8);
    assert(spec_face_mask_upto(chunk, master, l, 1) == 0u8 | (1u8 << 0u8));
    assert(spec_face_mask_upto(chunk, master, l, 2) == (0u8 | (1u8 << 0u8)) | (1u8 << 1u8));
    assert(spec_face_mask_upto(chunk, master, l, 3) == ((0u8 | (1u8 << 0u8)) | (1u8 << 1u8)) | (
    1u8 << 2u8));
    assert(spec_face_mask_upto(chunk, master, l, 4) == (((0u8 | (1u8 << 0u8)) | (1u8 << 1u8)) | (
    1u8 << 2u8)) | (1u8 << 3u8));
    assert(spec_face_mask_upto(chunk, master, l, 5) == ((((0u8 | (1u8 << 0u8)) | (1u8 << 1u8)) | (
    1u8 << 2u8)) | (1u8 << 3u8)) | (1u8 << 4u8));
    assert(spec_face_mask_upto(chunk, master, l, 6) == (((((0u8 | (1u8 << 0u8)) | (1u8 << 1u8)) | (
    1u8 << 2u8)) | (1u8 << 3u8)) | (1u8 << 4u8)) | (1u8 << 5u8));
    assert((((((0u8 | (1u8 << 0u8)) | (1u8 << 1u8)) | (1u8 << 2u8)) | (1u8 << 3u8)) | (1u8
        << 4u8)) | (1u8 << 5u8) == 0x3fu8) by (bit_vector);
}

/// A voxel all of whose six neighbors are air has no face culled: its
/// face mask is 0.
pub proof fn lemma_face_mask_isolated<M: ChunkMaster>(chunk: Chunk, master: M, l: Coord3)
    requires
        chunk.wf(),
        local_in_bounds(l),
        forall|d: int|
            0 <= d < 6 ==> #[trigger] spec_sample(chunk, master, spec_face_neighbor(l, d))
                == BlockType::Air,
    ensures
        spec_face_mask(chunk, master, l) == 0u8,
{
    assert forall|d: int| 0 <= d < 6 implies !spec_face_bit(chunk, master, l, d) by {
        assert(spec_sample(chunk, master, spec_face_neighbor(l, d)) == BlockType::Air);
    }
    lemma_face_upto_all_clear(chunk, master, l, 6);
}

/// With every face bit clear, every prefix of the face mask is 0.
proof fn lemma_face_upto_all_clear<M: ChunkMaster>(chunk: Chunk, master: M, l: Coord3, n: int)
    requires
        0 <= n <= 6,
        forall|d: int| 0 <= d < 6 ==> !spec_face_bit(chunk, master, l, d),
    ensures
        spec_face_mask_upto(chunk, master, l, n) == 0u8,
    decreases n,
{
    if n > 0 {
        lemma_face_upto_all_clear(chunk, master, l, n - 1);
        assert(!spec_face_bit(chunk, master, l, n - 1));
    }
}

/// A voxel with no solid block anywhere in its corner-sample set gets no
/// occlusion: its ambient-occlusion mask is 0.
pub proof fn lemma_ao_mask_no_solid<M: ChunkMaster>(chunk: Chunk, master: M, l: Coord3)
    requires
        chunk.wf(),
        local_in_bounds(l),
        forall|f: int, which: int, cnt: int|
            0 <= f < 6 && 0 <= which < 3 && 0 <= cnt < 4 ==> !spec_solid(
                #[trigger] spec_sample(chunk, master, spec_ao_sample_pos(l, f, which, cnt)),
            ),
    ensures
        spec_ao_mask(chunk, master, l) == 0u32,
{
    assert forall|k: int| 0 <= k < 24 implies !#[trigger] spec_ao_bit(
        chunk,
        master,
        l,
        k / 4,
        k % 4,
    ) by {
        let f = k / 4;
        let cnt = k % 4;
        assert(0 <= f < 6 && 0 <= cnt < 4);
        assert(!spec_solid(spec_sample(chunk, master, spec_ao_sample_pos(l, f, 0, cnt))));
        assert(!spec_solid(spec_sample(chunk, master, spec_ao_sample_pos(l, f, 1, cnt))));
        assert(!spec_solid(spec_sample(chunk, master, spec_ao_sample_pos(l, f, 2, cnt))));
    }
    lemma_ao_upto_all_clear(chunk, master, l, 24);
}

/// With every corner bit clear, every prefix of the occlusion mask is 0.
proof fn lemma_ao_upto_all_clear<M: ChunkMaster>(chunk: Chunk, master: M, l: Coord3, n: int)
    requires
        0 <= n <= 24,
        forall|k: int| 0 <= k < 24 ==> !#[trigger] spec_ao_bit(chunk, master, l, k / 4, k % 4),
    ensures
        spec_ao_mask_upto(chunk, master, l, n) == 0u32,
    decreases n,
{
    if n > 0 {
        lemma_ao_upto_all_clear(chunk, master, l, n - 1);
        assert(!spec_ao_bit(chunk, master, l, (n - 1) / 4, (n - 1) % 4));
    }
}

} // verus!
