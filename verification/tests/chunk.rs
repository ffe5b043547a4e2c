use voxel_world::block::BlockType;
use voxel_world::chunk::CHUNK_SIZE;
use voxel_world::chunk::CHUNK_VOLUME;
use voxel_world::chunk::Chunk;
use voxel_world::chunk::ChunkCoordsIterator;
use voxel_world::coords::Coord3;
use voxel_world::coords::VoxelError;

#[test]
fn sizes() {
    assert_eq!(CHUNK_SIZE, 20);
    assert_eq!(CHUNK_VOLUME, CHUNK_SIZE * CHUNK_SIZE * CHUNK_SIZE);
}

#[test]
fn index_formula() {
    assert_eq!(Chunk::get_index(Coord3::new(0, 0, 0)), 0);
    assert_eq!(Chunk::get_index(Coord3::new(1, 2, 3)), 443);
    assert_eq!(Chunk::get_index(Coord3::new(19, 19, 19)), CHUNK_VOLUME - 1);
}

#[test]
fn index_roundtrip_over_the_whole_cube() {
    // the bijection over [0, CHUNK_SIZE)^3
    for x in 0..CHUNK_SIZE as i32 {
        for y in 0..CHUNK_SIZE as i32 {
            for z in 0..CHUNK_SIZE as i32 {
                let l = Coord3::new(x, y, z);
                let i = Chunk::get_index(l);
                assert_eq!(Chunk::get_local_position_from_index(i), l);
            }
        }
    }
    for i in 0..CHUNK_VOLUME {
        let l = Chunk::get_local_position_from_index(i);
        assert_eq!(Chunk::get_index(l), i);
    }
}

#[test]
fn border_and_outer() {
    assert!(Chunk::is_border(Coord3::new(0, 5, 5)));
    assert!(Chunk::is_border(Coord3::new(5, 19, 5)));
    assert!(!Chunk::is_border(Coord3::new(5, 5, 5)));
    assert!(Chunk::is_outer(Coord3::new(-1, 5, 5)));
    assert!(Chunk::is_outer(Coord3::new(5, 20, 5)));
    assert!(!Chunk::is_outer(Coord3::new(0, 19, 5)));
}

#[test]
fn default_chunk_is_empty_air() {
    let c = Chunk::default();
    assert!(c.is_empty());
    assert_eq!(c.get_chunk_position(), Coord3::new(0, 0, 0));
    assert_eq!(c.get_voxel(Coord3::new(5, 5, 5)), BlockType::Air);
    assert!(c.get_voxels().is_empty());
}

#[test]
fn set_voxel_air_fails_with_unsupported_clear() {
    let mut c = Chunk::default();
    assert_eq!(
        c.set_voxel(Coord3::new(1, 1, 1), BlockType::Air),
        Err(VoxelError::UnsupportedClear)
    );
    // and even on an already occupied cell
    c.set_voxel(Coord3::new(1, 1, 1), BlockType::Stone).unwrap();
    assert_eq!(
        c.set_voxel(Coord3::new(1, 1, 1), BlockType::Air),
        Err(VoxelError::UnsupportedClear)
    );
    assert_eq!(c.get_voxel(Coord3::new(1, 1, 1)), BlockType::Stone);
}

#[test]
fn set_voxel_twice_does_not_duplicate_occupancy() {
    let mut c = Chunk::default();
    let l = Coord3::new(2, 3, 4);
    c.set_voxel(l, BlockType::Stone).unwrap();
    assert_eq!(c.get_voxels().len(), 1);
    c.set_voxel(l, BlockType::Dirt).unwrap();
    assert_eq!(c.get_voxels().len(), 1);
    assert_eq!(c.get_voxels()[0], Chunk::get_index(l));
    assert_eq!(c.get_voxel(l), BlockType::Dirt);
}

#[test]
fn occupancy_is_append_only_in_order() {
    let mut c = Chunk::default();
    c.set_voxel(Coord3::new(0, 0, 1), BlockType::Stone).unwrap();
    c.set_voxel(Coord3::new(0, 0, 2), BlockType::Grass).unwrap();
    c.set_voxel(Coord3::new(0, 0, 1), BlockType::Sand).unwrap();
    assert_eq!(c.get_voxels(), &vec![1usize, 2usize]);
    assert_eq!(c.get_voxel_from_index(1), BlockType::Sand);
    assert_eq!(c.get_voxel_from_index(2), BlockType::Grass);
}

#[test]
fn world_position_of_negative_chunk() {
    let mut c = Chunk::default();
    c.set_chunk_position(Coord3::new(-1, 0, 2));
    assert_eq!(c.get_chunk_position(), Coord3::new(-1, 0, 2));
    assert_eq!(
        c.get_world_position(Coord3::new(3, 4, 5)),
        Coord3::new(-17, 4, 45)
    );
    // a neighbor position one step outside the chunk
    assert_eq!(
        c.get_world_position(Coord3::new(-1, 0, 0)),
        Coord3::new(-21, 0, 40)
    );
}

#[test]
fn coords_iterator_walks_every_cell_once() {
    let mut it = ChunkCoordsIterator::new();
    assert_eq!(it.next(), Some(Coord3::new(0, 0, 0)));
    assert_eq!(it.next(), Some(Coord3::new(0, 0, 1)));
    let mut count = 2usize;
    let mut last = Coord3::new(0, 0, 1);
    while let Some(l) = it.next() {
        count += 1;
        last = l;
    }
    assert_eq!(count, CHUNK_VOLUME);
    assert_eq!(last, Coord3::new(19, 19, 19));
    assert_eq!(it.next(), None);
}
