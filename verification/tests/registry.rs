use dashmap::DashMap;
use voxel_world::block::BlockType;
use voxel_world::chunk::Chunk;
use voxel_world::coords::Coord3;
use voxel_world::registry::ChunkMaster;

#[test]
fn absent_chunk_resolves_to_air() {
    let map: DashMap<Coord3, Chunk> = DashMap::new();
    assert_eq!(map.get_voxel(Coord3::new(0, 0, 0)), BlockType::Air);
    assert_eq!(map.get_voxel(Coord3::new(-1000, 7, 123456)), BlockType::Air);
}

#[test]
fn voxel_found_through_the_registry() {
    let map: DashMap<Coord3, Chunk> = DashMap::new();
    let mut c = Chunk::default();
    c.set_voxel(Coord3::new(1, 2, 3), BlockType::Stone).unwrap();
    map.insert(Coord3::new(0, 0, 0), c);
    assert_eq!(map.get_voxel(Coord3::new(1, 2, 3)), BlockType::Stone);
    assert_eq!(map.get_voxel(Coord3::new(1, 2, 4)), BlockType::Air);
}

#[test]
fn negative_world_positions_map_to_negative_chunks() {
    let map: DashMap<Coord3, Chunk> = DashMap::new();
    let mut c = Chunk::default();
    c.set_chunk_position(Coord3::new(-1, 0, 0));
    c.set_voxel(Coord3::new(19, 0, 0), BlockType::Grass).unwrap();
    map.insert(Coord3::new(-1, 0, 0), c);
    // world x = -1 lies in chunk -1 at local x = 19
    assert_eq!(map.get_voxel(Coord3::new(-1, 0, 0)), BlockType::Grass);
    assert_eq!(map.get_voxel(Coord3::new(-2, 0, 0)), BlockType::Air);
    assert_eq!(map.get_voxel(Coord3::new(0, 0, 0)), BlockType::Air);
}

#[test]
fn chunk_key_decides_not_stored_position() {
    // the registry looks chunks up by key; a chunk under another key is
    // read at that key's coordinates
    let map: DashMap<Coord3, Chunk> = DashMap::new();
    let mut c = Chunk::default();
    c.set_chunk_position(Coord3::new(5, 5, 5));
    c.set_voxel(Coord3::new(0, 0, 0), BlockType::Sand).unwrap();
    map.insert(Coord3::new(1, 0, 0), c);
    assert_eq!(map.get_voxel(Coord3::new(20, 0, 0)), BlockType::Sand);
}
