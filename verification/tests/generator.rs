use voxel_world::block::BlockType;
use voxel_world::chunk::CHUNK_VOLUME;
use voxel_world::chunk::Chunk;
use voxel_world::coords::Coord3;
use voxel_world::generator::RANGE;
use voxel_world::generator::STONE_LAYER;
use voxel_world::generator::WATER_LEVEL;
use voxel_world::generator::generate_chunk;
use voxel_world::generator::get_voxel_type;
use voxel_world::hyper::OctaHyperChunk;

#[test]
fn generator_constants() {
    assert_eq!(STONE_LAYER, 5);
    assert_eq!(WATER_LEVEL, 4);
    assert_eq!(RANGE, 300);
}

#[test]
fn block_selection_table() {
    // surface above the waterline: grass
    assert_eq!(get_voxel_type(Coord3::new(0, 10, 0), 10), BlockType::Grass);
    // surface at the waterline: sand
    assert_eq!(get_voxel_type(Coord3::new(0, 4, 0), 4), BlockType::Sand);
    // ground one below a submerged surface: sand
    assert_eq!(get_voxel_type(Coord3::new(0, 1, 0), 2), BlockType::Sand);
    // deep below the surface: stone
    assert_eq!(get_voxel_type(Coord3::new(0, 5, 0), 10), BlockType::Stone);
    // just below the surface: dirt
    assert_eq!(get_voxel_type(Coord3::new(0, 7, 0), 10), BlockType::Dirt);
    // open water above a deep floor
    assert_eq!(get_voxel_type(Coord3::new(0, 3, 0), 0), BlockType::Water);
    // open sky
    assert_eq!(get_voxel_type(Coord3::new(0, 10, 0), 5), BlockType::Air);
}

#[test]
fn out_of_range_is_air() {
    assert_eq!(get_voxel_type(Coord3::new(301, 0, 0), 0), BlockType::Air);
    // the boundary itself is still inside
    assert_eq!(get_voxel_type(Coord3::new(300, 0, 0), 0), BlockType::Sand);
}

#[test]
fn generate_chunk_sets_exactly_the_non_air_cells() {
    let mut types = vec![BlockType::Air; CHUNK_VOLUME];
    types[0] = BlockType::Stone;
    types[443] = BlockType::Grass;
    types[CHUNK_VOLUME - 1] = BlockType::Water;
    let mut c = Chunk::default();
    generate_chunk(&mut c, &types);
    assert_eq!(c.get_voxels().len(), 3);
    assert_eq!(c.get_voxel_from_index(0), BlockType::Stone);
    assert_eq!(c.get_voxel(Coord3::new(1, 2, 3)), BlockType::Grass);
    assert_eq!(c.get_voxel_from_index(CHUNK_VOLUME - 1), BlockType::Water);
    assert_eq!(c.get_voxel_from_index(1), BlockType::Air);
}

#[test]
fn generate_chunk_leaves_prior_content_where_air_comes() {
    let mut c = Chunk::default();
    c.set_voxel(Coord3::new(0, 0, 1), BlockType::Dirt).unwrap();
    let types = vec![BlockType::Air; CHUNK_VOLUME];
    generate_chunk(&mut c, &types);
    assert_eq!(c.get_voxel(Coord3::new(0, 0, 1)), BlockType::Dirt);
    assert_eq!(c.get_voxels().len(), 1);
}

#[test]
fn octree_starts_empty() {
    let world = OctaHyperChunk::new();
    assert!(matches!(world, OctaHyperChunk::Empty));
}
