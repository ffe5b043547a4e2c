use dashmap::DashMap;
use voxel_world::block::BlockType;
use voxel_world::chunk::Chunk;
use voxel_world::coords::Coord3;

#[test]
fn isolated_voxel_has_empty_masks() {
    // all neighbors air, registry empty: no face culled, no occlusion
    let map: DashMap<Coord3, Chunk> = DashMap::new();
    let mut c = Chunk::default();
    let l = Coord3::new(10, 10, 10);
    c.set_voxel(l, BlockType::Stone).unwrap();
    let faces = c.calculate_faces_table(&map);
    let i = Chunk::get_index(l);
    assert_eq!(faces.len(), 8000);
    assert_eq!(faces[i], 0);
    let ao = c.calculate_ambient_occlusion(&map, &faces);
    assert_eq!(ao.len(), 8000);
    assert_eq!(ao[i], 0);
}

#[test]
fn fully_surrounded_voxel_is_fully_culled() {
    let map: DashMap<Coord3, Chunk> = DashMap::new();
    let mut c = Chunk::default();
    let l = Coord3::new(10, 10, 10);
    c.set_voxel(l, BlockType::Stone).unwrap();
    for (dx, dy, dz) in [
        (0, 1, 0),
        (0, -1, 0),
        (1, 0, 0),
        (-1, 0, 0),
        (0, 0, 1),
        (0, 0, -1),
    ] {
        c.set_voxel(l.add(Coord3::new(dx, dy, dz)), BlockType::Dirt)
            .unwrap();
    }
    let faces = c.calculate_faces_table(&map);
    assert_eq!(faces[Chunk::get_index(l)], 0b111111);
}

#[test]
fn water_next_to_water_is_culled_but_stone_is_not() {
    let map: DashMap<Coord3, Chunk> = DashMap::new();
    let mut c = Chunk::default();
    let w1 = Coord3::new(5, 5, 5);
    let w2 = Coord3::new(5, 5, 6); // +z neighbor of w1: face index 4
    let s = Coord3::new(5, 5, 4); // -z neighbor of w1 is water: face index 5 of s... from s, w1 is its +z neighbor (face 4)
    c.set_voxel(w1, BlockType::Water).unwrap();
    c.set_voxel(w2, BlockType::Water).unwrap();
    c.set_voxel(s, BlockType::Stone).unwrap();
    let faces = c.calculate_faces_table(&map);
    // water sees water: culled; water sees stone: culled too (stone is no water)
    assert_eq!(faces[Chunk::get_index(w1)], (1 << 4) | (1 << 5));
    // stone sees water: face stays visible
    assert_eq!(faces[Chunk::get_index(s)], 0);
    // water sees air above and around
    assert_eq!(faces[Chunk::get_index(w2)], 1 << 5);
}

#[test]
fn faces_are_culled_across_chunk_borders() {
    let map: DashMap<Coord3, Chunk> = DashMap::new();
    let mut neighbor = Chunk::default();
    neighbor.set_chunk_position(Coord3::new(-1, 0, 0));
    neighbor
        .set_voxel(Coord3::new(19, 10, 10), BlockType::Stone)
        .unwrap();
    map.insert(Coord3::new(-1, 0, 0), neighbor);

    let mut c = Chunk::default();
    let l = Coord3::new(0, 10, 10);
    c.set_voxel(l, BlockType::Stone).unwrap();
    let faces = c.calculate_faces_table(&map);
    // the -x neighbor lives in the chunk at (-1, 0, 0): face index 3
    assert_eq!(faces[Chunk::get_index(l)], 1 << 3);

    // without the neighbor chunk the same voxel is fully visible
    let empty: DashMap<Coord3, Chunk> = DashMap::new();
    let faces2 = c.calculate_faces_table(&empty);
    assert_eq!(faces2[Chunk::get_index(l)], 0);
}

#[test]
fn ambient_occlusion_marks_the_touched_corners() {
    let map: DashMap<Coord3, Chunk> = DashMap::new();
    let mut c = Chunk::default();
    let l = Coord3::new(10, 10, 10);
    c.set_voxel(l, BlockType::Stone).unwrap();
    // a support below culls one face, so occlusion is computed at all
    c.set_voxel(Coord3::new(10, 9, 10), BlockType::Stone).unwrap();
    // one solid block diagonally up at -x occludes:
    //   +y face (0): corners 0 and 3 (side2 = (-1, 1, 0))
    //   -x face (3): corners 0 and 3 (side2 maps to (-1, 1, 0) as well)
    c.set_voxel(Coord3::new(9, 11, 10), BlockType::Stone).unwrap();
    let faces = c.calculate_faces_table(&map);
    assert_eq!(faces[Chunk::get_index(l)], 1 << 1);
    let ao = c.calculate_ambient_occlusion(&map, &faces);
    let expected: u32 = (1 << 0) | (1 << 3) | (1 << 12) | (1 << 15);
    assert_eq!(ao[Chunk::get_index(l)], expected);
}

#[test]
fn water_does_not_occlude() {
    let map: DashMap<Coord3, Chunk> = DashMap::new();
    let mut c = Chunk::default();
    let l = Coord3::new(10, 10, 10);
    c.set_voxel(l, BlockType::Stone).unwrap();
    c.set_voxel(Coord3::new(10, 9, 10), BlockType::Stone).unwrap();
    c.set_voxel(Coord3::new(9, 11, 10), BlockType::Water).unwrap();
    let faces = c.calculate_faces_table(&map);
    let ao = c.calculate_ambient_occlusion(&map, &faces);
    assert_eq!(ao[Chunk::get_index(l)], 0);
}

#[test]
fn zero_face_mask_skips_ambient_occlusion() {
    // a fully visible voxel gets no occlusion mask even with a diagonal
    // solid in its corner-sample set
    let map: DashMap<Coord3, Chunk> = DashMap::new();
    let mut c = Chunk::default();
    let l = Coord3::new(10, 10, 10);
    c.set_voxel(l, BlockType::Stone).unwrap();
    c.set_voxel(Coord3::new(9, 11, 10), BlockType::Stone).unwrap();
    let faces = c.calculate_faces_table(&map);
    assert_eq!(faces[Chunk::get_index(l)], 0);
    let ao = c.calculate_ambient_occlusion(&map, &faces);
    assert_eq!(ao[Chunk::get_index(l)], 0);
}
