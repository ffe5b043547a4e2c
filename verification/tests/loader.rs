use voxel_world::coords::Coord3;
use voxel_world::loader::ChunkLoader;
use voxel_world::loader::MAX_LOAD_DISTANCE;
use voxel_world::loader::MIN_LOAD_DISTANCE;

fn sorted(mut v: Vec<Coord3>) -> Vec<(i32, i32, i32)> {
    let mut t: Vec<(i32, i32, i32)> = v.drain(..).map(|c| (c.x, c.y, c.z)).collect();
    t.sort();
    t
}

fn sphere_coords(center: (i32, i32, i32), r: i32) -> Vec<(i32, i32, i32)> {
    let mut out = Vec::new();
    for x in -r..=r {
        for y in -r..=r {
            for z in -r..=r {
                if x * x + y * y + z * z <= r * r {
                    out.push((center.0 + x, center.1 + y, center.2 + z));
                }
            }
        }
    }
    out.sort();
    out
}

#[test]
fn bounds_are_as_configured() {
    assert_eq!(MIN_LOAD_DISTANCE, 1);
    assert_eq!(MAX_LOAD_DISTANCE, 25);
}

#[test]
fn first_commit_loads_the_whole_sphere() {
    let mut loader = ChunkLoader::default();
    loader.set_load_distance(1);
    assert!(loader.commit_world_positon());
    let loaded = loader.get_coords_to_load();
    let unloaded = loader.get_coords_to_delete();
    assert_eq!(sorted(loaded), sphere_coords((0, 0, 0), 1));
    assert!(unloaded.is_empty());
}

#[test]
fn first_commit_radius_two() {
    let mut loader = ChunkLoader::default();
    loader.set_load_distance(2);
    assert!(loader.commit_world_positon());
    let loaded = loader.get_coords_to_load();
    // radius 2: 33 coordinates (center, 6 at distance 1, 12 at sqrt(2), 8 at sqrt(3), 6 at 2)
    assert_eq!(loaded.len(), 33);
    assert_eq!(sorted(loaded), sphere_coords((0, 0, 0), 2));
}

#[test]
fn recommitting_the_same_center_is_a_no_op() {
    let mut loader = ChunkLoader::default();
    loader.set_load_distance(1);
    assert!(loader.commit_world_positon());
    loader.get_coords_to_load();
    // same center, non-empty loaded set: nothing is emitted
    assert!(!loader.commit_world_positon());
    assert!(loader.get_coords_to_load().is_empty());
    assert!(loader.get_coords_to_delete().is_empty());
}

#[test]
fn moving_the_center_emits_each_difference_once() {
    let mut loader = ChunkLoader::default();
    loader.set_load_distance(1);
    assert!(loader.commit_world_positon());
    loader.get_coords_to_load();
    loader.set_world_positon(Coord3::new(1, 0, 0));
    assert!(loader.commit_world_positon());
    let loaded = sorted(loader.get_coords_to_load());
    let unloaded = sorted(loader.get_coords_to_delete());

    let old: Vec<(i32, i32, i32)> = sphere_coords((0, 0, 0), 1);
    let new: Vec<(i32, i32, i32)> = sphere_coords((1, 0, 0), 1);
    let mut expect_load: Vec<(i32, i32, i32)> =
        new.iter().copied().filter(|c| !old.contains(c)).collect();
    expect_load.sort();
    let mut expect_unload: Vec<(i32, i32, i32)> =
        old.iter().copied().filter(|c| !new.contains(c)).collect();
    expect_unload.sort();

    assert_eq!(loaded, expect_load);
    assert_eq!(unloaded, expect_unload);
    // the intersection appears on neither queue
    for c in new.iter().filter(|c| old.contains(c)) {
        assert!(!loaded.contains(c));
        assert!(!unloaded.contains(c));
    }
}

#[test]
fn should_be_loaded_uses_the_squared_radius_inclusively() {
    let mut loader = ChunkLoader::default();
    loader.set_load_distance(2);
    assert!(loader.commit_world_positon());
    assert!(loader.should_be_loaded(Coord3::new(2, 0, 0)));
    assert!(loader.should_be_loaded(Coord3::new(1, 1, 1)));
    assert!(!loader.should_be_loaded(Coord3::new(2, 1, 0)));
    assert!(!loader.should_be_loaded(Coord3::new(3, 0, 0)));
}

#[test]
fn load_distance_is_clamped() {
    let mut loader = ChunkLoader::default();
    loader.set_load_distance(0);
    assert!(loader.commit_world_positon());
    assert!(loader.should_be_loaded(Coord3::new(1, 0, 0)));
    assert!(!loader.should_be_loaded(Coord3::new(2, 0, 0)));

    let mut big = ChunkLoader::default();
    big.set_load_distance(1000);
    // no commit needed: the predicate reads the committed center (origin)
    assert!(big.should_be_loaded(Coord3::new(25, 0, 0)));
    assert!(!big.should_be_loaded(Coord3::new(26, 0, 0)));
}

#[test]
fn commit_on_a_far_away_center() {
    let mut loader = ChunkLoader::default();
    loader.set_load_distance(1);
    loader.set_world_positon(Coord3::new(-1000000, 2000000, -3000000));
    assert!(loader.commit_world_positon());
    let loaded = loader.get_coords_to_load();
    assert_eq!(
        sorted(loaded),
        sphere_coords((-1000000, 2000000, -3000000), 1)
    );
}
