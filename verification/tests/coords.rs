use voxel_world::coords::Coord3;
use voxel_world::coords::VoxelError;
use voxel_world::coords::distance2_wide;

#[test]
fn new_and_from_tuple_agree() {
    let a = Coord3::new(1, -2, 3);
    let b = Coord3::from_tuple(&(1, -2, 3));
    assert_eq!(a, b);
    assert_eq!(a.x, 1);
    assert_eq!(a.y, -2);
    assert_eq!(a.z, 3);
}

#[test]
fn default_is_origin() {
    assert_eq!(Coord3::default(), Coord3::new(0, 0, 0));
}

#[test]
fn add_sub_scale() {
    let a = Coord3::new(1, 2, 3);
    let b = Coord3::new(-4, 5, -6);
    assert_eq!(a.add(b), Coord3::new(-3, 7, -3));
    assert_eq!(a.sub(b), Coord3::new(5, -3, 9));
    assert_eq!(a.scale(-2), Coord3::new(-2, -4, -6));
}

#[test]
fn permutations() {
    let a = Coord3::new(1, 2, 3);
    assert_eq!(a.xzy(), Coord3::new(1, 3, 2));
    assert_eq!(a.yxz(), Coord3::new(2, 1, 3));
    assert_eq!(a.yzx(), Coord3::new(2, 3, 1));
    assert_eq!(a.zyx(), Coord3::new(3, 2, 1));
    assert_eq!(a.zxy(), Coord3::new(3, 1, 2));
}

#[test]
fn magnitude_and_distance_are_exact() {
    assert_eq!(Coord3::new(1, 2, 3).magnitude2(), 14);
    assert_eq!(Coord3::new(0, 0, 0).magnitude2(), 0);
    assert_eq!(Coord3::new(1, 2, 3).distance2(Coord3::new(1, 2, 3)), 0);
    assert_eq!(Coord3::new(0, 0, 0).distance2(Coord3::new(3, 4, 0)), 25);
    assert_eq!(Coord3::new(-1, -1, -1).distance2(Coord3::new(1, 1, 1)), 12);
}

#[test]
fn distance2_wide_matches_on_extremes() {
    let a = Coord3::new(i32::MIN, 0, 0);
    let b = Coord3::new(i32::MAX, 0, 0);
    let d = (i32::MAX as i128 - i32::MIN as i128) * (i32::MAX as i128 - i32::MIN as i128);
    assert_eq!(distance2_wide(a, b), d);
    assert_eq!(distance2_wide(a, a), 0);
}

#[test]
fn euclidean_division_on_negatives() {
    // chunk coordinate is the floor, local remainder stays non-negative
    let w = Coord3::new(-1, -20, -21);
    let q = w.div_euclid(20);
    let m = w.mod_euclid(20);
    assert_eq!(q, Coord3::new(-1, -1, -2));
    assert_eq!(m, Coord3::new(19, 0, 19));
    // recomposition: w == q * 20 + m on every axis
    assert_eq!(q.scale(20).add(m), w);
}

#[test]
fn euclidean_division_on_positives() {
    let w = Coord3::new(0, 19, 20);
    assert_eq!(w.div_euclid(20), Coord3::new(0, 0, 1));
    assert_eq!(w.mod_euclid(20), Coord3::new(0, 19, 0));
}

#[test]
fn to_usize3_accepts_non_negative() {
    assert_eq!(Coord3::new(1, 2, 3).to_usize3(), Ok((1usize, 2usize, 3usize)));
    assert_eq!(Coord3::new(0, 0, 0).to_usize3(), Ok((0usize, 0usize, 0usize)));
}

#[test]
fn to_usize3_rejects_negative() {
    assert_eq!(
        Coord3::new(-1, 2, 3).to_usize3(),
        Err(VoxelError::NegativeCoordinate)
    );
    assert_eq!(
        Coord3::new(1, 2, -3).to_usize3(),
        Err(VoxelError::NegativeCoordinate)
    );
}

#[test]
fn upper_and_lower_move_along_y() {
    let a = Coord3::new(5, 6, 7);
    assert_eq!(a.upper(), Coord3::new(5, 7, 7));
    assert_eq!(a.lower(), Coord3::new(5, 5, 7));
}

#[test]
fn neighbors_are_the_six_face_offsets() {
    let n = Coord3::neighbors_into_iter();
    assert_eq!(
        n,
        vec![
            Coord3::new(0, 1, 0),
            Coord3::new(0, -1, 0),
            Coord3::new(1, 0, 0),
            Coord3::new(-1, 0, 0),
            Coord3::new(0, 0, 1),
            Coord3::new(0, 0, -1),
        ]
    );
}
