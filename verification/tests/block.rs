use voxel_world::block::BlockType;

#[test]
fn ordinals_are_stable() {
    assert_eq!(BlockType::Air.ordinal(), 0);
    assert_eq!(BlockType::Stone.ordinal(), 1);
    assert_eq!(BlockType::Dirt.ordinal(), 2);
    assert_eq!(BlockType::Grass.ordinal(), 3);
    assert_eq!(BlockType::Water.ordinal(), 4);
    assert_eq!(BlockType::Sand.ordinal(), 5);
}

#[test]
fn from_ordinal_roundtrip_and_rejection() {
    for v in 0..=5u16 {
        let b = BlockType::from_ordinal(v).unwrap();
        assert_eq!(b.ordinal(), v);
    }
    assert_eq!(BlockType::from_ordinal(6), None);
    assert_eq!(BlockType::from_ordinal(u16::MAX), None);
}

#[test]
fn solidity_excludes_air_and_water() {
    assert!(!BlockType::Air.is_solid());
    assert!(!BlockType::Water.is_solid());
    assert!(BlockType::Stone.is_solid());
    assert!(BlockType::Dirt.is_solid());
    assert!(BlockType::Grass.is_solid());
    assert!(BlockType::Sand.is_solid());
}
