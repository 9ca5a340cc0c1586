use voxt::chunk_version::ChunkVersion;
use voxt::constants::AIR_ID;
use voxt::version::Version;
use voxt::BlockId;

#[test]
fn new_preserves_id() {
    let id = BlockId::new(42);
    assert_eq!(id.id(), 42);
}

#[test]
fn zero_is_air() {
    assert!(BlockId::new(0).is_air());
    assert!(!BlockId::new(1).is_air())
}

#[test]
fn maximum_id_is_valid() {
    let id = BlockId::new(u16::MAX);
    assert_eq!(id.id(), u16::MAX);
    assert!(!id.is_air());
}

#[test]
fn air_is_the_reserved_id() {
    assert_eq!(BlockId::air(), BlockId::new(AIR_ID));
    assert!(BlockId::air().is_air());
    assert_eq!(BlockId::default(), BlockId::air());
}

#[test]
fn is_equal_compares_ids() {
    assert!(BlockId::new(7).is_equal(&BlockId::new(7)));
    assert!(!BlockId::new(7).is_equal(&BlockId::new(8)));
}

#[test]
fn increment_mutates() {
    let mut version = Version::new(10, 10, 9);

    version.inc_patch();

    assert_eq!(version, Version::new(10, 10, 10));
}

#[test]
fn versions_are_ordered() {
    assert!(Version::new(2, 1, 1) == Version::new(2, 1, 1));
    assert!(Version::new(3, 9, 9) != Version::new(2, 10, 10));
    assert!(Version::new(10, 1, 0) > Version::new(8, 11, 11));
    assert!(Version::new(10, 20, 10) > Version::new(8, 40, 50));
}

#[test]
fn repeated_increment_advances_one_at_a_time_and_resets() {
    let mut version = Version::default();

    version.inc_patch();
    assert_eq!(version, Version::new(0, 0, 1));

    version.inc_patch();
    assert_eq!(version, Version::new(0, 0, 2));

    version.inc_minor();
    assert_eq!(version, Version::new(0, 1, 0));

    version.inc_major();
    assert_eq!(version, Version::new(1, 0, 0));
}

#[test]
fn patch_change_does_not_invalidate_patch_independant() {
    let independant = Version::new(1, 4, 2);
    let current0 = Version::new(1, 4, 9);

    assert!(independant.eq_minor(&current0));

    let current1 = Version::new(1, 5, 0);

    assert!(!independant.eq_minor(&current1));
}

#[test]
fn version_levels_nest() {
    let a = Version::new(3, 4, 5);
    assert!(a.eq_patch(&Version::new(3, 4, 5)));
    assert!(a.eq_minor(&Version::new(3, 4, 5)));
    assert!(a.eq_major(&Version::new(3, 4, 5)));
    assert!(!a.eq_patch(&Version::new(3, 4, 6)));
    assert!(a.eq_minor(&Version::new(3, 4, 6)));
    assert!(!a.eq_minor(&Version::new(3, 5, 5)));
    assert!(a.eq_major(&Version::new(3, 5, 5)));
    assert!(!a.eq_major(&Version::new(4, 4, 5)));
}

#[test]
fn bumps_reset_lower_levels() {
    let mut v = Version::new(2, 7, 9);
    v.inc_minor();
    assert_eq!(v, Version::new(2, 8, 0));
    v.inc_patch();
    v.inc_major();
    assert_eq!(v, Version::new(3, 0, 0));
}

#[test]
fn chunk_version_counts_changes() {
    let mut v = ChunkVersion::new(0);
    assert_eq!(v.as_u64(), 0);
    assert_eq!(v.next().as_u64(), 1);
    assert_eq!(v.as_u64(), 0);
    v.increment();
    v.increment();
    assert_eq!(v.as_u64(), 2);
    assert_eq!(ChunkVersion::default().as_u64(), 0);
}
