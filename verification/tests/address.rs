use rose::address::{block_end, canonical, LOWER_HALF_END, UPPER_HALF_START};

#[test]
fn lower_half_is_canonical() {
    assert!(canonical(0));
    assert!(canonical(0x1000));
    assert!(canonical(0x0000_7fff_ffff_ffff));
}

#[test]
fn upper_half_is_canonical() {
    assert!(canonical(0xffff_8000_0000_0000));
    assert!(canonical(0xffff_ffff_ffff_ffff));
}

#[test]
fn the_hole_is_not_canonical() {
    assert!(!canonical(0x0000_8000_0000_0000));
    assert!(!canonical(0x0001_0000_0000_0000));
    assert!(!canonical(0x8000_0000_0000_0000));
    assert!(!canonical(0xffff_7fff_ffff_ffff));
}

#[test]
fn the_halves_meet_the_hole_at_their_bounds() {
    assert_eq!(LOWER_HALF_END, 1u64 << 47);
    assert_eq!(UPPER_HALF_START, !0u64 << 47);
    assert!(canonical(LOWER_HALF_END - 1));
    assert!(!canonical(LOWER_HALF_END));
    assert!(!canonical(UPPER_HALF_START - 1));
    assert!(canonical(UPPER_HALF_START));
}

#[test]
fn block_end_is_base_plus_size() {
    assert_eq!(block_end(0x10_0000, 0x2000), Some(0x10_2000));
    assert_eq!(block_end(0, 0), Some(0));
    assert_eq!(block_end(0xffff_8000_0000_0000, 4096), Some(0xffff_8000_0000_1000));
}

#[test]
fn block_may_end_on_the_last_lower_address() {
    assert_eq!(block_end(0x0000_7fff_ffff_e000, 0x1fff), Some(0x0000_7fff_ffff_ffff));
}

#[test]
fn block_that_runs_into_the_hole_has_no_end() {
    assert_eq!(block_end(0x0000_7fff_ffff_e000, 0x2000), None);
}

#[test]
fn block_that_starts_in_the_hole_has_no_end() {
    assert_eq!(block_end(0x0000_8000_0000_0000, 16), None);
    assert_eq!(block_end(0xffff_7fff_ffff_f000, 0x2000), None);
}

#[test]
fn block_that_wraps_has_no_end() {
    assert_eq!(block_end(0xffff_ffff_ffff_f000, 0x1000), None);
    assert_eq!(block_end(0xffff_ffff_ffff_f000, 0xfff), Some(0xffff_ffff_ffff_ffff));
}
