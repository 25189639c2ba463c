//! Directory sizes.

use openshell_firecracker::size::{checked_dir_size_mb, dir_size_mb, DirEntry, MIB};

fn file(len: u64) -> DirEntry {
    DirEntry { len, children: None }
}

fn dir(len: u64, children: Vec<DirEntry>) -> DirEntry {
    DirEntry { len, children: Some(children) }
}

#[test]
fn an_empty_directory_has_the_least_size() {
    assert_eq!(dir_size_mb(&vec![]), 64);
    assert_eq!(dir_size_mb(&vec![file(1), file(63 * MIB)]), 64);
}

#[test]
fn files_are_summed_and_rounded_down() {
    assert_eq!(dir_size_mb(&vec![file(65 * MIB - 1)]), 64);
    assert_eq!(dir_size_mb(&vec![file(65 * MIB)]), 65);
    assert_eq!(dir_size_mb(&vec![file(50 * MIB), file(50 * MIB + MIB - 1)]), 100);
    assert_eq!(dir_size_mb(&vec![file(50 * MIB + 1), file(50 * MIB + MIB - 1)]), 101);
}

#[test]
fn nested_directories_count_in_whole_mib_and_at_least_64() {
    assert_eq!(dir_size_mb(&vec![dir(4096, vec![])]), 64);
    assert_eq!(dir_size_mb(&vec![dir(0, vec![]), dir(0, vec![])]), 128);
    assert_eq!(dir_size_mb(&vec![dir(0, vec![file(100 * MIB + 5)]), file(MIB - 1)]), 100);
    assert_eq!(dir_size_mb(&vec![dir(MIB, vec![dir(0, vec![file(100 * MIB)])])]), 101);
}

#[test]
fn a_sum_beyond_64_bits_is_told() {
    assert!(checked_dir_size_mb(&vec![file(u64::MAX), file(1)]).is_none());
    assert!(checked_dir_size_mb(&vec![file(1), dir(0, vec![file(u64::MAX), file(u64::MAX)])]).is_none());
    assert_eq!(checked_dir_size_mb(&vec![file(u64::MAX)]), Some(u64::MAX / MIB));
}
