use gm_master::sniff::{is_exe_file, is_zip_file};

#[test]
fn archive_magic_is_an_archive() {
    assert!(is_zip_file(&[0x50, 0x4B, 0x03, 0x04]));
    assert!(is_zip_file(&[0x50, 0x4B, 0x03, 0x04, 0x14, 0x00]));
    assert!(!is_exe_file(&[0x50, 0x4B, 0x03, 0x04]));
}

#[test]
fn executable_magic_is_an_executable_and_no_archive() {
    assert!(is_exe_file(&[0x4D, 0x5A, 0x90, 0x00]));
    assert!(!is_zip_file(&[0x4D, 0x5A, 0x90, 0x00]));
    assert!(is_exe_file(&[0x4D, 0x5A]));
}

#[test]
fn short_or_unreadable_files_are_neither() {
    assert!(!is_zip_file(&[]));
    assert!(!is_exe_file(&[]));
    assert!(!is_zip_file(&[0x50, 0x4B, 0x03]));
    assert!(!is_exe_file(&[0x4D]));
    assert!(!is_zip_file(&[0x50, 0x4B, 0x05, 0x06]));
}
