//! Telling archives and executables apart by their leading bytes.
use vstd::prelude::*;

verus! {

/// The bytes start with the local-file-header signature `50 4B 03 04`.
pub open spec fn has_zip_magic(h: Seq<u8>) -> bool {
    h.len() >= 4 && h[0] == 0x50 && h[1] == 0x4B && h[2] == 0x03 && h[3] == 0x04
}

/// The bytes start with the executable signature `4D 5A`.
pub open spec fn has_exe_magic(h: Seq<u8>) -> bool {
    h.len() >= 2 && h[0] == 0x4D && h[1] == 0x5A
}

/// Whether a file whose leading bytes are `header` is an archive. A file that
/// could not be read is given as no bytes at all, and is no archive.
pub fn is_zip_file(header: &[u8]) -> (r: bool)
    ensures
        r == has_zip_magic(header@),
{
    header.len() >= 4 && header[0] == 0x50 && header[1] == 0x4B && header[2] == 0x03
        && header[3] == 0x04
}

/// Whether a file whose leading bytes are `header` is an executable. A file
/// that could not be read is given as no bytes at all, and is no executable.
pub fn is_exe_file(header: &[u8]) -> (r: bool)
    ensures
        r == has_exe_magic(header@),
{
    header.len() >= 2 && header[0] == 0x4D && header[1] == 0x5A
}

/// A file that starts with the executable signature and not with the archive
/// signature is an executable and no archive; one that starts with the
/// archive signature is an archive.
pub proof fn lemma_sniff_classes(h: Seq<u8>)
    ensures
        h.len() >= 4 && h[0] == 0x50 && h[1] == 0x4B && h[2] == 0x03 && h[3] == 0x04
            ==> has_zip_magic(h),
        h.len() >= 2 && h[0] == 0x4D && h[1] == 0x5A && !(h.len() >= 4 && h[0] == 0x50
            && h[1] == 0x4B && h[2] == 0x03 && h[3] == 0x04) ==> has_exe_magic(h) && !has_zip_magic(h),
{
}

} // verus!
