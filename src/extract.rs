//! What extracting one archive entry does.
use vstd::prelude::*;

verus! {

/// What to do with one entry of an archive.
#[derive(Clone, Debug, PartialEq, Eq)]
pub enum EntryAction {
    /// The entry's path does not stay inside the destination: leave it out.
    Skip,
    /// Create the directory `path`, then apply `mode` if the archive gives one.
    CreateDir { path: String, mode: Option<u32> },
    /// Create the parents of `path`, copy the entry's bytes into it, then
    /// apply `mode` if the archive gives one.
    WriteFile { path: String, mode: Option<u32> },
}

/// Whether the entry name `name` denotes a directory: it ends with `/`.
pub open spec fn is_dir_entry(name: Seq<char>) -> bool {
    name.len() > 0 && name.last() == '/'
}

/// What to do with the entry stored under `name`, whose path resolved inside
/// the destination is `enclosed` (none when it would leave the destination),
/// and whose stored permission bits are `unix_mode`.
pub fn plan_entry(name: &str, enclosed: Option<String>, unix_mode: Option<u32>) -> (r: EntryAction)
    ensures
        enclosed is None ==> r is Skip,
        enclosed is Some && is_dir_entry(name@) ==> r == (EntryAction::CreateDir {
            path: enclosed->0,
            mode: unix_mode,
        }),
        enclosed is Some && !is_dir_entry(name@) ==> r == (EntryAction::WriteFile {
            path: enclosed->0,
            mode: unix_mode,
        }),
{
    match enclosed {
        None => EntryAction::Skip,
        Some(path) => {
            let n = name.unicode_len();
            if n > 0 && name.get_char(n - 1) == '/' {
                EntryAction::CreateDir { path, mode: unix_mode }
            } else {
                EntryAction::WriteFile { path, mode: unix_mode }
            }
        },
    }
}

} // verus!
