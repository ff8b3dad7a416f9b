pub mod args;
pub mod config;
pub mod errors;
pub mod process;
pub mod scan;
pub mod top_entries;
pub mod traits;

use crate::errors::SearchError;
use vstd::prelude::*;

verus! {

/// A file discovered by the scan: its path, and whether its metadata was
/// read successfully while listing (`Ok`), or the error met there — still
/// forwarded across the channel so the failure is counted rather than
/// silently dropped.
#[derive(Debug)]
pub struct FileEntry {
    pub path: String,
    pub result: Result<(), SearchError>,
}

/// Cap on concurrently open directory handles, derived from the soft
/// file-descriptor limit reported by the operating system: half of it,
/// leaving room for everything else the process needs.
pub open spec fn spec_fd_limit_from_rlimit(soft_limit: nat) -> nat {
    soft_limit / 2
}

/// Cap on concurrently open directory handles where no descriptor limit is
/// reported: 64 handles per GiB of installed memory, at least 512 and at
/// most 8192.
pub open spec fn spec_fd_limit_from_memory_kb(memory_kb: nat) -> nat {
    let per_memory = (memory_kb / 0x100000) * 64;
    if per_memory < 512 {
        512
    } else if per_memory > 8192 {
        8192
    } else {
        per_memory
    }
}

/// Turns the operating system's soft file-descriptor limit into the
/// scanner's open-handle budget.
pub fn fd_limit_from_rlimit(soft_limit: usize) -> (r: usize)
    ensures
        r == spec_fd_limit_from_rlimit(soft_limit as nat),
{
    soft_limit / 2
}

/// Turns the installed-memory figure (in KiB) into the scanner's
/// open-handle budget.
pub fn fd_limit_from_memory_kb(memory_kb: u64) -> (r: usize)
    ensures
        r == spec_fd_limit_from_memory_kb(memory_kb as nat),
{
    let gib: u64 = memory_kb / 0x100000;
    let per_memory: u64 = gib * 64;
    if per_memory < 512 {
        512
    } else if per_memory > 8192 {
        8192
    } else {
        per_memory as usize
    }
}

} // verus!
