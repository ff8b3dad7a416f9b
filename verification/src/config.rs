use vstd::prelude::*;

verus! {

/// Everything a scan needs to run: the worker count, how many of the largest
/// files to report, the batch size handed to the sizing stage, the root
/// directory, the canonical directories to skip, the cap on concurrently
/// open directory handles, and whether diagnostics are printed.
#[derive(Debug, Clone)]
pub struct Config {
    pub num_threads: usize,
    pub num_entries: usize,
    pub batch_size: usize,
    pub root_path: String,
    pub skip_dirs: Vec<String>,
    pub max_open_files: usize,
    pub verbose: bool,
}

} // verus!
