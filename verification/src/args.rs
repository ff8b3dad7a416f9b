use vstd::prelude::*;

verus! {

/// The scan's command-line options, as plain values: how many entries to
/// report, how many files to size per batch, the directory to scan (the
/// current one when absent), an optional file listing directories to
/// exclude, and whether diagnostics are printed.
#[derive(Debug)]
pub struct Args {
    pub num_entries: usize,
    pub batch_size: usize,
    pub target_dir: Option<String>,
    pub exclusion_file: Option<String>,
    pub verbose: bool,
}

impl Default for Args {
    /// The defaults: ten entries reported, a thousand files per batch, the
    /// current directory scanned, nothing excluded, diagnostics off.
    fn default() -> (a: Args)
        ensures
            a.num_entries == 10,
            a.batch_size == 1000,
            a.target_dir is None,
            a.exclusion_file is None,
            !a.verbose,
    {
        Args {
            num_entries: 10,
            batch_size: 1000,
            target_dir: None,
            exclusion_file: None,
            verbose: false,
        }
    }
}

} // verus!
