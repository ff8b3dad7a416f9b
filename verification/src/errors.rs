use vstd::prelude::*;
use vstd::string::StringExecFns;

verus! {

/// A failure met while scanning or sizing files. Each variant carries the
/// diagnostic text describing what went wrong; none of them is fatal to the
/// scan as a whole except a `PathError` on the root directory.
#[derive(Debug)]
pub enum SearchError {
    /// An I/O failure: a directory could not be read, or a file's metadata
    /// or on-disk size could not be obtained.
    IoError(String),
    /// A batch could not be sent to the processing stage because the
    /// receiver is gone; fatal to the originating worker only.
    SendError(String),
    /// A worker thread panicked or could not be joined.
    ThreadError(String),
    /// A path could not be resolved; fatal only for the root directory.
    PathError(String),
}

impl SearchError {
    /// The diagnostic text the error carries.
    pub open spec fn spec_detail(&self) -> Seq<char> {
        match self {
            SearchError::IoError(e) => e@,
            SearchError::SendError(e) => e@,
            SearchError::ThreadError(e) => e@,
            SearchError::PathError(e) => e@,
        }
    }

    /// The full human-readable message: the error's kind, then its detail.
    pub open spec fn spec_message(&self) -> Seq<char> {
        match self {
            SearchError::IoError(e) => "IO error: "@ + e@,
            SearchError::SendError(e) => "Send error: "@ + e@,
            SearchError::ThreadError(e) => "Thread error: "@ + e@,
            SearchError::PathError(e) => "Path error: "@ + e@,
        }
    }

    /// Renders the error as its kind followed by its detail.
    pub fn message(&self) -> (s: String)
        ensures
            s@ == self.spec_message(),
    {
        match self {
            SearchError::IoError(e) => {
                let mut s = String::from_str("IO error: ");
                s.append(e.as_str());
                s
            },
            SearchError::SendError(e) => {
                let mut s = String::from_str("Send error: ");
                s.append(e.as_str());
                s
            },
            SearchError::ThreadError(e) => {
                let mut s = String::from_str("Thread error: ");
                s.append(e.as_str());
                s
            },
            SearchError::PathError(e) => {
                let mut s = String::from_str("Path error: ");
                s.append(e.as_str());
                s
            },
        }
    }
}

/// The shared diagnostic log. Appending is gated by the verbose flag: quiet
/// runs only tally failures, so memory stays bounded on noisy trees.
pub struct ErrorLog {
    pub verbose: bool,
    pub messages: Vec<String>,
}

impl ErrorLog {
    /// An empty log with the given verbosity.
    pub fn new(verbose: bool) -> (log: ErrorLog)
        ensures
            log.verbose == verbose,
            log.messages@ == Seq::<String>::empty(),
    {
        ErrorLog { verbose, messages: Vec::new() }
    }

    /// Records one diagnostic when verbose; drops it otherwise.
    pub fn record(&mut self, msg: String)
        ensures
            final(self).verbose == old(self).verbose,
            old(self).verbose ==> final(self).messages@ == old(self).messages@.push(msg),
            !old(self).verbose ==> final(self).messages@ == old(self).messages@,
    {
        if self.verbose {
            self.messages.push(msg);
        }
    }
}

} // verus!
