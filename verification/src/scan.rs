use crate::errors::{ErrorLog, SearchError};
use crate::FileEntry;
use vstd::prelude::*;

verus! {

/// The shared queue of directories waiting to be listed, oldest first. One
/// worker pops the front while any worker may push newly discovered
/// subdirectories at the back.
pub struct WorkQueue {
    pub items: Vec<String>,
}

impl WorkQueue {
    /// An empty queue.
    pub fn new() -> (q: WorkQueue)
        ensures
            q.items@ == Seq::<String>::empty(),
    {
        WorkQueue { items: Vec::new() }
    }

    /// Appends a newly discovered directory.
    pub fn push_back(&mut self, dir: String)
        ensures
            final(self).items@ == old(self).items@.push(dir),
    {
        self.items.push(dir);
    }

    /// Takes the oldest pending directory, if any.
    pub fn pop_front(&mut self) -> (r: Option<String>)
        ensures
            old(self).items@.len() == 0 ==> r is None && final(self).items@ == old(self).items@,
            old(self).items@.len() > 0 ==> r == Some(old(self).items@[0]) && final(self).items@
                == old(self).items@.drop_first(),
    {
        if self.items.len() == 0 {
            None
        } else {
            let d = self.items.remove(0);
            assert(self.items@ =~= old(self).items@.drop_first());
            Some(d)
        }
    }

    /// Whether nothing is pending.
    pub fn is_empty(&self) -> (r: bool)
        ensures
            r == (self.items@.len() == 0),
    {
        self.items.len() == 0
    }
}

/// Seeds the queue with the scan's root directory. The root is the one path
/// whose canonicalization failure is fatal: it aborts the scan before any
/// worker starts, as a `PathError` carrying the caller's diagnostic.
pub fn seed_root(root: Result<String, String>, queue: &mut WorkQueue) -> (r: Result<(), SearchError>)
    ensures
        match root {
            Ok(canonical) => r is Ok && final(queue).items@ == old(queue).items@.push(canonical),
            Err(msg) => r == Err::<(), SearchError>(SearchError::PathError(msg))
                && final(queue).items@ == old(queue).items@,
        },
{
    match root {
        Ok(canonical) => {
            queue.push_back(canonical);
            Ok(())
        },
        Err(msg) => Err(SearchError::PathError(msg)),
    }
}

/// One canonical path equals another or is an ancestor of it: the match is
/// by whole path components, so `/a/b` covers `/a/b/c` but never `/a/bc`.
/// A prefix already ending in the separator (the filesystem root) covers
/// everything below it.
pub open spec fn spec_is_path_prefix(prefix: Seq<char>, path: Seq<char>) -> bool {
    &&& prefix.len() <= path.len()
    &&& path.subrange(0, prefix.len() as int) == prefix
    &&& (prefix.len() == path.len() || (prefix.len() > 0 && prefix.last() == '/') || path[prefix.len() as int]
        == '/')
}

/// Whether `prefix` covers `path` by whole components.
pub fn is_path_prefix(prefix: &str, path: &str) -> (r: bool)
    ensures
        r == spec_is_path_prefix(prefix@, path@),
{
    let plen = prefix.unicode_len();
    let slen = path.unicode_len();
    if plen > slen {
        return false;
    }
    let mut i: usize = 0;
    while i < plen
        invariant
            i <= plen,
            plen == prefix@.len(),
            slen == path@.len(),
            plen <= slen,
            forall|j: int| 0 <= j < i ==> prefix@[j] == path@[j],
        decreases plen - i,
    {
        if prefix.get_char(i) != path.get_char(i) {
            proof {
                assert(path@.subrange(0, plen as int)[i as int] != prefix@[i as int]);
            }
            return false;
        }
        i += 1;
    }
    proof {
        assert(path@.subrange(0, plen as int) =~= prefix@);
    }
    if plen == slen {
        return true;
    }
    if plen > 0 && prefix.get_char(plen - 1) == '/' {
        return true;
    }
    path.get_char(plen) == '/'
}

/// Whether a canonical directory path is excluded: equal to a skip entry or
/// nested beneath one by whole components.
pub open spec fn spec_should_skip(canonical: Seq<char>, skip_dirs: Seq<String>) -> bool {
    exists|k: int| 0 <= k < skip_dirs.len() && spec_is_path_prefix(skip_dirs[k]@, canonical)
}

/// Whether a canonical directory path falls under any skip entry.
pub fn should_skip(canonical: &str, skip_dirs: &Vec<String>) -> (r: bool)
    ensures
        r == spec_should_skip(canonical@, skip_dirs@),
{
    let mut k: usize = 0;
    while k < skip_dirs.len()
        invariant
            k <= skip_dirs@.len(),
            forall|j: int| 0 <= j < k ==> !spec_is_path_prefix(skip_dirs@[j]@, canonical@),
        decreases skip_dirs@.len() - k,
    {
        if is_path_prefix(skip_dirs[k].as_str(), canonical) {
            return true;
        }
        k += 1;
    }
    false
}

/// What a worker does right after consulting the queue.
#[derive(Debug, PartialEq, Eq)]
pub enum FetchStep {
    /// A directory was handed out: canonicalize it, check the skip set, and
    /// list it.
    Scan(String),
    /// The queue is empty but the coordinator still reports the scan as
    /// active: sleep briefly, then fetch again.
    Sleep,
    /// The queue is empty and the scan is no longer reported active: confirm
    /// emptiness once more under the queue's lock before exiting.
    Recheck,
}

/// Decides a worker's next move from what the queue handed it and the
/// scanning-active flag. The flag going quiet never ends a worker by itself:
/// it only permits the final confirmation step.
pub fn fetch_step(popped: Option<String>, scanning_active: bool) -> (d: FetchStep)
    ensures
        d == match popped {
            Some(dir) => FetchStep::Scan(dir),
            None => if scanning_active {
                FetchStep::Sleep
            } else {
                FetchStep::Recheck
            },
        },
{
    match popped {
        Some(dir) => FetchStep::Scan(dir),
        None => if scanning_active {
            FetchStep::Sleep
        } else {
            FetchStep::Recheck
        },
    }
}

/// The outcome of the confirmation step before a worker exits.
#[derive(Debug, PartialEq, Eq)]
pub enum RecheckStep {
    /// The queue was still empty under its lock: no sibling can add more
    /// work, so the worker flushes its pending batch and exits.
    Finish,
    /// A sibling pushed new work between the two checks: resume fetching.
    Resume,
}

/// The double check that prevents premature exit: only a queue found empty
/// again under its lock, after the scanning-active flag went quiet, ends the
/// worker.
pub fn recheck_step(queue_empty: bool) -> (d: RecheckStep)
    ensures
        d == if queue_empty {
            RecheckStep::Finish
        } else {
            RecheckStep::Resume
        },
{
    if queue_empty {
        RecheckStep::Finish
    } else {
        RecheckStep::Resume
    }
}

/// What to do with a popped directory once canonicalization was attempted:
/// a canonical path inside the skip set is discarded without being listed;
/// any other outcome lists the directory under its original path — a failed
/// canonicalization is reported by the caller but never aborts the item.
#[derive(Debug, PartialEq, Eq)]
pub enum ScanStep {
    /// The directory is excluded: drop it, producing nothing.
    Discard,
    /// List this path.
    List(String),
}

/// Decides between discarding and listing a popped directory.
pub fn scan_decision(dir: String, canonical: Option<String>, skip_dirs: &Vec<String>) -> (d: ScanStep)
    ensures
        d == match canonical {
            Some(c) => if spec_should_skip(c@, skip_dirs@) {
                ScanStep::Discard
            } else {
                ScanStep::List(dir)
            },
            None => ScanStep::List(dir),
        },
{
    match canonical {
        Some(c) => if should_skip(c.as_str(), skip_dirs) {
            ScanStep::Discard
        } else {
            ScanStep::List(dir)
        },
        None => ScanStep::List(dir),
    }
}

/// The next delay while waiting for an open-handle slot: doubled each round,
/// capped at 100 milliseconds.
pub fn next_backoff(wait_ms: u64) -> (r: u64)
    ensures
        r == if 2 * (wait_ms as int) < 100 {
            2 * (wait_ms as int)
        } else {
            100int
        },
{
    if wait_ms < 50 {
        2 * wait_ms
    } else {
        100
    }
}

/// A directory whose listing failed outright yields nothing but a counted
/// and, when verbose, logged failure: the subtree is omitted and the scan
/// goes on.
pub fn handle_listing_failure(msg: String, log: &mut ErrorLog, error_count: &mut u64)
    requires
        *old(error_count) < u64::MAX,
    ensures
        *final(error_count) == *old(error_count) + 1,
        final(log).verbose == old(log).verbose,
        old(log).verbose ==> final(log).messages@ == old(log).messages@.push(msg),
        !old(log).verbose ==> final(log).messages@ == old(log).messages@,
{
    *error_count = *error_count + 1;
    log.record(msg);
}

/// What a worker learned about one directory entry from its metadata.
#[derive(Debug)]
pub enum EntryMeta {
    /// The entry is itself a directory.
    Dir,
    /// The entry is a file (or anything else that gets sized).
    File,
    /// Its metadata could not be read; the diagnostic text is carried along.
    Failed(String),
}

/// One directory entry as the lister saw it.
#[derive(Debug)]
pub struct ListedEntry {
    pub path: String,
    pub is_symlink: bool,
    pub meta: EntryMeta,
}

/// A worker's private batch accumulator: entries gather in `pending` until
/// `batch_size` of them are together, when they move as one batch into
/// `full`, ready to be sent across the channel.
pub struct Batcher {
    pub batch_size: usize,
    pub pending: Vec<FileEntry>,
    pub full: Vec<Vec<FileEntry>>,
}

/// The contents of a sequence of batches, batch by batch.
pub open spec fn batches_view(full: Seq<Vec<FileEntry>>) -> Seq<Seq<FileEntry>> {
    full.map_values(|v: Vec<FileEntry>| v@)
}

impl Batcher {
    /// An empty accumulator for batches of `batch_size` entries.
    pub fn new(batch_size: usize) -> (b: Batcher)
        ensures
            b.batch_size == batch_size,
            b.pending@ == Seq::<FileEntry>::empty(),
            batches_view(b.full@) == Seq::<Seq<FileEntry>>::empty(),
    {
        let b = Batcher { batch_size, pending: Vec::new(), full: Vec::new() };
        proof {
            assert(batches_view(b.full@) =~= Seq::<Seq<FileEntry>>::empty());
        }
        b
    }

    /// Adds one entry; a pending batch that reaches `batch_size` moves whole
    /// into `full`.
    pub fn push(&mut self, e: FileEntry)
        ensures
            final(self).batch_size == old(self).batch_size,
            old(self).pending@.len() + 1 >= old(self).batch_size ==> final(self).pending@
                == Seq::<FileEntry>::empty() && batches_view(final(self).full@) == batches_view(
                old(self).full@,
            ).push(old(self).pending@.push(e)),
            old(self).pending@.len() + 1 < old(self).batch_size ==> final(self).pending@ == old(
                self,
            ).pending@.push(e) && final(self).full@ == old(self).full@,
    {
        self.pending.push(e);
        if self.pending.len() >= self.batch_size {
            let mut ready: Vec<FileEntry> = Vec::new();
            core::mem::swap(&mut ready, &mut self.pending);
            self.full.push(ready);
            proof {
                assert(batches_view(self.full@) =~= batches_view(old(self).full@).push(
                    old(self).pending@.push(e),
                ));
            }
        }
    }

    /// Moves a non-empty leftover batch into `full`; called once when a
    /// worker exits so no discovered entry is ever lost.
    pub fn flush(&mut self)
        ensures
            final(self).batch_size == old(self).batch_size,
            final(self).pending@ == Seq::<FileEntry>::empty(),
            old(self).pending@.len() == 0 ==> final(self).full@ == old(self).full@,
            old(self).pending@.len() > 0 ==> batches_view(final(self).full@) == batches_view(
                old(self).full@,
            ).push(old(self).pending@),
    {
        if self.pending.len() > 0 {
            let mut ready: Vec<FileEntry> = Vec::new();
            core::mem::swap(&mut ready, &mut self.pending);
            self.full.push(ready);
            proof {
                assert(batches_view(self.full@) =~= batches_view(old(self).full@).push(
                    old(self).pending@,
                ));
            }
        }
    }

    /// Hands over the batches that are ready to send, leaving none behind.
    pub fn take_full(&mut self) -> (r: Vec<Vec<FileEntry>>)
        ensures
            final(self).batch_size == old(self).batch_size,
            final(self).pending@ == old(self).pending@,
            r@ == old(self).full@,
            final(self).full@ == Seq::<Vec<FileEntry>>::empty(),
    {
        let mut r: Vec<Vec<FileEntry>> = Vec::new();
        core::mem::swap(&mut r, &mut self.full);
        r
    }
}

/// The scan state a worker threads through one directory listing: the work
/// queue's contents, the pending batch, the batches ready to send, and the
/// running count of metadata failures.
pub open spec fn spec_apply_entry(
    st: (Seq<String>, Seq<FileEntry>, Seq<Seq<FileEntry>>, nat),
    e: ListedEntry,
    batch_size: nat,
) -> (Seq<String>, Seq<FileEntry>, Seq<Seq<FileEntry>>, nat) {
    if e.is_symlink {
        st
    } else {
        match e.meta {
            EntryMeta::Dir => (st.0.push(e.path), st.1, st.2, st.3),
            EntryMeta::File => {
                let p = st.1.push(FileEntry { path: e.path, result: Ok(()) });
                if p.len() >= batch_size {
                    (st.0, Seq::empty(), st.2.push(p), st.3)
                } else {
                    (st.0, p, st.2, st.3)
                }
            },
            EntryMeta::Failed(msg) => {
                let p = st.1.push(
                    FileEntry { path: e.path, result: Err(SearchError::IoError(msg)) },
                );
                if p.len() >= batch_size {
                    (st.0, Seq::empty(), st.2.push(p), (st.3 + 1) as nat)
                } else {
                    (st.0, p, st.2, (st.3 + 1) as nat)
                }
            },
        }
    }
}

/// The scan state after a whole listing, entry by entry in listing order.
pub open spec fn spec_apply_listing(
    st: (Seq<String>, Seq<FileEntry>, Seq<Seq<FileEntry>>, nat),
    entries: Seq<ListedEntry>,
    batch_size: nat,
) -> (Seq<String>, Seq<FileEntry>, Seq<Seq<FileEntry>>, nat)
    decreases entries.len(),
{
    if entries.len() == 0 {
        st
    } else {
        spec_apply_listing(spec_apply_entry(st, entries[0], batch_size), entries.drop_first(), batch_size)
    }
}

/// Works through one directory's listing: symbolic links are ignored, never
/// followed or reported; subdirectories join the work queue; files join the
/// pending batch as ready entries; entries whose metadata failed join it as
/// prior errors — still counted, never dropped — and bump the failure count.
/// Within the batch, entries keep their listing order.
pub fn handle_listing(
    entries: Vec<ListedEntry>,
    queue: &mut WorkQueue,
    batcher: &mut Batcher,
    error_count: &mut u64,
)
    requires
        *old(error_count) + entries@.len() <= u64::MAX,
    ensures
        ({
            let st = spec_apply_listing(
                (
                    old(queue).items@,
                    old(batcher).pending@,
                    batches_view(old(batcher).full@),
                    *old(error_count) as nat,
                ),
                entries@,
                old(batcher).batch_size as nat,
            );
            &&& final(queue).items@ == st.0
            &&& final(batcher).pending@ == st.1
            &&& batches_view(final(batcher).full@) == st.2
            &&& *final(error_count) as nat == st.3
            &&& final(batcher).batch_size == old(batcher).batch_size
        }),
{
    let ghost st0 = (
        queue.items@,
        batcher.pending@,
        batches_view(batcher.full@),
        *error_count as nat,
    );
    let ghost bs = batcher.batch_size as nat;
    let mut remaining = entries;
    while remaining.len() > 0
        invariant
            batcher.batch_size as nat == bs,
            *error_count + remaining@.len() <= u64::MAX,
            spec_apply_listing(st0, entries@, bs) == spec_apply_listing(
                (queue.items@, batcher.pending@, batches_view(batcher.full@), *error_count as nat),
                remaining@,
                bs,
            ),
        decreases remaining@.len(),
    {
        let ghost pre = (
            queue.items@,
            batcher.pending@,
            batches_view(batcher.full@),
            *error_count as nat,
        );
        let ghost rem_pre = remaining@;
        let e = remaining.remove(0);
        proof {
            assert(remaining@ =~= rem_pre.drop_first());
            assert(e == rem_pre[0]);
        }
        if !e.is_symlink {
            match e.meta {
                EntryMeta::Dir => {
                    queue.push_back(e.path);
                },
                EntryMeta::File => {
                    batcher.push(FileEntry { path: e.path, result: Ok(()) });
                },
                EntryMeta::Failed(msg) => {
                    batcher.push(
                        FileEntry { path: e.path, result: Err(SearchError::IoError(msg)) },
                    );
                    *error_count = *error_count + 1;
                },
            }
        }
        proof {
            assert((queue.items@, batcher.pending@, batches_view(batcher.full@), *error_count as nat)
                == spec_apply_entry(pre, rem_pre[0], bs));
        }
    }
}

} // verus!
