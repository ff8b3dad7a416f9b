use ferris_files::errors::{ErrorLog, SearchError};
use ferris_files::process::{process_batch, SizedEntry};
use ferris_files::scan::{
    handle_listing, handle_listing_failure, scan_decision, seed_root, Batcher, EntryMeta,
    ListedEntry, ScanStep, WorkQueue,
};
use ferris_files::top_entries::TopEntries;
use ferris_files::FileEntry;

#[test]
fn process_batch_inserts_sized_entries_and_counts() {
    let mut top = TopEntries::new(2);
    let mut log = ErrorLog::new(true);
    let batch = vec![
        SizedEntry { path: "/a".to_string(), size: Ok(100) },
        SizedEntry { path: "/b".to_string(), size: Err("Failed to get size for /b: denied".to_string()) },
        SizedEntry { path: "/c".to_string(), size: Ok(300) },
        SizedEntry { path: "/d".to_string(), size: Ok(200) },
    ];
    let (processed, attempted) = process_batch(batch, &mut top, &mut log);
    assert_eq!(processed, 3);
    assert_eq!(attempted, 4);
    let entries = top.get_entries();
    assert_eq!(entries.len(), 2);
    assert_eq!(entries[0], ("/c".to_string(), 300));
    assert_eq!(entries[1], ("/d".to_string(), 200));
    assert_eq!(
        log.messages,
        vec!["Failed to get size for /b: denied".to_string()]
    );
}

#[test]
fn process_batch_quiet_run_only_tallies() {
    let mut top = TopEntries::new(5);
    let mut log = ErrorLog::new(false);
    let batch = vec![
        SizedEntry { path: "/a".to_string(), size: Err("one".to_string()) },
        SizedEntry { path: "/b".to_string(), size: Err("two".to_string()) },
    ];
    let (processed, attempted) = process_batch(batch, &mut top, &mut log);
    assert_eq!(processed, 0);
    assert_eq!(attempted, 2);
    assert!(top.get_entries().is_empty());
    assert!(log.messages.is_empty());
}

// Runs the scan pipeline over a small in-memory tree: pop directories from
// the queue, decide, list, batch, size, and merge — the way the worker pool
// and the processing stage drive the library.
fn run_scan(
    listings: &[(&str, Result<Vec<ListedEntry>, &str>)],
    sizes: &[(&str, u64)],
    skip_dirs: Vec<String>,
    root: &str,
    capacity: usize,
    verbose: bool,
) -> (TopEntries, ErrorLog, u64) {
    let mut queue = WorkQueue::new();
    let mut batcher = Batcher::new(3);
    let mut errors: u64 = 0;
    let mut log = ErrorLog::new(verbose);
    seed_root(Ok(root.to_string()), &mut queue).unwrap();

    let mut sent: Vec<Vec<FileEntry>> = Vec::new();
    while let Some(dir) = queue.pop_front() {
        // Every path in this simulated tree is already canonical.
        match scan_decision(dir.clone(), Some(dir.clone()), &skip_dirs) {
            ScanStep::Discard => continue,
            ScanStep::List(d) => {
                let listing = listings
                    .iter()
                    .find(|(path, _)| *path == d)
                    .map(|(_, l)| l)
                    .expect("listed a directory the tree does not know");
                match listing {
                    Ok(entries) => {
                        let entries: Vec<ListedEntry> = entries
                            .iter()
                            .map(|e| ListedEntry {
                                path: e.path.clone(),
                                is_symlink: e.is_symlink,
                                meta: match &e.meta {
                                    EntryMeta::Dir => EntryMeta::Dir,
                                    EntryMeta::File => EntryMeta::File,
                                    EntryMeta::Failed(m) => EntryMeta::Failed(m.clone()),
                                },
                            })
                            .collect();
                        handle_listing(entries, &mut queue, &mut batcher, &mut errors);
                        sent.append(&mut batcher.take_full());
                    }
                    Err(msg) => {
                        handle_listing_failure(
                            format!("Error reading directory {}: {}", d, msg),
                            &mut log,
                            &mut errors,
                        );
                    }
                }
            }
        }
    }
    batcher.flush();
    sent.append(&mut batcher.take_full());

    // The sizing stage: metadata for ready entries, derived errors for the
    // rest, then the merge into the aggregator.
    let mut top = TopEntries::new(capacity);
    for batch in sent {
        let sized: Vec<SizedEntry> = batch
            .into_iter()
            .map(|fe| match fe.result {
                Ok(()) => {
                    let size = sizes
                        .iter()
                        .find(|(p, _)| *p == fe.path)
                        .map(|(_, s)| *s)
                        .expect("sized a file the tree does not know");
                    SizedEntry { path: fe.path, size: Ok(size) }
                }
                Err(e) => SizedEntry {
                    path: fe.path.clone(),
                    size: Err(format!("Error processing {}: {}", fe.path, e.message())),
                },
            })
            .collect();
        process_batch(sized, &mut top, &mut log);
    }
    (top, log, errors)
}

fn dir(path: &str) -> ListedEntry {
    ListedEntry { path: path.to_string(), is_symlink: false, meta: EntryMeta::Dir }
}

fn file(path: &str) -> ListedEntry {
    ListedEntry { path: path.to_string(), is_symlink: false, meta: EntryMeta::File }
}

// Scenario: one unreadable subdirectory among readable siblings still
// yields the correct top-K for the siblings, and the failure is counted.
#[test]
fn unreadable_sibling_still_yields_top_k() {
    let listings: Vec<(&str, Result<Vec<ListedEntry>, &str>)> = vec![
        ("/root", Ok(vec![dir("/root/ok_a"), dir("/root/broken"), dir("/root/ok_b")])),
        ("/root/ok_a", Ok(vec![file("/root/ok_a/big"), file("/root/ok_a/small")])),
        ("/root/broken", Err("permission denied")),
        ("/root/ok_b", Ok(vec![file("/root/ok_b/mid")])),
    ];
    let sizes = [
        ("/root/ok_a/big", 500u64),
        ("/root/ok_a/small", 10u64),
        ("/root/ok_b/mid", 200u64),
    ];
    let (top, log, errors) = run_scan(&listings, &sizes, vec![], "/root", 2, true);
    let entries = top.get_entries();
    assert_eq!(entries.len(), 2);
    assert_eq!(entries[0], ("/root/ok_a/big".to_string(), 500));
    assert_eq!(entries[1], ("/root/ok_b/mid".to_string(), 200));
    assert_eq!(errors, 1, "the unreadable directory must be counted, not dropped");
    assert_eq!(
        log.messages,
        vec!["Error reading directory /root/broken: permission denied".to_string()]
    );
}

// Scenario: a skip set holding a canonical ancestor yields zero file
// entries from anywhere beneath it, even though its work item is popped
// from the queue: it is discarded, never listed.
#[test]
fn skip_set_ancestor_suppresses_whole_subtree() {
    let listings: Vec<(&str, Result<Vec<ListedEntry>, &str>)> = vec![
        ("/root", Ok(vec![dir("/root/keep"), dir("/root/skip")])),
        ("/root/keep", Ok(vec![file("/root/keep/f")])),
        // "/root/skip" is never listed: run_scan would panic on its children.
        ("/root/skip", Ok(vec![dir("/root/skip/deep"), file("/root/skip/g")])),
        ("/root/skip/deep", Ok(vec![file("/root/skip/deep/h")])),
    ];
    let sizes = [
        ("/root/keep/f", 50u64),
        ("/root/skip/g", 1000u64),
        ("/root/skip/deep/h", 2000u64),
    ];
    let (top, _log, errors) = run_scan(
        &listings,
        &sizes,
        vec!["/root/skip".to_string()],
        "/root",
        5,
        false,
    );
    let entries = top.get_entries();
    assert_eq!(entries.len(), 1);
    assert_eq!(entries[0], ("/root/keep/f".to_string(), 50));
    assert_eq!(errors, 0);
}

// A prior listing error rides across the whole pipeline: the entry is
// attempted, fails with a derived diagnostic, and never reaches the top-K.
#[test]
fn prior_error_entry_is_attempted_but_not_inserted() {
    let mut top = TopEntries::new(3);
    let mut log = ErrorLog::new(true);
    let fe = FileEntry {
        path: "/root/broken_file".to_string(),
        result: Err(SearchError::IoError("denied".to_string())),
    };
    let sized = match fe.result {
        Ok(()) => unreachable!(),
        Err(e) => SizedEntry {
            path: fe.path.clone(),
            size: Err(format!("Error processing {}: {}", fe.path, e.message())),
        },
    };
    let (processed, attempted) = process_batch(vec![sized], &mut top, &mut log);
    assert_eq!((processed, attempted), (0, 1));
    assert!(top.get_entries().is_empty());
    assert_eq!(
        log.messages,
        vec!["Error processing /root/broken_file: IO error: denied".to_string()]
    );
}
