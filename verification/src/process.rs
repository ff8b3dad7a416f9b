use crate::errors::ErrorLog;
use crate::top_entries::{spec_insert, TopEntries};
use vstd::prelude::*;

verus! {

/// The outcome the sizing stage computed for one file: its on-disk size in
/// bytes, or the full diagnostic for why it could not be sized (a metadata
/// or size failure, an unreadable path, or an error carried over from the
/// listing stage).
#[derive(Debug)]
pub struct SizedEntry {
    pub path: String,
    pub size: Result<u64, String>,
}

/// The aggregator's contents after merging a batch of sized entries, in
/// batch order: each successfully sized entry is offered to the top-K
/// collection, failures change nothing.
pub open spec fn spec_merge_batch(
    s: Seq<(String, u64)>,
    batch: Seq<SizedEntry>,
    cap: nat,
) -> Seq<(String, u64)>
    decreases batch.len(),
{
    if batch.len() == 0 {
        s
    } else {
        let rest = match batch[0].size {
            Ok(sz) => spec_insert(s, (batch[0].path, sz), cap),
            Err(_) => s,
        };
        spec_merge_batch(rest, batch.drop_first(), cap)
    }
}

/// How many entries of the batch carry a size.
pub open spec fn spec_ok_count(batch: Seq<SizedEntry>) -> int
    decreases batch.len(),
{
    if batch.len() == 0 {
        0
    } else {
        (if batch[0].size is Ok {
            1int
        } else {
            0int
        }) + spec_ok_count(batch.drop_first())
    }
}

/// The diagnostics of the batch's failures, in batch order.
pub open spec fn spec_batch_failures(batch: Seq<SizedEntry>) -> Seq<String>
    decreases batch.len(),
{
    if batch.len() == 0 {
        Seq::empty()
    } else {
        (match batch[0].size {
            Ok(_) => Seq::<String>::empty(),
            Err(msg) => seq![msg],
        }) + spec_batch_failures(batch.drop_first())
    }
}

/// Merges one sized batch into the top-K aggregator: every successfully
/// sized entry is inserted under its path; every failure is tallied and its
/// diagnostic recorded when verbose. Returns `(processed, attempted)`: how
/// many entries carried a size, and the batch's length.
pub fn process_batch(batch: Vec<SizedEntry>, top: &mut TopEntries, log: &mut ErrorLog) -> (counts: (
    usize,
    usize,
))
    requires
        old(top).well_formed(),
    ensures
        final(top).max_entries == old(top).max_entries,
        final(top).well_formed(),
        final(top).entries@ == spec_merge_batch(
            old(top).entries@,
            batch@,
            old(top).max_entries as nat,
        ),
        counts.1 == batch@.len(),
        counts.0 == spec_ok_count(batch@),
        final(log).verbose == old(log).verbose,
        old(log).verbose ==> final(log).messages@ == old(log).messages@ + spec_batch_failures(
            batch@,
        ),
        !old(log).verbose ==> final(log).messages@ == old(log).messages@,
{
    let ghost entries0 = top.entries@;
    let ghost messages0 = log.messages@;
    let ghost cap = top.max_entries as nat;
    let ghost batch0 = batch@;
    let total = batch.len();
    let mut processed: usize = 0;
    let mut remaining = batch;
    while remaining.len() > 0
        invariant
            top.well_formed(),
            top.max_entries as nat == cap,
            log.verbose == old(log).verbose,
            processed + remaining@.len() <= total,
            total == batch0.len(),
            spec_merge_batch(entries0, batch0, cap) == spec_merge_batch(
                top.entries@,
                remaining@,
                cap,
            ),
            spec_ok_count(batch0) == processed + spec_ok_count(remaining@),
            log.verbose ==> messages0 + spec_batch_failures(batch0) == log.messages@
                + spec_batch_failures(remaining@),
            !log.verbose ==> log.messages@ == messages0,
        decreases remaining@.len(),
    {
        let ghost rem_pre = remaining@;
        let ghost messages_pre = log.messages@;
        let e = remaining.remove(0);
        proof {
            assert(remaining@ =~= rem_pre.drop_first());
            assert(e == rem_pre[0]);
        }
        match e.size {
            Ok(sz) => {
                top.insert(e.path, sz);
                processed += 1;
            },
            Err(msg) => {
                log.record(msg);
                proof {
                    if log.verbose {
                        assert(messages_pre + spec_batch_failures(rem_pre) =~= log.messages@
                            + spec_batch_failures(rem_pre.drop_first()));
                    }
                }
            },
        }
    }
    proof {
        if log.verbose {
            assert(log.messages@ =~= messages0 + spec_batch_failures(batch0));
        }
    }
    (processed, total)
}

} // verus!
