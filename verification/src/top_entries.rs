use vstd::prelude::*;

verus! {

/// True when the sequence of (path, size) entries is ordered by size,
/// largest first.
pub open spec fn sorted_desc(s: Seq<(String, u64)>) -> bool {
    forall|i: int, j: int| 0 <= i < j < s.len() ==> s[i].1 >= s[j].1
}

/// The smallest size currently kept: the size of the last entry of a
/// descending sequence, or 0 when nothing is kept. A new entry offered to a
/// full collection must be strictly larger than this value to be admitted.
pub open spec fn min_kept(s: Seq<(String, u64)>) -> u64 {
    if s.len() == 0 {
        0u64
    } else {
        s.last().1
    }
}

/// Index of the first entry whose size is not greater than `size`. In a
/// descending sequence this is where a new entry of that size belongs, ahead
/// of any entries of equal size already present.
pub open spec fn spec_insert_pos(s: Seq<(String, u64)>, size: u64) -> int
    decreases s.len(),
{
    if s.len() == 0 {
        0
    } else if s[0].1 <= size {
        0
    } else {
        1 + spec_insert_pos(s.drop_first(), size)
    }
}

/// What one call of `TopEntries::insert` does to the kept entries: a new
/// entry is admitted when the collection is below capacity or its size beats
/// the smallest kept size; it lands at its descending position, and whatever
/// then sits beyond the capacity (the smallest entry) is dropped.
pub open spec fn spec_insert(s: Seq<(String, u64)>, e: (String, u64), cap: nat) -> Seq<(String, u64)> {
    if s.len() < cap || e.1 > min_kept(s) {
        let grown = s.insert(spec_insert_pos(s, e.1), e);
        if grown.len() > cap {
            grown.drop_last()
        } else {
            grown
        }
    } else {
        s
    }
}

/// `spec_insert_pos` is the first position whose entry is not larger than
/// `size`: everything before it is strictly larger, and the entry at the
/// position itself (when there is one) is not larger.
pub proof fn lemma_insert_pos_properties(s: Seq<(String, u64)>, size: u64)
    ensures
        0 <= spec_insert_pos(s, size) <= s.len(),
        forall|i: int| 0 <= i < spec_insert_pos(s, size) ==> s[i].1 > size,
        spec_insert_pos(s, size) < s.len() ==> s[spec_insert_pos(s, size)].1 <= size,
    decreases s.len(),
{
    if s.len() == 0 {
    } else if s[0].1 <= size {
    } else {
        lemma_insert_pos_properties(s.drop_first(), size);
        let p = spec_insert_pos(s, size);
        assert forall|i: int| 0 <= i < p implies s[i].1 > size by {
            if i > 0 {
                assert(s.drop_first()[i - 1] == s[i]);
            }
        }
        if p < s.len() {
            assert(s.drop_first()[p - 1] == s[p]);
        }
    }
}

/// Inserting at the position `spec_insert_pos` picks keeps a descending
/// sequence descending, and dropping the last entry afterwards keeps the
/// result within capacity.
pub proof fn lemma_spec_insert_sorted(s: Seq<(String, u64)>, e: (String, u64), cap: nat)
    requires
        sorted_desc(s),
        s.len() <= cap,
    ensures
        sorted_desc(spec_insert(s, e, cap)),
        spec_insert(s, e, cap).len() <= cap,
{
    if s.len() < cap || e.1 > min_kept(s) {
        lemma_insert_pos_properties(s, e.1);
        let p = spec_insert_pos(s, e.1);
        let grown = s.insert(p, e);
        s.insert_ensures(p, e);
        assert forall|i: int| p <= i < s.len() implies s[i].1 <= e.1 by {
            if i > p {
                assert(s[p].1 >= s[i].1);
            }
        }
        assert forall|i: int, j: int| 0 <= i < j < grown.len() implies grown[i].1 >= grown[j].1 by {
            if i < p {
                assert(grown[i] == s[i]);
            } else if i == p {
                assert(grown[i] == e);
            } else {
                assert(grown[i] == s[i - 1]);
            }
            if j < p {
                assert(grown[j] == s[j]);
            } else if j == p {
                assert(grown[j] == e);
            } else {
                assert(grown[j] == s[j - 1]);
            }
        }
        if grown.len() > cap {
            let r = grown.drop_last();
            assert(forall|i: int| 0 <= i < r.len() ==> r[i] == grown[i]);
        }
    }
}

/// A sequence whose every adjacent pair is ordered is ordered throughout.
proof fn lemma_sorted_from_adjacent(s: Seq<(String, u64)>)
    requires
        forall|k: int| 0 <= k < s.len() - 1 ==> #[trigger] s[k].1 >= s[k + 1].1,
    ensures
        sorted_desc(s),
{
    assert forall|i: int, j: int| 0 <= i < j < s.len() implies s[i].1 >= s[j].1 by {
        lemma_order_chains(s, i, j);
    }
}

/// Chains the adjacent order facts from `i` up to `j`.
proof fn lemma_order_chains(s: Seq<(String, u64)>, i: int, j: int)
    requires
        forall|k: int| 0 <= k < s.len() - 1 ==> #[trigger] s[k].1 >= s[k + 1].1,
        0 <= i < j < s.len(),
    ensures
        s[i].1 >= s[j].1,
    decreases j - i,
{
    if i + 1 < j {
        lemma_order_chains(s, i + 1, j);
    }
}

/// How one insert changes the kept entries as a multiset: below capacity the
/// offered entry is simply added; at capacity it either bounces off the
/// smallest kept size or displaces the last (smallest) entry, and the
/// smallest kept size never decreases.
pub proof fn lemma_spec_insert_multiset(s: Seq<(String, u64)>, e: (String, u64), cap: nat)
    requires
        sorted_desc(s),
        s.len() <= cap,
    ensures
        s.len() < cap ==> spec_insert(s, e, cap).to_multiset() == s.to_multiset().insert(e)
            && spec_insert(s, e, cap).len() == s.len() + 1,
        s.len() == cap && e.1 <= min_kept(s) ==> spec_insert(s, e, cap) == s,
        s.len() == cap && cap > 0 && e.1 > min_kept(s) ==> {
            &&& spec_insert(s, e, cap).to_multiset() == s.to_multiset().insert(e).remove(
                s.last(),
            )
            &&& s.to_multiset().insert(e).count(s.last()) > 0
            &&& spec_insert(s, e, cap).len() == cap
            &&& min_kept(spec_insert(s, e, cap)) >= min_kept(s)
        },
        cap == 0 ==> spec_insert(s, e, cap) =~= s,
{
    broadcast use vstd::seq_lib::group_to_multiset_ensures;
    broadcast use vstd::multiset::group_multiset_axioms;

    if s.len() < cap || e.1 > min_kept(s) {
        lemma_insert_pos_properties(s, e.1);
        let p = spec_insert_pos(s, e.1);
        let grown = s.insert(p, e);
        s.insert_ensures(p, e);
        grown.remove_ensures(p);
        assert(grown.remove(p) =~= s);
        assert(grown[p] == e);
        assert(grown.to_multiset().count(e) > 0);
        assert(grown.to_multiset() =~= s.to_multiset().insert(e)) by {
            assert(s.to_multiset() =~= grown.to_multiset().remove(e));
            assert forall|v: (String, u64)|
                grown.to_multiset().count(v) == s.to_multiset().insert(e).count(v) by {
                assert(s.to_multiset().count(v) == grown.to_multiset().remove(e).count(v));
            }
        }
        if grown.len() > cap && cap == 0 {
            assert(grown.drop_last() =~= s);
        }
        if grown.len() > cap && cap > 0 {
            // At capacity with an admitted entry: the last entry of the
            // grown sequence is the old smallest entry, and it is dropped.
            let r = grown.drop_last();
            assert(s.len() == cap);
            assert(e.1 > s.last().1);
            assert(p < s.len()) by {
                if p == s.len() {
                    assert(s[s.len() - 1].1 > e.1);
                }
            }
            assert(grown.last() == s.last()) by {
                assert(grown[(s.len() - 1) + 1] == s[s.len() - 1]);
            }
            grown.remove_ensures(grown.len() - 1);
            assert(grown.remove(grown.len() - 1) =~= r);
            assert(r.to_multiset() =~= grown.to_multiset().remove(s.last()));
            assert(spec_insert(s, e, cap).to_multiset() == s.to_multiset().insert(e).remove(
                s.last(),
            ));
            // The smallest kept size never decreases: the new last entry sat
            // just ahead of the dropped one in the grown sequence.
            lemma_spec_insert_sorted(s, e, cap + 1);
            assert(spec_insert(s, e, cap + 1) == grown);
            assert(min_kept(r) >= min_kept(s)) by {
                assert(r[cap - 1] == grown[cap - 1]);
                assert(grown[cap - 1].1 >= grown[cap as int].1);
            }
        }
    }
}

/// Law: inserting a value not larger than the smallest kept value while the
/// collection is at capacity leaves the contents unchanged.
pub proof fn lemma_full_reject_unchanged(s: Seq<(String, u64)>, e: (String, u64), cap: nat)
    requires
        s.len() == cap,
        e.1 <= min_kept(s),
    ensures
        spec_insert(s, e, cap) == s,
{
}

/// Law: below capacity nothing is ever dropped. The admission test compares
/// strictly, so an entry whose size ties with entries already kept joins
/// them: all of the equal-sized entries remain.
pub proof fn lemma_below_capacity_keeps_all(s: Seq<(String, u64)>, e: (String, u64), cap: nat)
    requires
        sorted_desc(s),
        s.len() < cap,
    ensures
        spec_insert(s, e, cap).to_multiset() == s.to_multiset().insert(e),
        spec_insert(s, e, cap).len() == s.len() + 1,
{
    lemma_spec_insert_multiset(s, e, cap);
}

/// The contents after feeding a whole sequence of entries, one insert at a
/// time, into an empty collection of capacity `cap`.
pub open spec fn spec_run_inserts(items: Seq<(String, u64)>, cap: nat) -> Seq<(String, u64)>
    decreases items.len(),
{
    if items.len() == 0 {
        Seq::empty()
    } else {
        spec_insert(spec_run_inserts(items.drop_last(), cap), items.last(), cap)
    }
}

/// Law: after any sequence of inserts the collection holds the largest of
/// the offered entries. It is sorted descending; it holds `cap` entries once
/// at least `cap` were offered (all of them before that, nothing lost); what
/// it holds was offered (counting duplicates); and every offered entry it
/// does not hold is no larger than the smallest entry it kept.
pub proof fn lemma_run_inserts_top_k(items: Seq<(String, u64)>, cap: nat)
    ensures
        sorted_desc(spec_run_inserts(items, cap)),
        spec_run_inserts(items, cap).len() == if items.len() <= cap {
            items.len() as int
        } else {
            cap as int
        },
        spec_run_inserts(items, cap).to_multiset().subset_of(items.to_multiset()),
        items.len() <= cap ==> spec_run_inserts(items, cap).to_multiset() == items.to_multiset(),
        cap > 0 ==> forall|v: (String, u64)|
            #[trigger] items.to_multiset().count(v) > spec_run_inserts(
                items,
                cap,
            ).to_multiset().count(v) ==> v.1 <= min_kept(spec_run_inserts(items, cap)),
    decreases items.len(),
{
    broadcast use vstd::seq_lib::group_to_multiset_ensures;
    broadcast use vstd::multiset::group_multiset_axioms;

    let r = spec_run_inserts(items, cap);
    if items.len() == 0 {
        assert(r.to_multiset().len() == 0);
        assert(r.to_multiset() =~= items.to_multiset());
    } else {
        let t = items.drop_last();
        let x = items.last();
        let rt = spec_run_inserts(t, cap);
        lemma_run_inserts_top_k(t, cap);
        lemma_spec_insert_sorted(rt, x, cap);
        lemma_spec_insert_multiset(rt, x, cap);
        assert(items =~= t.push(x));
        assert(items.to_multiset() == t.to_multiset().insert(x));
        if rt.len() < cap {
            // Still filling up: the new entry is simply added.
            assert(t.len() < cap);
            assert(r.to_multiset() == rt.to_multiset().insert(x));
            assert(rt.to_multiset() == t.to_multiset());
            assert(r.to_multiset() =~= items.to_multiset());
        } else {
            assert(rt.len() == cap);
            assert(t.len() >= cap);
            if cap == 0 {
                assert(r =~= rt);
                assert forall|v: (String, u64)|
                    r.to_multiset().count(v) <= items.to_multiset().count(v) by {
                    assert(rt.to_multiset().count(v) <= t.to_multiset().count(v));
                }
            } else if x.1 <= min_kept(rt) {
                // Bounced off the boundary: contents unchanged, and the
                // bounced entry itself is no larger than the kept minimum.
                assert(r == rt);
                assert forall|v: (String, u64)|
                    items.to_multiset().count(v) > r.to_multiset().count(v) implies v.1
                    <= min_kept(r) by {
                    if v != x {
                        assert(t.to_multiset().count(v) > rt.to_multiset().count(v));
                    }
                }
                assert forall|v: (String, u64)|
                    r.to_multiset().count(v) <= items.to_multiset().count(v) by {
                    assert(rt.to_multiset().count(v) <= t.to_multiset().count(v));
                }
            } else {
                // Admitted at capacity: the old smallest entry is displaced,
                // and the kept minimum only grows.
                let d = rt.last();
                assert(d.1 == min_kept(rt));
                assert(r.to_multiset() == rt.to_multiset().insert(x).remove(d));
                assert(min_kept(r) >= min_kept(rt));
                assert forall|v: (String, u64)|
                    r.to_multiset().count(v) <= items.to_multiset().count(v) by {
                    assert(rt.to_multiset().count(v) <= t.to_multiset().count(v));
                }
                assert forall|v: (String, u64)|
                    items.to_multiset().count(v) > r.to_multiset().count(v) implies v.1
                    <= min_kept(r) by {
                    if v == d {
                        assert(v.1 == min_kept(rt));
                    } else {
                        assert(r.to_multiset().count(v) == rt.to_multiset().count(v) + if v == x {
                            1int
                        } else {
                            0int
                        });
                        if v != x {
                            assert(t.to_multiset().count(v) > rt.to_multiset().count(v));
                        } else {
                            assert(t.to_multiset().count(v) > rt.to_multiset().count(v));
                        }
                    }
                }
            }
        }
    }
}

/// A bounded collection of (path, size) entries, kept in descending order of
/// size and holding at most `max_entries` of the largest sizes offered so
/// far.
pub struct TopEntries {
    pub entries: Vec<(String, u64)>,
    pub max_entries: usize,
}

impl TopEntries {
    /// The standing invariant: descending order, never more than
    /// `max_entries` entries.
    pub open spec fn well_formed(&self) -> bool {
        &&& sorted_desc(self.entries@)
        &&& self.entries@.len() <= self.max_entries
    }

    /// Creates an empty collection that will keep at most `max_entries`
    /// entries.
    pub fn new(max_entries: usize) -> (r: Self)
        ensures
            r.well_formed(),
            r.entries@ == Seq::<(String, u64)>::empty(),
            r.max_entries == max_entries,
    {
        Self { entries: Vec::new(), max_entries }
    }

    /// The first position in `entries` whose size is not greater than
    /// `size`, found by binary search over the descending order.
    fn insert_position(entries: &Vec<(String, u64)>, size: u64) -> (idx: usize)
        requires
            sorted_desc(entries@),
        ensures
            idx == spec_insert_pos(entries@, size),
    {
        let mut lo: usize = 0;
        let mut hi: usize = entries.len();
        while lo < hi
            invariant
                lo <= hi <= entries@.len(),
                sorted_desc(entries@),
                forall|i: int| 0 <= i < lo ==> entries@[i].1 > size,
                forall|i: int| hi <= i < entries@.len() ==> entries@[i].1 <= size,
            decreases hi - lo,
        {
            let mid = lo + (hi - lo) / 2;
            if entries[mid].1 > size {
                proof {
                    assert forall|i: int| 0 <= i <= mid implies entries@[i].1 > size by {
                        if i < mid {
                            assert(entries@[i].1 >= entries@[mid as int].1);
                        }
                    }
                }
                lo = mid + 1;
            } else {
                proof {
                    assert forall|i: int| mid <= i < entries@.len() implies entries@[i].1 <= size by {
                        if i > mid {
                            assert(entries@[mid as int].1 >= entries@[i].1);
                        }
                    }
                }
                hi = mid;
            }
        }
        proof {
            lemma_insert_pos_properties(entries@, size);
            let p = spec_insert_pos(entries@, size);
            if p < lo {
                assert(entries@[p].1 > size);
            }
            if p > lo {
                assert(entries@[lo as int].1 > size);
                assert(entries@[lo as int].1 <= size);
            }
        }
        lo
    }

    /// Admits `(path, size)` when the collection is below capacity or `size`
    /// is strictly larger than the smallest kept size; the entry lands ahead
    /// of equal sizes, and the smallest entry is dropped if the capacity is
    /// now exceeded. The result is exactly `spec_insert` of the old contents.
    pub fn insert(&mut self, path: String, size: u64)
        requires
            old(self).well_formed(),
        ensures
            final(self).max_entries == old(self).max_entries,
            final(self).entries@ == spec_insert(
                old(self).entries@,
                (path, size),
                old(self).max_entries as nat,
            ),
            final(self).well_formed(),
            sorted_desc(final(self).entries@),
            final(self).entries@.len() <= old(self).max_entries,
    {
        proof {
            lemma_spec_insert_sorted(
                self.entries@,
                (path, size),
                self.max_entries as nat,
            );
        }
        let len = self.entries.len();
        let tail: u64 = if len == 0 {
            0
        } else {
            self.entries[len - 1].1
        };
        if len < self.max_entries || size > tail {
            let idx = Self::insert_position(&self.entries, size);
            proof {
                lemma_insert_pos_properties(self.entries@, size);
            }
            self.entries.insert(idx, (path, size));
            if self.entries.len() > self.max_entries {
                self.entries.pop();
                proof {
                    assert(final(self).entries@ =~= spec_insert(
                        old(self).entries@,
                        (path, size),
                        old(self).max_entries as nat,
                    ));
                }
            }
        }
    }

    /// Checks the standing invariant at run time, for callers outside the
    /// verified world.
    pub fn is_well_formed(&self) -> (r: bool)
        ensures
            r == self.well_formed(),
    {
        if self.entries.len() > self.max_entries {
            return false;
        }
        let mut i: usize = 1;
        while i < self.entries.len()
            invariant
                1 <= i,
                forall|k: int| 0 <= k < i - 1 ==> #[trigger] self.entries@[k].1 >= self.entries@[k + 1].1,
            decreases self.entries@.len() - i,
        {
            if self.entries[i - 1].1 < self.entries[i].1 {
                return false;
            }
            i += 1;
        }
        proof {
            lemma_sorted_from_adjacent(self.entries@);
        }
        true
    }

    /// A read-only view of the kept entries, largest first.
    pub fn get_entries(&self) -> (r: &[(String, u64)])
        ensures
            r@ == self.entries@,
    {
        self.entries.as_slice()
    }
}

} // verus!
