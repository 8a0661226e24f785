//! The operation resolver: reduces a drained batch of raw notifications to
//! one final operation per path, keyed in lexicographic path order, with the
//! last notification for a path within the batch winning.

use vstd::prelude::*;

verus! {

use crate::normalize::{normalize, normalize_spec, Discard, RawNotification};
use crate::ops::{EntryKind, Operation, OperationKind};
use crate::paths::{lemma_lex_lt_trans, lemma_lex_lt_trichotomy, lex_lt, str_lt};

/// The final operation recorded for one path in a drain cycle.
#[derive(Debug, Clone)]
pub struct ResolvedEntry {
    pub path: String,
    pub entry_kind: Option<EntryKind>,
    pub kind: OperationKind,
}

/// A resolved batch: entries with pairwise distinct paths, in strictly
/// ascending lexicographic path order.
pub struct ResolvedBatch {
    pub entries: Vec<ResolvedEntry>,
}

/// First entry of `s` for path `p`, scanning from the front.
pub open spec fn seq_lookup(s: Seq<ResolvedEntry>, p: Seq<char>) -> Option<
    (Option<EntryKind>, OperationKind),
>
    decreases s.len(),
{
    if s.len() == 0 {
        None
    } else if s[0].path@ == p {
        Some((s[0].entry_kind, s[0].kind))
    } else {
        seq_lookup(s.drop_first(), p)
    }
}

impl ResolvedBatch {
    /// The entries in key order.
    pub open spec fn entry_seq(self) -> Seq<ResolvedEntry> {
        self.entries@
    }

    /// Entries are strictly ascending by path, hence paths are unique.
    pub open spec fn wf(self) -> bool {
        forall|i: int, j: int|
            0 <= i < j < self.entries@.len() ==> lex_lt(
                #[trigger] self.entries@[i].path@,
                #[trigger] self.entries@[j].path@,
            )
    }

    /// The operation this batch holds for path `p`, if any.
    pub open spec fn lookup(self, p: Seq<char>) -> Option<(Option<EntryKind>, OperationKind)> {
        seq_lookup(self.entries@, p)
    }

    pub fn new() -> (r: ResolvedBatch)
        ensures
            r.wf(),
            r.entry_seq().len() == 0,
            forall|p: Seq<char>| r.lookup(p) is None,
    {
        ResolvedBatch { entries: Vec::new() }
    }

    pub fn len(&self) -> (r: usize)
        ensures
            r == self.entry_seq().len(),
    {
        self.entries.len()
    }

    pub fn get(&self, i: usize) -> (r: &ResolvedEntry)
        requires
            i < self.entry_seq().len(),
        ensures
            *r == self.entry_seq()[i as int],
    {
        &self.entries[i]
    }

    /// Records `op` as the final operation for its path, replacing any
    /// earlier entry for the same path and touching no other path.
    pub fn insert(&mut self, op: Operation)
        requires
            old(self).wf(),
        ensures
            final(self).wf(),
            final(self).lookup(op.path@) == Some((op.entry_kind, op.kind)),
            forall|q: Seq<char>|
                q != op.path@ ==> final(self).lookup(q) == old(self).lookup(q),
    {
        let ghost s0 = self.entries@;
        let n = self.entries.len();
        let mut idx: usize = 0;
        while idx < n && str_lt(self.entries[idx].path.as_str(), op.path.as_str())
            invariant
                0 <= idx <= n,
                n == self.entries@.len(),
                self.entries@ == s0,
                forall|j: int| 0 <= j < idx ==> lex_lt(#[trigger] s0[j].path@, op.path@),
            decreases n - idx,
        {
            idx = idx + 1;
        }
        proof {
            assert forall|j: int| 0 <= j < idx implies s0[j].path@ != op.path@ by {
                lemma_lex_lt_trichotomy(s0[j].path@, op.path@);
            }
        }
        let entry = ResolvedEntry { path: op.path, entry_kind: op.entry_kind, kind: op.kind };
        if idx < n && self.entries[idx].path == entry.path {
            let _replaced = self.entries.remove(idx);
            self.entries.insert(idx, entry);
            proof {
                assert(self.entries@ =~= s0.update(idx as int, self.entries@[idx as int]));
                let e = self.entries@[idx as int];
                assert(e.path@ == s0[idx as int].path@);
                assert forall|i: int, j: int|
                    0 <= i < j < self.entries@.len() implies lex_lt(
                    #[trigger] self.entries@[i].path@,
                    #[trigger] self.entries@[j].path@,
                ) by {
                    assert(self.entries@[i].path@ == s0[i].path@);
                    assert(self.entries@[j].path@ == s0[j].path@);
                }
                lemma_lookup_update(s0, idx as int, e, e.path@);
                assert forall|q: Seq<char>| q != e.path@ implies seq_lookup(self.entries@, q)
                    == seq_lookup(s0, q) by {
                    lemma_lookup_update(s0, idx as int, e, q);
                }
            }
        } else {
            proof {
                if idx < n {
                    lemma_lex_lt_trichotomy(s0[idx as int].path@, entry.path@);
                }
            }
            self.entries.insert(idx, entry);
            proof {
                let t = self.entries@;
                let e = t[idx as int];
                assert(t == s0.insert(idx as int, e));
                assert forall|i: int, j: int| 0 <= i < j < t.len() implies lex_lt(
                    #[trigger] t[i].path@,
                    #[trigger] t[j].path@,
                ) by {
                    if i < idx && j == idx {
                        assert(t[i] == s0[i]);
                    } else if i == idx && j > idx {
                        assert(t[j] == s0[j - 1]);
                        if idx < n {
                            if j - 1 > idx {
                                lemma_lex_lt_trans(e.path@, s0[idx as int].path@, s0[j - 1].path@);
                            }
                        }
                    } else if i < idx && j > idx {
                        assert(t[i] == s0[i]);
                        assert(t[j] == s0[j - 1]);
                    } else if j < idx {
                        assert(t[i] == s0[i]);
                        assert(t[j] == s0[j]);
                    } else if i > idx {
                        assert(t[i] == s0[i - 1]);
                        assert(t[j] == s0[j - 1]);
                    }
                }
                lemma_lookup_insert(s0, idx as int, e, e.path@);
                assert forall|q: Seq<char>| q != e.path@ implies seq_lookup(t, q) == seq_lookup(
                    s0,
                    q,
                ) by {
                    lemma_lookup_insert(s0, idx as int, e, q);
                }
            }
        }
    }
}

/// The notification normalizes to a fatally malformed result: a reserved
/// unspecified change kind, an input-contract breach.
pub open spec fn is_fatal_notification(n: RawNotification) -> bool {
    normalize_spec(n.tags@) matches Err(d) && d.spec_is_fatal()
}

/// Some notification of the batch is fatally malformed.
pub open spec fn has_fatal(batch: Seq<RawNotification>) -> bool {
    exists|i: int| 0 <= i < batch.len() && is_fatal_notification(#[trigger] batch[i])
}

/// The operation a batch finally records for path `p`: that of the latest
/// notification in the batch that normalizes to an operation on `p`.
pub open spec fn resolved_value(batch: Seq<RawNotification>, p: Seq<char>) -> Option<
    (Option<EntryKind>, OperationKind),
>
    decreases batch.len(),
{
    if batch.len() == 0 {
        None
    } else {
        match normalize_spec(batch.last().tags@) {
            Ok(t) => if t.0 == p {
                Some((t.1, t.2))
            } else {
                resolved_value(batch.drop_last(), p)
            },
            Err(_) => resolved_value(batch.drop_last(), p),
        }
    }
}

/// Reduces a drained batch to its resolved form: every notification is
/// normalized in arrival order, discards are dropped, and for each path the
/// last surviving operation wins. A fatally malformed notification aborts
/// the whole batch instead.
pub fn resolve(batch: &Vec<RawNotification>) -> (r: Result<ResolvedBatch, Discard>)
    ensures
        r is Ok <==> !has_fatal(batch@),
        r matches Ok(rb) ==> rb.wf() && forall|p: Seq<char>|
            #[trigger] rb.lookup(p) == resolved_value(batch@, p),
        r matches Err(d) ==> d == Discard::UnspecifiedKind,
{
    let n = batch.len();
    let mut acc = ResolvedBatch::new();
    let mut i: usize = 0;
    proof {
        assert(batch@.subrange(0, 0) =~= Seq::<RawNotification>::empty());
    }
    while i < n
        invariant
            i <= n,
            n == batch@.len(),
            acc.wf(),
            forall|j: int| 0 <= j < i ==> !is_fatal_notification(#[trigger] batch@[j]),
            forall|p: Seq<char>|
                #[trigger] acc.lookup(p) == resolved_value(batch@.subrange(0, i as int), p),
        decreases n - i,
    {
        proof {
            assert(batch@.subrange(0, i + 1).drop_last() =~= batch@.subrange(0, i as int));
            assert(batch@.subrange(0, i + 1).last() == batch@[i as int]);
        }
        match normalize(&batch[i]) {
            Ok(op) => {
                let ghost before = acc;
                let ghost p0 = op.path@;
                let ghost v0 = (op.entry_kind, op.kind);
                acc.insert(op);
                proof {
                    assert forall|p: Seq<char>| #[trigger] acc.lookup(p) == resolved_value(
                        batch@.subrange(0, i + 1),
                        p,
                    ) by {
                        if p == p0 {
                            assert(acc.lookup(p) == Some(v0));
                        } else {
                            assert(acc.lookup(p) == before.lookup(p));
                        }
                    }
                }
            },
            Err(d) => {
                if d.is_fatal() {
                    assert(is_fatal_notification(batch@[i as int]));
                    return Err(d);
                }
            },
        }
        i = i + 1;
    }
    proof {
        assert(batch@.subrange(0, n as int) =~= batch@);
    }
    Ok(acc)
}

/// Last write wins: if the notification at position `j` normalizes to an
/// operation on path `p` and no later notification in the batch does, then
/// the batch resolves `p` to exactly that operation.
pub proof fn lemma_last_write_wins(batch: Seq<RawNotification>, j: int, p: Seq<char>)
    requires
        0 <= j < batch.len(),
        normalize_spec(batch[j].tags@) matches Ok(t) && t.0 == p,
        forall|k: int|
            j < k < batch.len() ==> !((#[trigger] normalize_spec(batch[k].tags@)) matches Ok(t2)
                && t2.0 == p),
    ensures
        resolved_value(batch, p) == match normalize_spec(batch[j].tags@) {
            Ok(t) => Some((t.1, t.2)),
            Err(_) => None::<(Option<EntryKind>, OperationKind)>,
        },
    decreases batch.len(),
{
    if j == batch.len() - 1 {
    } else {
        let q = batch.drop_last();
        assert(q[j] == batch[j]);
        assert forall|k: int|
            j < k < q.len() implies !((#[trigger] normalize_spec(q[k].tags@)) matches Ok(t2)
            && t2.0 == p) by {
            assert(q[k] == batch[k]);
        }
        lemma_last_write_wins(q, j, p);
    }
}

/// Each entry of a well-formed batch is what `lookup` returns for its path.
pub proof fn lemma_lookup_at_index(rb: ResolvedBatch, i: int)
    requires
        rb.wf(),
        0 <= i < rb.entry_seq().len(),
    ensures
        rb.lookup(rb.entry_seq()[i].path@) == Some(
            (rb.entry_seq()[i].entry_kind, rb.entry_seq()[i].kind),
        ),
{
    lemma_seq_lookup_at_index(rb.entry_seq(), i);
}

proof fn lemma_seq_lookup_at_index(s: Seq<ResolvedEntry>, i: int)
    requires
        0 <= i < s.len(),
        forall|a: int, b: int|
            0 <= a < b < s.len() ==> lex_lt(#[trigger] s[a].path@, #[trigger] s[b].path@),
    ensures
        seq_lookup(s, s[i].path@) == Some((s[i].entry_kind, s[i].kind)),
    decreases i,
{
    if i == 0 {
    } else {
        lemma_lex_lt_trichotomy(s[0].path@, s[i].path@);
        assert(s[0].path@ != s[i].path@);
        let q = s.drop_first();
        assert forall|a: int, b: int| 0 <= a < b < q.len() implies lex_lt(
            #[trigger] q[a].path@,
            #[trigger] q[b].path@,
        ) by {
            assert(q[a] == s[a + 1]);
            assert(q[b] == s[b + 1]);
        }
        assert(q[i - 1] == s[i]);
        lemma_seq_lookup_at_index(q, i - 1);
    }
}

/// Looking a path up in `s.update(idx, e)`, where `e` keeps the path of the
/// entry it replaces and no earlier entry has that path: the replaced path
/// now maps to `e`, everything else is unchanged.
proof fn lemma_lookup_update(s: Seq<ResolvedEntry>, idx: int, e: ResolvedEntry, p: Seq<char>)
    requires
        0 <= idx < s.len(),
        e.path@ == s[idx].path@,
        forall|j: int| 0 <= j < idx ==> #[trigger] s[j].path@ != e.path@,
    ensures
        seq_lookup(s.update(idx, e), p) == if p == e.path@ {
            Some((e.entry_kind, e.kind))
        } else {
            seq_lookup(s, p)
        },
    decreases idx,
{
    let t = s.update(idx, e);
    if idx == 0 {
        assert(t[0] == e);
        assert(t.drop_first() =~= s.drop_first());
    } else {
        assert(t[0] == s[0]);
        assert(t.drop_first() =~= s.drop_first().update(idx - 1, e));
        assert forall|j: int| 0 <= j < idx - 1 implies #[trigger] s.drop_first()[j].path@
            != e.path@ by {
            assert(s.drop_first()[j] == s[j + 1]);
        }
        assert(s.drop_first()[idx - 1] == s[idx]);
        lemma_lookup_update(s.drop_first(), idx - 1, e, p);
    }
}

/// Looking a path up in `s.insert(idx, e)`, where no entry before `idx` has
/// `e`'s path: `e`'s path maps to `e`, everything else is unchanged.
proof fn lemma_lookup_insert(s: Seq<ResolvedEntry>, idx: int, e: ResolvedEntry, p: Seq<char>)
    requires
        0 <= idx <= s.len(),
        forall|j: int| 0 <= j < idx ==> #[trigger] s[j].path@ != e.path@,
    ensures
        seq_lookup(s.insert(idx, e), p) == if p == e.path@ {
            Some((e.entry_kind, e.kind))
        } else {
            seq_lookup(s, p)
        },
    decreases idx,
{
    let t = s.insert(idx, e);
    if idx == 0 {
        assert(t[0] == e);
        assert(t.drop_first() =~= s);
    } else {
        assert(t[0] == s[0]);
        assert(t.drop_first() =~= s.drop_first().insert(idx - 1, e));
        assert forall|j: int| 0 <= j < idx - 1 implies #[trigger] s.drop_first()[j].path@
            != e.path@ by {
            assert(s.drop_first()[j] == s[j + 1]);
        }
        lemma_lookup_insert(s.drop_first(), idx - 1, e, p);
    }
}

} // verus!
