//! The transcription history: an ordered store of finished runs.
//!
//! Records are kept newest first (by creation time); pruning keeps the
//! configured number of most recent records and evicts the rest.  The store
//! itself is in memory; persistence is a concern of the surrounding
//! application, which mirrors these operations.

use vstd::prelude::*;
use crate::error::AppError;
use crate::text::str_eq;

verus! {

/// One persisted transcription run.
#[derive(Debug)]
pub struct TranscriptionRecord {
    /// Unique identifier of the record.
    pub id: String,
    /// The transcript as the recognizer produced it.
    pub raw_text: String,
    /// The transcript after cleanup (equal to `raw_text` when cleanup failed).
    pub cleaned_text: String,
    /// Creation time, in milliseconds since the epoch.
    pub created_at_millis: u64,
    /// Processing time of the run, in milliseconds.
    pub duration_millis: u64,
    /// Name of the recognition model that produced the transcript.
    pub model_used: String,
}

impl Clone for TranscriptionRecord {
    /// Field-for-field copy.
    fn clone(&self) -> (r: Self)
        ensures
            r == self,
    {
        TranscriptionRecord {
            id: self.id.clone(),
            raw_text: self.raw_text.clone(),
            cleaned_text: self.cleaned_text.clone(),
            created_at_millis: self.created_at_millis,
            duration_millis: self.duration_millis,
            model_used: self.model_used.clone(),
        }
    }
}

/// Newest first: creation times never increase along the sequence.
pub open spec fn sorted_newest_first(s: Seq<TranscriptionRecord>) -> bool {
    forall|i: int, j: int|
        0 <= i < j < s.len() ==> #[trigger] s[i].created_at_millis >= #[trigger] s[
            j
        ].created_at_millis
}

/// Position at which a record created at `ts` is inserted to keep the
/// sequence newest first: before the first record that is not newer.
pub open spec fn insert_pos(s: Seq<TranscriptionRecord>, ts: u64) -> int
    decreases s.len(),
{
    if s.len() == 0 {
        0
    } else if s[0].created_at_millis <= ts {
        0
    } else {
        1 + insert_pos(s.drop_first(), ts)
    }
}

/// `insert_pos` is the first index whose record is not newer than `ts`.
proof fn lemma_insert_pos_characterization(s: Seq<TranscriptionRecord>, ts: u64)
    ensures
        0 <= insert_pos(s, ts) <= s.len(),
        forall|k: int| 0 <= k < insert_pos(s, ts) ==> #[trigger] s[k].created_at_millis > ts,
        insert_pos(s, ts) < s.len() ==> s[insert_pos(s, ts)].created_at_millis <= ts,
    decreases s.len(),
{
    if s.len() > 0 && s[0].created_at_millis > ts {
        lemma_insert_pos_characterization(s.drop_first(), ts);
        assert(forall|k: int|
            1 <= k < insert_pos(s, ts) ==> #[trigger] s[k].created_at_millis == s.drop_first()[k
                - 1].created_at_millis);
    }
}

/// The in-memory history store, newest record first.
pub struct HistoryDb {
    records: Vec<TranscriptionRecord>,
}

impl View for HistoryDb {
    type V = Seq<TranscriptionRecord>;

    closed spec fn view(&self) -> Seq<TranscriptionRecord> {
        self.records@
    }
}

impl HistoryDb {
    /// The store keeps its records ordered newest first.
    pub open spec fn wf(&self) -> bool {
        sorted_newest_first(self@)
    }

    /// An empty store.
    pub fn new() -> (r: Self)
        ensures
            r@ == Seq::<TranscriptionRecord>::empty(),
            r.wf(),
    {
        HistoryDb { records: Vec::new() }
    }

    /// Insert a record at its ordered position (before existing records of
    /// the same creation time).
    pub fn insert(&mut self, record: &TranscriptionRecord) -> (r: Result<(), AppError>)
        requires
            old(self).wf(),
        ensures
            r is Ok,
            final(self)@ == old(self)@.insert(
                insert_pos(old(self)@, record.created_at_millis),
                *record,
            ),
            final(self).wf(),
    {
        proof {
            lemma_insert_pos_characterization(self@, record.created_at_millis);
        }
        let ghost s = self@;
        let ghost pos = insert_pos(s, record.created_at_millis);
        let mut i: usize = 0;
        while i < self.records.len() && self.records[i].created_at_millis
            > record.created_at_millis
            invariant
                self@ == s,
                0 <= i <= s.len(),
                forall|k: int| 0 <= k < i ==> #[trigger] s[k].created_at_millis
                    > record.created_at_millis,
            decreases s.len() - i,
        {
            i = i + 1;
        }
        proof {
            if i < pos {
                assert(s[i as int].created_at_millis > record.created_at_millis);
            }
            assert(i == pos);
        }
        self.records.insert(i, record.clone());
        proof {
            let t = self@;
            assert forall|a: int, b: int| 0 <= a < b < t.len() implies #[trigger] t[
                a
            ].created_at_millis >= #[trigger] t[b].created_at_millis by {
                if a < pos && b == pos {
                    assert(t[a] == s[a]);
                } else if a == pos && b > pos {
                    assert(t[b] == s[b - 1]);
                } else if a < pos && b > pos {
                    assert(t[a] == s[a] && t[b] == s[b - 1]);
                } else if a > pos && b > pos {
                    assert(t[a] == s[a - 1] && t[b] == s[b - 1]);
                } else if a < pos && b < pos {
                    assert(t[a] == s[a] && t[b] == s[b]);
                }
            }
        }
        Ok(())
    }

    /// All records, newest first.
    pub fn list(&self) -> (r: Result<Vec<TranscriptionRecord>, AppError>)
        ensures
            r matches Ok(v) && v@ == self@,
    {
        let mut out: Vec<TranscriptionRecord> = Vec::new();
        let mut i: usize = 0;
        while i < self.records.len()
            invariant
                0 <= i <= self@.len(),
                out@.len() == i,
                forall|k: int| 0 <= k < i ==> out@[k] == self@[k],
            decreases self@.len() - i,
        {
            out.push(self.records[i].clone());
            i = i + 1;
        }
        proof {
            assert(out@ =~= self@);
        }
        Ok(out)
    }

    /// Remove every record carrying `id`, keeping the order of the rest.
    pub fn delete(&mut self, id: &str) -> (r: Result<(), AppError>)
        requires
            old(self).wf(),
        ensures
            r is Ok,
            final(self)@ == old(self)@.filter(|rec: TranscriptionRecord| rec.id@ != id@),
            final(self).wf(),
    {
        let ghost s = self@;
        let ghost pred = |rec: TranscriptionRecord| rec.id@ != id@;
        let mut out: Vec<TranscriptionRecord> = Vec::new();
        let mut i: usize = 0;
        proof {
            reveal(Seq::filter);
            assert(s.take(0) =~= Seq::<TranscriptionRecord>::empty());
            assert(Seq::<TranscriptionRecord>::empty().filter(pred)
                =~= Seq::<TranscriptionRecord>::empty());
        }
        while i < self.records.len()
            invariant
                self@ == s,
                pred == (|rec: TranscriptionRecord| rec.id@ != id@),
                0 <= i <= s.len(),
                out@ == s.take(i as int).filter(pred),
            decreases s.len() - i,
        {
            let keep = !str_eq(self.records[i].id.as_str(), id);
            proof {
                s.take(i as int).lemma_filter_push(s[i as int], pred);
                assert(s.take(i + 1) =~= s.take(i as int).push(s[i as int]));
                assert(keep == pred(s[i as int]));
                assert(s.take(i + 1).filter(pred) == (if pred(s[i as int]) {
                    s.take(i as int).filter(pred).push(s[i as int])
                } else {
                    s.take(i as int).filter(pred)
                }));
            }
            if keep {
                out.push(self.records[i].clone());
            }
            i = i + 1;
        }
        proof {
            assert(s.take(s.len() as int) =~= s);
            lemma_filter_keeps_order(s, pred);
        }
        self.records = out;
        Ok(())
    }

    /// Empty the store.
    pub fn clear_all(&mut self) -> (r: Result<(), AppError>)
        ensures
            r is Ok,
            final(self)@ == Seq::<TranscriptionRecord>::empty(),
            final(self).wf(),
    {
        self.records.clear();
        Ok(())
    }

    /// Keep the `max_items` most recent records and evict the rest.
    pub fn prune(&mut self, max_items: usize) -> (r: Result<(), AppError>)
        requires
            old(self).wf(),
        ensures
            r is Ok,
            final(self)@ == old(self)@.take(
                if max_items <= old(self)@.len() {
                    max_items as int
                } else {
                    old(self)@.len() as int
                },
            ),
            final(self).wf(),
    {
        let ghost s = self@;
        self.records.truncate(max_items);
        proof {
            if max_items > s.len() {
                assert(self@ =~= s.take(s.len() as int));
            }
        }
        Ok(())
    }
}

/// Filtering keeps the newest-first order.
proof fn lemma_filter_keeps_order(
    s: Seq<TranscriptionRecord>,
    pred: spec_fn(TranscriptionRecord) -> bool,
)
    requires
        sorted_newest_first(s),
    ensures
        sorted_newest_first(s.filter(pred)),
        forall|k: int|
            0 <= k < s.filter(pred).len() && s.len() > 0 ==> #[trigger] s.filter(
                pred,
            )[k].created_at_millis >= s.last().created_at_millis,
    decreases s.len(),
{
    reveal(Seq::filter);
    if s.len() > 0 {
        let t = s.drop_last();
        assert(sorted_newest_first(t));
        lemma_filter_keeps_order(t, pred);
        let f = s.filter(pred);
        let ft = t.filter(pred);
        if t.len() > 0 {
            assert(t.last() == s[s.len() - 2]);
            assert(t.last().created_at_millis >= s.last().created_at_millis);
        }
        if pred(s.last()) {
            assert(f == ft.push(s.last()));
            assert forall|a: int, b: int| 0 <= a < b < f.len() implies #[trigger] f[
                a
            ].created_at_millis >= #[trigger] f[b].created_at_millis by {
                if b < f.len() - 1 {
                    assert(f[a] == ft[a] && f[b] == ft[b]);
                } else {
                    assert(f[b] == s.last());
                    assert(f[a] == ft[a]);
                }
            }
        } else {
            assert(f == ft);
        }
    }
}

/// Pruning to `m` records keeps exactly the `m` most recent: every kept
/// record is at least as recent as every evicted one.
pub proof fn lemma_prune_keeps_most_recent(s: Seq<TranscriptionRecord>, m: int)
    requires
        sorted_newest_first(s),
        0 <= m <= s.len(),
    ensures
        s.take(m).len() == m,
        forall|i: int, j: int|
            0 <= i < m && m <= j < s.len() ==> #[trigger] s.take(m)[i].created_at_millis
                >= #[trigger] s[j].created_at_millis,
{
}

} // verus!
