//! The stored node rows and the reconciler.
//!
//! The relational store keeps one row per identity key. `NodeStore`
//! models it as a vector of rows with pairwise-distinct keys, viewed as
//! a map from key to row contents. `reconcile` applies a fetched batch
//! as one bulk upsert: a record whose key is new inserts a row, a record
//! whose key exists overwrites that row's alias, capacity and first-seen
//! in place, the last occurrence of a key in the batch winning; rows
//! whose key the batch does not carry are never touched, and rows are
//! never deleted. The laws at the end state these upsert properties
//! once and for all batches.

use vstd::prelude::*;

use crate::records::RemoteNodeRecord;

verus! {

/// A persisted node row.
pub struct StoredNodeRow {
    /// Identity key: the node's public key, unique in the store.
    pub public_key: String,
    pub alias: String,
    /// Capacity in satoshis; the store serves it in bitcoin.
    pub capacity_sats: Option<u64>,
    /// First-seen instant in Unix epoch seconds.
    pub first_seen_epoch: u64,
}

/// The contents of a row apart from its key, at the spec level.
pub struct RowData {
    pub alias: Seq<char>,
    pub capacity_sats: Option<u64>,
    pub first_seen_epoch: u64,
}

pub open spec fn row_data(row: StoredNodeRow) -> RowData {
    RowData {
        alias: row.alias@,
        capacity_sats: row.capacity_sats,
        first_seen_epoch: row.first_seen_epoch,
    }
}

/// The row that reconciling a record writes: alias and key carried
/// over, capacity kept in satoshis, first-seen kept in epoch seconds.
pub open spec fn row_of_record(rec: RemoteNodeRecord) -> RowData {
    RowData {
        alias: rec.alias@,
        capacity_sats: Some(rec.capacity),
        first_seen_epoch: rec.first_seen,
    }
}

pub open spec fn keys_unique(rows: Seq<StoredNodeRow>) -> bool {
    forall|i: int, j: int|
        0 <= i < j < rows.len() ==> (#[trigger] rows[i].public_key@) != (#[trigger] rows[j].public_key@)
}

/// The map a row sequence denotes; on a sequence with distinct keys,
/// each key maps to its one row's contents.
pub open spec fn rows_map(rows: Seq<StoredNodeRow>) -> Map<Seq<char>, RowData>
    decreases rows.len(),
{
    if rows.len() == 0 {
        Map::empty()
    } else {
        rows_map(rows.drop_last()).insert(rows.last().public_key@, row_data(rows.last()))
    }
}

/// The store model: all persisted node rows.
pub struct NodeStore {
    pub rows: Vec<StoredNodeRow>,
}

impl View for NodeStore {
    type V = Map<Seq<char>, RowData>;

    open spec fn view(&self) -> Map<Seq<char>, RowData> {
        rows_map(self.rows@)
    }
}

impl NodeStore {
    /// The identity key uniquely determines at most one row.
    pub open spec fn wf(self) -> bool {
        keys_unique(self.rows@)
    }

    /// An empty store.
    pub fn new() -> (r: NodeStore)
        ensures
            r.wf(),
            r@ == Map::<Seq<char>, RowData>::empty(),
    {
        NodeStore { rows: Vec::new() }
    }
}

/// The map after upserting a batch in order: each record inserts or
/// overwrites the row of its key, the last occurrence of a key winning.
pub open spec fn upsert_map(
    m: Map<Seq<char>, RowData>,
    recs: Seq<RemoteNodeRecord>,
) -> Map<Seq<char>, RowData>
    decreases recs.len(),
{
    if recs.len() == 0 {
        m
    } else {
        upsert_map(m, recs.drop_last()).insert(
            recs.last().public_key@,
            row_of_record(recs.last()),
        )
    }
}

pub open spec fn batch_has_key(recs: Seq<RemoteNodeRecord>, k: Seq<char>) -> bool {
    exists|i: int| 0 <= i < recs.len() && (#[trigger] recs[i].public_key@) == k
}

/// The row the batch writes under key `k`: the last record with that
/// key. Meaningful only when the batch has the key.
pub open spec fn batch_row(recs: Seq<RemoteNodeRecord>, k: Seq<char>) -> RowData
    decreases recs.len(),
{
    if recs.len() > 0 && recs.last().public_key@ == k {
        row_of_record(recs.last())
    } else if recs.len() > 0 {
        batch_row(recs.drop_last(), k)
    } else {
        arbitrary()
    }
}

/// What a bulk upsert does, key by key: a key the batch carries holds
/// its last record's row; every other key is exactly as before.
pub proof fn lemma_upsert_map_lookup(
    m: Map<Seq<char>, RowData>,
    recs: Seq<RemoteNodeRecord>,
    k: Seq<char>,
)
    ensures
        upsert_map(m, recs).contains_key(k) <==> (m.contains_key(k) || batch_has_key(recs, k)),
        batch_has_key(recs, k) ==> upsert_map(m, recs)[k] == batch_row(recs, k),
        !batch_has_key(recs, k) && m.contains_key(k) ==> upsert_map(m, recs)[k] == m[k],
    decreases recs.len(),
{
    if recs.len() == 0 {
        assert(!batch_has_key(recs, k));
    } else {
        let d = recs.drop_last();
        lemma_upsert_map_lookup(m, d, k);
        if recs.last().public_key@ == k {
            assert(batch_has_key(recs, k)) by {
                assert(recs[recs.len() - 1].public_key@ == k);
            }
        } else {
            assert(batch_has_key(recs, k) <==> batch_has_key(d, k)) by {
                if batch_has_key(recs, k) {
                    let i = choose|i: int|
                        0 <= i < recs.len() && (#[trigger] recs[i].public_key@) == k;
                    assert(i < recs.len() - 1);
                    assert(d[i].public_key@ == k);
                }
                if batch_has_key(d, k) {
                    let i = choose|i: int| 0 <= i < d.len() && (#[trigger] d[i].public_key@) == k;
                    assert(recs[i].public_key@ == k);
                }
            }
        }
    }
}

proof fn lemma_keys_unique_drop_last(rows: Seq<StoredNodeRow>)
    requires
        rows.len() > 0,
        keys_unique(rows),
    ensures
        keys_unique(rows.drop_last()),
{
    assert forall|i: int, j: int| 0 <= i < j < rows.drop_last().len() implies (
    #[trigger] rows.drop_last()[i].public_key@) != (#[trigger] rows.drop_last()[j].public_key@) by {
        assert(rows.drop_last()[i] == rows[i]);
        assert(rows.drop_last()[j] == rows[j]);
    }
}

/// Overwriting the one row that holds a key updates the denoted map in
/// place.
proof fn lemma_rows_map_update(rows: Seq<StoredNodeRow>, j: int, r: StoredNodeRow)
    requires
        0 <= j < rows.len(),
        keys_unique(rows),
        rows[j].public_key@ == r.public_key@,
    ensures
        rows_map(rows.update(j, r)) == rows_map(rows).insert(r.public_key@, row_data(r)),
    decreases rows.len(),
{
    let u = rows.update(j, r);
    let d = rows.drop_last();
    if j == rows.len() - 1 {
        assert(u.drop_last() =~= d);
        assert(u.last() == r);
        assert(rows_map(d).insert(rows.last().public_key@, row_data(rows.last())).insert(
            r.public_key@,
            row_data(r),
        ) =~= rows_map(d).insert(r.public_key@, row_data(r)));
    } else {
        lemma_keys_unique_drop_last(rows);
        assert(u.drop_last() =~= d.update(j, r));
        assert(u.last() == rows.last());
        lemma_rows_map_update(d, j, r);
        assert(rows.last().public_key@ != r.public_key@) by {
            assert(rows[j].public_key@ != rows[rows.len() - 1].public_key@);
        }
        assert(rows_map(d).insert(r.public_key@, row_data(r)).insert(
            rows.last().public_key@,
            row_data(rows.last()),
        ) =~= rows_map(d).insert(rows.last().public_key@, row_data(rows.last())).insert(
            r.public_key@,
            row_data(r),
        ));
    }
}

impl NodeStore {
    /// Inserts or overwrites the row of one record's key.
    fn upsert_row(&mut self, rec: &RemoteNodeRecord)
        requires
            old(self).wf(),
        ensures
            final(self).wf(),
            final(self)@ == old(self)@.insert(rec.public_key@, row_of_record(*rec)),
    {
        let n = self.rows.len();
        let mut j: usize = 0;
        while j < n
            invariant
                *self == *old(self),
                self.wf(),
                n == self.rows.len(),
                j <= n,
                forall|i: int| 0 <= i < j ==> (#[trigger] self.rows@[i].public_key@)
                    != rec.public_key@,
            decreases n - j,
        {
            if self.rows[j].public_key == rec.public_key {
                let new_row = StoredNodeRow {
                    public_key: rec.public_key.clone(),
                    alias: rec.alias.clone(),
                    capacity_sats: Some(rec.capacity),
                    first_seen_epoch: rec.first_seen,
                };
                proof {
                    lemma_rows_map_update(self.rows@, j as int, new_row);
                }
                let ghost before = self.rows@;
                self.rows.set(j, new_row);
                proof {
                    assert(row_data(new_row) == row_of_record(*rec));
                    assert forall|i1: int, i2: int|
                        0 <= i1 < i2 < self.rows@.len() implies (
                    #[trigger] self.rows@[i1].public_key@) != (
                    #[trigger] self.rows@[i2].public_key@) by {
                        assert(before[i1].public_key@ != before[i2].public_key@);
                    }
                }
                return;
            }
            j += 1;
        }
        let new_row = StoredNodeRow {
            public_key: rec.public_key.clone(),
            alias: rec.alias.clone(),
            capacity_sats: Some(rec.capacity),
            first_seen_epoch: rec.first_seen,
        };
        let ghost before = self.rows@;
        self.rows.push(new_row);
        proof {
            assert(self.rows@.drop_last() =~= before);
            assert(self.rows@.last() == new_row);
            assert(row_data(new_row) == row_of_record(*rec));
            assert forall|i1: int, i2: int| 0 <= i1 < i2 < self.rows@.len() implies (
            #[trigger] self.rows@[i1].public_key@) != (#[trigger] self.rows@[i2].public_key@) by {
                if i2 < before.len() {
                    assert(before[i1].public_key@ != before[i2].public_key@);
                } else {
                    assert(before[i1].public_key@ != rec.public_key@);
                }
            }
        }
    }

    /// Applies a fetched batch to the store as one bulk upsert.
    ///
    /// Each record inserts or refreshes the row of its key; rows whose
    /// key is absent from the batch stay untouched; an empty batch
    /// changes nothing. The write itself always succeeds here — the
    /// result mirrors the store interface, whose backend may reject a
    /// batch.
    pub fn reconcile(&mut self, records: &Vec<RemoteNodeRecord>) -> (r: Result<
        (),
        crate::records::PersistError,
    >)
        requires
            old(self).wf(),
        ensures
            final(self).wf(),
            final(self)@ == upsert_map(old(self)@, records@),
            r is Ok,
    {
        let ghost m0 = old(self)@;
        let n = records.len();
        let mut i: usize = 0;
        while i < n
            invariant
                m0 == old(self)@,
                n == records@.len(),
                i <= n,
                self.wf(),
                self@ == upsert_map(m0, records@.take(i as int)),
            decreases n - i,
        {
            self.upsert_row(&records[i]);
            proof {
                let t = records@.take(i + 1 as int);
                assert(t.drop_last() =~= records@.take(i as int));
                assert(t.last() == records@[i as int]);
            }
            i += 1;
        }
        proof {
            assert(records@.take(n as int) =~= records@);
        }
        Ok(())
    }
}

/// Reconciling an empty batch leaves the store unchanged.
pub proof fn lemma_reconcile_empty(m: Map<Seq<char>, RowData>)
    ensures
        upsert_map(m, Seq::empty()) == m,
{
}

/// Reconciling a batch with one new key inserts exactly that one row,
/// with the record's alias, capacity and first-seen.
pub proof fn lemma_reconcile_new_key(m: Map<Seq<char>, RowData>, rec: RemoteNodeRecord)
    requires
        !m.contains_key(rec.public_key@),
    ensures
        upsert_map(m, seq![rec]) == m.insert(rec.public_key@, row_of_record(rec)),
        upsert_map(m, seq![rec]).dom() == m.dom().insert(rec.public_key@),
{
    assert(upsert_map(m, Seq::<RemoteNodeRecord>::empty()) == m);
    assert(seq![rec].drop_last() =~= Seq::<RemoteNodeRecord>::empty());
    assert(seq![rec].last() == rec);
    assert(upsert_map(m, seq![rec]) == m.insert(rec.public_key@, row_of_record(rec)));
    assert(upsert_map(m, seq![rec]).dom() =~= m.dom().insert(rec.public_key@));
}

/// Reconciling a key again overwrites its row in place: the store ends
/// as if only the later record had ever been applied, and no duplicate
/// row can arise.
pub proof fn lemma_reconcile_overwrite(
    m: Map<Seq<char>, RowData>,
    r1: RemoteNodeRecord,
    r2: RemoteNodeRecord,
)
    requires
        r1.public_key@ == r2.public_key@,
    ensures
        upsert_map(upsert_map(m, seq![r1]), seq![r2]) == upsert_map(m, seq![r2]),
{
    assert(upsert_map(m, Seq::<RemoteNodeRecord>::empty()) == m);
    let u1 = upsert_map(m, seq![r1]);
    assert(upsert_map(u1, Seq::<RemoteNodeRecord>::empty()) == u1);
    assert(seq![r1].drop_last() =~= Seq::<RemoteNodeRecord>::empty());
    assert(seq![r2].drop_last() =~= Seq::<RemoteNodeRecord>::empty());
    assert(seq![r1].last() == r1);
    assert(seq![r2].last() == r2);
    assert(u1 == m.insert(r1.public_key@, row_of_record(r1)));
    assert(m.insert(r1.public_key@, row_of_record(r1)).insert(r2.public_key@, row_of_record(r2))
        =~= m.insert(r2.public_key@, row_of_record(r2)));
}

/// Reconciling the same batch twice is the same as reconciling it
/// once: the upsert is idempotent under repeated identical input.
pub proof fn lemma_reconcile_idempotent(m: Map<Seq<char>, RowData>, recs: Seq<RemoteNodeRecord>)
    ensures
        upsert_map(upsert_map(m, recs), recs) == upsert_map(m, recs),
{
    let u1 = upsert_map(m, recs);
    let u2 = upsert_map(u1, recs);
    assert forall|k: Seq<char>| #[trigger]
        u2.contains_key(k) == u1.contains_key(k) && (u1.contains_key(k) ==> u2[k] == u1[k]) by {
        lemma_upsert_map_lookup(m, recs, k);
        lemma_upsert_map_lookup(u1, recs, k);
    }
    assert(u2 =~= u1) by {
        assert forall|k: Seq<char>| u2.contains_key(k) == u1.contains_key(k) && (u1.contains_key(k)
            ==> u2[k] == u1[k]) by {
            lemma_upsert_map_lookup(m, recs, k);
            lemma_upsert_map_lookup(u1, recs, k);
        }
    }
}

/// A row whose key the batch does not carry is never touched by a
/// reconciliation: present exactly as before, with the same contents.
pub proof fn lemma_reconcile_preserves_absent(
    m: Map<Seq<char>, RowData>,
    recs: Seq<RemoteNodeRecord>,
    k: Seq<char>,
)
    requires
        !batch_has_key(recs, k),
    ensures
        upsert_map(m, recs).contains_key(k) <==> m.contains_key(k),
        m.contains_key(k) ==> upsert_map(m, recs)[k] == m[k],
{
    lemma_upsert_map_lookup(m, recs, k);
}

} // verus!
