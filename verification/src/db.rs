//! The record store: one record per key, with insert-or-update writes that
//! keep the first write's creation time and take the latest write's update
//! time.

use vstd::prelude::*;

use crate::CoreError;
use vstd::string::StringSliceAdditionalSpecFns;
use vstd::utf8::decode_utf8;
use vstd::utf8::encode_utf8;

verus! {

/// One stored record: a key, the stored bytes, and the two timestamps in
/// epoch seconds.
pub struct StoredRecord {
    pub key: String,
    pub value: Vec<u8>,
    pub created_at: i64,
    pub updated_at: i64,
}

/// What a record holds, key aside.
pub ghost struct RecordInfo {
    pub value: Seq<u8>,
    pub created_at: int,
    pub updated_at: int,
}

/// The information a record carries.
pub open spec fn info_of(r: StoredRecord) -> RecordInfo {
    RecordInfo { value: r.value@, created_at: r.created_at as int, updated_at: r.updated_at as int }
}

/// The map that a row sequence holds: each key to the information of its
/// record.
pub open spec fn rows_map(rows: Seq<StoredRecord>) -> Map<Seq<char>, RecordInfo>
    decreases rows.len(),
{
    if rows.len() == 0 {
        Map::empty()
    } else {
        rows_map(rows.drop_last()).insert(rows.last().key@, info_of(rows.last()))
    }
}

/// No two rows share a key.
pub open spec fn distinct_keys(rows: Seq<StoredRecord>) -> bool {
    forall|i: int, j: int| 0 <= i < j < rows.len() ==> rows[i].key@ != rows[j].key@
}

/// Insert-or-update on the map level: the value and the update time are the
/// write's; the creation time stays what it was, or is the write's on a first
/// insert.
pub open spec fn upsert(
    m: Map<Seq<char>, RecordInfo>,
    k: Seq<char>,
    v: Seq<u8>,
    t: int,
) -> Map<Seq<char>, RecordInfo> {
    let created = if m.contains_key(k) {
        m[k].created_at
    } else {
        t
    };
    m.insert(k, RecordInfo { value: v, created_at: created, updated_at: t })
}

/// Writing a key twice: the second write keeps the creation time the first
/// write set, and carries the second write's value and update time.
pub proof fn lemma_upsert_timestamps(
    m: Map<Seq<char>, RecordInfo>,
    k: Seq<char>,
    v1: Seq<u8>,
    t1: int,
    v2: Seq<u8>,
    t2: int,
)
    ensures
        upsert(upsert(m, k, v1, t1), k, v2, t2)[k].created_at == upsert(m, k, v1, t1)[k].created_at,
        upsert(upsert(m, k, v1, t1), k, v2, t2)[k].updated_at == t2,
        upsert(upsert(m, k, v1, t1), k, v2, t2)[k].value == v2,
{
}

/// A map holds a key exactly when some row carries it.
proof fn lemma_rows_map_contains(rows: Seq<StoredRecord>, k: Seq<char>)
    ensures
        rows_map(rows).contains_key(k) <==> exists|i: int|
            0 <= i < rows.len() && rows[i].key@ == k,
    decreases rows.len(),
{
    if rows.len() > 0 {
        lemma_rows_map_contains(rows.drop_last(), k);
        if rows.last().key@ == k {
            assert(rows[rows.len() - 1].key@ == k);
        } else if rows_map(rows.drop_last()).contains_key(k) {
            let i = choose|i: int| 0 <= i < rows.drop_last().len() && rows.drop_last()[i].key@
                == k;
            assert(rows[i].key@ == k);
        } else if exists|i: int| 0 <= i < rows.len() && rows[i].key@ == k {
            let i = choose|i: int| 0 <= i < rows.len() && rows[i].key@ == k;
            assert(rows.drop_last()[i].key@ == k);
        }
    }
}

/// With distinct keys, each row's key maps to that row's information.
proof fn lemma_rows_map_index(rows: Seq<StoredRecord>, i: int)
    requires
        distinct_keys(rows),
        0 <= i < rows.len(),
    ensures
        rows_map(rows).contains_key(rows[i].key@),
        rows_map(rows)[rows[i].key@] == info_of(rows[i]),
    decreases rows.len(),
{
    if i == rows.len() - 1 {
    } else {
        assert(distinct_keys(rows.drop_last()));
        lemma_rows_map_index(rows.drop_last(), i);
        assert(rows.last().key@ != rows[i].key@);
    }
}

/// Appending a row inserts its key.
proof fn lemma_rows_map_push(rows: Seq<StoredRecord>, r: StoredRecord)
    ensures
        rows_map(rows.push(r)) == rows_map(rows).insert(r.key@, info_of(r)),
{
    assert(rows.push(r).drop_last() =~= rows);
    assert(rows.push(r).last() == r);
}

/// Replacing a row by one with the same key overwrites that key's entry.
proof fn lemma_rows_map_update(rows: Seq<StoredRecord>, i: int, r: StoredRecord)
    requires
        distinct_keys(rows),
        0 <= i < rows.len(),
        r.key@ == rows[i].key@,
    ensures
        rows_map(rows.update(i, r)) == rows_map(rows).insert(r.key@, info_of(r)),
    decreases rows.len(),
{
    let updated = rows.update(i, r);
    if i == rows.len() - 1 {
        assert(updated.drop_last() =~= rows.drop_last());
        assert(updated.last() == r);
        assert(rows_map(rows).insert(r.key@, info_of(r)) =~= rows_map(rows.drop_last()).insert(
            r.key@,
            info_of(r),
        ));
    } else {
        assert(distinct_keys(rows.drop_last()));
        assert(updated.drop_last() =~= rows.drop_last().update(i, r));
        lemma_rows_map_update(rows.drop_last(), i, r);
        assert(updated.last() == rows.last());
        assert(rows.last().key@ != r.key@);
        assert(rows_map(rows.drop_last()).insert(r.key@, info_of(r)).insert(
            rows.last().key@,
            info_of(rows.last()),
        ) =~= rows_map(rows.drop_last()).insert(rows.last().key@, info_of(rows.last())).insert(
            r.key@,
            info_of(r),
        ));
    }
}

/// Whether two pieces of text are the same, decided byte by byte.
pub fn str_eq(a: &str, b: &str) -> (r: bool)
    ensures
        r == (a@ == b@),
{
    broadcast use vstd::utf8::encode_utf8_decode_utf8;

    let ab = a.as_bytes();
    let bb = b.as_bytes();
    if ab.len() != bb.len() {
        return false;
    }
    let mut i: usize = 0;
    while i < ab.len()
        invariant
            ab@ == a.spec_bytes(),
            bb@ == b.spec_bytes(),
            ab@.len() == bb@.len(),
            i <= ab@.len(),
            forall|j: int| 0 <= j < i ==> ab@[j] == bb@[j],
        decreases ab@.len() - i,
    {
        if ab[i] != bb[i] {
            return false;
        }
        i = i + 1;
    }
    proof {
        assert(a.spec_bytes() =~= b.spec_bytes());
        assert(decode_utf8(encode_utf8(a@)) == decode_utf8(encode_utf8(b@)));
    }
    true
}

/// Relies on `chrono::Utc::now`: the current UTC time in whole epoch seconds.
#[verifier::external_body]
fn now_timestamp() -> i64 {
    chrono::Utc::now().timestamp()
}

/// The record store. Records live in memory, one per key; writes are rejected
/// until the schema has been prepared, as a fresh backing store's would be.
pub struct Database {
    rows: Vec<StoredRecord>,
    schema_ready: bool,
}

impl View for Database {
    type V = Map<Seq<char>, RecordInfo>;

    closed spec fn view(&self) -> Map<Seq<char>, RecordInfo> {
        rows_map(self.rows@)
    }
}

impl Database {
    /// Keys are unique across the rows.
    pub closed spec fn wf(self) -> bool {
        distinct_keys(self.rows@)
    }

    /// Whether the schema has been prepared.
    pub closed spec fn schema_ready(self) -> bool {
        self.schema_ready
    }

    /// An open, empty store whose schema is not yet prepared.
    pub fn new() -> (r: Database)
        ensures
            r.wf(),
            !r.schema_ready(),
            r@ == Map::<Seq<char>, RecordInfo>::empty(),
    {
        Database { rows: Vec::new(), schema_ready: false }
    }

    /// Prepare the schema. Safe to call on every startup: never fails and
    /// never touches the records already held.
    pub fn init_schema(&mut self) -> (r: Result<(), CoreError>)
        ensures
            r == Ok::<(), CoreError>(()),
            final(self).schema_ready(),
            final(self)@ == old(self)@,
            final(self).wf() == old(self).wf(),
    {
        self.schema_ready = true;
        Ok(())
    }

    /// The row carrying `username`, if any.
    fn find_index(&self, username: &str) -> (r: Option<usize>)
        ensures
            match r {
                Some(i) => i < self.rows@.len() && self.rows@[i as int].key@ == username@,
                None => forall|i: int| 0 <= i < self.rows@.len() ==> self.rows@[i].key@
                    != username@,
            },
    {
        let mut i: usize = 0;
        while i < self.rows.len()
            invariant
                i <= self.rows@.len(),
                forall|j: int| 0 <= j < i ==> self.rows@[j].key@ != username@,
            decreases self.rows@.len() - i,
        {
            if str_eq(self.rows[i].key.as_str(), username) {
                return Some(i);
            }
            i = i + 1;
        }
        None
    }

    /// Write `schedule` under `username` with the given timestamp: insert on
    /// a first write, else overwrite the value and the update time and keep
    /// the creation time.
    pub fn store_schedule_at(
        &mut self,
        username: &str,
        schedule: &[u8],
        timestamp: i64,
    ) -> (r: Result<(), CoreError>)
        requires
            old(self).wf(),
        ensures
            final(self).wf(),
            final(self).schema_ready() == old(self).schema_ready(),
            !old(self).schema_ready() ==> r == Err::<(), CoreError>(CoreError::StorageError)
                && final(self)@ == old(self)@,
            old(self).schema_ready() ==> r == Ok::<(), CoreError>(()) && final(self)@ == upsert(
                old(self)@,
                username@,
                schedule@,
                timestamp as int,
            ),
    {
        if !self.schema_ready {
            return Err(CoreError::StorageError);
        }
        let value = vstd::slice::slice_to_vec(schedule);
        match self.find_index(username) {
            Some(i) => {
                let record = StoredRecord {
                    key: self.rows[i].key.clone(),
                    value,
                    created_at: self.rows[i].created_at,
                    updated_at: timestamp,
                };
                proof {
                    lemma_rows_map_index(self.rows@, i as int);
                    lemma_rows_map_contains(self.rows@, username@);
                    lemma_rows_map_update(self.rows@, i as int, record);
                }
                self.rows[i] = record;
                proof {
                    assert(distinct_keys(self.rows@));
                }
            },
            None => {
                let record = StoredRecord {
                    key: username.to_owned(),
                    value,
                    created_at: timestamp,
                    updated_at: timestamp,
                };
                proof {
                    lemma_rows_map_contains(self.rows@, username@);
                    lemma_rows_map_push(self.rows@, record);
                }
                self.rows.push(record);
                proof {
                    assert(distinct_keys(self.rows@));
                }
            },
        }
        Ok(())
    }

    /// Write `schedule` under `username`, timestamped with the clock's
    /// current reading.
    pub fn store_schedule(&mut self, username: &str, schedule: &[u8]) -> (r: Result<
        (),
        CoreError,
    >)
        requires
            old(self).wf(),
        ensures
            final(self).wf(),
            final(self).schema_ready() == old(self).schema_ready(),
            !old(self).schema_ready() ==> r == Err::<(), CoreError>(CoreError::StorageError)
                && final(self)@ == old(self)@,
            old(self).schema_ready() ==> r == Ok::<(), CoreError>(()) && exists|t: int|
                final(self)@ == upsert(old(self)@, username@, schedule@, t),
    {
        let timestamp = now_timestamp();
        let r = self.store_schedule_at(username, schedule, timestamp);
        proof {
            if old(self).schema_ready() {
                assert(self@ == upsert(old(self)@, username@, schedule@, timestamp as int));
            }
        }
        r
    }

    /// The creation and update times stored under `username`, or nothing
    /// when the key was never written.
    pub fn get_timestamps(&self, username: &str) -> (r: Result<Option<(i64, i64)>, CoreError>)
        requires
            self.wf(),
        ensures
            !self.schema_ready() ==> r == Err::<Option<(i64, i64)>, CoreError>(
                CoreError::StorageError,
            ),
            self.schema_ready() ==> match r {
                Ok(Some(times)) => self@.contains_key(username@) && times.0
                    == self@[username@].created_at && times.1 == self@[username@].updated_at,
                Ok(None) => !self@.contains_key(username@),
                Err(_) => false,
            },
    {
        if !self.schema_ready {
            return Err(CoreError::StorageError);
        }
        match self.find_index(username) {
            Some(i) => {
                proof {
                    lemma_rows_map_index(self.rows@, i as int);
                }
                Ok(Some((self.rows[i].created_at, self.rows[i].updated_at)))
            },
            None => {
                proof {
                    lemma_rows_map_contains(self.rows@, username@);
                }
                Ok(None)
            },
        }
    }

    /// The bytes stored under `username`, or nothing when the key was never
    /// written; never an error on an absent key.
    pub fn get_schedule(&self, username: &str) -> (r: Result<Option<Vec<u8>>, CoreError>)
        requires
            self.wf(),
        ensures
            !self.schema_ready() ==> r == Err::<Option<Vec<u8>>, CoreError>(
                CoreError::StorageError,
            ),
            self.schema_ready() ==> match r {
                Ok(Some(v)) => self@.contains_key(username@) && v@ == self@[username@].value,
                Ok(None) => !self@.contains_key(username@),
                Err(_) => false,
            },
    {
        if !self.schema_ready {
            return Err(CoreError::StorageError);
        }
        match self.find_index(username) {
            Some(i) => {
                proof {
                    lemma_rows_map_index(self.rows@, i as int);
                }
                Ok(Some(vstd::slice::slice_to_vec(self.rows[i].value.as_slice())))
            },
            None => {
                proof {
                    lemma_rows_map_contains(self.rows@, username@);
                }
                Ok(None)
            },
        }
    }
}

} // verus!
