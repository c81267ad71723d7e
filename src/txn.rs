use crate::cursor::Cursor;
use crate::engine::{
    begin_read, ro_commit, rw_db_flags, rw_flags, ro_contents, ro_cursor, ro_get, rw_commit, rw_contents, rw_cursor,
    rw_del, rw_get, rw_put,
};
use crate::config::DUP_SORT;
use crate::error::KvError;
use crate::store::Bucket;
use crate::types::{Key, Value};
use vstd::prelude::*;

verus! {

/// Where a transaction is in its life.
#[derive(Debug, Clone, Copy, PartialEq, Eq, Structural)]
pub enum TxnStatus {
    /// Open for reading only.
    ReadOnly,
    /// Open for reading and writing.
    ReadWrite,
    /// Committed; no further use.
    Committed,
    /// Aborted; no further use.
    Aborted,
}

impl TxnStatus {
    /// Whether a transaction in this status may still be used.
    pub open spec fn is_active(self) -> bool {
        self == TxnStatus::ReadOnly || self == TxnStatus::ReadWrite
    }
}

enum Handle<'env> {
    Read(lmdb::RoTransaction<'env>),
    Write(lmdb::RwTransaction<'env>),
    Committed,
    Aborted,
}

/// A transaction on one environment: read-only or read-write while active,
/// then committed or aborted.
pub struct Txn<'env> {
    handle: Handle<'env>,
    // held by a write transaction while it is active; dropped after `handle`
    writer: Option<std::sync::MutexGuard<'env, ()>>,
}

/// The bucket contents after a successful `set` of `key` to `value`: the key
/// is present, the other keys keep their values, and a key that was absent
/// holds exactly `value`.
pub open spec fn set_result(
    before: Map<Seq<u8>, Seq<u8>>,
    after: Map<Seq<u8>, Seq<u8>>,
    key: Seq<u8>,
    value: Seq<u8>,
) -> bool {
    &&& after.contains_key(key)
    &&& (!before.contains_key(key) ==> after[key] == value)
    &&& after.remove(key) == before.remove(key)
}

/// In a bucket that does not hold `key`, a successful `set` of `key` to
/// `value` makes a later `get` of `key` in the same transaction see exactly
/// `value`, never a missing key; a successful `del` of `key` after that makes
/// the key missing again.
pub proof fn set_then_get(
    before: Map<Seq<u8>, Seq<u8>>,
    after: Map<Seq<u8>, Seq<u8>>,
    key: Seq<u8>,
    value: Seq<u8>,
)
    requires
        !before.contains_key(key),
        set_result(before, after, key, value),
    ensures
        after.contains_key(key),
        after[key] == value,
        !after.remove(key).contains_key(key),
        after.remove(key) == before,
{
    assert(before.remove(key) =~= before);
}

impl<'env> Txn<'env> {
    /// The status of this transaction.
    pub closed spec fn spec_status(&self) -> TxnStatus {
        match self.handle {
            Handle::Read(_) => TxnStatus::ReadOnly,
            Handle::Write(_) => TxnStatus::ReadWrite,
            Handle::Committed => TxnStatus::Committed,
            Handle::Aborted => TxnStatus::Aborted,
        }
    }

    /// What this transaction sees in the database `db`: each key with the
    /// value a lookup returns. Empty once the transaction has ended.
    pub closed spec fn contents(&self, db: lmdb::Database) -> Map<Seq<u8>, Seq<u8>> {
        match self.handle {
            Handle::Read(t) => ro_contents(t, db),
            Handle::Write(t) => rw_contents(t, db),
            _ => Map::empty(),
        }
    }

    /// The option flags of the database `db` as a write transaction sees
    /// them; zero for any other transaction.
    pub closed spec fn db_flags(&self, db: lmdb::Database) -> u32 {
        match self.handle {
            Handle::Write(t) => rw_flags(t, db),
            _ => 0,
        }
    }

    /// The option flags of `bucket`'s database, read within this write
    /// transaction.
    pub fn bucket_db_flags<'a, K: Key, V: Value<'a>>(&self, bucket: &Bucket<'a, K, V>) -> (r: Result<
        u32,
        KvError,
    >)
        ensures
            self.spec_status() == TxnStatus::ReadWrite && r is Ok ==> r->Ok_0 == self.db_flags(
                bucket.spec_db(),
            ),
            self.spec_status() == TxnStatus::ReadOnly ==> r is Err && r->Err_0 is ReadOnly,
            !self.spec_status().is_active() ==> r is Err && r->Err_0 is TransactionState,
    {
        match &self.handle {
            Handle::Write(t) => rw_db_flags(t, bucket.db()),
            Handle::Read(_) => Err(KvError::ReadOnly),
            _ => Err(KvError::TransactionState),
        }
    }

    pub(crate) fn read_only(t: lmdb::RoTransaction<'env>) -> (r: Txn<'env>)
        ensures
            r.spec_status() == TxnStatus::ReadOnly,
            forall|db: lmdb::Database| #[trigger] r.contents(db) == ro_contents(t, db),
    {
        Txn { handle: Handle::Read(t), writer: None }
    }

    pub(crate) fn read_write(t: lmdb::RwTransaction<'env>, writer: std::sync::MutexGuard<'env, ()>) -> (r:
        Txn<'env>)
        ensures
            r.spec_status() == TxnStatus::ReadWrite,
            forall|db: lmdb::Database| #[trigger] r.contents(db) == rw_contents(t, db),
    {
        Txn { handle: Handle::Write(t), writer: Some(writer) }
    }

    /// The status of this transaction.
    pub fn status(&self) -> (r: TxnStatus)
        ensures
            r == self.spec_status(),
    {
        match &self.handle {
            Handle::Read(_) => TxnStatus::ReadOnly,
            Handle::Write(_) => TxnStatus::ReadWrite,
            Handle::Committed => TxnStatus::Committed,
            Handle::Aborted => TxnStatus::Aborted,
        }
    }

    /// Look `key` up in `bucket` and rebuild its value. A missing key gives
    /// `NotFound`; bytes that are not a valid `V` give `EncodingFailure`.
    pub fn get<'a, K: Key, V: Value<'a>>(&'a self, bucket: &Bucket<'a, K, V>, key: K) -> (r: Result<
        V,
        KvError,
    >)
        ensures
            !self.spec_status().is_active() ==> r == Err::<V, KvError>(KvError::TransactionState),
            self.spec_status().is_active() ==> {
                let m = self.contents(bucket.spec_db());
                let k = key.key_view();
                &&& r is Ok ==> m.contains_key(k) && r->Ok_0.value_view() == m[k]
                &&& (r matches Err(KvError::NotFound)) ==> !m.contains_key(k)
                &&& !m.contains_key(k) ==> r is Err
                &&& (r matches Err(KvError::EncodingFailure)) ==> m.contains_key(k) && !V::decodes(m[k])
                &&& m.contains_key(k) && !V::decodes(m[k]) ==> r is Err
                &&& r is Err ==> r->Err_0 is NotFound || r->Err_0 is EncodingFailure
                    || r->Err_0 is Lmdb
            },
    {
        let raw = match &self.handle {
            Handle::Read(t) => ro_get(t, bucket.db(), key.key_bytes()),
            Handle::Write(t) => rw_get(t, bucket.db(), key.key_bytes()),
            _ => {
                return Err(KvError::TransactionState);
            },
        };
        match raw {
            Ok(bytes) => match V::from_raw(bytes) {
                Some(v) => Ok(v),
                None => Err(KvError::EncodingFailure),
            },
            Err(e) => Err(e),
        }
    }

    /// Write `key` -> `value` into `bucket`, replacing an existing value (in
    /// a bucket that sorts duplicates, adding one more value to the key).
    /// Only a read-write transaction may write.
    pub fn set<'a, K: Key, V: Value<'a>>(&mut self, bucket: &Bucket<'a, K, V>, key: K, value: V) -> (r:
        Result<(), KvError>)
        ensures
            old(self).spec_status() == TxnStatus::ReadOnly ==> r == Err::<(), KvError>(
                KvError::ReadOnly,
            ) && *final(self) == *old(self),
            !old(self).spec_status().is_active() ==> r == Err::<(), KvError>(
                KvError::TransactionState,
            ) && *final(self) == *old(self),
            old(self).spec_status() == TxnStatus::ReadWrite ==> {
                &&& final(self).spec_status() == TxnStatus::ReadWrite
                &&& r is Ok ==> set_result(
                    old(self).contents(bucket.spec_db()),
                    final(self).contents(bucket.spec_db()),
                    key.key_view(),
                    value.value_view(),
                )
                &&& r is Ok && old(self).db_flags(bucket.spec_db()) & DUP_SORT == 0
                    ==> final(self).contents(bucket.spec_db())[key.key_view()] == value.value_view()
                &&& forall|d: lmdb::Database| #[trigger] final(self).db_flags(d) == old(self).db_flags(d)
                &&& r is Ok ==> forall|d: lmdb::Database|
                    d != bucket.spec_db() ==> #[trigger] final(self).contents(d) == old(
                        self,
                    ).contents(d)
                &&& r is Err ==> r->Err_0 is NotFound || r->Err_0 is Lmdb
            },
    {
        match &mut self.handle {
            Handle::Write(t) => rw_put(t, bucket.db(), key.key_bytes(), value.value_bytes()),
            Handle::Read(_) => Err(KvError::ReadOnly),
            _ => Err(KvError::TransactionState),
        }
    }

    /// Remove `key` from `bucket`. Removing a key that is absent succeeds
    /// and changes nothing. Only a read-write transaction may write.
    pub fn del<'a, K: Key, V: Value<'a>>(&mut self, bucket: &Bucket<'a, K, V>, key: K) -> (r: Result<
        (),
        KvError,
    >)
        ensures
            old(self).spec_status() == TxnStatus::ReadOnly ==> r == Err::<(), KvError>(
                KvError::ReadOnly,
            ) && *final(self) == *old(self),
            !old(self).spec_status().is_active() ==> r == Err::<(), KvError>(
                KvError::TransactionState,
            ) && *final(self) == *old(self),
            old(self).spec_status() == TxnStatus::ReadWrite ==> {
                &&& final(self).spec_status() == TxnStatus::ReadWrite
                &&& r is Ok ==> final(self).contents(bucket.spec_db()) == old(self).contents(
                    bucket.spec_db(),
                ).remove(key.key_view())
                &&& r is Ok ==> forall|d: lmdb::Database|
                    d != bucket.spec_db() ==> #[trigger] final(self).contents(d) == old(
                        self,
                    ).contents(d)
                &&& r is Err ==> r->Err_0 is Lmdb
            },
    {
        match &mut self.handle {
            Handle::Write(t) => {
                let k = key.key_bytes();
                match rw_del(t, bucket.db(), k) {
                    Ok(()) => Ok(()),
                    Err(KvError::NotFound) => {
                        assert(rw_contents(*t, bucket.spec_db()).remove(k@) =~= rw_contents(
                            *t,
                            bucket.spec_db(),
                        ));
                        Ok(())
                    },
                    Err(e) => Err(e),
                }
            },
            Handle::Read(_) => Err(KvError::ReadOnly),
            _ => Err(KvError::TransactionState),
        }
    }

    /// Finish the transaction, applying its writes. A transaction that the
    /// engine fails to commit ends aborted.
    pub fn commit(&mut self) -> (r: Result<(), KvError>)
        ensures
            !old(self).spec_status().is_active() ==> r == Err::<(), KvError>(
                KvError::TransactionState,
            ) && *final(self) == *old(self),
            old(self).spec_status().is_active() ==> {
                &&& r is Ok ==> final(self).spec_status() == TxnStatus::Committed
                &&& r is Err ==> final(self).spec_status() == TxnStatus::Aborted
                &&& r is Err ==> r->Err_0 is NotFound || r->Err_0 is Lmdb
            },
    {
        let mut h = Handle::Committed;
        std::mem::swap(&mut self.handle, &mut h);
        let res = match h {
            Handle::Read(t) => ro_commit(t),
            Handle::Write(t) => rw_commit(t),
            Handle::Committed => {
                return Err(KvError::TransactionState);
            },
            Handle::Aborted => {
                self.handle = Handle::Aborted;
                return Err(KvError::TransactionState);
            },
        };
        if res.is_err() {
            self.handle = Handle::Aborted;
        }
        self.writer = None;
        res
    }

    /// Finish the transaction, discarding its writes. Always succeeds on an
    /// active transaction.
    pub fn abort(&mut self) -> (r: Result<(), KvError>)
        ensures
            !old(self).spec_status().is_active() ==> r == Err::<(), KvError>(
                KvError::TransactionState,
            ) && *final(self) == *old(self),
            old(self).spec_status().is_active() ==> r is Ok && final(self).spec_status()
                == TxnStatus::Aborted,
    {
        match &self.handle {
            Handle::Read(_) | Handle::Write(_) => {},
            _ => {
                return Err(KvError::TransactionState);
            },
        }
        // dropping the engine's transaction aborts it
        self.handle = Handle::Aborted;
        self.writer = None;
        Ok(())
    }

    /// A cursor over `bucket` within this transaction.
    pub fn cursor<'a, K: Key, V: Value<'a>>(&'a self, bucket: &Bucket<'a, K, V>) -> (r: Result<
        Cursor<'a, V>,
        KvError,
    >)
        ensures
            !self.spec_status().is_active() ==> r is Err && r->Err_0 is TransactionState,
            self.spec_status().is_active() && r is Err ==> r->Err_0 is NotFound || r->Err_0 is Lmdb,
            r is Ok ==> r->Ok_0.contents() == self.contents(bucket.spec_db()),
    {
        let c = match &self.handle {
            Handle::Read(t) => ro_cursor(t, bucket.db()),
            Handle::Write(t) => rw_cursor(t, bucket.db()),
            _ => {
                return Err(KvError::TransactionState);
            },
        };
        match c {
            Ok(c) => Ok(Cursor::new(c)),
            Err(e) => Err(e),
        }
    }
}

} // verus!
