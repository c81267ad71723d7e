//! The storage engine's types and calls, with the contracts the rest of the
//! library relies on.

use crate::error::KvError;
use vstd::prelude::*;
use vstd::string::StringSliceAdditionalSpecFns;

verus! {

/// Relies on lmdb::Error's variants: a missing key becomes the library's
/// `NotFound`, any other engine error is carried as an engine failure.
#[verifier::external_body]
pub(crate) fn engine_failure(e: lmdb::Error) -> (r: KvError)
    ensures
        r is NotFound || r is Lmdb,
{
    match e {
        lmdb::Error::NotFound => KvError::NotFound,
        other => KvError::Lmdb(other),
    }
}

/// What a read-only transaction sees in one database: each key with the
/// value that a lookup of it returns.
pub uninterp spec fn ro_contents(t: lmdb::RoTransaction<'_>, db: lmdb::Database) -> Map<Seq<u8>, Seq<u8>>;

/// What a read-write transaction sees in one database, its own writes
/// included: each key with the value that a lookup of it returns.
pub uninterp spec fn rw_contents(t: lmdb::RwTransaction<'_>, db: lmdb::Database) -> Map<Seq<u8>, Seq<u8>>;

/// What a cursor walks over: each key of its database with the value that a
/// lookup of it returns, as the cursor's transaction sees them.
pub uninterp spec fn cursor_contents(c: lmdb::RoCursor<'_>) -> Map<Seq<u8>, Seq<u8>>;

/// The order in which a cursor's database keeps its keys: whether `a` comes
/// strictly before `b` (byte-wise, as integers, or from the last byte, as
/// the database's flags choose).
pub uninterp spec fn cursor_key_before(c: lmdb::RoCursor<'_>, a: Seq<u8>, b: Seq<u8>) -> bool;

/// The key a cursor stands on; `None` while it is unset.
pub uninterp spec fn cursor_position(c: lmdb::RoCursor<'_>) -> Option<Seq<u8>>;

/// The value of the entry a cursor stands on; `None` while it is unset.
pub uninterp spec fn cursor_value(c: lmdb::RoCursor<'_>) -> Option<Seq<u8>>;

/// Engine cursor operation: the first entry.
pub const CURSOR_FIRST: u32 = 0;

/// Engine cursor operation: the entry at the current position.
pub const CURSOR_GET_CURRENT: u32 = 4;

/// Engine cursor operation: the last entry.
pub const CURSOR_LAST: u32 = 6;

/// Engine cursor operation: the next entry.
pub const CURSOR_NEXT: u32 = 8;

/// Engine cursor operation: the previous entry.
pub const CURSOR_PREV: u32 = 12;

/// Engine cursor operation: the entry of exactly the given key.
pub const CURSOR_SET_KEY: u32 = 16;

/// Engine cursor operation: the entry of the smallest key not below the given key.
pub const CURSOR_SET_RANGE: u32 = 17;

/// Relies on lmdb's EnvironmentBuilder: sets the limits and flags, then opens
/// the environment at `path`.
#[verifier::external_body]
pub(crate) fn open_environment(
    path: &str,
    flags: u32,
    max_dbs: u32,
    max_readers: u32,
    map_size: usize,
) -> (r: Result<lmdb::Environment, KvError>)
    ensures
        r is Err ==> r->Err_0 is Lmdb,
{
    lmdb::Environment::new()
        .set_flags(lmdb::EnvironmentFlags::from_bits_truncate(flags))
        .set_max_dbs(max_dbs)
        .set_max_readers(max_readers)
        .set_map_size(map_size)
        .open(std::path::Path::new(path)).map_err(KvError::Lmdb)
}

/// The handle an environment gives the database `name` (`None` for the
/// unnamed one): the engine hands out one handle per name and environment.
pub uninterp spec fn database_of(env: lmdb::Environment, name: Option<Seq<char>>) -> lmdb::Database;

/// Relies on lmdb::Environment::create_db: opens, creating it if needed, the
/// named (or, for `None`, the default) database with the given flags, and
/// returns the environment's handle for that name. It runs a write
/// transaction of its own, so the caller holds its store's writer lock
/// (`writer`): no other write transaction of this store is open in this
/// process, and the call cannot wait on one of its own thread. The name is
/// turned into a C string, which must hold no NUL byte.
#[verifier::external_body]
pub(crate) fn create_database(
    env: &lmdb::Environment,
    name: Option<&str>,
    flags: u32,
    writer: &std::sync::MutexGuard<'_, ()>,
) -> (r: Result<lmdb::Database, KvError>)
    requires
        name is Some ==> !name->0.spec_bytes().contains(0u8),
    ensures
        r is Err ==> r->Err_0 is Lmdb,
        r is Ok ==> r->Ok_0 == database_of(
            *env,
            match name {
                Some(n) => Some(n@),
                None => None,
            },
        ),
{
    let _held = writer;
    env.create_db(name, lmdb::DatabaseFlags::from_bits_truncate(flags)).map_err(KvError::Lmdb)
}

/// Relies on lmdb::Environment::begin_ro_txn.
#[verifier::external_body]
pub(crate) fn begin_read(env: &lmdb::Environment) -> (r: Result<lmdb::RoTransaction<'_>, KvError>)
    ensures
        r is Err ==> r->Err_0 is Lmdb,
{
    env.begin_ro_txn().map_err(KvError::Lmdb)
}

/// Relies on lmdb::Environment::begin_rw_txn. The caller holds its store's
/// writer lock (`writer`), so no other write transaction of this store is
/// open in this process and the call cannot wait on one of its own thread;
/// it waits only for writers of other processes.
#[verifier::external_body]
pub(crate) fn begin_write<'env>(
    env: &'env lmdb::Environment,
    writer: &std::sync::MutexGuard<'_, ()>,
) -> (r: Result<lmdb::RwTransaction<'env>, KvError>)
    ensures
        r is Err ==> r->Err_0 is Lmdb,
{
    let _held = writer;
    env.begin_rw_txn().map_err(KvError::Lmdb)
}

/// Relies on std::sync::Mutex::new: an unlocked writer lock.
#[verifier::external_body]
pub(crate) fn new_writer_lock() -> (r: std::sync::Mutex<()>) {
    std::sync::Mutex::new(())
}

/// Relies on std::sync::Mutex::try_lock: takes the writer lock without
/// waiting; it fails when the lock is held (in any thread) or was poisoned.
#[verifier::external_body]
pub(crate) fn try_writer(m: &std::sync::Mutex<()>) -> (r: Result<std::sync::MutexGuard<'_, ()>, KvError>)
    ensures
        r is Err ==> r->Err_0 is Busy || r->Err_0 is Poisoned,
{
    match m.try_lock() {
        Ok(g) => Ok(g),
        Err(std::sync::TryLockError::WouldBlock) => Err(KvError::Busy),
        Err(std::sync::TryLockError::Poisoned(_)) => Err(KvError::Poisoned),
    }
}

/// Relies on lmdb::Environment::sync.
#[verifier::external_body]
pub(crate) fn sync_environment(env: &lmdb::Environment, force: bool) -> (r: Result<(), KvError>)
    ensures
        r is Err ==> r->Err_0 is Lmdb,
{
    env.sync(force).map_err(KvError::Lmdb)
}

/// Relies on lmdb::Environment::stat.
#[verifier::external_body]
pub(crate) fn environment_stat(env: &lmdb::Environment) -> (r: Result<lmdb::Stat, KvError>)
    ensures
        r is Err ==> r->Err_0 is Lmdb,
{
    env.stat().map_err(KvError::Lmdb)
}

/// Relies on lmdb::Transaction::get for a read-only transaction: the value of
/// the key when present, `NotFound` when absent.
#[verifier::external_body]
pub(crate) fn ro_get<'txn>(t: &'txn lmdb::RoTransaction<'_>, db: lmdb::Database, key: &[u8]) -> (r:
    Result<&'txn [u8], KvError>)
    ensures
        r is Err ==> r->Err_0 is NotFound || r->Err_0 is Lmdb,
        r is Ok ==> ro_contents(*t, db).contains_key(key@) && r->Ok_0@ == ro_contents(*t, db)[key@],
        (r matches Err(KvError::NotFound)) ==> !ro_contents(*t, db).contains_key(key@),
        !ro_contents(*t, db).contains_key(key@) ==> r is Err,
{
    lmdb::Transaction::get(t, db, &key).map_err(engine_failure)
}

/// Relies on lmdb::Transaction::get for a read-write transaction: the value
/// of the key when present, `NotFound` when absent.
#[verifier::external_body]
pub(crate) fn rw_get<'txn>(t: &'txn lmdb::RwTransaction<'_>, db: lmdb::Database, key: &[u8]) -> (r:
    Result<&'txn [u8], KvError>)
    ensures
        r is Err ==> r->Err_0 is NotFound || r->Err_0 is Lmdb,
        r is Ok ==> rw_contents(*t, db).contains_key(key@) && r->Ok_0@ == rw_contents(*t, db)[key@],
        (r matches Err(KvError::NotFound)) ==> !rw_contents(*t, db).contains_key(key@),
        !rw_contents(*t, db).contains_key(key@) ==> r is Err,
{
    lmdb::Transaction::get(t, db, &key).map_err(engine_failure)
}

/// The option flags of a database as a read-write transaction sees them.
pub uninterp spec fn rw_flags(t: lmdb::RwTransaction<'_>, db: lmdb::Database) -> u32;

/// Relies on lmdb::Transaction::db_flags for a read-write transaction: the
/// option flags the database was created with.
#[verifier::external_body]
pub(crate) fn rw_db_flags(t: &lmdb::RwTransaction<'_>, db: lmdb::Database) -> (r: Result<u32, KvError>)
    ensures
        r is Err ==> r->Err_0 is Lmdb,
        r is Ok ==> r->Ok_0 == rw_flags(*t, db),
{
    lmdb::Transaction::db_flags(t, db).map(|f| f.bits()).map_err(KvError::Lmdb)
}

/// Relies on lmdb::RwTransaction::put with no write flags: afterwards the key
/// is present, other keys and databases are untouched, and a key that was
/// absent now holds exactly `data`; a present key is replaced, unless the
/// database sorts duplicates (`DUP_SORT`, 0x04), where it gains one more
/// item. A write never changes any database's flags.
#[verifier::external_body]
pub(crate) fn rw_put(t: &mut lmdb::RwTransaction<'_>, db: lmdb::Database, key: &[u8], data: &[u8]) -> (r:
    Result<(), KvError>)
    ensures
        r is Err ==> r->Err_0 is NotFound || r->Err_0 is Lmdb,
        r is Ok ==> rw_contents(*final(t), db).contains_key(key@),
        r is Ok && !rw_contents(*old(t), db).contains_key(key@) ==> rw_contents(*final(t), db)[key@]
            == data@,
        r is Ok && rw_flags(*old(t), db) & 0x04u32 == 0 ==> rw_contents(*final(t), db)[key@] == data@,
        r is Ok ==> rw_contents(*final(t), db).remove(key@) == rw_contents(*old(t), db).remove(key@),
        forall|d: lmdb::Database| #[trigger] rw_flags(*final(t), d) == rw_flags(*old(t), d),
        r is Ok ==> forall|d: lmdb::Database|
            d != db ==> #[trigger] rw_contents(*final(t), d) == rw_contents(*old(t), d),
{
    t.put(db, &key, &data, lmdb::WriteFlags::empty()).map_err(engine_failure)
}

/// Relies on lmdb::RwTransaction::del with no data item: removes the key with
/// all its items, or fails with `NotFound` when the key is absent.
#[verifier::external_body]
pub(crate) fn rw_del(t: &mut lmdb::RwTransaction<'_>, db: lmdb::Database, key: &[u8]) -> (r: Result<
    (),
    KvError,
>)
    ensures
        r is Err ==> r->Err_0 is NotFound || r->Err_0 is Lmdb,
        r is Ok ==> rw_contents(*old(t), db).contains_key(key@) && rw_contents(*final(t), db)
            == rw_contents(*old(t), db).remove(key@),
        (r matches Err(KvError::NotFound)) ==> !rw_contents(*old(t), db).contains_key(key@)
            && rw_contents(*final(t), db) == rw_contents(*old(t), db),
        (r is Ok || (r matches Err(KvError::NotFound))) ==> forall|d: lmdb::Database|
            d != db ==> #[trigger] rw_contents(*final(t), d) == rw_contents(*old(t), d),
{
    t.del(db, &key, None).map_err(engine_failure)
}

/// Relies on lmdb::Transaction::commit for a read-only transaction.
#[verifier::external_body]
pub(crate) fn ro_commit(t: lmdb::RoTransaction<'_>) -> (r: Result<(), KvError>)
    ensures
        r is Err ==> r->Err_0 is Lmdb,
{
    lmdb::Transaction::commit(t).map_err(KvError::Lmdb)
}

/// Relies on lmdb::Transaction::commit for a read-write transaction.
#[verifier::external_body]
pub(crate) fn rw_commit(t: lmdb::RwTransaction<'_>) -> (r: Result<(), KvError>)
    ensures
        r is Err ==> r->Err_0 is Lmdb,
{
    lmdb::Transaction::commit(t).map_err(KvError::Lmdb)
}

/// Relies on lmdb::Transaction::open_ro_cursor for a read-only transaction:
/// the cursor walks the database as the transaction sees it.
#[verifier::external_body]
pub(crate) fn ro_cursor<'txn>(t: &'txn lmdb::RoTransaction<'_>, db: lmdb::Database) -> (r: Result<
    lmdb::RoCursor<'txn>,
    KvError,
>)
    ensures
        r is Ok ==> cursor_contents(r->Ok_0) == ro_contents(*t, db),
        r is Ok ==> cursor_position(r->Ok_0) is None && cursor_value(r->Ok_0) is None,
        r is Err ==> r->Err_0 is NotFound || r->Err_0 is Lmdb,
{
    lmdb::Transaction::open_ro_cursor(t, db).map_err(engine_failure)
}

/// Relies on lmdb::Transaction::open_ro_cursor for a read-write transaction:
/// the cursor walks the database as the transaction sees it.
#[verifier::external_body]
pub(crate) fn rw_cursor<'txn>(t: &'txn lmdb::RwTransaction<'_>, db: lmdb::Database) -> (r: Result<
    lmdb::RoCursor<'txn>,
    KvError,
>)
    ensures
        r is Ok ==> cursor_contents(r->Ok_0) == rw_contents(*t, db),
        r is Ok ==> cursor_position(r->Ok_0) is None && cursor_value(r->Ok_0) is None,
        r is Err ==> r->Err_0 is NotFound || r->Err_0 is Lmdb,
{
    lmdb::Transaction::open_ro_cursor(t, db).map_err(engine_failure)
}

/// Relies on lmdb::Cursor::get: moves the cursor by the operation `op` and
/// returns the key (where the operation reports one) and the value there.
/// Any key reported is one of the database's; `SET_KEY` lands on the first
/// value of exactly `key`, `FIRST` on the first value of the first key,
/// `LAST` on the last key, and `SET_RANGE` on the first key not before
/// `key`, each failing with `NotFound` when there is no such entry. The
/// cursor then stands on the key returned. `NEXT` and `PREV` move to the
/// nearest entry after (before) the current key, which may be the same key
/// in a database with sorted duplicates; from an unset cursor they act as
/// `FIRST` and `LAST`.
#[verifier::external_body]
pub(crate) fn cursor_get<'txn>(c: &mut lmdb::RoCursor<'txn>, key: Option<&[u8]>, op: u32) -> (r: Result<
    (Option<&'txn [u8]>, &'txn [u8]),
    KvError,
>)
    requires
        op == CURSOR_FIRST || op == CURSOR_GET_CURRENT || op == CURSOR_LAST || op == CURSOR_NEXT
            || op == CURSOR_PREV || op == CURSOR_SET_KEY || op == CURSOR_SET_RANGE,
        op == CURSOR_SET_KEY || op == CURSOR_SET_RANGE <==> key is Some,
    ensures
        cursor_contents(*final(c)) == cursor_contents(*old(c)),
        forall|a: Seq<u8>, b: Seq<u8>|
            #[trigger] cursor_key_before(*final(c), a, b) == cursor_key_before(*old(c), a, b),
        r is Ok && r->Ok_0.0 is Some ==> cursor_position(*final(c)) == Some(r->Ok_0.0->0@),
        r is Ok ==> cursor_value(*final(c)) == Some(r->Ok_0.1@),
        op == CURSOR_GET_CURRENT && r is Ok && r->Ok_0.0 is Some ==> cursor_position(*old(c))
            == Some(r->Ok_0.0->0@),
        op == CURSOR_NEXT && cursor_position(*old(c)) is Some && r is Ok && r->Ok_0.0 is Some
            ==> !cursor_key_before(*old(c), r->Ok_0.0->0@, cursor_position(*old(c))->0)
            && forall|k2: Seq<u8>|
            #[trigger] cursor_contents(*old(c)).contains_key(k2) && cursor_key_before(
                *old(c),
                cursor_position(*old(c))->0,
                k2,
            ) ==> !cursor_key_before(*old(c), k2, r->Ok_0.0->0@),
        op == CURSOR_NEXT && cursor_position(*old(c)) is Some && (r matches Err(KvError::NotFound))
            ==> forall|k2: Seq<u8>|
            #[trigger] cursor_contents(*old(c)).contains_key(k2) ==> !cursor_key_before(
                *old(c),
                cursor_position(*old(c))->0,
                k2,
            ),
        op == CURSOR_NEXT && cursor_position(*old(c)) is None && r is Ok && r->Ok_0.0 is Some
            ==> forall|k2: Seq<u8>|
            #[trigger] cursor_contents(*old(c)).contains_key(k2) ==> !cursor_key_before(
                *old(c),
                k2,
                r->Ok_0.0->0@,
            ),
        op == CURSOR_NEXT && cursor_position(*old(c)) is None && (r matches Err(KvError::NotFound))
            ==> cursor_contents(*old(c)).dom() == Set::<Seq<u8>>::empty(),
        op == CURSOR_PREV && cursor_position(*old(c)) is Some && r is Ok && r->Ok_0.0 is Some
            ==> !cursor_key_before(*old(c), cursor_position(*old(c))->0, r->Ok_0.0->0@)
            && forall|k2: Seq<u8>|
            #[trigger] cursor_contents(*old(c)).contains_key(k2) && cursor_key_before(
                *old(c),
                k2,
                cursor_position(*old(c))->0,
            ) ==> !cursor_key_before(*old(c), r->Ok_0.0->0@, k2),
        op == CURSOR_PREV && cursor_position(*old(c)) is Some && (r matches Err(KvError::NotFound))
            ==> forall|k2: Seq<u8>|
            #[trigger] cursor_contents(*old(c)).contains_key(k2) ==> !cursor_key_before(
                *old(c),
                k2,
                cursor_position(*old(c))->0,
            ),
        op == CURSOR_PREV && cursor_position(*old(c)) is None && r is Ok && r->Ok_0.0 is Some
            ==> forall|k2: Seq<u8>|
            #[trigger] cursor_contents(*old(c)).contains_key(k2) ==> !cursor_key_before(
                *old(c),
                r->Ok_0.0->0@,
                k2,
            ),
        op == CURSOR_PREV && cursor_position(*old(c)) is None && (r matches Err(KvError::NotFound))
            ==> cursor_contents(*old(c)).dom() == Set::<Seq<u8>>::empty(),
        r is Err ==> r->Err_0 is NotFound || r->Err_0 is Lmdb,
        r matches Ok((Some(k), _)) ==> cursor_contents(*old(c)).contains_key(k@),
        op == CURSOR_SET_KEY && r is Ok ==> cursor_contents(*old(c)).contains_key(key->0@)
            && r->Ok_0.1@ == cursor_contents(*old(c))[key->0@],
        op == CURSOR_SET_KEY && (r matches Err(KvError::NotFound)) ==> !cursor_contents(*old(c)).contains_key(key->0@),
        op == CURSOR_SET_KEY && !cursor_contents(*old(c)).contains_key(key->0@) ==> r is Err,
        op == CURSOR_FIRST && r is Ok && r->Ok_0.0 is Some ==> r->Ok_0.1@ == cursor_contents(*old(c))[r->Ok_0.0->0@],
        op == CURSOR_FIRST && (r matches Err(KvError::NotFound)) ==> cursor_contents(*old(c)).dom()
            == Set::<Seq<u8>>::empty(),
        op == CURSOR_FIRST && cursor_contents(*old(c)).dom() == Set::<Seq<u8>>::empty() ==> r is Err,
        op == CURSOR_FIRST && r is Ok && r->Ok_0.0 is Some ==> forall|k2: Seq<u8>|
            #[trigger] cursor_contents(*old(c)).contains_key(k2) ==> !cursor_key_before(
                *old(c),
                k2,
                r->Ok_0.0->0@,
            ),
        op == CURSOR_LAST && r is Ok && r->Ok_0.0 is Some ==> forall|k2: Seq<u8>|
            #[trigger] cursor_contents(*old(c)).contains_key(k2) ==> !cursor_key_before(
                *old(c),
                r->Ok_0.0->0@,
                k2,
            ),
        op == CURSOR_LAST && (r matches Err(KvError::NotFound)) ==> cursor_contents(*old(c)).dom()
            == Set::<Seq<u8>>::empty(),
        op == CURSOR_LAST && cursor_contents(*old(c)).dom() == Set::<Seq<u8>>::empty() ==> r is Err,
        op == CURSOR_SET_RANGE && r is Ok && r->Ok_0.0 is Some ==> !cursor_key_before(
            *old(c),
            r->Ok_0.0->0@,
            key->0@,
        ) && forall|k2: Seq<u8>|
            #[trigger] cursor_contents(*old(c)).contains_key(k2) && !cursor_key_before(*old(c), k2, key->0@)
                ==> !cursor_key_before(*old(c), k2, r->Ok_0.0->0@),
        op == CURSOR_SET_RANGE && (r matches Err(KvError::NotFound)) ==> forall|k2: Seq<u8>|
            #[trigger] cursor_contents(*old(c)).contains_key(k2) ==> cursor_key_before(*old(c), k2, key->0@),
{
    lmdb::Cursor::get(&*c, key, None, op).map_err(engine_failure)
}

} // verus!
