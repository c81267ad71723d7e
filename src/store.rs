use crate::config::{declared_flags, Config, DatabaseFlags, INTEGER_KEY};
use crate::engine::{
    begin_read, begin_write, create_database, database_of, environment_stat, new_writer_lock,
    open_environment, sync_environment, try_writer,
};
use crate::error::KvError;
use crate::txn::{Txn, TxnStatus};
use crate::types::{Integer, Key, Value};
use std::marker::PhantomData;
use vstd::prelude::*;
use vstd::string::StringSliceAdditionalSpecFns;

verus! {

/// The name under which a configuration declares the unnamed bucket.
pub open spec fn default_name() -> Seq<char> {
    seq!['d', 'e', 'f', 'a', 'u', 'l', 't']
}

/// The view of an optional bucket name.
pub open spec fn name_view(name: Option<&str>) -> Option<Seq<char>> {
    match name {
        Some(n) => Some(n@),
        None => None,
    }
}

/// The flags with which a store opened on the declarations `buckets` opens
/// the bucket `name`; `None` when the bucket is unknown. The unnamed bucket
/// takes the flags declared for "default", or none when that name was never
/// declared; "default" itself is not a named bucket.
pub open spec fn bucket_flags(buckets: Seq<(String, DatabaseFlags)>, name: Option<Seq<char>>) -> Option<
    u32,
> {
    match name {
        None => match declared_flags(buckets, default_name()) {
            Some(f) => Some(f),
            None => Some(0u32),
        },
        Some(n) => if n == default_name() {
            None
        } else {
            declared_flags(buckets, n)
        },
    }
}

/// A bucket name other than "default" that no declaration names is unknown
/// to a store opened on those declarations.
pub proof fn undeclared_is_unknown(buckets: Seq<(String, DatabaseFlags)>, name: Seq<char>)
    requires
        forall|i: int| 0 <= i < buckets.len() ==> (#[trigger] buckets[i]).0@ != name,
    ensures
        bucket_flags(buckets, Some(name)) is None,
    decreases buckets.len(),
{
    if buckets.len() > 0 {
        let rest = buckets.drop_last();
        assert(buckets.last() == buckets[buckets.len() - 1]);
        assert forall|i: int| 0 <= i < rest.len() implies (#[trigger] rest[i]).0@ != name by {
            assert(rest[i] == buckets[i]);
        }
        undeclared_is_unknown(rest, name);
    }
}

/// Whether `name` holds a NUL byte, which no engine database name can.
pub open spec fn has_nul(name: Option<&str>) -> bool {
    name is Some && name->0.spec_bytes().contains(0u8)
}

/// Whether `name` holds a NUL byte.
fn contains_nul(name: &str) -> (r: bool)
    ensures
        r == name.spec_bytes().contains(0u8),
{
    let b = name.as_bytes();
    let mut i: usize = 0;
    while i < b.len()
        invariant
            b@ == name.spec_bytes(),
            i <= b@.len(),
            forall|j: int| 0 <= j < i ==> b@[j] != 0u8,
        decreases b@.len() - i,
    {
        if b[i] == 0 {
            assert(b@[i as int] == 0u8);
            return true;
        }
        i = i + 1;
    }
    false
}

/// The key under which a declared name is registered.
pub open spec fn registry_key(name: Seq<char>) -> Option<Seq<char>> {
    if name == default_name() {
        None
    } else {
        Some(name)
    }
}

/// The view of a registered name.
pub open spec fn key_view(k: Option<String>) -> Option<Seq<char>> {
    match k {
        Some(s) => Some(s@),
        None => None,
    }
}

/// The flags registered last under `name`.
pub open spec fn registered(reg: Seq<(Option<String>, DatabaseFlags)>, name: Option<Seq<char>>) -> Option<
    u32,
>
    decreases reg.len(),
{
    if reg.len() == 0 {
        None
    } else if key_view(reg.last().0) == name {
        Some(reg.last().1@)
    } else {
        registered(reg.drop_last(), name)
    }
}

/// Whether `reg` registers each declaration of `cfg` in turn.
pub open spec fn registers(reg: Seq<(Option<String>, DatabaseFlags)>, cfg: Seq<(String, DatabaseFlags)>) -> bool {
    &&& reg.len() == cfg.len()
    &&& forall|j: int|
        0 <= j < reg.len() ==> key_view(#[trigger] reg[j].0) == registry_key(cfg[j].0@) && reg[j].1
            == cfg[j].1
}

proof fn lemma_registers(reg: Seq<(Option<String>, DatabaseFlags)>, cfg: Seq<(String, DatabaseFlags)>)
    requires
        registers(reg, cfg),
    ensures
        registered(reg, None) == declared_flags(cfg, default_name()),
        forall|n: Seq<char>|
            n != default_name() ==> #[trigger] registered(reg, Some(n)) == declared_flags(cfg, n),
        registered(reg, Some(default_name())) is None,
    decreases reg.len(),
{
    if reg.len() > 0 {
        let r2 = reg.drop_last();
        let c2 = cfg.drop_last();
        assert(registers(r2, c2)) by {
            assert forall|j: int| 0 <= j < r2.len() implies key_view(#[trigger] r2[j].0)
                == registry_key(c2[j].0@) && r2[j].1 == c2[j].1 by {
                assert(r2[j] == reg[j]);
                assert(c2[j] == cfg[j]);
            }
        }
        lemma_registers(r2, c2);
        let last = reg.len() - 1;
        assert(key_view(reg[last].0) == registry_key(cfg[last].0@));
        assert(reg.last() == reg[last]);
        assert(cfg.last() == cfg[last]);
        assert forall|n: Seq<char>| n != default_name() implies #[trigger] registered(reg, Some(n))
            == declared_flags(cfg, n) by {
            assert(registered(r2, Some(n)) == declared_flags(c2, n));
        }
    }
}

/// What a scoped write returns, given what its body returned (`body`) and
/// what committing returned (`commit`, consulted only after a successful
/// body): the body's error unchanged, the commit's error, or the body's value.
pub open spec fn write_outcome<Res>(body: Result<Res, KvError>, commit: Result<(), KvError>) -> Result<Res, KvError> {
    match body {
        Err(e) => Err(e),
        Ok(v) => match commit {
            Ok(()) => Ok(v),
            Err(e) => Err(e),
        },
    }
}

/// The result of a scoped write from its body's result and its commit's.
pub fn finish_write<Res>(body: Result<Res, KvError>, commit: Result<(), KvError>) -> (r: Result<Res, KvError>)
    ensures
        r == write_outcome(body, commit),
{
    match body {
        Err(e) => Err(e),
        Ok(v) => match commit {
            Ok(()) => Ok(v),
            Err(e) => Err(e),
        },
    }
}

/// Whether `name` is the name that declares the unnamed bucket.
pub(crate) fn is_default_name(name: &String) -> (r: bool)
    ensures
        r == (name@ == default_name()),
{
    let d = "default".to_owned();
    proof {
        reveal_strlit("default");
        assert(d@ =~= default_name());
    }
    *name == d
}

/// A typed handle on one bucket of a store: keys of type `K`, values of type `V`.
pub struct Bucket<'a, K: Key, V: Value<'a>> {
    db: lmdb::Database,
    flags: DatabaseFlags,
    name: Ghost<Option<Seq<char>>>,
    _key: PhantomData<K>,
    _value: PhantomData<&'a V>,
}

impl<'a, K: Key, V: Value<'a>> Bucket<'a, K, V> {
    /// The engine's handle of this bucket's database.
    pub closed spec fn spec_db(&self) -> lmdb::Database {
        self.db
    }

    /// The flags this bucket's database was opened with.
    pub closed spec fn spec_flags(&self) -> u32 {
        self.flags@
    }

    /// The name of this bucket; `None` for the unnamed one.
    pub closed spec fn spec_name(&self) -> Option<Seq<char>> {
        self.name@
    }

    /// The engine's handle of this bucket's database.
    pub fn db(&self) -> (r: lmdb::Database)
        ensures
            r == self.spec_db(),
    {
        self.db
    }

    /// The flags this bucket's database was opened with.
    pub fn flags(&self) -> (r: DatabaseFlags)
        ensures
            r@ == self.spec_flags(),
    {
        self.flags
    }
}

/// An opened environment with its configuration and the flags of each bucket
/// it knows.
pub struct Store {
    env: lmdb::Environment,
    writer: std::sync::Mutex<()>,
    buckets: Vec<(Option<String>, DatabaseFlags)>,
    cfg: Config,
}

impl Store {
    #[verifier::type_invariant]
    closed spec fn registry_matches(&self) -> bool {
        forall|n: Option<Seq<char>>|
            #[trigger] registered(self.buckets@, n) == bucket_flags(self.cfg.buckets@, n)
    }

    /// The environment the store was opened on.
    pub closed spec fn spec_env(&self) -> lmdb::Environment {
        self.env
    }

    /// The configuration the store was opened with.
    pub closed spec fn spec_config(&self) -> Config {
        self.cfg
    }

    /// The configuration the store was opened with.
    pub fn config(&self) -> (r: &Config)
        ensures
            *r == self.spec_config(),
    {
        &self.cfg
    }

    /// The registered flags of `name`, looked up from the latest registration.
    fn find(reg: &Vec<(Option<String>, DatabaseFlags)>, name: &Option<String>) -> (r: Option<DatabaseFlags>)
        ensures
            r matches Some(f) ==> registered(reg@, key_view(*name)) == Some(f@),
            r is None ==> registered(reg@, key_view(*name)) is None,
    {
        let mut i: usize = reg.len();
        assert(reg@.take(i as int) =~= reg@);
        while i > 0
            invariant
                i <= reg@.len(),
                registered(reg@, key_view(*name)) == registered(reg@.take(i as int), key_view(*name)),
            decreases i,
        {
            let e = &reg[i - 1];
            assert(reg@.take(i as int).last() == reg@[i - 1]);
            assert(reg@.take(i as int).drop_last() =~= reg@.take(i - 1));
            let same = match &e.0 {
                Some(a) => match name {
                    Some(b) => *a == *b,
                    None => false,
                },
                None => name.is_none(),
            };
            assert(same == (key_view(e.0) == key_view(*name)));
            if same {
                return Some(e.1);
            }
            i = i - 1;
        }
        None
    }

    pub(crate) fn wrap(env: lmdb::Environment, config: Config) -> (r: Store)
        ensures
            r.spec_config() == config,
            r.spec_env() == env,
    {
        let mut reg: Vec<(Option<String>, DatabaseFlags)> = Vec::new();
        let n = config.buckets.len();
        let mut i: usize = 0;
        while i < n
            invariant
                n == config.buckets@.len(),
                i <= n,
                registers(reg@, config.buckets@.take(i as int)),
            decreases n - i,
        {
            let (bucket_name, flags) = &config.buckets[i];
            let key = if is_default_name(bucket_name) {
                None
            } else {
                Some(bucket_name.clone())
            };
            reg.push((key, *flags));
            proof {
                let t = config.buckets@.take(i + 1);
                assert forall|j: int| 0 <= j < reg@.len() implies key_view(#[trigger] reg@[j].0)
                    == registry_key(t[j].0@) && reg@[j].1 == t[j].1 by {
                    assert(t[j] == config.buckets@[j]);
                }
            }
            i = i + 1;
        }
        assert(config.buckets@.take(n as int) =~= config.buckets@);
        proof {
            lemma_registers(reg@, config.buckets@);
        }
        let none: Option<String> = None;
        if Self::find(&reg, &none).is_none() {
            let ghost before = reg@;
            reg.push((None, DatabaseFlags::empty()));
            proof {
                assert(reg@.drop_last() =~= before);
                assert forall|nm: Option<Seq<char>>| nm is Some implies #[trigger] registered(
                    reg@,
                    nm,
                ) == registered(before, nm) by {}
            }
        }
        proof {
            assert forall|nm: Option<Seq<char>>| #[trigger]
                registered(reg@, nm) == bucket_flags(config.buckets@, nm) by {
                if let Some(s) = nm {
                    assert(s == default_name() || registered(reg@, nm) == declared_flags(
                        config.buckets@,
                        s,
                    ));
                }
            }
        }
        Store { env, writer: new_writer_lock(), buckets: reg, cfg: config }
    }

    /// Open the environment that `config` describes and build a store on it.
    pub fn new(config: Config) -> (r: Result<Store, KvError>)
        ensures
            r is Ok ==> r->Ok_0.spec_config() == config,
            r is Err ==> r->Err_0 is Lmdb,
    {
        let env = match open_environment(
            config.path.as_str(),
            config.environment_flags(),
            config.max_dbs,
            config.max_readers,
            config.map_size,
        ) {
            Ok(env) => env,
            Err(e) => {
                return Err(e);
            },
        };
        Ok(Self::wrap(env, config))
    }

    fn open_bucket<'a, K: Key, V: Value<'a>>(&self, name: Option<&str>, integer: bool) -> (r: Result<
        Bucket<'a, K, V>,
        KvError,
    >)
        ensures
            bucket_flags(self.spec_config().buckets@, name_view(name)) is None || has_nul(name) ==> r is Err
                && r->Err_0 is InvalidBucket,
            bucket_flags(self.spec_config().buckets@, name_view(name)) matches Some(f) ==> {
                &&& r is Ok ==> r->Ok_0.spec_name() == name_view(name) && r->Ok_0.spec_flags() == (
                if integer {
                    f | INTEGER_KEY
                } else {
                    f
                }) && r->Ok_0.spec_db() == database_of(self.spec_env(), name_view(name))
                &&& !has_nul(name) && r is Err ==> r->Err_0 is NotFound || r->Err_0 is Lmdb
                    || r->Err_0 is Busy || r->Err_0 is Poisoned
            },
    {
        proof {
            use_type_invariant(self);
        }
        let key: Option<String> = match name {
            Some(s) => {
                if contains_nul(s) {
                    return Err(KvError::InvalidBucket);
                }
                Some(s.to_owned())
            },
            None => None,
        };
        assert(key_view(key) == name_view(name));
        match Self::find(&self.buckets, &key) {
            None => Err(KvError::InvalidBucket),
            Some(registered_flags) => {
                let mut flags = registered_flags;
                if integer {
                    flags.insert(DatabaseFlags::integer_key());
                }
                let writer = match try_writer(&self.writer) {
                    Ok(g) => g,
                    Err(e) => {
                        return Err(e);
                    },
                };
                match create_database(&self.env, name, flags.bits(), &writer) {
                    Ok(db) => Ok(
                        Bucket {
                            db,
                            flags,
                            name: Ghost(name_view(name)),
                            _key: PhantomData,
                            _value: PhantomData,
                        },
                    ),
                    Err(e) => Err(e),
                }
            },
        }
    }

    /// The bucket `name` (the unnamed bucket for `None`), opened with its
    /// declared flags. A name the configuration never declared gives
    /// `InvalidBucket`.
    pub fn bucket<'a, K: Key, V: Value<'a>>(&self, name: Option<&str>) -> (r: Result<
        Bucket<'a, K, V>,
        KvError,
    >)
        ensures
            bucket_flags(self.spec_config().buckets@, name_view(name)) is None || has_nul(name) ==> r is Err
                && r->Err_0 is InvalidBucket,
            bucket_flags(self.spec_config().buckets@, name_view(name)) matches Some(f) ==> {
                &&& r is Ok ==> r->Ok_0.spec_name() == name_view(name) && r->Ok_0.spec_flags() == f
                    && r->Ok_0.spec_db() == database_of(self.spec_env(), name_view(name))
                &&& !has_nul(name) && r is Err ==> r->Err_0 is NotFound || r->Err_0 is Lmdb
                    || r->Err_0 is Busy || r->Err_0 is Poisoned
            },
    {
        self.open_bucket(name, false)
    }

    /// The bucket `name` with integer keys: opened with its declared flags
    /// and, in addition, integer key order.
    pub fn int_bucket<'a, V: Value<'a>>(&self, name: Option<&str>) -> (r: Result<
        Bucket<'a, Integer, V>,
        KvError,
    >)
        ensures
            bucket_flags(self.spec_config().buckets@, name_view(name)) is None || has_nul(name) ==> r is Err
                && r->Err_0 is InvalidBucket,
            bucket_flags(self.spec_config().buckets@, name_view(name)) matches Some(f) ==> {
                &&& r is Ok ==> r->Ok_0.spec_name() == name_view(name) && r->Ok_0.spec_flags() == f
                    | INTEGER_KEY && r->Ok_0.spec_db() == database_of(self.spec_env(), name_view(name))
                &&& !has_nul(name) && r is Err ==> r->Err_0 is NotFound || r->Err_0 is Lmdb
                    || r->Err_0 is Busy || r->Err_0 is Poisoned
            },
    {
        self.open_bucket(name, true)
    }

    /// Run `f` with a fresh read-only transaction and return what it returns.
    pub fn with_read_txn<'a, Res, F: FnOnce(&Txn<'a>) -> Result<Res, KvError>>(&'a self, f: F) -> (r:
        Result<Res, KvError>)
        requires
            forall|t: &Txn<'a>| t.spec_status() == TxnStatus::ReadOnly ==> #[trigger] f.requires((t,)),
        ensures
            (r is Err && (r->Err_0 is NotFound || r->Err_0 is Lmdb)) || exists|t: &Txn<'a>|
                t.spec_status() == TxnStatus::ReadOnly && #[trigger] f.ensures((t,), r),
            r is Ok ==> exists|t: &Txn<'a>| #[trigger] f.ensures((t,), r),
    {
        let txn = match self.read_txn() {
            Ok(t) => t,
            Err(e) => {
                return Err(e);
            },
        };
        f(&txn)
    }

    /// Run `f` with a fresh read-write transaction and commit it when `f`
    /// succeeds; when `f` fails, the transaction is aborted and `f`'s error
    /// is returned unchanged. A readonly store refuses with `ReadOnly`
    /// before `f` runs. Otherwise the result is `write_outcome` of what `f`
    /// returned and what the commit returned: `Ok` only after a successful
    /// commit.
    pub fn with_write_txn<'a, Res, F: FnOnce(&mut Txn<'a>) -> Result<Res, KvError>>(
        &'a mut self,
        f: F,
    ) -> (r: Result<Res, KvError>)
        requires
            forall|t: &mut Txn<'a>| t.spec_status() == TxnStatus::ReadWrite ==> #[trigger] f.requires((t,)),
        ensures
            old(self).spec_config().readonly ==> r is Err && r->Err_0 is ReadOnly,
            !old(self).spec_config().readonly ==> (r is Err && (r->Err_0 is NotFound
                || r->Err_0 is Lmdb || r->Err_0 is Busy || r->Err_0 is Poisoned)) || exists|
                t: &mut Txn<'a>,
                fr: Result<Res, KvError>,
                cr: Result<(), KvError>,
            |
                #![trigger f.ensures((t,), fr), write_outcome(fr, cr)]
                f.ensures((t,), fr) && (cr is Err ==> cr->Err_0 is NotFound
                    || cr->Err_0 is Lmdb || cr->Err_0 is TransactionState) && r == write_outcome(
                    fr,
                    cr,
                ),
    {
        let mut txn = match self.write_txn() {
            Ok(t) => t,
            Err(e) => {
                return Err(e);
            },
        };
        let res = f(&mut txn);
        let committed = if res.is_ok() {
            txn.commit()
        } else {
            // discard every write `f` made
            let _ = txn.abort();
            Ok(())
        };
        finish_write(res, committed)
    }

    /// Begin a read-only transaction.
    pub fn read_txn(&self) -> (r: Result<Txn<'_>, KvError>)
        ensures
            r is Ok ==> r->Ok_0.spec_status() == TxnStatus::ReadOnly,
            r is Err ==> r->Err_0 is Lmdb,
    {
        match begin_read(&self.env) {
            Ok(t) => Ok(Txn::read_only(t)),
            Err(e) => Err(e),
        }
    }

    /// Begin a read-write transaction; a readonly store refuses with
    /// `ReadOnly` before the engine is asked. A store admits one write
    /// transaction at a time: while one is open, in this thread or another,
    /// this fails at once with `Busy` rather than wait.
    pub fn write_txn(&self) -> (r: Result<Txn<'_>, KvError>)
        ensures
            self.spec_config().readonly ==> r is Err && r->Err_0 is ReadOnly,
            !self.spec_config().readonly ==> {
                &&& r is Ok ==> r->Ok_0.spec_status() == TxnStatus::ReadWrite
                &&& r is Err ==> r->Err_0 is NotFound || r->Err_0 is Lmdb || r->Err_0 is Busy
                    || r->Err_0 is Poisoned
            },
    {
        if self.cfg.readonly {
            return Err(KvError::ReadOnly);
        }
        let writer = match try_writer(&self.writer) {
            Ok(g) => g,
            Err(e) => {
                return Err(e);
            },
        };
        match begin_write(&self.env, &writer) {
            Ok(t) => Ok(Txn::read_write(t, writer)),
            Err(e) => Err(e),
        }
    }

    /// Flush the environment to disk; `force` asks for a synchronous flush.
    pub fn sync(&self, force: bool) -> (r: Result<(), KvError>)
        ensures
            r is Err ==> r->Err_0 is Lmdb,
    {
        sync_environment(&self.env, force)
    }

    /// The engine's statistics of the environment.
    pub fn stat(&self) -> (r: Result<lmdb::Stat, KvError>)
        ensures
            r is Err ==> r->Err_0 is Lmdb,
    {
        environment_stat(&self.env)
    }
}

} // verus!
