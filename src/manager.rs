use crate::config::{declared_flags, Config, DatabaseFlags};
use crate::error::KvError;
use crate::store::{bucket_flags, default_name, is_default_name, key_view, registry_key, Store};
use std::sync::{Arc, RwLock, RwLockReadGuard, RwLockWriteGuard};
use vstd::prelude::*;

verus! {

/// Whether a store opened on the declarations `old` can serve a caller that
/// declares `new`: every bucket that `new` declares resolves to the same
/// flags under both.
pub open spec fn compatible(old: Seq<(String, DatabaseFlags)>, new: Seq<(String, DatabaseFlags)>) -> bool {
    forall|i: int|
        0 <= i < new.len() ==> bucket_flags(old, #[trigger] registry_key(new[i].0@)) == bucket_flags(
            new,
            registry_key(new[i].0@),
        )
}

/// Relies on std::sync::RwLock::new: a lock around `store`.
#[verifier::external_body]
fn new_lock(store: Store) -> (r: RwLock<Store>) {
    RwLock::new(store)
}

/// Relies on std::sync::RwLock::try_read: shared access without waiting;
/// it fails when a writer holds the lock or a holder panicked.
#[verifier::external_body]
fn lock_read(l: &RwLock<Store>) -> (r: Result<RwLockReadGuard<'_, Store>, KvError>)
    ensures
        r is Err ==> r->Err_0 is Busy || r->Err_0 is Poisoned,
{
    match l.try_read() {
        Ok(g) => Ok(g),
        Err(std::sync::TryLockError::WouldBlock) => Err(KvError::Busy),
        Err(std::sync::TryLockError::Poisoned(_)) => Err(KvError::Poisoned),
    }
}

/// Relies on std::sync::RwLock::try_write: exclusive access without
/// waiting; it fails when any other holder has the lock or a holder panicked.
#[verifier::external_body]
fn lock_write(l: &RwLock<Store>) -> (r: Result<RwLockWriteGuard<'_, Store>, KvError>)
    ensures
        r is Err ==> r->Err_0 is Busy || r->Err_0 is Poisoned,
{
    match l.try_write() {
        Ok(g) => Ok(g),
        Err(std::sync::TryLockError::WouldBlock) => Err(KvError::Busy),
        Err(std::sync::TryLockError::Poisoned(_)) => Err(KvError::Poisoned),
    }
}

/// Relies on std::sync::Arc::strong_count: how many handles share the store.
#[verifier::external_body]
fn holders(a: &Arc<RwLock<Store>>) -> (r: usize)
    ensures
        r >= 1,
{
    Arc::strong_count(a)
}

/// Relies on std::sync::Arc::ptr_eq: whether two handles share one allocation.
#[verifier::external_body]
fn same_allocation(a: &Arc<RwLock<Store>>, b: &Arc<RwLock<Store>>) -> (r: bool)
    ensures
        r ==> *a == *b,
{
    Arc::ptr_eq(a, b)
}

/// What opening a registered path does with the store registered for it.
#[derive(Debug, Clone, Copy, PartialEq, Eq, Structural)]
pub enum Reuse {
    /// Hand out another handle on the registered store.
    Share,
    /// Refuse: the new declarations disagree with the registered ones.
    Conflict,
    /// Nobody else holds the store: close it and open the path afresh.
    Reopen,
}

/// The choice for a registered store that `holders` handles share
/// (the registry's own included), when the new declarations agree with the
/// registered ones (`agrees`) or not.
pub open spec fn reuse_of(holders: usize, agrees: bool) -> Reuse {
    if holders > 1 {
        if agrees {
            Reuse::Share
        } else {
            Reuse::Conflict
        }
    } else {
        Reuse::Reopen
    }
}

/// The choice for a registered store; see `reuse_of`.
pub fn decide_reuse(holders: usize, agrees: bool) -> (r: Reuse)
    ensures
        r == reuse_of(holders, agrees),
{
    if holders > 1 {
        if agrees {
            Reuse::Share
        } else {
            Reuse::Conflict
        }
    } else {
        Reuse::Reopen
    }
}

/// Shared access to one store: any number of readers, or one writer.
pub struct Handle {
    store: Arc<RwLock<Store>>,
}

impl Handle {
    /// The shared store this handle reaches.
    pub closed spec fn spec_store(&self) -> Arc<RwLock<Store>> {
        self.store
    }

    /// Shared, read-only access to the store; `Busy` while a writer holds it.
    pub fn read(&self) -> (r: Result<RwLockReadGuard<'_, Store>, KvError>)
        ensures
            r is Err ==> r->Err_0 is Busy || r->Err_0 is Poisoned,
    {
        lock_read(&self.store)
    }

    /// Exclusive access to the store; `Busy` while anyone else holds it.
    pub fn write(&self) -> (r: Result<RwLockWriteGuard<'_, Store>, KvError>)
        ensures
            r is Err ==> r->Err_0 is Busy || r->Err_0 is Poisoned,
    {
        lock_write(&self.store)
    }

    /// Whether both handles reach the same store, and so the same environment.
    pub fn shares_store_with(&self, other: &Handle) -> (r: bool)
        ensures
            r ==> self.spec_store() == other.spec_store(),
    {
        same_allocation(&self.store, &other.store)
    }
}

/// Registry that opens each environment path at most once per process and
/// hands out shared handles to the store built on it.
pub struct Manager {
    entries: Vec<(String, Vec<(String, DatabaseFlags)>, Arc<RwLock<Store>>)>,
}

impl Manager {
    /// Each path is registered once.
    pub closed spec fn wf(&self) -> bool {
        forall|i: int, j: int|
            0 <= i < j < self.entries@.len() ==> (#[trigger] self.entries@[i]).0@ != (
            #[trigger] self.entries@[j]).0@
    }

    /// The paths with a registered environment.
    pub closed spec fn paths(&self) -> Set<Seq<char>> {
        Set::new(|p: Seq<char>| exists|i: int| 0 <= i < self.entries@.len() && (#[trigger] self.entries@[i]).0@ == p)
    }

    /// The bucket declarations under which `path` was opened.
    pub closed spec fn declarations(&self, path: Seq<char>) -> Seq<(String, DatabaseFlags)> {
        let i = choose|i: int| 0 <= i < self.entries@.len() && (#[trigger] self.entries@[i]).0@ == path;
        self.entries@[i].1@
    }

    /// The shared store registered for `path`.
    pub closed spec fn store_at(&self, path: Seq<char>) -> Arc<RwLock<Store>> {
        let i = choose|i: int| 0 <= i < self.entries@.len() && (#[trigger] self.entries@[i]).0@ == path;
        self.entries@[i].2
    }

    proof fn lemma_entry(&self, k: int)
        requires
            self.wf(),
            0 <= k < self.entries@.len(),
        ensures
            self.paths().contains(self.entries@[k].0@),
            self.store_at(self.entries@[k].0@) == self.entries@[k].2,
            self.declarations(self.entries@[k].0@) == self.entries@[k].1@,
    {
        let p = self.entries@[k].0@;
        assert(self.paths().contains(p));
        let j = choose|i: int| 0 <= i < self.entries@.len() && (#[trigger] self.entries@[i]).0@ == p;
        if j < k {
            assert(self.entries@[j].0@ != self.entries@[k].0@);
        } else if k < j {
            assert(self.entries@[k].0@ != self.entries@[j].0@);
        }
    }

    /// An empty registry.
    pub fn new() -> (r: Manager)
        ensures
            r.wf(),
            r.paths() == Set::<Seq<char>>::empty(),
    {
        let r = Manager { entries: Vec::new() };
        assert(r.paths() =~= Set::<Seq<char>>::empty());
        r
    }

    fn position(&self, path: &String) -> (r: Option<usize>)
        ensures
            r matches Some(i) ==> i < self.entries@.len() && self.entries@[i as int].0@ == path@,
            r is None ==> !self.paths().contains(path@),
    {
        let mut i: usize = 0;
        while i < self.entries.len()
            invariant
                i <= self.entries@.len(),
                forall|j: int| 0 <= j < i ==> (#[trigger] self.entries@[j]).0@ != path@,
            decreases self.entries@.len() - i,
        {
            if self.entries[i].0 == *path {
                return Some(i);
            }
            i = i + 1;
        }
        None
    }

    /// The flags the declarations `decls` give the bucket registered as `key`.
    fn resolve(decls: &Vec<(String, DatabaseFlags)>, key: &Option<String>) -> (r: Option<u32>)
        ensures
            r == bucket_flags(decls@, key_view(*key)),
    {
        match key {
            None => {
                let d = "default".to_owned();
                proof {
                    reveal_strlit("default");
                    assert(d@ =~= default_name());
                }
                match Self::declared(decls, &d) {
                    Some(f) => Some(f),
                    None => Some(0),
                }
            },
            Some(n) => {
                if is_default_name(n) {
                    None
                } else {
                    Self::declared(decls, n)
                }
            },
        }
    }

    fn declared(decls: &Vec<(String, DatabaseFlags)>, name: &String) -> (r: Option<u32>)
        ensures
            r == declared_flags(decls@, name@),
    {
        let mut i: usize = decls.len();
        assert(decls@.take(i as int) =~= decls@);
        while i > 0
            invariant
                i <= decls@.len(),
                declared_flags(decls@, name@) == declared_flags(decls@.take(i as int), name@),
            decreases i,
        {
            assert(decls@.take(i as int).last() == decls@[i - 1]);
            assert(decls@.take(i as int).drop_last() =~= decls@.take(i - 1));
            if decls[i - 1].0 == *name {
                return Some(decls[i - 1].1.bits());
            }
            i = i - 1;
        }
        None
    }

    fn agree(old: &Vec<(String, DatabaseFlags)>, new: &Vec<(String, DatabaseFlags)>) -> (r: bool)
        ensures
            r == compatible(old@, new@),
    {
        let mut i: usize = 0;
        while i < new.len()
            invariant
                i <= new@.len(),
                forall|j: int|
                    0 <= j < i ==> bucket_flags(old@, #[trigger] registry_key(new@[j].0@))
                        == bucket_flags(new@, registry_key(new@[j].0@)),
            decreases new@.len() - i,
        {
            let name = &new[i].0;
            let key: Option<String> = if is_default_name(name) {
                None
            } else {
                Some(name.clone())
            };
            assert(key_view(key) == registry_key(new@[i as int].0@));
            if Self::resolve(old, &key) != Self::resolve(new, &key) {
                return false;
            }
            i = i + 1;
        }
        true
    }

    fn copy_declarations(decls: &Vec<(String, DatabaseFlags)>) -> (r: Vec<(String, DatabaseFlags)>)
        ensures
            r@ == decls@,
    {
        let mut r: Vec<(String, DatabaseFlags)> = Vec::new();
        let mut i: usize = 0;
        while i < decls.len()
            invariant
                i <= decls@.len(),
                r@ == decls@.take(i as int),
            decreases decls@.len() - i,
        {
            r.push((decls[i].0.clone(), decls[i].1));
            assert(r@ =~= decls@.take(i + 1));
            i = i + 1;
        }
        assert(decls@.take(decls@.len() as int) =~= decls@);
        r
    }

    /// A handle on the store for `config.path`. A path that some handle
    /// still holds gives that same store, provided `config` declares no
    /// bucket with other flags than it was opened with (else
    /// `ManagerConflict`). A path nobody holds any more is closed first and
    /// then opened afresh, so one path never has two open environments.
    /// Paths are compared as given: resolve them to canonical form first.
    pub fn open(&mut self, config: Config) -> (r: Result<Handle, KvError>)
        requires
            old(self).wf(),
        ensures
            final(self).wf(),
            r is Ok ==> final(self).paths() == old(self).paths().insert(config.path@),
            r is Ok ==> r->Ok_0.spec_store() == final(self).store_at(config.path@),
            r is Ok ==> (old(self).paths().contains(config.path@) && *final(self) == *old(self)
                && compatible(old(self).declarations(config.path@), config.buckets@))
                || final(self).declarations(config.path@) == config.buckets@,
            r is Err ==> final(self).paths() == old(self).paths() || final(self).paths() == old(
                self,
            ).paths().remove(config.path@),
            forall|q: Seq<char>|
                q != config.path@ && #[trigger] old(self).paths().contains(q) ==> final(self).paths().contains(q)
                    && final(self).store_at(q) == old(self).store_at(q),
            (r matches Err(KvError::ManagerConflict)) ==> old(self).paths().contains(config.path@)
                && !compatible(old(self).declarations(config.path@), config.buckets@)
                && final(self).paths() == old(self).paths(),
            r is Err && !(r->Err_0 is ManagerConflict) ==> r->Err_0 is NotFound || r->Err_0 is Lmdb,
            old(self).paths().contains(config.path@) ==> exists|n: usize|
                n >= 1 && match #[trigger] reuse_of(
                    n,
                    compatible(old(self).declarations(config.path@), config.buckets@),
                ) {
                    Reuse::Share => r is Ok && *final(self) == *old(self) && r->Ok_0.spec_store()
                        == old(self).store_at(config.path@),
                    Reuse::Conflict => r is Err && r->Err_0 is ManagerConflict && *final(self)
                        == *old(self),
                    Reuse::Reopen => r is Ok ==> final(self).declarations(config.path@)
                        == config.buckets@,
                },
    {
        let ghost before = self.entries@;
        let found = self.position(&config.path);
        if let Some(i) = found {
            proof {
                self.lemma_entry(i as int);
            }
            let n = holders(&self.entries[i].2);
            let agrees = Self::agree(&self.entries[i].1, &config.buckets);
            let choice = decide_reuse(n, agrees);
            proof {
                assert(reuse_of(n, compatible(old(self).declarations(config.path@), config.buckets@))
                    == choice);
            }
            match choice {
                Reuse::Share => {
                    return Ok(Handle { store: self.entries[i].2.clone() });
                },
                Reuse::Conflict => {
                    return Err(KvError::ManagerConflict);
                },
                Reuse::Reopen => {},
            }
            // nobody holds this store any more: close it before reopening the path
            self.entries.remove(i);
            proof {
                assert forall|a: int, b: int| 0 <= a < b < self.entries@.len() implies (
                #[trigger] self.entries@[a]).0@ != (#[trigger] self.entries@[b]).0@ by {
                    let a0 = if a < i { a } else { a + 1 };
                    let b0 = if b < i { b } else { b + 1 };
                    assert(self.entries@[a] == before[a0]);
                    assert(self.entries@[b] == before[b0]);
                }
                assert(self.paths() =~= old(self).paths().remove(config.path@)) by {
                    assert forall|p: Seq<char>| self.paths().contains(p) <==> old(self).paths().remove(config.path@).contains(p) by {
                        if self.paths().contains(p) {
                            let k = choose|k: int| 0 <= k < self.entries@.len() && (#[trigger] self.entries@[k]).0@ == p;
                            let k0 = if k < i { k } else { k + 1 };
                            assert(self.entries@[k] == before[k0]);
                            if k0 < i { assert(before[k0].0@ != before[i as int].0@); }
                            else { assert(before[i as int].0@ != before[k0].0@); }
                        }
                        if old(self).paths().remove(config.path@).contains(p) {
                            let k = choose|k: int| 0 <= k < before.len() && (#[trigger] before[k]).0@ == p;
                            assert(k != i);
                            let k1 = if k < i { k } else { k - 1 };
                            assert(self.entries@[k1] == before[k]);
                        }
                    }
                }
                assert forall|q: Seq<char>| q != config.path@ && #[trigger] old(self).paths().contains(q)
                    implies self.store_at(q) == old(self).store_at(q) by {
                    let k = choose|k: int| 0 <= k < before.len() && (#[trigger] before[k]).0@ == q;
                    old(self).lemma_entry(k);
                    assert(k != i);
                    let k1 = if k < i { k } else { k - 1 };
                    assert(self.entries@[k1] == before[k]);
                    self.lemma_entry(k1);
                }
            }
        }
        let ghost middle = self.entries@;
        assert(!self.paths().contains(config.path@));
        let path = config.path.clone();
        let decls = Self::copy_declarations(&config.buckets);
        let store = match Store::new(config) {
            Ok(s) => s,
            Err(e) => {
                return Err(e);
            },
        };
        let shared = Arc::new(new_lock(store));
        let handle = Handle { store: shared.clone() };
        let ghost mid_manager = *self;
        self.entries.push((path, decls, shared));
        proof {
            assert forall|a: int, b: int| 0 <= a < b < self.entries@.len() implies (
            #[trigger] self.entries@[a]).0@ != (#[trigger] self.entries@[b]).0@ by {
                assert(self.entries@[a] == middle[a]);
                if b < middle.len() {
                    assert(self.entries@[b] == middle[b]);
                } else {
                    assert(mid_manager.paths().contains(middle[a].0@));
                }
            }
            let last = middle.len() as int;
            assert(self.entries@[last].0@ == path@);
            self.lemma_entry(last);
            assert(self.paths() =~= mid_manager.paths().insert(path@)) by {
                assert forall|p: Seq<char>| self.paths().contains(p) <==> mid_manager.paths().insert(path@).contains(p) by {
                    if mid_manager.paths().contains(p) {
                        let k = choose|k: int| 0 <= k < middle.len() && (#[trigger] middle[k]).0@ == p;
                        assert(self.entries@[k] == middle[k]);
                    }
                    if self.paths().contains(p) {
                        let k = choose|k: int| 0 <= k < self.entries@.len() && (#[trigger] self.entries@[k]).0@ == p;
                        if k < middle.len() {
                            assert(self.entries@[k] == middle[k]);
                        }
                    }
                }
            }
            assert forall|q: Seq<char>| q != path@ && #[trigger] mid_manager.paths().contains(q)
                implies self.store_at(q) == mid_manager.store_at(q) by {
                let k = choose|k: int| 0 <= k < middle.len() && (#[trigger] middle[k]).0@ == q;
                mid_manager.lemma_entry(k);
                assert(self.entries@[k] == middle[k]);
                self.lemma_entry(k);
            }
        }
        Ok(handle)
    }
}

} // verus!
