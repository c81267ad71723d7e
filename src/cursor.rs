use crate::engine::{
    cursor_contents, cursor_get, cursor_key_before, cursor_position, cursor_value, CURSOR_FIRST, CURSOR_GET_CURRENT, CURSOR_LAST, CURSOR_NEXT,
    CURSOR_PREV, CURSOR_SET_KEY, CURSOR_SET_RANGE,
};
use crate::error::KvError;
use crate::types::Value;
use std::marker::PhantomData;
use vstd::prelude::*;

verus! {

/// A position in one bucket's sorted keys, valid while its transaction is.
/// Each move returns the entry it lands on: its key bytes (where the engine
/// reports them) and its value, or `None` past either end.
pub struct Cursor<'txn, V: Value<'txn>> {
    inner: lmdb::RoCursor<'txn>,
    _value: PhantomData<V>,
}

/// One entry that a cursor landed on.
pub type Entry<'txn, V> = (Option<&'txn [u8]>, V);

impl<'txn, V: Value<'txn>> Cursor<'txn, V> {
    /// The entries this cursor walks over: each key with the value a lookup
    /// of it returns.
    pub closed spec fn contents(&self) -> Map<Seq<u8>, Seq<u8>> {
        cursor_contents(self.inner)
    }

    /// Whether key `a` comes strictly before key `b` in the bucket's order.
    pub closed spec fn before(&self, a: Seq<u8>, b: Seq<u8>) -> bool {
        cursor_key_before(self.inner, a, b)
    }

    /// The key the cursor stands on; `None` while it is unset.
    pub closed spec fn position(&self) -> Option<Seq<u8>> {
        cursor_position(self.inner)
    }

    /// The value of the entry the cursor stands on; `None` while unset.
    pub closed spec fn current_value(&self) -> Option<Seq<u8>> {
        cursor_value(self.inner)
    }

    pub(crate) fn new(inner: lmdb::RoCursor<'txn>) -> (r: Cursor<'txn, V>)
        requires
            cursor_position(inner) is None,
        ensures
            r.contents() == cursor_contents(inner),
            r.position() is None,
    {
        Cursor { inner, _value: PhantomData }
    }

    /// Move by the engine operation `op`; running off the end is `None`, an
    /// undecodable value is `EncodingFailure`.
    fn step(&mut self, key: Option<&[u8]>, op: u32) -> (r: Result<Option<Entry<'txn, V>>, KvError>)
        requires
            op == CURSOR_FIRST || op == CURSOR_GET_CURRENT || op == CURSOR_LAST || op == CURSOR_NEXT
                || op == CURSOR_PREV || op == CURSOR_SET_KEY || op == CURSOR_SET_RANGE,
            op == CURSOR_SET_KEY || op == CURSOR_SET_RANGE <==> key is Some,
        ensures
            final(self).contents() == old(self).contents(),
            forall|a: Seq<u8>, b: Seq<u8>| #[trigger] final(self).before(a, b) == old(self).before(a, b),
            r matches Ok(Some((Some(k), _))) ==> final(self).position() == Some(k@),
            r matches Ok(Some((_, v))) ==> final(self).current_value() == Some(v.value_view()),
            (r matches Err(KvError::EncodingFailure)) ==> final(self).current_value() is Some
                && !V::decodes(final(self).current_value()->0),
            r is Err ==> r->Err_0 is EncodingFailure || r->Err_0 is Lmdb,
            r matches Ok(Some(e)) ==> V::decodes(e.1.value_view()),
            r matches Ok(Some((Some(k), _))) ==> old(self).contents().contains_key(k@),
            op == CURSOR_SET_KEY ==> {
                let m = old(self).contents();
                let wanted = key->0@;
                &&& r matches Ok(Some((_, v))) ==> m.contains_key(wanted) && v.value_view() == m[wanted]
                &&& (r matches Ok(None)) ==> !m.contains_key(wanted)
                &&& !m.contains_key(wanted) ==> (r matches Ok(None)) || (r is Err && r->Err_0 is Lmdb)
            },
            op == CURSOR_SET_KEY && (r matches Err(KvError::EncodingFailure)) ==> old(self).contents().contains_key(key->0@)
                && !V::decodes(old(self).contents()[key->0@]),
            op == CURSOR_LAST ==> {
                let m = old(self).contents();
                &&& r matches Ok(Some((Some(k), _))) ==> forall|k2: Seq<u8>|
                    #[trigger] m.contains_key(k2) ==> !old(self).before(k@, k2)
                &&& (r matches Ok(None)) ==> m.dom() == Set::<Seq<u8>>::empty()
                &&& m.dom() == Set::<Seq<u8>>::empty() ==> (r matches Ok(None)) || (r is Err
                    && r->Err_0 is Lmdb)
            },
            op == CURSOR_SET_RANGE ==> {
                let m = old(self).contents();
                let wanted = key->0@;
                &&& r matches Ok(Some((Some(k), _))) ==> !old(self).before(k@, wanted) && forall|k2: Seq<u8>|
                    #[trigger] m.contains_key(k2) && !old(self).before(k2, wanted) ==> !old(self).before(k2, k@)
                &&& (r matches Ok(None)) ==> forall|k2: Seq<u8>|
                    #[trigger] m.contains_key(k2) ==> old(self).before(k2, wanted)
            },
            op == CURSOR_FIRST ==> {
                let m = old(self).contents();
                &&& r matches Ok(Some((Some(k), v))) ==> v.value_view() == m[k@] && forall|k2: Seq<u8>|
                    #[trigger] m.contains_key(k2) ==> !old(self).before(k2, k@)
                &&& (r matches Ok(None)) ==> m.dom() == Set::<Seq<u8>>::empty()
                &&& m.dom() == Set::<Seq<u8>>::empty() ==> (r matches Ok(None)) || (r is Err
                    && r->Err_0 is Lmdb)
            },
            op == CURSOR_NEXT ==> (old(self).position() matches Some(p) ==> {
                &&& r matches Ok(Some((Some(k), _))) ==> !old(self).before(k@, p) && forall|k2: Seq<u8>|
                    #[trigger] old(self).contents().contains_key(k2) && old(self).before(p, k2)
                        ==> !old(self).before(k2, k@)
                &&& (r matches Ok(None)) ==> forall|k2: Seq<u8>|
                    #[trigger] old(self).contents().contains_key(k2) ==> !old(self).before(p, k2)
            }),
            op == CURSOR_NEXT ==> (old(self).position() is None ==> {
                &&& r matches Ok(Some((Some(k), _))) ==> forall|k2: Seq<u8>|
                    #[trigger] old(self).contents().contains_key(k2) ==> !old(self).before(k2, k@)
                &&& (r matches Ok(None)) ==> old(self).contents().dom() == Set::<Seq<u8>>::empty()
            }),
            op == CURSOR_PREV ==> (old(self).position() matches Some(p) ==> {
                &&& r matches Ok(Some((Some(k), _))) ==> !old(self).before(p, k@) && forall|k2: Seq<u8>|
                    #[trigger] old(self).contents().contains_key(k2) && old(self).before(k2, p)
                        ==> !old(self).before(k@, k2)
                &&& (r matches Ok(None)) ==> forall|k2: Seq<u8>|
                    #[trigger] old(self).contents().contains_key(k2) ==> !old(self).before(k2, p)
            }),
            op == CURSOR_PREV ==> (old(self).position() is None ==> {
                &&& r matches Ok(Some((Some(k), _))) ==> forall|k2: Seq<u8>|
                    #[trigger] old(self).contents().contains_key(k2) ==> !old(self).before(k@, k2)
                &&& (r matches Ok(None)) ==> old(self).contents().dom() == Set::<Seq<u8>>::empty()
            }),
            op == CURSOR_GET_CURRENT ==> (r matches Ok(Some((Some(k), _))) ==> old(self).position() == Some(k@)),
    {
        match cursor_get(&mut self.inner, key, op) {
            Ok((k, raw)) => match V::from_raw(raw) {
                Some(v) => Ok(Some((k, v))),
                None => Err(KvError::EncodingFailure),
            },
            Err(KvError::NotFound) => Ok(None),
            Err(e) => Err(e),
        }
    }

    /// The first entry of the bucket; `None` when the bucket is empty.
    pub fn first(&mut self) -> (r: Result<Option<Entry<'txn, V>>, KvError>)
        ensures
            final(self).contents() == old(self).contents(),
            forall|a: Seq<u8>, b: Seq<u8>| #[trigger] final(self).before(a, b) == old(self).before(a, b),
            r matches Ok(Some((Some(k), _))) ==> final(self).position() == Some(k@),
            r matches Ok(Some((_, v))) ==> final(self).current_value() == Some(v.value_view()),
            (r matches Err(KvError::EncodingFailure)) ==> final(self).current_value() is Some
                && !V::decodes(final(self).current_value()->0),
            r is Err ==> r->Err_0 is EncodingFailure || r->Err_0 is Lmdb,
            r matches Ok(Some((Some(k), v))) ==> old(self).contents().contains_key(k@) && v.value_view()
                == old(self).contents()[k@] && forall|k2: Seq<u8>|
                #[trigger] old(self).contents().contains_key(k2) ==> !old(self).before(k2, k@),
            (r matches Ok(None)) ==> old(self).contents().dom() == Set::<Seq<u8>>::empty(),
            old(self).contents().dom() == Set::<Seq<u8>>::empty() ==> (r matches Ok(None)) || (r is Err
                && r->Err_0 is Lmdb),
    {
        self.step(None, CURSOR_FIRST)
    }

    /// The last entry of the bucket; `None` when the bucket is empty.
    pub fn last(&mut self) -> (r: Result<Option<Entry<'txn, V>>, KvError>)
        ensures
            final(self).contents() == old(self).contents(),
            forall|a: Seq<u8>, b: Seq<u8>| #[trigger] final(self).before(a, b) == old(self).before(a, b),
            r matches Ok(Some((Some(k), _))) ==> final(self).position() == Some(k@),
            r matches Ok(Some((_, v))) ==> final(self).current_value() == Some(v.value_view()),
            (r matches Err(KvError::EncodingFailure)) ==> final(self).current_value() is Some
                && !V::decodes(final(self).current_value()->0),
            r is Err ==> r->Err_0 is EncodingFailure || r->Err_0 is Lmdb,
            r matches Ok(Some((Some(k), _))) ==> old(self).contents().contains_key(k@) && forall|k2: Seq<u8>|
                #[trigger] old(self).contents().contains_key(k2) ==> !old(self).before(k@, k2),
            (r matches Ok(None)) ==> old(self).contents().dom() == Set::<Seq<u8>>::empty(),
            old(self).contents().dom() == Set::<Seq<u8>>::empty() ==> (r matches Ok(None)) || (r is Err
                && r->Err_0 is Lmdb),
    {
        self.step(None, CURSOR_LAST)
    }

    /// The entry after the current one (the first, on a new cursor): the
    /// nearest key not before the current one with no key strictly between
    /// (the same key again only for a further duplicate value).
    pub fn next(&mut self) -> (r: Result<Option<Entry<'txn, V>>, KvError>)
        ensures
            final(self).contents() == old(self).contents(),
            forall|a: Seq<u8>, b: Seq<u8>| #[trigger] final(self).before(a, b) == old(self).before(a, b),
            r matches Ok(Some((Some(k), _))) ==> final(self).position() == Some(k@),
            r matches Ok(Some((_, v))) ==> final(self).current_value() == Some(v.value_view()),
            (r matches Err(KvError::EncodingFailure)) ==> final(self).current_value() is Some
                && !V::decodes(final(self).current_value()->0),
            r is Err ==> r->Err_0 is EncodingFailure || r->Err_0 is Lmdb,
            r matches Ok(Some((Some(k), _))) ==> old(self).contents().contains_key(k@),
            old(self).position() matches Some(p) ==> {
                &&& r matches Ok(Some((Some(k), _))) ==> !old(self).before(k@, p) && forall|k2: Seq<u8>|
                    #[trigger] old(self).contents().contains_key(k2) && old(self).before(p, k2)
                        ==> !old(self).before(k2, k@)
                &&& (r matches Ok(None)) ==> forall|k2: Seq<u8>|
                    #[trigger] old(self).contents().contains_key(k2) ==> !old(self).before(p, k2)
            },
            old(self).position() is None ==> {
                &&& r matches Ok(Some((Some(k), _))) ==> forall|k2: Seq<u8>|
                    #[trigger] old(self).contents().contains_key(k2) ==> !old(self).before(k2, k@)
                &&& (r matches Ok(None)) ==> old(self).contents().dom() == Set::<Seq<u8>>::empty()
            },
    {
        self.step(None, CURSOR_NEXT)
    }

    /// The entry before the current one (the last, on a new cursor),
    /// mirroring `next`.
    pub fn prev(&mut self) -> (r: Result<Option<Entry<'txn, V>>, KvError>)
        ensures
            final(self).contents() == old(self).contents(),
            forall|a: Seq<u8>, b: Seq<u8>| #[trigger] final(self).before(a, b) == old(self).before(a, b),
            r matches Ok(Some((Some(k), _))) ==> final(self).position() == Some(k@),
            r matches Ok(Some((_, v))) ==> final(self).current_value() == Some(v.value_view()),
            (r matches Err(KvError::EncodingFailure)) ==> final(self).current_value() is Some
                && !V::decodes(final(self).current_value()->0),
            r is Err ==> r->Err_0 is EncodingFailure || r->Err_0 is Lmdb,
            r matches Ok(Some((Some(k), _))) ==> old(self).contents().contains_key(k@),
            old(self).position() matches Some(p) ==> {
                &&& r matches Ok(Some((Some(k), _))) ==> !old(self).before(p, k@) && forall|k2: Seq<u8>|
                    #[trigger] old(self).contents().contains_key(k2) && old(self).before(k2, p)
                        ==> !old(self).before(k@, k2)
                &&& (r matches Ok(None)) ==> forall|k2: Seq<u8>|
                    #[trigger] old(self).contents().contains_key(k2) ==> !old(self).before(k2, p)
            },
            old(self).position() is None ==> {
                &&& r matches Ok(Some((Some(k), _))) ==> forall|k2: Seq<u8>|
                    #[trigger] old(self).contents().contains_key(k2) ==> !old(self).before(k@, k2)
                &&& (r matches Ok(None)) ==> old(self).contents().dom() == Set::<Seq<u8>>::empty()
            },
    {
        self.step(None, CURSOR_PREV)
    }

    /// The entry with the smallest key not below `key`; `None` when every
    /// key comes before `key`.
    pub fn seek(&mut self, key: &[u8]) -> (r: Result<Option<Entry<'txn, V>>, KvError>)
        ensures
            final(self).contents() == old(self).contents(),
            forall|a: Seq<u8>, b: Seq<u8>| #[trigger] final(self).before(a, b) == old(self).before(a, b),
            r matches Ok(Some((Some(k), _))) ==> final(self).position() == Some(k@),
            r matches Ok(Some((_, v))) ==> final(self).current_value() == Some(v.value_view()),
            (r matches Err(KvError::EncodingFailure)) ==> final(self).current_value() is Some
                && !V::decodes(final(self).current_value()->0),
            r is Err ==> r->Err_0 is EncodingFailure || r->Err_0 is Lmdb,
            r matches Ok(Some((Some(k), _))) ==> old(self).contents().contains_key(k@) && !old(self).before(
                k@,
                key@,
            ) && forall|k2: Seq<u8>|
                #[trigger] old(self).contents().contains_key(k2) && !old(self).before(k2, key@) ==> !old(self).before(
                    k2,
                    k@,
                ),
            (r matches Ok(None)) ==> forall|k2: Seq<u8>|
                #[trigger] old(self).contents().contains_key(k2) ==> old(self).before(k2, key@),
    {
        self.step(Some(key), CURSOR_SET_RANGE)
    }

    /// The entry whose key is exactly `key`; `None` when the key is absent.
    pub fn seek_exact(&mut self, key: &[u8]) -> (r: Result<Option<Entry<'txn, V>>, KvError>)
        ensures
            final(self).contents() == old(self).contents(),
            forall|a: Seq<u8>, b: Seq<u8>| #[trigger] final(self).before(a, b) == old(self).before(a, b),
            r matches Ok(Some((Some(k), _))) ==> final(self).position() == Some(k@),
            r matches Ok(Some((_, v))) ==> final(self).current_value() == Some(v.value_view()),
            (r matches Err(KvError::EncodingFailure)) ==> final(self).current_value() is Some
                && !V::decodes(final(self).current_value()->0),
            r is Err ==> r->Err_0 is EncodingFailure || r->Err_0 is Lmdb,
            r matches Ok(Some((_, v))) ==> old(self).contents().contains_key(key@) && v.value_view()
                == old(self).contents()[key@],
            (r matches Ok(None)) ==> !old(self).contents().contains_key(key@),
            (r matches Err(KvError::EncodingFailure)) ==> old(self).contents().contains_key(key@)
                && !V::decodes(old(self).contents()[key@]),
            !old(self).contents().contains_key(key@) ==> (r matches Ok(None)) || (r is Err && r->Err_0 is Lmdb),
    {
        self.step(Some(key), CURSOR_SET_KEY)
    }

    /// The entry at the current position.
    pub fn current(&mut self) -> (r: Result<Option<Entry<'txn, V>>, KvError>)
        ensures
            final(self).contents() == old(self).contents(),
            forall|a: Seq<u8>, b: Seq<u8>| #[trigger] final(self).before(a, b) == old(self).before(a, b),
            r matches Ok(Some((Some(k), _))) ==> final(self).position() == Some(k@),
            r matches Ok(Some((_, v))) ==> final(self).current_value() == Some(v.value_view()),
            (r matches Err(KvError::EncodingFailure)) ==> final(self).current_value() is Some
                && !V::decodes(final(self).current_value()->0),
            r is Err ==> r->Err_0 is EncodingFailure || r->Err_0 is Lmdb,
            r matches Ok(Some((Some(k), _))) ==> old(self).contents().contains_key(k@),
            r matches Ok(Some((Some(k), _))) ==> old(self).position() == Some(k@),
    {
        self.step(None, CURSOR_GET_CURRENT)
    }
}

} // verus!

verus! {

/// Walks a cursor's bucket from one end to the other: forward from the first
/// key or backward from the last. Once it has reported the end or an error
/// it stays exhausted; a fresh cursor is needed to walk again.
pub struct Iter<'txn, V: Value<'txn>> {
    cursor: Cursor<'txn, V>,
    reverse: bool,
    started: bool,
    done: bool,
}

impl<'txn, V: Value<'txn>> Iter<'txn, V> {
    /// The cursor being walked.
    pub closed spec fn spec_cursor(&self) -> Cursor<'txn, V> {
        self.cursor
    }

    /// Whether the walk has ended.
    pub closed spec fn spec_done(&self) -> bool {
        self.done
    }

    /// Whether the walk has taken its first step.
    pub closed spec fn spec_started(&self) -> bool {
        self.started
    }

    /// Whether the walk goes from the last key backward.
    pub closed spec fn spec_reverse(&self) -> bool {
        self.reverse
    }

    /// A walk in ascending key order.
    pub fn forward(cursor: Cursor<'txn, V>) -> (r: Iter<'txn, V>)
        ensures
            r.spec_cursor() == cursor,
            !r.spec_reverse() && !r.spec_started() && !r.spec_done(),
    {
        Iter { cursor, reverse: false, started: false, done: false }
    }

    /// A walk in descending key order.
    pub fn backward(cursor: Cursor<'txn, V>) -> (r: Iter<'txn, V>)
        ensures
            r.spec_cursor() == cursor,
            r.spec_reverse() && !r.spec_started() && !r.spec_done(),
    {
        Iter { cursor, reverse: true, started: false, done: false }
    }

    /// The next entry of the walk: the first (last) entry on the first
    /// step, then the one after (before) the previous. `None` once the walk
    /// has passed the end; an error ends the walk too.
    pub fn next_entry(&mut self) -> (r: Option<Result<Entry<'txn, V>, KvError>>)
        ensures
            old(self).spec_done() ==> r is None && *final(self) == *old(self),
            !old(self).spec_done() ==> {
                &&& final(self).spec_started()
                &&& final(self).spec_reverse() == old(self).spec_reverse()
                &&& final(self).spec_cursor().contents() == old(self).spec_cursor().contents()
                &&& (r is None || (r matches Some(Err(_)))) <==> final(self).spec_done()
                &&& r matches Some(Ok((Some(k), _))) ==> final(self).spec_cursor().position() == Some(k@)
                &&& !old(self).spec_started() && !old(self).spec_reverse() ==> (r matches Some(
                    Ok((Some(k), _)),
                ) ==> forall|k2: Seq<u8>|
                    #[trigger] old(self).spec_cursor().contents().contains_key(k2)
                        ==> !old(self).spec_cursor().before(k2, k@))
                &&& !old(self).spec_started() && r is None ==> old(self).spec_cursor().contents().dom()
                    == Set::<Seq<u8>>::empty()
                &&& !old(self).spec_started() && old(self).spec_reverse() ==> (r matches Some(
                    Ok((Some(k), _)),
                ) ==> forall|k2: Seq<u8>|
                    #[trigger] old(self).spec_cursor().contents().contains_key(k2)
                        ==> !old(self).spec_cursor().before(k@, k2))
                &&& old(self).spec_started() && !old(self).spec_reverse() ==> (old(
                    self,
                ).spec_cursor().position() matches Some(p) ==> {
                    &&& r matches Some(Ok((Some(k), _))) ==> !old(self).spec_cursor().before(k@, p)
                        && forall|k2: Seq<u8>|
                        #[trigger] old(self).spec_cursor().contents().contains_key(k2)
                            && old(self).spec_cursor().before(p, k2) ==> !old(
                            self,
                        ).spec_cursor().before(k2, k@)
                    &&& r is None ==> forall|k2: Seq<u8>|
                        #[trigger] old(self).spec_cursor().contents().contains_key(k2) ==> !old(
                            self,
                        ).spec_cursor().before(p, k2)
                })
                &&& old(self).spec_started() && old(self).spec_reverse() ==> (old(
                    self,
                ).spec_cursor().position() matches Some(p) ==> {
                    &&& r matches Some(Ok((Some(k), _))) ==> !old(self).spec_cursor().before(p, k@)
                        && forall|k2: Seq<u8>|
                        #[trigger] old(self).spec_cursor().contents().contains_key(k2)
                            && old(self).spec_cursor().before(k2, p) ==> !old(
                            self,
                        ).spec_cursor().before(k@, k2)
                    &&& r is None ==> forall|k2: Seq<u8>|
                        #[trigger] old(self).spec_cursor().contents().contains_key(k2) ==> !old(
                            self,
                        ).spec_cursor().before(k2, p)
                })
            },
    {
        if self.done {
            return None;
        }
        let step = if !self.started {
            if self.reverse {
                self.cursor.last()
            } else {
                self.cursor.first()
            }
        } else if self.reverse {
            self.cursor.prev()
        } else {
            self.cursor.next()
        };
        self.started = true;
        match step {
            Ok(Some(entry)) => Some(Ok(entry)),
            Ok(None) => {
                self.done = true;
                None
            },
            Err(e) => {
                self.done = true;
                Some(Err(e))
            },
        }
    }
}

} // verus!
