use vstd::prelude::*;

verus! {

/// Engine flag: keys are compared from the last byte to the first.
pub const REVERSE_KEY: u32 = 0x02;

/// Engine flag: a key may hold several values, kept sorted.
pub const DUP_SORT: u32 = 0x04;

/// Engine flag: keys are native-order unsigned integers, ordered numerically.
pub const INTEGER_KEY: u32 = 0x08;

/// Engine flag: with `DUP_SORT`, all values of a key have one size.
pub const DUP_FIXED: u32 = 0x10;

/// Engine flag: with `DUP_SORT`, the values are integers ordered numerically.
pub const INTEGER_DUP: u32 = 0x20;

/// Engine flag: with `DUP_SORT`, values are compared from the last byte to the first.
pub const REVERSE_DUP: u32 = 0x40;

/// Engine flag for an environment: the path names the data file itself
/// rather than a directory that holds it.
pub const NO_SUB_DIR: u32 = 0x4000;

/// Engine flag for an environment: it is opened for reading only.
pub const READ_ONLY: u32 = 0x20000;

/// The options with which a bucket's database is opened, as engine flag bits.
#[derive(Debug, Clone, Copy, PartialEq, Eq, Structural)]
pub struct DatabaseFlags {
    bits: u32,
}

impl View for DatabaseFlags {
    type V = u32;

    closed spec fn view(&self) -> u32 {
        self.bits
    }
}

impl DatabaseFlags {
    /// No options: plain byte-wise key order, one value per key.
    pub fn empty() -> (r: DatabaseFlags)
        ensures
            r@ == 0,
    {
        DatabaseFlags { bits: 0 }
    }

    /// Integer key order.
    pub fn integer_key() -> (r: DatabaseFlags)
        ensures
            r@ == INTEGER_KEY,
    {
        DatabaseFlags { bits: INTEGER_KEY }
    }

    /// Several sorted values per key.
    pub fn dup_sort() -> (r: DatabaseFlags)
        ensures
            r@ == DUP_SORT,
    {
        DatabaseFlags { bits: DUP_SORT }
    }

    /// Exactly the given engine flag bits; `None` when a bit is not one of
    /// the database flags above.
    pub fn from_bits(bits: u32) -> (r: Option<DatabaseFlags>)
        ensures
            r is Some <==> bits & !0x7eu32 == 0,
            r is Some ==> r->0@ == bits,
    {
        if bits & !0x7eu32 == 0 {
            Some(DatabaseFlags { bits })
        } else {
            None
        }
    }

    /// The engine flag bits.
    pub fn bits(&self) -> (r: u32)
        ensures
            r == self@,
    {
        self.bits
    }

    /// Add the bits of `other`, keeping those already set.
    pub fn insert(&mut self, other: DatabaseFlags)
        ensures
            final(self)@ == old(self)@ | other@,
    {
        self.bits = self.bits | other.bits;
    }

    /// Whether every bit of `other` is set here.
    pub fn contains(&self, other: DatabaseFlags) -> (r: bool)
        ensures
            r == (self@ & other@ == other@),
    {
        self.bits & other.bits == other.bits
    }
}

/// How to open a store: where it lives, which buckets it declares, and the
/// engine's limits.
#[derive(Debug, Clone)]
pub struct Config {
    /// Location of the environment.
    pub path: String,
    /// Declared buckets, in the order declared; a later declaration of a
    /// name overrides an earlier one.
    pub buckets: Vec<(String, DatabaseFlags)>,
    /// Whether the store refuses write transactions.
    pub readonly: bool,
    /// Whether `path` names the data file itself rather than a directory.
    pub no_sub_dir: bool,
    /// Size of the memory map, in bytes.
    pub map_size: usize,
    /// Largest number of concurrent read transactions.
    pub max_readers: u32,
    /// Largest number of named buckets.
    pub max_dbs: u32,
}

/// The flags declared last for `name`, if it was declared.
pub open spec fn declared_flags(buckets: Seq<(String, DatabaseFlags)>, name: Seq<char>) -> Option<u32>
    decreases buckets.len(),
{
    if buckets.len() == 0 {
        None
    } else if buckets.last().0@ == name {
        Some(buckets.last().1@)
    } else {
        declared_flags(buckets.drop_last(), name)
    }
}

impl Config {
    /// A writable configuration for `path` with no declared buckets and
    /// default limits.
    pub fn default(path: &str) -> (r: Config)
        ensures
            r.path@ == path@,
            r.buckets@.len() == 0,
            !r.readonly,
            !r.no_sub_dir,
    {
        Config {
            path: path.to_owned(),
            buckets: Vec::new(),
            readonly: false,
            no_sub_dir: false,
            map_size: 10485760,
            max_readers: 126,
            max_dbs: 16,
        }
    }

    /// Declare the bucket `name` with `flags` (no flags for `None`).
    pub fn bucket(&mut self, name: &str, flags: Option<DatabaseFlags>)
        ensures
            final(self).buckets@.len() == old(self).buckets@.len() + 1,
            final(self).buckets@.drop_last() == old(self).buckets@,
            final(self).buckets@.last().0@ == name@,
            final(self).buckets@.last().1@ == (match flags {
                Some(f) => f@,
                None => 0u32,
            }),
            final(self).path == old(self).path,
            final(self).readonly == old(self).readonly,
            final(self).no_sub_dir == old(self).no_sub_dir,
            final(self).map_size == old(self).map_size,
            final(self).max_readers == old(self).max_readers,
            final(self).max_dbs == old(self).max_dbs,
    {
        let f = match flags {
            Some(f) => f,
            None => DatabaseFlags::empty(),
        };
        self.buckets.push((name.to_owned(), f));
        assert(self.buckets@.drop_last() =~= old(self).buckets@);
    }

    /// The engine flags with which the environment is opened.
    pub fn environment_flags(&self) -> (r: u32)
        ensures
            r & READ_ONLY != 0 <==> self.readonly,
            r & NO_SUB_DIR != 0 <==> self.no_sub_dir,
            r & !(READ_ONLY | NO_SUB_DIR) == 0,
    {
        let a: u32 = if self.readonly { READ_ONLY } else { 0 };
        let b: u32 = if self.no_sub_dir { NO_SUB_DIR } else { 0 };
        let r = a | b;
        assert(r & 0x20000u32 != 0 <==> a != 0) by (bit_vector)
            requires r == a | b, a == 0 || a == 0x20000u32, b == 0 || b == 0x4000u32;
        assert(r & 0x4000u32 != 0 <==> b != 0) by (bit_vector)
            requires r == a | b, a == 0 || a == 0x20000u32, b == 0 || b == 0x4000u32;
        assert(r & !(0x20000u32 | 0x4000u32) == 0) by (bit_vector)
            requires r == a | b, a == 0 || a == 0x20000u32, b == 0 || b == 0x4000u32;
        r
    }
}

} // verus!
