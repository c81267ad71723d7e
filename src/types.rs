use vstd::array::axiom_array_ext_equal;
use vstd::bytes::{
    lemma_auto_spec_u64_to_from_le_bytes, spec_u64_from_le_bytes, spec_u64_to_le_bytes,
    spec_u64_to_le_bytes_to_open, u64_from_le_bytes,
};
use vstd::prelude::*;
use vstd::string::StringSliceAdditionalSpecFns;
use vstd::utf8::valid_utf8;

verus! {

/// A type whose values can be used as database keys: each value has a byte form.
pub trait Key {
    /// The bytes handed to the engine for this key.
    spec fn key_view(&self) -> Seq<u8>;

    /// Borrow the bytes of this key.
    fn key_bytes(&self) -> (r: &[u8])
        ensures
            r@ == self.key_view(),
    ;
}

/// A type whose values can be stored in a database and read back from the
/// bytes the engine returns.
pub trait Value<'a>: Sized {
    /// The bytes stored for this value.
    spec fn value_view(&self) -> Seq<u8>;

    /// The byte strings from which a value of this type can be rebuilt.
    spec fn decodes(raw: Seq<u8>) -> bool;

    /// Borrow the bytes of this value.
    fn value_bytes(&self) -> (r: &[u8])
        ensures
            r@ == self.value_view(),
    ;

    /// Rebuild a value from bytes borrowed from the engine; `None` when the
    /// bytes are not a valid encoding for this type.
    fn from_raw(raw: &'a [u8]) -> (r: Option<Self>)
        ensures
            r is Some <==> Self::decodes(raw@),
            r is Some ==> r->0.value_view() == raw@,
    ;
}

/// Little-endian bytes of a 64-bit unsigned integer.
pub open spec fn integer_bytes(n: u64) -> Seq<u8> {
    spec_u64_to_le_bytes(n)
}

/// The integer whose little-endian bytes are `b`.
pub open spec fn integer_value(b: Seq<u8>) -> u64 {
    spec_u64_from_le_bytes(b)
}

/// Encoding a number and decoding its bytes gives the number back, and the
/// encoding is always exactly eight bytes long.
pub proof fn integer_round_trip(n: u64)
    ensures
        integer_bytes(n).len() == 8,
        integer_value(integer_bytes(n)) == n,
{
    lemma_auto_spec_u64_to_from_le_bytes();
}

/// Two eight-byte strings with the same integer value are equal.
pub proof fn integer_value_injective(a: Seq<u8>, b: Seq<u8>)
    requires
        a.len() == 8,
        b.len() == 8,
        integer_value(a) == integer_value(b),
    ensures
        a == b,
{
    lemma_auto_spec_u64_to_from_le_bytes();
    assert(spec_u64_to_le_bytes(spec_u64_from_le_bytes(a)) == a);
    assert(spec_u64_to_le_bytes(spec_u64_from_le_bytes(b)) == b);
}

/// Integer key type: a 64-bit unsigned number stored as eight
/// little-endian bytes. On little-endian targets that is the native order
/// in which an integer-keyed bucket compares keys, so such a bucket orders
/// these keys numerically.
#[derive(Debug, Clone, Copy)]
pub struct Integer([u8; 8]);

impl View for Integer {
    type V = Seq<u8>;

    closed spec fn view(&self) -> Seq<u8> {
        self.0@
    }
}

impl Integer {
    /// The key for the number `n`.
    pub closed spec fn spec_from_u64(n: u64) -> Integer {
        Integer(
            [
                (n & 0xff) as u8,
                ((n >> 8) & 0xff) as u8,
                ((n >> 16) & 0xff) as u8,
                ((n >> 24) & 0xff) as u8,
                ((n >> 32) & 0xff) as u8,
                ((n >> 40) & 0xff) as u8,
                ((n >> 48) & 0xff) as u8,
                ((n >> 56) & 0xff) as u8,
            ],
        )
    }

    /// The key for `n` holds the eight little-endian bytes of `n`, and so
    /// stands for `n` again.
    pub broadcast proof fn lemma_spec_from_u64(n: u64)
        ensures
            (#[trigger] Integer::spec_from_u64(n))@ == integer_bytes(n),
            Integer::spec_from_u64(n).value() == n,
    {
        spec_u64_to_le_bytes_to_open(n);
        lemma_auto_spec_u64_to_from_le_bytes();
        assert(Integer::spec_from_u64(n)@ =~= integer_bytes(n));
    }

    /// The number this key stands for.
    pub open spec fn value(&self) -> u64 {
        integer_value(self@)
    }

    /// The key for the number `n`.
    pub fn from_u64(n: u64) -> (r: Integer)
        ensures
            r == Integer::spec_from_u64(n),
            r@ == integer_bytes(n),
            r.value() == n,
            r@.len() == 8,
    {
        let b: [u8; 8] = [
            (n & 0xff) as u8,
            ((n >> 8) & 0xff) as u8,
            ((n >> 16) & 0xff) as u8,
            ((n >> 24) & 0xff) as u8,
            ((n >> 32) & 0xff) as u8,
            ((n >> 40) & 0xff) as u8,
            ((n >> 48) & 0xff) as u8,
            ((n >> 56) & 0xff) as u8,
        ];
        proof {
            spec_u64_to_le_bytes_to_open(n);
            assert(b@ =~= integer_bytes(n));
            Integer::lemma_spec_from_u64(n);
            lemma_auto_spec_u64_to_from_le_bytes();
            Integer::lemma_view_eq(Integer(b), Integer::spec_from_u64(n));
        }
        Integer(b)
    }

    /// The number this key stands for.
    pub fn to_u64(&self) -> (r: u64)
        ensures
            r == self.value(),
    {
        proof {
            self.lemma_len();
        }
        u64_from_le_bytes(self.0.as_slice())
    }

    /// Rebuild a key from exactly eight bytes; any other length is refused.
    pub fn from_bytes(buf: &[u8]) -> (r: Option<Integer>)
        ensures
            r is Some <==> buf@.len() == 8,
            r is Some ==> r->0@ == buf@,
    {
        if buf.len() != 8 {
            return None;
        }
        let b: [u8; 8] = [buf[0], buf[1], buf[2], buf[3], buf[4], buf[5], buf[6], buf[7]];
        assert(b@ =~= buf@);
        Some(Integer(b))
    }

    /// Every key is eight bytes long.
    pub proof fn lemma_len(&self)
        ensures
            self@.len() == 8,
    {
    }

    /// Keys with the same bytes are the same key.
    pub proof fn lemma_view_eq(a: Integer, b: Integer)
        requires
            a@ == b@,
        ensures
            a == b,
    {
        broadcast use axiom_array_ext_equal;
        assert(a.0 =~= b.0);
    }
}

impl PartialEq for Integer {
    fn eq(&self, other: &Integer) -> (r: bool) {
        proof {
            self.lemma_len();
            other.lemma_len();
            if self.value() == other.value() {
                integer_value_injective(self@, other@);
            }
        }
        self.to_u64() == other.to_u64()
    }
}

impl vstd::std_specs::cmp::PartialEqSpecImpl for Integer {
    open spec fn obeys_eq_spec() -> bool {
        true
    }

    open spec fn eq_spec(&self, other: &Integer) -> bool {
        self@ == other@
    }
}

impl PartialOrd for Integer {
    fn partial_cmp(&self, other: &Integer) -> (r: Option<std::cmp::Ordering>) {
        let a = self.to_u64();
        let b = other.to_u64();
        if a < b {
            Some(std::cmp::Ordering::Less)
        } else if a > b {
            Some(std::cmp::Ordering::Greater)
        } else {
            proof {
                self.lemma_len();
                other.lemma_len();
                integer_value_injective(self@, other@);
            }
            Some(std::cmp::Ordering::Equal)
        }
    }
}

impl vstd::std_specs::cmp::PartialOrdSpecImpl for Integer {
    open spec fn obeys_partial_cmp_spec() -> bool {
        true
    }

    open spec fn partial_cmp_spec(&self, other: &Integer) -> Option<std::cmp::Ordering> {
        if self.value() < other.value() {
            Some(std::cmp::Ordering::Less)
        } else if self.value() > other.value() {
            Some(std::cmp::Ordering::Greater)
        } else {
            Some(std::cmp::Ordering::Equal)
        }
    }
}

impl From<u64> for Integer {
    fn from(n: u64) -> (r: Integer) {
        Integer::from_u64(n)
    }
}

impl vstd::std_specs::convert::FromSpecImpl<u64> for Integer {
    open spec fn obeys_from_spec() -> bool {
        true
    }

    open spec fn from_spec(n: u64) -> Integer {
        Integer::spec_from_u64(n)
    }
}

impl From<Integer> for u64 {
    fn from(i: Integer) -> (r: u64) {
        i.to_u64()
    }
}

impl vstd::std_specs::convert::FromSpecImpl<Integer> for u64 {
    open spec fn obeys_from_spec() -> bool {
        true
    }

    open spec fn from_spec(i: Integer) -> u64 {
        i.value()
    }
}

impl Key for Integer {
    open spec fn key_view(&self) -> Seq<u8> {
        self@
    }

    fn key_bytes(&self) -> (r: &[u8]) {
        self.0.as_slice()
    }
}


/// A value that borrows an existing byte slice.
#[derive(Debug, PartialEq, Eq, PartialOrd)]
pub struct ValueRef<'a>(&'a [u8]);

impl<'a> View for ValueRef<'a> {
    type V = Seq<u8>;

    closed spec fn view(&self) -> Seq<u8> {
        self.0@
    }
}

impl<'a> ValueRef<'a> {
    /// Create a new ValueRef from an existing byte slice.
    pub fn new(buf: &'a [u8]) -> (r: ValueRef<'a>)
        ensures
            r@ == buf@,
    {
        ValueRef(buf)
    }

    /// A ValueRef over the bytes of a text.
    pub fn from_str(s: &'a str) -> (r: ValueRef<'a>)
        ensures
            r@ == s.spec_bytes(),
    {
        ValueRef(s.as_bytes())
    }

    /// The borrowed bytes.
    pub fn as_slice(&self) -> (r: &'a [u8])
        ensures
            r@ == self@,
    {
        self.0
    }
}

/// A value that borrows an existing, writable byte slice.
#[derive(Debug)]
pub struct ValueMut<'a>(pub &'a mut [u8]);

impl<'a> View for ValueMut<'a> {
    type V = Seq<u8>;

    closed spec fn view(&self) -> Seq<u8> {
        self.0@
    }
}

impl<'a> ValueMut<'a> {
    /// Create a new ValueMut from an existing byte slice.
    pub fn new(buf: &'a mut [u8]) -> (r: ValueMut<'a>)
        ensures
            r@ == old(buf)@,
            final(buf)@ == final(r.0)@,
    {
        ValueMut(buf)
    }

    /// The borrowed bytes, for reading.
    pub fn as_slice(&self) -> (r: &[u8])
        ensures
            r@ == self@,
    {
        self.0
    }

    /// The borrowed bytes, for writing in place.
    pub fn as_mut_slice(&mut self) -> (r: &mut [u8])
        ensures
            (*r)@ == old(self)@,
            final(self)@ == (*final(r))@,
    {
        &mut *self.0
    }

    /// A read-only view of the same bytes.
    pub fn as_value<V: Value<'a>>(&'a self) -> (r: ValueRef<'a>)
        ensures
            r@ == self@,
    {
        ValueRef(self.0)
    }
}

impl<'a> Key for ValueRef<'a> {
    open spec fn key_view(&self) -> Seq<u8> {
        self@
    }

    fn key_bytes(&self) -> (r: &[u8]) {
        self.0
    }
}

impl<'a> Value<'a> for ValueRef<'a> {
    open spec fn value_view(&self) -> Seq<u8> {
        self@
    }

    open spec fn decodes(raw: Seq<u8>) -> bool {
        true
    }

    fn value_bytes(&self) -> (r: &[u8]) {
        self.0
    }

    fn from_raw(raw: &'a [u8]) -> (r: Option<ValueRef<'a>>) {
        Some(ValueRef(raw))
    }
}

impl<'s> Key for &'s [u8] {
    open spec fn key_view(&self) -> Seq<u8> {
        (*self)@
    }

    fn key_bytes(&self) -> (r: &[u8]) {
        *self
    }
}

impl<'a> Value<'a> for &'a [u8] {
    open spec fn value_view(&self) -> Seq<u8> {
        (*self)@
    }

    open spec fn decodes(raw: Seq<u8>) -> bool {
        true
    }

    fn value_bytes(&self) -> (r: &[u8]) {
        *self
    }

    fn from_raw(raw: &'a [u8]) -> (r: Option<&'a [u8]>) {
        Some(raw)
    }
}

impl Key for Vec<u8> {
    open spec fn key_view(&self) -> Seq<u8> {
        self@
    }

    fn key_bytes(&self) -> (r: &[u8]) {
        self.as_slice()
    }
}

impl<'s> Key for &'s str {
    open spec fn key_view(&self) -> Seq<u8> {
        (*self).spec_bytes()
    }

    fn key_bytes(&self) -> (r: &[u8]) {
        (*self).as_bytes()
    }
}

impl Key for String {
    open spec fn key_view(&self) -> Seq<u8> {
        vstd::utf8::encode_utf8(self@)
    }

    fn key_bytes(&self) -> (r: &[u8]) {
        self.as_str().as_bytes()
    }
}

/// Relies on std::str::from_utf8: it accepts exactly the slices that are
/// valid UTF-8, and then returns them unchanged as text.
#[verifier::external_body]
fn text_of_bytes(raw: &[u8]) -> (r: Option<&str>)
    ensures
        r is Some <==> valid_utf8(raw@),
        r is Some ==> r->0.spec_bytes() == raw@,
{
    std::str::from_utf8(raw).ok()
}

impl<'a> Value<'a> for &'a str {
    open spec fn value_view(&self) -> Seq<u8> {
        (*self).spec_bytes()
    }

    open spec fn decodes(raw: Seq<u8>) -> bool {
        valid_utf8(raw)
    }

    fn value_bytes(&self) -> (r: &[u8]) {
        (*self).as_bytes()
    }

    fn from_raw(raw: &'a [u8]) -> (r: Option<&'a str>) {
        text_of_bytes(raw)
    }
}

impl<'a> Value<'a> for String {
    open spec fn value_view(&self) -> Seq<u8> {
        vstd::utf8::encode_utf8(self@)
    }

    open spec fn decodes(raw: Seq<u8>) -> bool {
        valid_utf8(raw)
    }

    fn value_bytes(&self) -> (r: &[u8]) {
        self.as_str().as_bytes()
    }

    fn from_raw(raw: &'a [u8]) -> (r: Option<String>) {
        match text_of_bytes(raw) {
            Some(t) => Some(t.to_owned()),
            None => None,
        }
    }
}

} // verus!
