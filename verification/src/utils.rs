//! Type-tagged identifiers and small helpers shared by the whole
//! library.
//!
//! An [`Id<T>`] is an opaque 32-bit handle plus a zero-size type tag
//! `T`; the tag exists only at compile time and keeps an identifier of
//! one entity kind from being used where another kind is expected.
//! Equality is by the underlying value alone.

use vstd::prelude::*;
use vstd::std_specs::cmp::PartialEqSpec;
use rand::seq::SliceRandom;

verus! {

/// The raw value carried by every typed identifier.
pub type IdValue = u32;

/// An opaque identifier tagged with the entity kind `T`.
///
/// The tag carries no runtime payload; two identifiers of the same
/// kind are equal exactly when their underlying values are equal.
#[derive(Debug, Hash)]
#[verifier::reject_recursive_types(T)]
pub struct Id<T> {
    pub value: IdValue,
    pub phantom: core::marker::PhantomData<T>,
}

impl<T> Id<T> {
    /// Wrap a raw value as a typed identifier.
    pub fn new(value: IdValue) -> (r: Self)
        ensures
            r.value == value,
    {
        Id { value, phantom: core::marker::PhantomData }
    }

    /// The base-62 rendering of the value's little-endian bytes, for
    /// log-legible display composition; presentation only.
    pub fn short_code(&self) -> (r: String)
        ensures
            r@ == base62_of(le_bytes_of(self.value)),
    {
        proof {
            let v = self.value;
            assert(v & 0xFF < 256) by (bit_vector);
            assert((v >> 8) & 0xFF < 256) by (bit_vector);
            assert((v >> 16) & 0xFF < 256) by (bit_vector);
            assert((v >> 24) & 0xFF < 256) by (bit_vector);
        }
        let mut bytes: Vec<u8> = Vec::new();
        bytes.push((self.value & 0xFF) as u8);
        bytes.push(((self.value >> 8) & 0xFF) as u8);
        bytes.push(((self.value >> 16) & 0xFF) as u8);
        bytes.push(((self.value >> 24) & 0xFF) as u8);
        proof {
            assert(bytes@ =~= le_bytes_of(self.value));
        }
        base62_encode(&bytes)
    }
}

impl<T> Clone for Id<T> {
    fn clone(&self) -> (r: Self)
        ensures
            r.value == self.value,
    {
        Id { value: self.value, phantom: core::marker::PhantomData }
    }
}

impl<T> Copy for Id<T> {}

impl<T> PartialEq for Id<T> {
    fn eq(&self, other: &Self) -> bool {
        self.value == other.value
    }
}

impl<T> Eq for Id<T> {}

impl<T> vstd::std_specs::cmp::PartialEqSpecImpl for Id<T> {
    open spec fn obeys_eq_spec() -> bool {
        true
    }

    open spec fn eq_spec(&self, other: &Self) -> bool {
        self.value == other.value
    }
}

/// Equality of identifiers is decided by the underlying value alone,
/// independent of how and in which order each identifier was minted:
/// what `==` computes, and mathematical equality itself, both come
/// down to the underlying values.
pub proof fn lemma_id_eq_by_value<T>(a: Id<T>, b: Id<T>)
    ensures
        a.eq_spec(&b) <==> a.value == b.value,
        (a == b) <==> a.value == b.value,
{
}

/// Relies on rand::random: draws a value of type `T` from the standard
/// distribution; for `u32` this is uniform over the full 32-bit range.
pub assume_specification<T>[ rand::random::<T> ]() -> (r: T)
    where
        rand::distributions::Standard: rand::distributions::Distribution<T>,
;

/// Draw a fresh identifier uniformly from the full 32-bit range.
///
/// No uniqueness is enforced: distinctness of a modest number of draws
/// is statistical, not guaranteed.
pub fn rand_id<T>() -> Id<T> {
    Id::new(rand::random::<u32>())
}

/// How many characters a short random identifier string has.
pub const ID_SIZE: usize = 5;

/// The alphabet short random identifier strings draw from.
pub open spec fn id_chars_spec() -> Seq<char> {
    seq![
        'A', 'Z', 'E', 'R', 'T', 'Y', 'U', 'I', 'O', 'P', 'Q', 'S', 'D', 'F', 'G', 'H', 'J', 'K',
        'L', 'M', 'W', 'X', 'C', 'V', 'B', 'N', 'a', 'z', 'e', 'r', 't', 'y', 'u', 'i', 'o', 'p',
        'q', 's', 'd', 'f', 'g', 'h', 'j', 'k', 'l', 'm', 'w', 'x', 'c', 'v', 'b', 'n', '0', '1',
        '2', '3', '4', '5', '6', '7', '8', '9',
    ]
}

/// The alphabet as an executable vector.
fn id_chars() -> (v: Vec<char>)
    ensures
        v@ == id_chars_spec(),
{
    let v: Vec<char> = vec![
        'A', 'Z', 'E', 'R', 'T', 'Y', 'U', 'I', 'O', 'P', 'Q', 'S', 'D', 'F', 'G', 'H', 'J', 'K',
        'L', 'M', 'W', 'X', 'C', 'V', 'B', 'N', 'a', 'z', 'e', 'r', 't', 'y', 'u', 'i', 'o', 'p',
        'q', 's', 'd', 'f', 'g', 'h', 'j', 'k', 'l', 'm', 'w', 'x', 'c', 'v', 'b', 'n', '0', '1',
        '2', '3', '4', '5', '6', '7', '8', '9',
    ];
    proof {
        assert(v@ =~= id_chars_spec());
    }
    v
}

/// Relies on rand's SliceRandom::choose with thread_rng: some element
/// of a non-empty slice; which one depends on the generator.
#[verifier::external_body]
fn choose_char(chars: &Vec<char>) -> (r: char)
    requires
        chars@.len() > 0,
    ensures
        chars@.contains(r),
{
    *chars.as_slice().choose(&mut rand::thread_rng()).unwrap()
}

/// Relies on Iterator::collect for String: the string made of exactly
/// these characters, in order.
#[verifier::external_body]
fn chars_to_string(chars: &Vec<char>) -> (r: String)
    ensures
        r@ == chars@,
{
    chars.iter().collect()
}

/// A short random identifier string: `ID_SIZE` characters drawn from
/// the identifier alphabet.  Distinctness is statistical only.
pub fn rand_id_unsafe() -> (r: String)
    ensures
        r@.len() == ID_SIZE,
        forall|i: int| 0 <= i < r@.len() ==> id_chars_spec().contains(#[trigger] r@[i]),
{
    let chars = id_chars();
    let mut out: Vec<char> = Vec::new();
    let mut i: usize = 0;
    while i < ID_SIZE
        invariant
            chars@ == id_chars_spec(),
            i <= ID_SIZE,
            out@.len() == i,
            forall|j: int| 0 <= j < out@.len() ==> id_chars_spec().contains(#[trigger] out@[j]),
        decreases ID_SIZE - i,
    {
        let c = choose_char(&chars);
        out.push(c);
        i = i + 1;
    }
    chars_to_string(&out)
}

/// What base-62 encoding renders a byte sequence as; the result is a
/// function of the bytes alone.
pub uninterp spec fn base62_of(bytes: Seq<u8>) -> Seq<char>;

/// Relies on base_62::base62::encode: the base-62 rendering of the
/// bytes, a function of the bytes alone; empty input gives an empty
/// string.
#[verifier::external_body]
fn base62_encode(bytes: &Vec<u8>) -> (r: String)
    ensures
        r@ == base62_of(bytes@),
        bytes@.len() == 0 ==> r@.len() == 0,
{
    base_62::base62::encode(bytes.as_slice())
}

/// The little-endian bytes of a 32-bit value.
pub open spec fn le_bytes_of(v: u32) -> Seq<u8> {
    seq![
        (v & 0xFF) as u8,
        ((v >> 8) & 0xFF) as u8,
        ((v >> 16) & 0xFF) as u8,
        ((v >> 24) & 0xFF) as u8,
    ]
}

/// An opaque wall-clock instant, as measured by the host.
#[verifier::external_type_specification]
#[verifier::external_body]
pub struct ExInstant(std::time::Instant);

/// Relies on std::time::Instant::now: the current instant.  Nothing
/// can be promised of a clock reading.
#[verifier::external_body]
pub fn instant_now() -> std::time::Instant {
    std::time::Instant::now()
}

/// Relies on std::time::Instant::elapsed and Duration::as_micros: the
/// microseconds that passed since `t`, saturated to the `u64` range.
/// Nothing can be promised of a clock reading.
#[verifier::external_body]
pub fn micros_since(t: &std::time::Instant) -> u64 {
    u64::try_from(t.elapsed().as_micros()).unwrap_or(u64::MAX)
}

/// Run `f` once and report the wall-clock microseconds it took.  The
/// duration is a clock reading and carries no promise; that `f` was
/// invoked shows in its own postcondition holding of some result.
pub fn time<F, K>(f: F) -> (us: u128) where F: FnOnce() -> K
    requires
        call_requires(f, ()),
    ensures
        exists|k: K| call_ensures(f, (), k),
{
    let start = instant_now();
    let k = f();
    proof {
        assert(call_ensures(f, (), k));
    }
    micros_since(&start) as u128
}

/// Remove and return some element of a non-empty hash set.
pub fn pop_set<T: Clone + Eq + std::hash::Hash>(set: &mut std::collections::HashSet<T>) -> (r: T)
    requires
        vstd::std_specs::hash::obeys_key_model::<T>(),
        old(set)@.len() > 0,
    ensures
        old(set)@.contains(r),
        final(set)@ == old(set)@.remove(r),
{
    let elt = set_pick(set);
    set.remove(&elt);
    elt
}

/// Relies on HashSet::iter: hands back a clone of some element of a
/// non-empty set; which one is unspecified.
#[verifier::external_body]
fn set_pick<T: Clone + Eq + std::hash::Hash>(set: &std::collections::HashSet<T>) -> (r: T)
    requires
        vstd::std_specs::hash::obeys_key_model::<T>(),
        set@.len() > 0,
    ensures
        set@.contains(r),
{
    set.iter().next().cloned().unwrap()
}

} // verus!
