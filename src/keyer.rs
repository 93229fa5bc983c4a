use std::hash::Hasher;

use radix_fmt::radix;
use twox_hash::{XxHash, XxHash32};
use vstd::prelude::*;
use vstd::string::*;
use vstd::utf8::encode_utf8;

use crate::identifiers::{StoreObjectIID, StoreObjectOID};

verus! {

pub const STORE_KEYER_BUCKET_COMPACT_BASE: u8 = 36;

pub const STORE_KEYER_ROUTE_COMPACT_BASE: u8 = 36;

/// Seed of both key hashes; part of the on-disk key format.
pub const STORE_KEYER_HASH_SEED: u32 = 0;

/// The digit of value `d` (below 36): `0`-`9`, then lowercase `a`-`z`.
pub open spec fn radix_digit(d: nat) -> char {
    if d < 10 {
        (d + 48) as u8 as char
    } else {
        (d + 87) as u8 as char
    }
}

/// Shortest rendering of `n` in `base`, most significant digit first; zero is `"0"`.
pub open spec fn radix_digits(n: nat, base: nat) -> Seq<char>
    decreases n,
    via radix_digits_decreases
{
    if base < 2 || n < base {
        seq![radix_digit(n)]
    } else {
        radix_digits(n / base, base).push(radix_digit(n % base))
    }
}

#[via_fn]
proof fn radix_digits_decreases(n: nat, base: nat) {
    if !(base < 2 || n < base) {
        assert(n / base < n) by (nonlinear_arith)
            requires
                base >= 2,
                n >= base,
        ;
    }
}

proof fn lemma_radix_digits_nonempty(n: nat, base: nat)
    ensures
        radix_digits(n, base).len() >= 1,
    decreases n,
{
    if !(base < 2 || n < base) {
        assert(n / base < n) by (nonlinear_arith)
            requires
                base >= 2,
                n >= base,
        ;
        lemma_radix_digits_nonempty(n / base, base);
    }
}

/// Encoding is deterministic: keyers that agree on the table, the bucket's
/// text and the route value stand for the same physical key.
pub proof fn lemma_encoding_deterministic<'a, 'b>(a: &StoreKeyer<'a>, b: &StoreKeyer<'b>)
    requires
        a.idx.spec_index() == b.idx.spec_index(),
        a.bucket@ == b.bucket@,
        a.idx.spec_route() == b.idx.spec_route(),
    ensures
        a.spec_key() == b.spec_key(),
{
}

/// Keys of two different tables differ in their first field, the
/// discriminant, whatever the bucket and the route.
pub proof fn lemma_discriminant_separation<'a, 'b>(a: &StoreKeyer<'a>, b: &StoreKeyer<'b>)
    requires
        a.idx.spec_index() != b.idx.spec_index(),
    ensures
        a.spec_key()[0] != b.spec_key()[0],
        a.spec_key()[1] == ':',
        b.spec_key()[1] == ':',
        a.spec_key() != b.spec_key(),
{
    assert(a.spec_key()[0] == radix_digit(a.idx.spec_index() as nat));
    assert(b.spec_key()[0] == radix_digit(b.idx.spec_index() as nat));
}

/// The route token of an identifier route is the identifier itself in base
/// 36, never empty (zero is `"0"`).
pub proof fn lemma_integer_route_token<'a>(k: &StoreKeyer<'a>, iid: u64)
    requires
        k.idx.spec_route() == RouteView::Id(iid),
    ensures
        k.spec_route_token() == radix_digits(iid as nat, 36),
        k.spec_route_token().len() >= 1,
{
    lemma_radix_digits_nonempty(iid as nat, 36);
}

/// XXH32 of `bytes` with `seed`.
pub uninterp spec fn xxh32_of(seed: u32, bytes: Seq<u8>) -> u32;

/// XXH64 of `bytes` with `seed`.
pub uninterp spec fn xxh64_of(seed: u64, bytes: Seq<u8>) -> u64;

/// Relies on twox_hash::XxHash32 (`with_seed`, `Hasher::write`, `Hasher::finish`):
/// the 32-bit digest of the bytes, widened to `u64` by `Hasher::finish`.
#[verifier::external_body]
fn xxh32_hash(seed: u32, bytes: &[u8]) -> (r: u64)
    ensures
        r == xxh32_of(seed, bytes@) as u64,
{
    let mut hasher = XxHash32::with_seed(seed);
    hasher.write(bytes);
    hasher.finish()
}

/// Relies on twox_hash::XxHash (`XxHash64`; `with_seed`, `Hasher::write`,
/// `Hasher::finish`): the 64-bit digest of the bytes.
#[verifier::external_body]
fn xxh64_hash(seed: u64, bytes: &[u8]) -> (r: u64)
    ensures
        r == xxh64_of(seed, bytes@),
{
    let mut hasher = XxHash::with_seed(seed);
    hasher.write(bytes);
    hasher.finish()
}

/// Relies on radix_fmt::radix and the `Display` of `Radix<u64>`: the shortest
/// lowercase rendering of `n` in `base` (`radix` panics outside 2..=36).
#[verifier::external_body]
fn radix_string(n: u64, base: u8) -> (r: String)
    requires
        2 <= base <= 36,
    ensures
        r@ == radix_digits(n as nat, base as nat),
{
    format!("{}", radix(n, base))
}

/// Builds the key of one logical entry of an index table.
pub struct StoreKeyerBuilder;

/// The physical key of one logical entry: index table, bucket and route value.
pub struct StoreKeyer<'a> {
    pub idx: StoreKeyerIdx<'a>,
    pub bucket: &'a str,
}

/// The four index tables, each with the route value that selects an entry.
pub enum StoreKeyerIdx<'a> {
    TermToIIDs(&'a str),
    OIDToIID(StoreObjectOID),
    IIDToOID(StoreObjectIID),
    IIDToTerms(StoreObjectIID),
}

/// The route value of a key, as text or as an identifier.
pub enum RouteView {
    Text(Seq<char>),
    Id(u64),
}

impl<'a> StoreKeyerIdx<'a> {
    /// The discriminant of the table, written first in every key.
    pub open spec fn spec_index(&self) -> u8 {
        match self {
            StoreKeyerIdx::TermToIIDs(_) => 0,
            StoreKeyerIdx::OIDToIID(_) => 1,
            StoreKeyerIdx::IIDToOID(_) => 2,
            StoreKeyerIdx::IIDToTerms(_) => 3,
        }
    }

    /// The number that the route token renders: the hash of a text route,
    /// the identifier itself for an integer route.
    pub open spec fn spec_route_value(&self) -> u64 {
        match self {
            StoreKeyerIdx::TermToIIDs(term) => xxh64_of(STORE_KEYER_HASH_SEED as u64, term.spec_bytes()),
            StoreKeyerIdx::OIDToIID(oid) => xxh64_of(STORE_KEYER_HASH_SEED as u64, encode_utf8(oid@)),
            StoreKeyerIdx::IIDToOID(iid) => *iid,
            StoreKeyerIdx::IIDToTerms(iid) => *iid,
        }
    }

    /// The route value as given: a text, or an identifier.
    pub open spec fn spec_route(&self) -> RouteView {
        match self {
            StoreKeyerIdx::TermToIIDs(term) => RouteView::Text(term@),
            StoreKeyerIdx::OIDToIID(oid) => RouteView::Text(oid@),
            StoreKeyerIdx::IIDToOID(iid) => RouteView::Id(*iid),
            StoreKeyerIdx::IIDToTerms(iid) => RouteView::Id(*iid),
        }
    }

    pub fn to_index(&self) -> (r: u8)
        ensures
            r == self.spec_index(),
            r <= 3,
    {
        match self {
            StoreKeyerIdx::TermToIIDs(_) => 0,
            StoreKeyerIdx::OIDToIID(_) => 1,
            StoreKeyerIdx::IIDToOID(_) => 2,
            StoreKeyerIdx::IIDToTerms(_) => 3,
        }
    }
}

/// The bucket token: the 32-bit hash of the bucket's bytes in base 36.
pub open spec fn bucket_token(bucket: Seq<u8>) -> Seq<char> {
    radix_digits(
        xxh32_of(STORE_KEYER_HASH_SEED, bucket) as nat,
        STORE_KEYER_BUCKET_COMPACT_BASE as nat,
    )
}

/// The route token: the route value in base 36.
pub open spec fn route_token(value: u64) -> Seq<char> {
    radix_digits(value as nat, STORE_KEYER_ROUTE_COMPACT_BASE as nat)
}

/// A physical key: `<discriminant>:<bucket token>:<route token>`.
pub open spec fn physical_key(index: u8, bucket: Seq<char>, route: Seq<char>) -> Seq<char> {
    seq![radix_digit(index as nat)] + seq![':'] + bucket + seq![':'] + route
}

impl<'a> StoreKeyer<'a> {
    pub open spec fn spec_bucket_token(&self) -> Seq<char> {
        bucket_token(self.bucket.spec_bytes())
    }

    pub open spec fn spec_route_token(&self) -> Seq<char> {
        route_token(self.idx.spec_route_value())
    }

    /// The key that this keyer stands for.
    pub open spec fn spec_key(&self) -> Seq<char> {
        physical_key(self.idx.spec_index(), self.spec_bucket_token(), self.spec_route_token())
    }

    pub fn to_string(&self) -> (r: String)
        ensures
            r@ == self.spec_key(),
    {
        let index = self.idx.to_index();
        let mut key = radix_string(index as u64, 10);
        let bucket = self.bucket_to_compact();
        let route = self.route_to_compact();
        proof {
            reveal_strlit(":");
            assert(radix_digits(index as nat, 10) == seq![radix_digit(index as nat)]);
        }
        key.append(":");
        key.append(bucket.as_str());
        key.append(":");
        key.append(route.as_str());
        key
    }

    pub fn bucket_to_compact(&self) -> (r: String)
        ensures
            r@ == self.spec_bucket_token(),
    {
        let hash = xxh32_hash(STORE_KEYER_HASH_SEED, self.bucket.as_bytes());
        radix_string(hash, STORE_KEYER_BUCKET_COMPACT_BASE)
    }

    pub fn route_to_compact(&self) -> (r: String)
        ensures
            r@ == self.spec_route_token(),
    {
        let value = match &self.idx {
            StoreKeyerIdx::TermToIIDs(route) => Self::hash_route_text(route),
            StoreKeyerIdx::OIDToIID(route) => Self::hash_route_text(route.as_str()),
            StoreKeyerIdx::IIDToOID(route) => *route,
            StoreKeyerIdx::IIDToTerms(route) => *route,
        };
        radix_string(value, STORE_KEYER_ROUTE_COMPACT_BASE)
    }

    fn hash_route_text(text: &str) -> (r: u64)
        ensures
            r == xxh64_of(STORE_KEYER_HASH_SEED as u64, text.spec_bytes()),
    {
        xxh64_hash(STORE_KEYER_HASH_SEED as u64, text.as_bytes())
    }
}

impl StoreKeyerBuilder {
    pub fn term_to_iids<'a>(bucket: &'a str, term: &'a str) -> (r: StoreKeyer<'a>)
        ensures
            r.bucket@ == bucket@,
            r.idx == StoreKeyerIdx::TermToIIDs(term),
    {
        StoreKeyer { idx: StoreKeyerIdx::TermToIIDs(term), bucket: bucket }
    }

    pub fn oid_to_iid<'a>(bucket: &'a str, oid: StoreObjectOID) -> (r: StoreKeyer<'a>)
        ensures
            r.bucket@ == bucket@,
            r.idx == StoreKeyerIdx::OIDToIID(oid),
    {
        StoreKeyer { idx: StoreKeyerIdx::OIDToIID(oid), bucket: bucket }
    }

    pub fn iid_to_oid<'a>(bucket: &'a str, iid: StoreObjectIID) -> (r: StoreKeyer<'a>)
        ensures
            r.bucket@ == bucket@,
            r.idx == StoreKeyerIdx::IIDToOID(iid),
    {
        StoreKeyer { idx: StoreKeyerIdx::IIDToOID(iid), bucket: bucket }
    }

    pub fn iid_to_terms<'a>(bucket: &'a str, iid: StoreObjectIID) -> (r: StoreKeyer<'a>)
        ensures
            r.bucket@ == bucket@,
            r.idx == StoreKeyerIdx::IIDToTerms(iid),
    {
        StoreKeyer { idx: StoreKeyerIdx::IIDToTerms(iid), bucket: bucket }
    }
}

} // verus!
