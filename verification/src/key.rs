//! The legacy rawdb key schema: pure builders for the byte-exact keys under
//! which the legacy database stores block data.
//!
//! Four disjoint key families exist, told apart by a fixed one-byte prefix and
//! an optional one-byte suffix, so that no two distinct logical lookups ever
//! collide; `lemma_keys_pairwise_distinct` proves exactly that.

use vstd::prelude::*;

use crate::record::HeaderHash;

verus! {

/// Prefix byte of the header tables (ASCII `h`).
pub const HEADER_PREFIX: u8 = 0x68;

/// Suffix byte of the `hash by number` table (ASCII `n`).
pub const HEADER_HASH_SUFFIX: u8 = 0x6e;

/// Prefix byte of the block body table (ASCII `b`).
pub const BLOCK_BODY_PREFIX: u8 = 0x62;

/// Prefix byte of the receipts table (ASCII `r`).
///
/// The schema description available for the legacy chain leaves this constant
/// less settled than the others; it is kept as a named constant so a deployment
/// can confirm it against the source chain's rawdb documentation.
pub const RECEIPTS_PREFIX: u8 = 0x72;

/// The block number as it is embedded in keys: eight big-endian bytes, so that
/// lexicographic key order equals numeric block order.
pub open spec fn spec_be64(n: u64) -> Seq<u8> {
    Seq::new(8, |i: int| (n >> (56 - 8 * i)) as u8)
}

pub open spec fn spec_hash_by_number_key(n: u64) -> Seq<u8> {
    seq![HEADER_PREFIX] + spec_be64(n) + seq![HEADER_HASH_SUFFIX]
}

pub open spec fn spec_header_lookup_key(hash: Seq<u8>, n: u64) -> Seq<u8> {
    seq![HEADER_PREFIX] + spec_be64(n) + hash
}

pub open spec fn spec_body_key(hash: Seq<u8>, n: u64) -> Seq<u8> {
    seq![BLOCK_BODY_PREFIX] + spec_be64(n) + hash
}

pub open spec fn spec_receipts_key(hash: Seq<u8>, n: u64) -> Seq<u8> {
    seq![RECEIPTS_PREFIX] + spec_be64(n) + hash
}

/// Push the eight big-endian bytes of `n` onto `key`.
fn push_be64(key: &mut Vec<u8>, n: u64)
    ensures
        final(key)@ == old(key)@ + spec_be64(n),
{
    let mut i: usize = 0;
    while i < 8
        invariant
            i <= 8,
            key@ == old(key)@ + spec_be64(n).take(i as int),
        decreases 8 - i,
    {
        let shift: u64 = 56 - 8 * (i as u64);
        let b: u8 = #[verifier::truncate] ((n >> shift) as u8);
        key.push(b);
        proof {
            assert(key@ =~= old(key)@ + spec_be64(n).take(i + 1));
        }
        i = i + 1;
    }
    proof {
        assert(spec_be64(n).take(8) =~= spec_be64(n));
    }
}

/// Push the 32 hash bytes onto `key`.
fn push_hash(key: &mut Vec<u8>, hash: &HeaderHash)
    requires
        hash.wf(),
    ensures
        final(key)@ == old(key)@ + hash@,
{
    let bytes = hash.as_bytes();
    let mut i: usize = 0;
    while i < 32
        invariant
            i <= 32,
            bytes@ == hash@,
            hash@.len() == 32,
            key@ == old(key)@ + hash@.take(i as int),
        decreases 32 - i,
    {
        let b: u8 = *vstd::slice::slice_index_get(bytes, i);
        key.push(b);
        proof {
            assert(key@ =~= old(key)@ + hash@.take(i + 1));
        }
        i = i + 1;
    }
    proof {
        assert(hash@.take(32) =~= hash@);
    }
}

/// A key of the legacy database: an opaque byte sequence built by one of the
/// four family builders below.
pub struct DBKey(Vec<u8>);

impl View for DBKey {
    type V = Seq<u8>;

    closed spec fn view(&self) -> Seq<u8> {
        self.0@
    }
}

impl DBKey {
    /// The key of the `hash by number` table: maps a block number to its
    /// canonical header hash.
    ///
    /// Layout: prefix `h`, eight big-endian number bytes, suffix `n`.
    pub fn hash_by_number(number: u64) -> (r: Self)
        ensures
            r@ == spec_hash_by_number_key(number),
    {
        let mut key: Vec<u8> = Vec::new();
        key.push(HEADER_PREFIX);
        push_be64(&mut key, number);
        key.push(HEADER_HASH_SUFFIX);
        proof {
            assert(key@ =~= spec_hash_by_number_key(number));
        }
        DBKey(key)
    }

    /// The key of the `header by number and hash` table: maps the pair to the
    /// header's RLP encoding.
    ///
    /// Layout: prefix `h`, eight big-endian number bytes, the 32 hash bytes.
    pub fn header_lookup(hash: &HeaderHash, number: u64) -> (r: Self)
        requires
            hash.wf(),
        ensures
            r@ == spec_header_lookup_key(hash@, number),
    {
        let mut key: Vec<u8> = Vec::new();
        key.push(HEADER_PREFIX);
        push_be64(&mut key, number);
        push_hash(&mut key, hash);
        proof {
            assert(key@ =~= spec_header_lookup_key(hash@, number));
        }
        DBKey(key)
    }

    /// The key of the block body table: maps a number and hash pair to the
    /// body's RLP encoding.
    ///
    /// Layout: prefix `b`, eight big-endian number bytes, the 32 hash bytes.
    pub fn body_by_hash(hash: &HeaderHash, number: u64) -> (r: Self)
        requires
            hash.wf(),
        ensures
            r@ == spec_body_key(hash@, number),
    {
        let mut key: Vec<u8> = Vec::new();
        key.push(BLOCK_BODY_PREFIX);
        push_be64(&mut key, number);
        push_hash(&mut key, hash);
        proof {
            assert(key@ =~= spec_body_key(hash@, number));
        }
        DBKey(key)
    }

    /// The key of the receipts table: maps a number and hash pair to the
    /// block's RLP-encoded receipt list.
    ///
    /// Layout: prefix [`RECEIPTS_PREFIX`], eight big-endian number bytes, the
    /// 32 hash bytes.
    pub fn receipts_by_hash(hash: &HeaderHash, number: u64) -> (r: Self)
        requires
            hash.wf(),
        ensures
            r@ == spec_receipts_key(hash@, number),
    {
        let mut key: Vec<u8> = Vec::new();
        key.push(RECEIPTS_PREFIX);
        push_be64(&mut key, number);
        push_hash(&mut key, hash);
        proof {
            assert(key@ =~= spec_receipts_key(hash@, number));
        }
        DBKey(key)
    }

    /// The key's raw bytes, as handed to the store.
    pub fn as_slice(&self) -> (r: &[u8])
        ensures
            r@ == self@,
    {
        self.0.as_slice()
    }
}

/// Big-endian encoding is injective: equal byte strings come from equal
/// numbers.
pub proof fn lemma_be64_injective(a: u64, b: u64)
    ensures
        spec_be64(a) == spec_be64(b) ==> a == b,
{
    if spec_be64(a) == spec_be64(b) {
        assert(spec_be64(a)[0] == spec_be64(b)[0]);
        assert(spec_be64(a)[1] == spec_be64(b)[1]);
        assert(spec_be64(a)[2] == spec_be64(b)[2]);
        assert(spec_be64(a)[3] == spec_be64(b)[3]);
        assert(spec_be64(a)[4] == spec_be64(b)[4]);
        assert(spec_be64(a)[5] == spec_be64(b)[5]);
        assert(spec_be64(a)[6] == spec_be64(b)[6]);
        assert(spec_be64(a)[7] == spec_be64(b)[7]);
        assert(a == b) by (bit_vector)
            requires
                (a >> 56) as u8 == (b >> 56) as u8,
                (a >> 48) as u8 == (b >> 48) as u8,
                (a >> 40) as u8 == (b >> 40) as u8,
                (a >> 32) as u8 == (b >> 32) as u8,
                (a >> 24) as u8 == (b >> 24) as u8,
                (a >> 16) as u8 == (b >> 16) as u8,
                (a >> 8) as u8 == (b >> 8) as u8,
                (a >> 0) as u8 == (b >> 0) as u8,
        ;
    }
}

/// The key builders are deterministic (they are functions) and pairwise
/// distinguishable: no two distinct logical lookups — differing in table,
/// number, or hash — produce the same key bytes.
pub proof fn lemma_keys_pairwise_distinct(h1: Seq<u8>, n1: u64, h2: Seq<u8>, n2: u64)
    requires
        h1.len() == 32,
        h2.len() == 32,
    ensures
        spec_hash_by_number_key(n1) == spec_hash_by_number_key(n2) ==> n1 == n2,
        spec_header_lookup_key(h1, n1) == spec_header_lookup_key(h2, n2) ==> h1 == h2 && n1 == n2,
        spec_body_key(h1, n1) == spec_body_key(h2, n2) ==> h1 == h2 && n1 == n2,
        spec_receipts_key(h1, n1) == spec_receipts_key(h2, n2) ==> h1 == h2 && n1 == n2,
        spec_hash_by_number_key(n1) != spec_header_lookup_key(h2, n2),
        spec_hash_by_number_key(n1) != spec_body_key(h2, n2),
        spec_hash_by_number_key(n1) != spec_receipts_key(h2, n2),
        spec_header_lookup_key(h1, n1) != spec_body_key(h2, n2),
        spec_header_lookup_key(h1, n1) != spec_receipts_key(h2, n2),
        spec_body_key(h1, n1) != spec_receipts_key(h2, n2),
{
    lemma_be64_injective(n1, n2);
    if spec_hash_by_number_key(n1) == spec_hash_by_number_key(n2) {
        assert(spec_be64(n1) =~= spec_be64(n2)) by {
            assert(forall|i: int|
                0 <= i < 8 ==> spec_be64(n1)[i] == spec_hash_by_number_key(n1)[i + 1]
                    && spec_be64(n2)[i] == spec_hash_by_number_key(n2)[i + 1]);
        }
    }
    if spec_header_lookup_key(h1, n1) == spec_header_lookup_key(h2, n2) {
        assert(spec_be64(n1) =~= spec_be64(n2)) by {
            assert(forall|i: int|
                0 <= i < 8 ==> spec_be64(n1)[i] == spec_header_lookup_key(h1, n1)[i + 1]
                    && spec_be64(n2)[i] == spec_header_lookup_key(h2, n2)[i + 1]);
        }
        assert(h1 =~= h2) by {
            assert(forall|i: int|
                0 <= i < 32 ==> h1[i] == spec_header_lookup_key(h1, n1)[i + 9]
                    && h2[i] == spec_header_lookup_key(h2, n2)[i + 9]);
        }
    }
    if spec_body_key(h1, n1) == spec_body_key(h2, n2) {
        assert(spec_be64(n1) =~= spec_be64(n2)) by {
            assert(forall|i: int|
                0 <= i < 8 ==> spec_be64(n1)[i] == spec_body_key(h1, n1)[i + 1]
                    && spec_be64(n2)[i] == spec_body_key(h2, n2)[i + 1]);
        }
        assert(h1 =~= h2) by {
            assert(forall|i: int|
                0 <= i < 32 ==> h1[i] == spec_body_key(h1, n1)[i + 9]
                    && h2[i] == spec_body_key(h2, n2)[i + 9]);
        }
    }
    if spec_receipts_key(h1, n1) == spec_receipts_key(h2, n2) {
        assert(spec_be64(n1) =~= spec_be64(n2)) by {
            assert(forall|i: int|
                0 <= i < 8 ==> spec_be64(n1)[i] == spec_receipts_key(h1, n1)[i + 1]
                    && spec_be64(n2)[i] == spec_receipts_key(h2, n2)[i + 1]);
        }
        assert(h1 =~= h2) by {
            assert(forall|i: int|
                0 <= i < 32 ==> h1[i] == spec_receipts_key(h1, n1)[i + 9]
                    && h2[i] == spec_receipts_key(h2, n2)[i + 9]);
        }
    }
    assert(spec_hash_by_number_key(n1).len() == 10);
    assert(spec_header_lookup_key(h2, n2).len() == 41);
    assert(spec_body_key(h2, n2).len() == 41);
    assert(spec_receipts_key(h2, n2).len() == 41);
    assert(spec_header_lookup_key(h1, n1)[0] == HEADER_PREFIX);
    assert(spec_body_key(h2, n2)[0] == BLOCK_BODY_PREFIX);
    assert(spec_receipts_key(h2, n2)[0] == RECEIPTS_PREFIX);
    assert(spec_body_key(h1, n1)[0] == BLOCK_BODY_PREFIX);
}

} // verus!
