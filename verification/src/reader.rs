//! The chain reader façade: turns a block number into a canonical record by
//! composing the key schema, a store lookup, and the value decoder.
//!
//! Every operation either returns a fully-constructed record or fails with a
//! distinct [`DbError`] kind; no partial result is ever produced.

use vstd::prelude::*;

use crate::decode::{
    decode_body, decode_header, decode_receipts, seal, spec_decode_body, spec_decode_header,
    spec_decode_receipts,
};
use crate::error::DbError;
use crate::key::{
    spec_body_key, spec_hash_by_number_key, spec_header_lookup_key, spec_receipts_key, DBKey,
};
use crate::record::{
    receipt_views, tx_views, HeaderHash, ReceiptV, ReceiptWithBloom, SealedBlock, SealedHeader,
    TxType,
};
use crate::store::KvStore;

verus! {

/// Reads canonical block records out of an open legacy database.
pub struct GethDBReader<S: KvStore> {
    db: S,
}

impl<S: KvStore> GethDBReader<S> {
    /// What the underlying store holds under `key`.
    pub closed spec fn lookup(&self, key: Seq<u8>) -> Option<Seq<u8>> {
        self.db.lookup(key)
    }

    /// Wrap an open store handle.
    pub fn new(database: S) -> (r: Self)
        ensures
            forall|k: Seq<u8>| r.lookup(k) == database.lookup(k),
    {
        GethDBReader { db: database }
    }

    /// What `hash_by_number` returns: the 32 bytes under the hash key, a
    /// [`DbError::NotFound`] if the key is absent, and a
    /// [`DbError::Integrity`] if the stored value has any other length.
    pub open spec fn spec_hash_by_number(&self, number: u64) -> Result<Seq<u8>, DbError> {
        match self.lookup(spec_hash_by_number_key(number)) {
            None => Err(DbError::NotFound),
            Some(v) => if v.len() == 32 {
                Ok(v)
            } else {
                Err(DbError::Integrity)
            },
        }
    }

    /// Retrieve a header hash by its block number.
    pub fn hash_by_number(&self, number: u64) -> (r: Result<HeaderHash, DbError>)
        ensures
            match r {
                Ok(h) => self.spec_hash_by_number(number) == Ok::<Seq<u8>, DbError>(h@) && h.wf(),
                Err(e) => self.spec_hash_by_number(number) == Err::<Seq<u8>, DbError>(e),
            },
    {
        let key = DBKey::hash_by_number(number);
        match self.db.get(key.as_slice()) {
            None => Err(DbError::NotFound),
            Some(v) => {
                if v.len() == 32 {
                    Ok(HeaderHash::new(v))
                } else {
                    Err(DbError::Integrity)
                }
            },
        }
    }

    /// What `header_by_number` returns: the header's encoding, its number
    /// field, and the hash it is sealed with — which is exactly the hash
    /// fetched from the hash table.
    pub open spec fn spec_header_by_number(&self, number: u64) -> Result<
        (Seq<u8>, u64, Seq<u8>),
        DbError,
    > {
        match self.spec_hash_by_number(number) {
            Err(e) => Err(e),
            Ok(hash) => match self.lookup(spec_header_lookup_key(hash, number)) {
                None => Err(DbError::NotFound),
                Some(rlp) => match spec_decode_header(rlp) {
                    None => Err(DbError::Decode),
                    Some(t) => Ok((t.0, t.1, hash)),
                },
            },
        }
    }

    /// Retrieve a sealed header by its block number: resolve the hash, fetch
    /// the header's RLP, decode it, and seal it with the fetched hash.
    pub fn header_by_number(&self, number: u64) -> (r: Result<SealedHeader, DbError>)
        ensures
            match r {
                Ok(sh) => self.spec_header_by_number(number) == Ok::<
                    (Seq<u8>, u64, Seq<u8>),
                    DbError,
                >((sh.header.encoding@, sh.header.number, sh.hash@)) && sh.hash.wf(),
                Err(e) => self.spec_header_by_number(number) == Err::<
                    (Seq<u8>, u64, Seq<u8>),
                    DbError,
                >(e),
            },
    {
        let hash = match self.hash_by_number(number) {
            Ok(h) => h,
            Err(e) => {
                return Err(e);
            },
        };
        let key = DBKey::header_lookup(&hash, number);
        let rlp = match self.db.get(key.as_slice()) {
            Some(v) => v,
            None => {
                return Err(DbError::NotFound);
            },
        };
        let header = match decode_header(rlp.as_slice()) {
            Ok(h) => h,
            Err(e) => {
                return Err(e);
            },
        };
        Ok(seal(header, hash))
    }

    /// What `block_by_number` returns: the sealed header's parts and the raw
    /// transaction items of the body stored under the header's own number and
    /// hash.
    pub open spec fn spec_block_by_number(&self, number: u64) -> Result<
        ((Seq<u8>, u64, Seq<u8>), Seq<Seq<u8>>),
        DbError,
    > {
        match self.spec_header_by_number(number) {
            Err(e) => Err(e),
            Ok(hv) => match self.lookup(spec_body_key(hv.2, hv.1)) {
                None => Err(DbError::NotFound),
                Some(body_rlp) => match spec_decode_body(body_rlp) {
                    Err(e) => Err(e),
                    Ok(txs) => Ok((hv, txs)),
                },
            },
        }
    }

    /// Retrieve a sealed block by its block number: resolve the sealed
    /// header, fetch the body stored under the header's hash and number, and
    /// decode the legacy doubly-wrapped transaction list.
    pub fn block_by_number(&self, number: u64) -> (r: Result<SealedBlock, DbError>)
        ensures
            match r {
                Ok(b) => self.spec_block_by_number(number) == Ok::<
                    ((Seq<u8>, u64, Seq<u8>), Seq<Seq<u8>>),
                    DbError,
                >(
                    (
                        (b.header.header.encoding@, b.header.header.number, b.header.hash@),
                        tx_views(b.body@),
                    ),
                ) && b.header.hash.wf(),
                Err(e) => self.spec_block_by_number(number) == Err::<
                    ((Seq<u8>, u64, Seq<u8>), Seq<Seq<u8>>),
                    DbError,
                >(e),
            },
    {
        let header = match self.header_by_number(number) {
            Ok(h) => h,
            Err(e) => {
                return Err(e);
            },
        };
        let key = DBKey::body_by_hash(&header.hash, header.header.number);
        let body_rlp = match self.db.get(key.as_slice()) {
            Some(v) => v,
            None => {
                return Err(DbError::NotFound);
            },
        };
        let body = match decode_body(body_rlp.as_slice()) {
            Ok(v) => v,
            Err(e) => {
                return Err(e);
            },
        };
        Ok(SealedBlock { header, body })
    }

    /// What `receipts_by_number` returns: the decoded receipt views of the
    /// value stored under the receipts key for the resolved hash.
    pub open spec fn spec_receipts_by_number(&self, number: u64) -> Result<Seq<ReceiptV>, DbError> {
        match self.spec_hash_by_number(number) {
            Err(e) => Err(e),
            Ok(hash) => match self.lookup(spec_receipts_key(hash, number)) {
                None => Err(DbError::NotFound),
                Some(v) => spec_decode_receipts(v),
            },
        }
    }

    /// Retrieve the receipts of a block by its number: resolve the hash,
    /// fetch the receipts value, and decode it — empty for the designated
    /// genesis shape, otherwise exactly one legacy receipt with its bloom
    /// filter recomputed from the logs.
    pub fn receipts_by_number(&self, number: u64) -> (r: Result<Vec<ReceiptWithBloom>, DbError>)
        ensures
            match r {
                Ok(v) => self.spec_receipts_by_number(number) == Ok::<Seq<ReceiptV>, DbError>(
                    receipt_views(v@),
                ) && (forall|i: int|
                    0 <= i < v@.len() ==> (#[trigger] v@[i]).receipt.tx_type == TxType::Legacy),
                Err(e) => self.spec_receipts_by_number(number) == Err::<Seq<ReceiptV>, DbError>(e),
            },
    {
        let hash = match self.hash_by_number(number) {
            Ok(h) => h,
            Err(e) => {
                return Err(e);
            },
        };
        let key = DBKey::receipts_by_hash(&hash, number);
        let value = match self.db.get(key.as_slice()) {
            Some(v) => v,
            None => {
                return Err(DbError::NotFound);
            },
        };
        decode_receipts(value.as_slice())
    }
}

/// Round trip through the header tables: a store holding a 32-byte hash under
/// the hash key for `n` and a decodable header value under the matching
/// lookup key makes `header_by_number` succeed with exactly the decoded
/// fields of that value, sealed with exactly that hash.
pub proof fn lemma_header_round_trip<S: KvStore>(
    r: &GethDBReader<S>,
    n: u64,
    hash: Seq<u8>,
    value: Seq<u8>,
)
    requires
        hash.len() == 32,
        r.lookup(spec_hash_by_number_key(n)) == Some(hash),
        r.lookup(spec_header_lookup_key(hash, n)) == Some(value),
        spec_decode_header(value) is Some,
    ensures
        r.spec_header_by_number(n) == Ok::<(Seq<u8>, u64, Seq<u8>), DbError>(
            (
                spec_decode_header(value)->Some_0.0,
                spec_decode_header(value)->Some_0.1,
                hash,
            ),
        ),
{
}

/// Round trip through header and body tables: with matching hash and header
/// entries, a body value stored under the header's hash and number that
/// decodes to some transaction items makes `block_by_number` succeed with
/// exactly those items — in particular, with exactly their count.
pub proof fn lemma_block_round_trip<S: KvStore>(
    r: &GethDBReader<S>,
    n: u64,
    hash: Seq<u8>,
    header_value: Seq<u8>,
    body_value: Seq<u8>,
)
    requires
        hash.len() == 32,
        r.lookup(spec_hash_by_number_key(n)) == Some(hash),
        r.lookup(spec_header_lookup_key(hash, n)) == Some(header_value),
        spec_decode_header(header_value) is Some,
        r.lookup(spec_body_key(hash, spec_decode_header(header_value)->Some_0.1)) == Some(
            body_value,
        ),
        spec_decode_body(body_value) is Ok,
    ensures
        r.spec_block_by_number(n) == Ok::<((Seq<u8>, u64, Seq<u8>), Seq<Seq<u8>>), DbError>(
            (
                (
                    spec_decode_header(header_value)->Some_0.0,
                    spec_decode_header(header_value)->Some_0.1,
                    hash,
                ),
                spec_decode_body(body_value)->Ok_0,
            ),
        ),
{
    lemma_header_round_trip(r, n, hash, header_value);
}

/// A store holding none of the required keys makes every reader operation
/// fail with [`DbError::NotFound`] — never with a default or partial record.
pub proof fn lemma_missing_keys_not_found<S: KvStore>(r: &GethDBReader<S>, n: u64)
    requires
        forall|k: Seq<u8>| r.lookup(k) is None,
    ensures
        r.spec_hash_by_number(n) == Err::<Seq<u8>, DbError>(DbError::NotFound),
        r.spec_header_by_number(n) == Err::<(Seq<u8>, u64, Seq<u8>), DbError>(DbError::NotFound),
        r.spec_block_by_number(n) == Err::<((Seq<u8>, u64, Seq<u8>), Seq<Seq<u8>>), DbError>(
            DbError::NotFound,
        ),
        r.spec_receipts_by_number(n) == Err::<Seq<ReceiptV>, DbError>(DbError::NotFound),
{
}

/// A hash value of any length other than 32 bytes — 31 or 33, say — fails
/// with [`DbError::Integrity`] rather than being truncated or padded.
pub proof fn lemma_wrong_hash_length_integrity<S: KvStore>(
    r: &GethDBReader<S>,
    n: u64,
    v: Seq<u8>,
)
    requires
        r.lookup(spec_hash_by_number_key(n)) == Some(v),
        v.len() != 32,
    ensures
        r.spec_hash_by_number(n) == Err::<Seq<u8>, DbError>(DbError::Integrity),
{
}

} // verus!
