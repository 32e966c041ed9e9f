//! RLP plumbing: exact specifications of the collaborating codec's header and
//! scalar decoders, trusted wrappers that call them, and a verified splitter
//! for the items of a list payload.
//!
//! The byte-level grammar here is the standard RLP one, including the codec's
//! canonicality rules: a single byte below `0x80` is its own payload, a
//! one-byte string at or above `0x80` must use the short form, long forms must
//! carry no leading zero and a length of at least 56, and a declared payload
//! must fit in the remaining input.

use vstd::prelude::*;

use crate::error::DbError;

verus! {

/// The big-endian value of a byte string.
pub open spec fn be_nat(s: Seq<u8>) -> int
    decreases s.len(),
{
    if s.len() == 0 {
        0
    } else {
        be_nat(s.drop_last()) * 256 + s.last()
    }
}

/// What the codec's header decoder returns on `b`: `None` on any error, or
/// `Some((list, payload_len, head_len))` where `head_len` bytes of header are
/// followed by `payload_len` bytes of payload. A single byte below `0x80` is
/// an item whose header is empty and whose payload is the byte itself.
pub open spec fn spec_rlp_head(b: Seq<u8>) -> Option<(bool, int, int)> {
    if b.len() == 0 {
        None
    } else {
        let b0 = b[0];
        if b0 <= 0x7f {
            Some((false, 1, 0))
        } else if b0 <= 0xb7 {
            let p = b0 - 0x80;
            if p == 1 && (b.len() < 2 || b[1] < 0x80) {
                None
            } else if b.len() < 1 + p {
                None
            } else {
                Some((false, p as int, 1))
            }
        } else if b0 <= 0xbf {
            let lol = b0 - 0xb7;
            if b.len() < 1 + lol {
                None
            } else {
                let lenbytes = b.subrange(1, 1 + lol);
                let p = be_nat(lenbytes);
                if lenbytes[0] == 0 || p < 56 || b.len() < 1 + lol + p {
                    None
                } else {
                    Some((false, p, 1 + lol))
                }
            }
        } else if b0 <= 0xf7 {
            let p = b0 - 0xc0;
            if b.len() < 1 + p {
                None
            } else {
                Some((true, p as int, 1))
            }
        } else {
            let lol = b0 - 0xf7;
            if b.len() < 1 + lol {
                None
            } else {
                let lenbytes = b.subrange(1, 1 + lol);
                let p = be_nat(lenbytes);
                if lenbytes[0] == 0 || p < 56 || b.len() < 1 + lol + p {
                    None
                } else {
                    Some((true, p, 1 + lol))
                }
            }
        }
    }
}

/// A decoded header is sane: the item spans at least one and at most all of
/// the input bytes, and the header part has nonnegative length.
pub proof fn lemma_rlp_head_bounds(b: Seq<u8>)
    ensures
        spec_rlp_head(b) matches Some(t) ==> {
            &&& 0 <= t.2
            &&& 0 <= t.1
            &&& 1 <= t.1 + t.2 <= b.len()
        },
{
}

/// What the codec's unsigned 64-bit decoder returns on `b`: the value and the
/// number of bytes consumed. The payload must be a non-list string of at most
/// eight bytes with no leading zero.
pub open spec fn spec_rlp_u64(b: Seq<u8>) -> Option<(u64, int)> {
    match spec_rlp_head(b) {
        None => None,
        Some((list, p, h)) => {
            if list || p > 8 {
                None
            } else {
                let payload = b.subrange(h, h + p);
                if p > 0 && payload[0] == 0 {
                    None
                } else {
                    Some((be_nat(payload) as u64, h + p))
                }
            }
        },
    }
}

/// What the codec's boolean decoder returns on `b`: an empty scalar payload is
/// `false`, a one-byte payload of `1` is `true`, everything else is an error.
pub open spec fn spec_rlp_bool(b: Seq<u8>) -> Option<(bool, int)> {
    match spec_rlp_head(b) {
        None => None,
        Some((list, p, h)) => {
            if list || p > 1 {
                None
            } else if p == 0 {
                Some((false, h))
            } else if b[h] == 1 {
                Some((true, h + 1))
            } else {
                None
            }
        },
    }
}

/// The items of a list payload `b`, each kept with its header bytes: `None`
/// unless the items tile `b` exactly.
pub open spec fn spec_rlp_items(b: Seq<u8>) -> Option<Seq<Seq<u8>>>
    decreases b.len(),
{
    if b.len() == 0 {
        Some(Seq::empty())
    } else {
        match spec_rlp_head(b) {
            None => None,
            Some((list, p, h)) => {
                let end = h + p;
                if end < 1 || end > b.len() {
                    None
                } else {
                    match spec_rlp_items(b.skip(end)) {
                        None => None,
                        Some(rest) => Some(seq![b.take(end)] + rest),
                    }
                }
            },
        }
    }
}

/// Relies on `alloy_rlp::Header::decode`: reads one RLP item header from the
/// front of `buf`. On success it hands back the item kind, the declared
/// payload length, and the length of input left after the header bytes —
/// exactly what [`spec_rlp_head`] says of `buf`.
#[verifier::external_body]
pub fn rlp_head(buf: &[u8]) -> (r: Result<(bool, usize, usize), DbError>)
    ensures
        match spec_rlp_head(buf@) {
            Some(t) => r matches Ok(o) && o.0 == t.0 && o.1 == t.1 && o.2 == buf@.len() - t.2,
            None => r matches Err(e) && e == DbError::Decode,
        },
{
    let mut s: &[u8] = buf;
    match alloy_rlp::Header::decode(&mut s) {
        Ok(h) => Ok((h.list, h.payload_length, s.len())),
        Err(_) => Err(DbError::Decode),
    }
}

/// Relies on `u64::decode` of `alloy_rlp`: reads one unsigned 64-bit scalar
/// from the front of `buf`. On success it hands back the value and the length
/// of input left — exactly what [`spec_rlp_u64`] says of `buf`.
#[verifier::external_body]
pub fn rlp_u64(buf: &[u8]) -> (r: Result<(u64, usize), DbError>)
    ensures
        match spec_rlp_u64(buf@) {
            Some(t) => r matches Ok(o) && o.0 == t.0 && o.1 == buf@.len() - t.1,
            None => r matches Err(e) && e == DbError::Decode,
        },
{
    let mut s: &[u8] = buf;
    match <u64 as alloy_rlp::Decodable>::decode(&mut s) {
        Ok(v) => Ok((v, s.len())),
        Err(_) => Err(DbError::Decode),
    }
}

/// Relies on `bool::decode` of `alloy_rlp`: reads one boolean from the front
/// of `buf`. On success it hands back the value and the length of input left —
/// exactly what [`spec_rlp_bool`] says of `buf`.
#[verifier::external_body]
pub fn rlp_bool(buf: &[u8]) -> (r: Result<(bool, usize), DbError>)
    ensures
        match spec_rlp_bool(buf@) {
            Some(t) => r matches Ok(o) && o.0 == t.0 && o.1 == buf@.len() - t.1,
            None => r matches Err(e) && e == DbError::Decode,
        },
{
    let mut s: &[u8] = buf;
    match <bool as alloy_rlp::Decodable>::decode(&mut s) {
        Ok(v) => Ok((v, s.len())),
        Err(_) => Err(DbError::Decode),
    }
}

/// The views of a sequence of byte vectors.
pub open spec fn raw_views(v: Seq<Vec<u8>>) -> Seq<Seq<u8>> {
    v.map_values(|x: Vec<u8>| x@)
}

/// Split a list payload into its items, each kept with its header bytes.
///
/// Succeeds exactly when the items tile `buf` completely, and then returns
/// them in order.
pub fn parse_items(buf: &[u8]) -> (r: Result<Vec<Vec<u8>>, DbError>)
    ensures
        match spec_rlp_items(buf@) {
            Some(items) => r matches Ok(v) && raw_views(v@) == items,
            None => r matches Err(e) && e == DbError::Decode,
        },
    decreases buf@.len(),
{
    if buf.len() == 0 {
        let v: Vec<Vec<u8>> = Vec::new();
        proof {
            assert(raw_views(v@) =~= Seq::<Seq<u8>>::empty());
        }
        Ok(v)
    } else {
        let (_list, p, rem) = match rlp_head(buf) {
            Ok(t) => t,
            Err(e) => {
                return Err(e);
            },
        };
        proof {
            lemma_rlp_head_bounds(buf@);
        }
        let head_len: usize = buf.len() - rem;
        let end: usize = head_len + p;
        let item: Vec<u8> = vstd::slice::slice_to_vec(vstd::slice::slice_subrange(buf, 0, end));
        let tail: &[u8] = vstd::slice::slice_subrange(buf, end, buf.len());
        proof {
            assert(tail@ =~= buf@.skip(end as int));
            assert(item@ =~= buf@.take(end as int));
        }
        match parse_items(tail) {
            Ok(rest) => {
                let ghost rest_views = raw_views(rest@);
                let mut out = rest;
                out.insert(0, item);
                proof {
                    assert(raw_views(out@) =~= seq![item@] + rest_views);
                }
                Ok(out)
            },
            Err(e) => Err(e),
        }
    }
}

} // verus!
