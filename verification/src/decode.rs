//! The value decoder: byte-accurate reconstruction of canonical records from
//! the legacy database's RLP values, applying the legacy-format corrections.
//!
//! Three legacy quirks live here: block bodies arrive doubly wrapped (an outer
//! list holding exactly one inner transaction list), the designated genesis
//! block stores a receipt value whose outer list has zero payload length, and
//! every other receipt value carries exactly one receipt, stored without its
//! bloom filter, which is recomputed from the logs after decoding.
//!
//! The field-level codecs of the canonical header and transaction types belong
//! to the external collaborator; this decoder validates the list structure the
//! legacy schema prescribes and extracts what its own logic consumes.

use vstd::prelude::*;

use crate::bloom::{logs_bloom, spec_bloom};
use crate::error::DbError;
use crate::record::{
    log_view, logs_view, receipt_views, tx_views, Header, HeaderHash, Log, LogV, Receipt,
    ReceiptV, ReceiptWithBloom, SealedHeader, Transaction, TxType,
};
use crate::rlp::{
    lemma_rlp_head_bounds, parse_items, raw_views, rlp_bool, rlp_head, rlp_u64, spec_rlp_bool,
    spec_rlp_head, spec_rlp_items, spec_rlp_u64,
};
use vstd::slice::{slice_subrange, slice_to_vec};

verus! {

/// The least number of fields a canonical header list carries; the block
/// number is the ninth of them.
pub const HEADER_FIELDS_MIN: usize = 15;

/// The position of the block number among the header's fields.
pub const HEADER_NUMBER_FIELD: usize = 8;

/// What decoding a header value yields: the header's RLP item bytes and its
/// block number, or `None` if the value is malformed — not one well-formed
/// RLP list of at least [`HEADER_FIELDS_MIN`] items whose ninth is an
/// unsigned 64-bit scalar.
pub open spec fn spec_decode_header(b: Seq<u8>) -> Option<(Seq<u8>, u64)> {
    match spec_rlp_head(b) {
        None => None,
        Some((list, p, h)) => {
            if !list {
                None
            } else {
                match spec_rlp_items(b.subrange(h, h + p)) {
                    None => None,
                    Some(items) => {
                        if items.len() < HEADER_FIELDS_MIN {
                            None
                        } else {
                            match spec_rlp_u64(items[HEADER_NUMBER_FIELD as int]) {
                                None => None,
                                Some((n, c)) => Some((b.take(h + p), n)),
                            }
                        }
                    },
                }
            }
        },
    }
}

/// Decode a header value fetched from the header table.
///
/// Succeeds exactly when [`spec_decode_header`] does, and then returns the
/// header item's bytes together with the block number read from its ninth
/// field; fails with [`DbError::Decode`] on malformed input.
pub fn decode_header(bytes: &[u8]) -> (r: Result<Header, DbError>)
    ensures
        match spec_decode_header(bytes@) {
            Some(t) => r matches Ok(hd) && hd.encoding@ == t.0 && hd.number == t.1,
            None => r matches Err(e) && e == DbError::Decode,
        },
{
    let (list, p, rem) = match rlp_head(bytes) {
        Ok(t) => t,
        Err(e) => {
            return Err(e);
        },
    };
    proof {
        lemma_rlp_head_bounds(bytes@);
    }
    if !list {
        return Err(DbError::Decode);
    }
    let h: usize = bytes.len() - rem;
    let payload = slice_subrange(bytes, h, h + p);
    let items = match parse_items(payload) {
        Ok(v) => v,
        Err(e) => {
            return Err(e);
        },
    };
    if items.len() < HEADER_FIELDS_MIN {
        return Err(DbError::Decode);
    }
    let number_field: &[u8] = (&items[HEADER_NUMBER_FIELD]).as_slice();
    proof {
        assert(number_field@ == raw_views(items@)[HEADER_NUMBER_FIELD as int]);
    }
    let (number, _rem2) = match rlp_u64(number_field) {
        Ok(t) => t,
        Err(e) => {
            return Err(e);
        },
    };
    let encoding = slice_to_vec(slice_subrange(bytes, 0, h + p));
    proof {
        assert(encoding@ =~= bytes@.take(h + p));
    }
    Ok(Header { encoding, number })
}

/// Attach the externally-known hash to a decoded header.
///
/// No recomputation and no verification against the header's contents: the
/// hash fetched from the `hash by number` table is trusted as-is.
pub fn seal(header: Header, hash: HeaderHash) -> (r: SealedHeader)
    ensures
        r.header == header,
        r.hash == hash,
{
    SealedHeader { header, hash }
}

/// What decoding a body value yields: the raw items of the single inner
/// transaction list, or the error the legacy shape demands.
///
/// The outer list must hold exactly one item, itself a list — the legacy
/// double wrapping; anything else is a [`DbError::Decode`] failure.
pub open spec fn spec_decode_body(b: Seq<u8>) -> Result<Seq<Seq<u8>>, DbError> {
    match spec_rlp_head(b) {
        None => Err(DbError::Decode),
        Some((list, p, h)) => {
            if !list {
                Err(DbError::Decode)
            } else {
                match spec_rlp_items(b.subrange(h, h + p)) {
                    None => Err(DbError::Decode),
                    Some(outer) => {
                        if outer.len() != 1 {
                            Err(DbError::Decode)
                        } else {
                            match spec_rlp_head(outer[0]) {
                                None => Err(DbError::Decode),
                                Some((il, ip, ih)) => {
                                    if !il {
                                        Err(DbError::Decode)
                                    } else {
                                        match spec_rlp_items(outer[0].subrange(ih, ih + ip)) {
                                            None => Err(DbError::Decode),
                                            Some(txs) => Ok(txs),
                                        }
                                    }
                                },
                            }
                        }
                    },
                }
            }
        },
    }
}

/// Decode a body value fetched from the block body table.
///
/// Succeeds exactly when [`spec_decode_body`] does, and then returns the
/// transactions of the single inner list, each kept as its exact item bytes.
pub fn decode_body(bytes: &[u8]) -> (r: Result<Vec<Transaction>, DbError>)
    ensures
        match spec_decode_body(bytes@) {
            Ok(items) => r matches Ok(v) && tx_views(v@) == items,
            Err(e) => r matches Err(e2) && e2 == e,
        },
{
    let (list, p, rem) = match rlp_head(bytes) {
        Ok(t) => t,
        Err(e) => {
            return Err(e);
        },
    };
    proof {
        lemma_rlp_head_bounds(bytes@);
    }
    if !list {
        return Err(DbError::Decode);
    }
    let h: usize = bytes.len() - rem;
    let payload = slice_subrange(bytes, h, h + p);
    let outer = match parse_items(payload) {
        Ok(v) => v,
        Err(e) => {
            return Err(e);
        },
    };
    if outer.len() != 1 {
        return Err(DbError::Decode);
    }
    let inner: &[u8] = (&outer[0]).as_slice();
    proof {
        assert(inner@ == raw_views(outer@)[0]);
    }
    let (ilist, ip, irem) = match rlp_head(inner) {
        Ok(t) => t,
        Err(e) => {
            return Err(e);
        },
    };
    proof {
        lemma_rlp_head_bounds(inner@);
    }
    if !ilist {
        return Err(DbError::Decode);
    }
    let ih: usize = inner.len() - irem;
    let raws = match parse_items(slice_subrange(inner, ih, ih + ip)) {
        Ok(v) => v,
        Err(e) => {
            return Err(e);
        },
    };
    let ghost raw_goal = raw_views(raws@);
    let mut rest = raws;
    let mut txs: Vec<Transaction> = Vec::new();
    proof {
        assert(tx_views(txs@) + raw_views(rest@) =~= raw_goal);
    }
    while rest.len() > 0
        invariant
            tx_views(txs@) + raw_views(rest@) =~= raw_goal,
        decreases rest.len(),
    {
        let x = rest.remove(0);
        let ghost txs_before = txs@;
        let ghost rest_before_removed = rest@;
        txs.push(Transaction { encoding: x });
        proof {
            assert(tx_views(txs@) =~= tx_views(txs_before) + seq![x@]);
            assert(tx_views(txs@) + raw_views(rest@) =~= raw_goal);
        }
    }
    proof {
        assert(raw_views(rest@) =~= Seq::<Seq<u8>>::empty());
        assert(tx_views(txs@) =~= raw_goal);
    }
    Ok(txs)
}

/// The topic words of a topic-list payload `b`: each item must be a 32-byte
/// string, and the items must tile `b` exactly.
pub open spec fn spec_topics(b: Seq<u8>) -> Option<Seq<Seq<u8>>>
    decreases b.len(),
{
    if b.len() == 0 {
        Some(Seq::empty())
    } else {
        match spec_rlp_head(b) {
            None => None,
            Some((list, p, h)) => {
                if list || p != 32 || h + 32 > b.len() {
                    None
                } else {
                    match spec_topics(b.skip(h + 32)) {
                        None => None,
                        Some(rest) => Some(seq![b.subrange(h, h + 32)] + rest),
                    }
                }
            },
        }
    }
}

/// What decoding one log from the front of `b` yields: the log's view and the
/// number of bytes consumed. A log is a list of exactly three fields — a
/// 20-byte address string, a list of 32-byte topic words, and a data string —
/// that together fill the log list's declared payload exactly.
pub open spec fn spec_log(b: Seq<u8>) -> Option<(LogV, int)> {
    match spec_rlp_head(b) {
        None => None,
        Some((list, p, h)) => {
            if !list {
                None
            } else {
                let payload = b.subrange(h, h + p);
                match spec_rlp_head(payload) {
                    None => None,
                    Some((alist, ap, ah)) => {
                        if alist || ap != 20 {
                            None
                        } else {
                            let address = payload.subrange(ah, ah + 20);
                            let c1 = ah + 20;
                            match spec_rlp_head(payload.skip(c1)) {
                                None => None,
                                Some((tlist, tp, th)) => {
                                    if !tlist {
                                        None
                                    } else {
                                        match spec_topics(
                                            payload.subrange(c1 + th, c1 + th + tp),
                                        ) {
                                            None => None,
                                            Some(topics) => {
                                                let c2 = c1 + th + tp;
                                                match spec_rlp_head(payload.skip(c2)) {
                                                    None => None,
                                                    Some((dlist, dp, dh)) => {
                                                        if dlist {
                                                            None
                                                        } else {
                                                            let data = payload.subrange(
                                                                c2 + dh,
                                                                c2 + dh + dp,
                                                            );
                                                            if c2 + dh + dp == p {
                                                                Some(
                                                                    ((address, topics, data), h + p),
                                                                )
                                                            } else {
                                                                None
                                                            }
                                                        }
                                                    },
                                                }
                                            },
                                        }
                                    }
                                },
                            }
                        }
                    },
                }
            }
        },
    }
}

/// A decoded log consumes at least one and at most all of the input bytes.
pub proof fn lemma_spec_log_bounds(b: Seq<u8>)
    ensures
        spec_log(b) matches Some(t) ==> 1 <= t.1 <= b.len(),
{
    lemma_rlp_head_bounds(b);
}

/// The logs of a log-list payload `b`: the log items must tile `b` exactly.
pub open spec fn spec_logs_items(b: Seq<u8>) -> Option<Seq<LogV>>
    decreases b.len(),
{
    if b.len() == 0 {
        Some(Seq::empty())
    } else {
        match spec_log(b) {
            None => None,
            Some((lv, c)) => {
                if c < 1 || c > b.len() {
                    None
                } else {
                    match spec_logs_items(b.skip(c)) {
                        None => None,
                        Some(rest) => Some(seq![lv] + rest),
                    }
                }
            },
        }
    }
}

/// What decoding a log sequence from the front of `b` yields: the logs of one
/// list and the number of bytes consumed.
pub open spec fn spec_logs(b: Seq<u8>) -> Option<(Seq<LogV>, int)> {
    match spec_rlp_head(b) {
        None => None,
        Some((list, p, h)) => {
            if !list {
                None
            } else {
                match spec_logs_items(b.subrange(h, h + p)) {
                    None => None,
                    Some(ls) => Some((ls, h + p)),
                }
            }
        },
    }
}

/// Split a topic-list payload into its 32-byte words.
fn parse_topics(buf: &[u8]) -> (r: Result<Vec<Vec<u8>>, DbError>)
    ensures
        match spec_topics(buf@) {
            Some(ts) => r matches Ok(v) && raw_views(v@) == ts,
            None => r matches Err(e) && e == DbError::Decode,
        },
    decreases buf@.len(),
{
    if buf.len() == 0 {
        let v: Vec<Vec<u8>> = Vec::new();
        proof {
            assert(raw_views(v@) =~= Seq::<Seq<u8>>::empty());
        }
        Ok(v)
    } else {
        let (list, p, rem) = match rlp_head(buf) {
            Ok(t) => t,
            Err(e) => {
                return Err(e);
            },
        };
        proof {
            lemma_rlp_head_bounds(buf@);
        }
        if list || p != 32 {
            return Err(DbError::Decode);
        }
        let h: usize = buf.len() - rem;
        let topic = slice_to_vec(slice_subrange(buf, h, h + 32));
        let tail = slice_subrange(buf, h + 32, buf.len());
        proof {
            assert(tail@ =~= buf@.skip(h + 32));
        }
        match parse_topics(tail) {
            Ok(rest) => {
                let ghost rest_views = raw_views(rest@);
                let mut out = rest;
                out.insert(0, topic);
                proof {
                    assert(raw_views(out@) =~= seq![topic@] + rest_views);
                }
                Ok(out)
            },
            Err(e) => Err(e),
        }
    }
}

/// Decode one log from the front of `buf`; on success also return how many
/// bytes it consumed.
#[verifier::rlimit(100)]
fn parse_log(buf: &[u8]) -> (r: Result<(Log, usize), DbError>)
    ensures
        match spec_log(buf@) {
            Some(t) => r matches Ok(o) && log_view(o.0) == t.0 && o.1 == t.1,
            None => r matches Err(e) && e == DbError::Decode,
        },
{
    let (list, p, rem) = match rlp_head(buf) {
        Ok(t) => t,
        Err(e) => {
            return Err(e);
        },
    };
    proof {
        lemma_rlp_head_bounds(buf@);
    }
    if !list {
        return Err(DbError::Decode);
    }
    let h: usize = buf.len() - rem;
    let payload = slice_subrange(buf, h, h + p);
    let (alist, ap, arem) = match rlp_head(payload) {
        Ok(t) => t,
        Err(e) => {
            return Err(e);
        },
    };
    proof {
        lemma_rlp_head_bounds(payload@);
    }
    if alist || ap != 20 {
        return Err(DbError::Decode);
    }
    let ah: usize = payload.len() - arem;
    let address = slice_to_vec(slice_subrange(payload, ah, ah + 20));
    let c1: usize = ah + 20;
    let t0 = slice_subrange(payload, c1, payload.len());
    proof {
        assert(t0@ =~= payload@.skip(c1 as int));
    }
    let (tlist, tp, trem) = match rlp_head(t0) {
        Ok(t) => t,
        Err(e) => {
            return Err(e);
        },
    };
    proof {
        lemma_rlp_head_bounds(t0@);
    }
    if !tlist {
        return Err(DbError::Decode);
    }
    let th: usize = t0.len() - trem;
    let tpayload = slice_subrange(t0, th, th + tp);
    proof {
        assert(tpayload@ =~= payload@.subrange(c1 + th, c1 + th + tp));
    }
    let topics = match parse_topics(tpayload) {
        Ok(v) => v,
        Err(e) => {
            return Err(e);
        },
    };
    let c2: usize = c1 + th + tp;
    let d0 = slice_subrange(payload, c2, payload.len());
    proof {
        assert(d0@ =~= payload@.skip(c2 as int));
    }
    let (dlist, dp, drem) = match rlp_head(d0) {
        Ok(t) => t,
        Err(e) => {
            return Err(e);
        },
    };
    proof {
        lemma_rlp_head_bounds(d0@);
    }
    if dlist {
        return Err(DbError::Decode);
    }
    let dh: usize = d0.len() - drem;
    let data = slice_to_vec(slice_subrange(d0, dh, dh + dp));
    proof {
        assert(data@ =~= payload@.subrange(c2 + dh, c2 + dh + dp));
    }
    if c2 + dh + dp != p {
        return Err(DbError::Decode);
    }
    let log = Log { address, topics, data };
    proof {
        assert(log_view(log).1 =~= raw_views(log.topics@));
    }
    Ok((log, h + p))
}

/// Split a log-list payload into its logs.
fn parse_logs_items(buf: &[u8]) -> (r: Result<Vec<Log>, DbError>)
    ensures
        match spec_logs_items(buf@) {
            Some(ls) => r matches Ok(v) && logs_view(v@) == ls,
            None => r matches Err(e) && e == DbError::Decode,
        },
    decreases buf@.len(),
{
    if buf.len() == 0 {
        let v: Vec<Log> = Vec::new();
        proof {
            assert(logs_view(v@) =~= Seq::<LogV>::empty());
        }
        Ok(v)
    } else {
        let (log, used) = match parse_log(buf) {
            Ok(t) => t,
            Err(e) => {
                return Err(e);
            },
        };
        proof {
            lemma_spec_log_bounds(buf@);
        }
        let tail = slice_subrange(buf, used, buf.len());
        proof {
            assert(tail@ =~= buf@.skip(used as int));
        }
        match parse_logs_items(tail) {
            Ok(rest) => {
                let ghost rest_views = logs_view(rest@);
                let mut out = rest;
                out.insert(0, log);
                proof {
                    assert(logs_view(out@) =~= seq![log_view(log)] + rest_views);
                }
                Ok(out)
            },
            Err(e) => Err(e),
        }
    }
}

/// Decode one log list from the front of `buf`; on success also return how
/// many bytes it consumed.
fn decode_logs(buf: &[u8]) -> (r: Result<(Vec<Log>, usize), DbError>)
    ensures
        match spec_logs(buf@) {
            Some(t) => r matches Ok(o) && logs_view(o.0@) == t.0 && o.1 == t.1,
            None => r matches Err(e) && e == DbError::Decode,
        },
{
    let (list, p, rem) = match rlp_head(buf) {
        Ok(t) => t,
        Err(e) => {
            return Err(e);
        },
    };
    proof {
        lemma_rlp_head_bounds(buf@);
    }
    if !list {
        return Err(DbError::Decode);
    }
    let h: usize = buf.len() - rem;
    let payload = slice_subrange(buf, h, h + p);
    let logs = match parse_logs_items(payload) {
        Ok(v) => v,
        Err(e) => {
            return Err(e);
        },
    };
    Ok((logs, h + p))
}

/// What decoding a receipts value yields, per the legacy schema.
///
/// A zero-length outer payload — only the designated genesis block produces
/// one — is the empty receipt sequence. Otherwise, past the discarded outer
/// envelope, an inner list header declares a payload that a success flag, a
/// cumulative-gas scalar and a log list must fill exactly; any leftover or
/// overrun is a [`DbError::Integrity`] failure, and malformed RLP on the way
/// is a [`DbError::Decode`] failure. The single decoded receipt carries the
/// bloom filter recomputed from its logs.
pub open spec fn spec_decode_receipts(b: Seq<u8>) -> Result<Seq<ReceiptV>, DbError> {
    match spec_rlp_head(b) {
        None => Err(DbError::Decode),
        Some((l0, p0, h0)) => {
            if p0 == 0 {
                Ok(Seq::empty())
            } else {
                let rest = b.skip(h0);
                match spec_rlp_head(rest) {
                    None => Err(DbError::Decode),
                    Some((l1, p1, h1)) => {
                        let fields = rest.skip(h1);
                        match spec_rlp_bool(fields) {
                            None => Err(DbError::Decode),
                            Some((success, c1)) => {
                                match spec_rlp_u64(fields.skip(c1)) {
                                    None => Err(DbError::Decode),
                                    Some((gas, c2)) => {
                                        match spec_logs(fields.skip(c1 + c2)) {
                                            None => Err(DbError::Decode),
                                            Some((logs, c3)) => {
                                                if c1 + c2 + c3 != p1 {
                                                    Err(DbError::Integrity)
                                                } else {
                                                    Ok(
                                                        seq![
                                                            (
                                                                success,
                                                                gas,
                                                                logs,
                                                                spec_bloom(logs),
                                                            ),
                                                        ],
                                                    )
                                                }
                                            },
                                        }
                                    },
                                }
                            },
                        }
                    },
                }
            }
        },
    }
}

/// Genesis case: any receipts value whose outer RLP item has zero declared
/// payload length decodes to the empty receipt sequence.
pub proof fn lemma_genesis_receipts_empty(b: Seq<u8>)
    requires
        spec_rlp_head(b) matches Some(t) && t.1 == 0,
    ensures
        spec_decode_receipts(b) == Ok::<Seq<ReceiptV>, DbError>(Seq::empty()),
{
}

/// Decode a receipts value fetched from the receipts table.
///
/// Succeeds exactly when [`spec_decode_receipts`] does; every returned
/// receipt is of the legacy transaction type, and its bloom filter is the one
/// recomputed from its logs.
#[verifier::rlimit(100)]
pub fn decode_receipts(bytes: &[u8]) -> (r: Result<Vec<ReceiptWithBloom>, DbError>)
    ensures
        match spec_decode_receipts(bytes@) {
            Ok(rs) => r matches Ok(v) && receipt_views(v@) == rs && (forall|i: int|
                0 <= i < v@.len() ==> (#[trigger] v@[i]).receipt.tx_type == TxType::Legacy),
            Err(e) => r matches Err(e2) && e2 == e,
        },
{
    let (_l0, p0, rem0) = match rlp_head(bytes) {
        Ok(t) => t,
        Err(e) => {
            return Err(e);
        },
    };
    proof {
        lemma_rlp_head_bounds(bytes@);
    }
    if p0 == 0 {
        let v: Vec<ReceiptWithBloom> = Vec::new();
        proof {
            assert(receipt_views(v@) =~= Seq::<ReceiptV>::empty());
        }
        return Ok(v);
    }
    let rest = slice_subrange(bytes, bytes.len() - rem0, bytes.len());
    proof {
        assert(rest@ =~= bytes@.skip(bytes@.len() - rem0));
    }
    let (_l1, p1, rem1) = match rlp_head(rest) {
        Ok(t) => t,
        Err(e) => {
            return Err(e);
        },
    };
    proof {
        lemma_rlp_head_bounds(rest@);
    }
    let fields = slice_subrange(rest, rest.len() - rem1, rest.len());
    proof {
        assert(fields@ =~= rest@.skip(rest@.len() - rem1));
    }
    let (success, rem2) = match rlp_bool(fields) {
        Ok(t) => t,
        Err(e) => {
            return Err(e);
        },
    };
    let c1: usize = fields.len() - rem2;
    let after1 = slice_subrange(fields, c1, fields.len());
    proof {
        assert(after1@ =~= fields@.skip(c1 as int));
    }
    let (gas, rem3) = match rlp_u64(after1) {
        Ok(t) => t,
        Err(e) => {
            return Err(e);
        },
    };
    let c2: usize = after1.len() - rem3;
    let after2 = slice_subrange(after1, c2, after1.len());
    proof {
        assert(after2@ =~= fields@.skip(c1 + c2));
    }
    let (logs, c3) = match decode_logs(after2) {
        Ok(t) => t,
        Err(e) => {
            return Err(e);
        },
    };
    if c1 + c2 + c3 != p1 {
        return Err(DbError::Integrity);
    }
    let bloom = logs_bloom(&logs);
    let receipt = Receipt { tx_type: TxType::Legacy, success, cumulative_gas_used: gas, logs };
    let one = ReceiptWithBloom { receipt, bloom };
    let ghost one_view = crate::record::receipt_view(one);
    let mut out: Vec<ReceiptWithBloom> = Vec::new();
    out.push(one);
    proof {
        assert(receipt_views(out@) =~= seq![one_view]);
    }
    Ok(out)
}

} // verus!
