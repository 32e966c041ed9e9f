//! Recomputing the 2048-bit bloom filter of a receipt from its logs.
//!
//! The legacy database stores receipts without their bloom filters, so the
//! decoder rebuilds each one: for every log it folds the emitting address and
//! every topic into the filter. One item sets three bits, each chosen by an
//! 11-bit slice of the item's Keccak-256 digest, counted from the end of the
//! 256-byte filter.

use vstd::prelude::*;

use crate::record::{Log, LogV};

verus! {

/// The Keccak-256 digest of a byte string, named: it depends on the input
/// alone, and stating it in full belongs to the hash's own definition.
pub uninterp spec fn keccak_of(b: Seq<u8>) -> Seq<u8>;

/// Relies on `alloy_primitives::keccak256`: the digest is a function of the
/// input bytes alone and is exactly 32 bytes long.
#[verifier::external_body]
fn keccak(data: &[u8]) -> (r: Vec<u8>)
    ensures
        r@ == keccak_of(data@),
        r@.len() == 32,
{
    alloy_primitives::keccak256(data).to_vec()
}

/// The all-zero bloom filter.
pub open spec fn zero_bloom() -> Seq<u8> {
    Seq::new(256, |i: int| 0u8)
}

/// Set bit `pos` of the filter, counting bits from its last byte upward.
pub open spec fn spec_set_bit(bloom: Seq<u8>, pos: int) -> Seq<u8> {
    bloom.update(255 - pos / 8, bloom[255 - pos / 8] | (1u8 << (pos % 8) as u8))
}

/// Fold one item into the filter: three bits, each picked by two digest bytes
/// taken as a big-endian value modulo 2048.
pub open spec fn spec_accrue(bloom: Seq<u8>, item: Seq<u8>) -> Seq<u8> {
    let h = keccak_of(item);
    let b0 = spec_set_bit(bloom, (h[0] * 256 + h[1]) % 2048);
    let b1 = spec_set_bit(b0, (h[2] * 256 + h[3]) % 2048);
    spec_set_bit(b1, (h[4] * 256 + h[5]) % 2048)
}

pub open spec fn spec_bloom_topics(bloom: Seq<u8>, topics: Seq<Seq<u8>>) -> Seq<u8>
    decreases topics.len(),
{
    if topics.len() == 0 {
        bloom
    } else {
        spec_bloom_topics(spec_accrue(bloom, topics[0]), topics.skip(1))
    }
}

pub open spec fn spec_bloom_logs(bloom: Seq<u8>, logs: Seq<LogV>) -> Seq<u8>
    decreases logs.len(),
{
    if logs.len() == 0 {
        bloom
    } else {
        spec_bloom_logs(spec_bloom_topics(spec_accrue(bloom, logs[0].0), logs[0].1), logs.skip(1))
    }
}

/// The bloom filter of a sequence of logs.
pub open spec fn spec_bloom(logs: Seq<LogV>) -> Seq<u8> {
    spec_bloom_logs(zero_bloom(), logs)
}

/// A block without logs — in particular one whose receipt list is empty —
/// has the all-zero bloom filter.
pub proof fn lemma_bloom_of_no_logs()
    ensures
        spec_bloom(Seq::<LogV>::empty()) == zero_bloom(),
{
}

fn set_bit(bloom: &mut Vec<u8>, pos: usize)
    requires
        old(bloom)@.len() == 256,
        pos < 2048,
    ensures
        final(bloom)@ == spec_set_bit(old(bloom)@, pos as int),
        final(bloom)@.len() == 256,
{
    let index: usize = 255 - pos / 8;
    let shift: usize = pos % 8;
    let b: u8 = bloom[index] | (1u8 << shift);
    bloom.set(index, b);
}

fn accrue(bloom: &mut Vec<u8>, item: &[u8])
    requires
        old(bloom)@.len() == 256,
    ensures
        final(bloom)@ == spec_accrue(old(bloom)@, item@),
        final(bloom)@.len() == 256,
{
    let h = keccak(item);
    let p0: usize = ((h[0] as usize) * 256 + (h[1] as usize)) % 2048;
    let p1: usize = ((h[2] as usize) * 256 + (h[3] as usize)) % 2048;
    let p2: usize = ((h[4] as usize) * 256 + (h[5] as usize)) % 2048;
    set_bit(bloom, p0);
    set_bit(bloom, p1);
    set_bit(bloom, p2);
}

/// Fold one log into the filter: its address, then each of its topics.
fn accrue_log(bloom: &mut Vec<u8>, log: &Log)
    requires
        old(bloom)@.len() == 256,
    ensures
        final(bloom)@ == spec_bloom_topics(
            spec_accrue(old(bloom)@, log.address@),
            log.topics@.map_values(|t: Vec<u8>| t@),
        ),
        final(bloom)@.len() == 256,
{
    let ghost tview: Seq<Seq<u8>> = log.topics@.map_values(|t: Vec<u8>| t@);
    accrue(bloom, log.address.as_slice());
    proof {
        assert(tview.skip(0) =~= tview);
    }
    let mut j: usize = 0;
    while j < log.topics.len()
        invariant
            j <= log.topics@.len(),
            bloom@.len() == 256,
            tview == log.topics@.map_values(|t: Vec<u8>| t@),
            tview.len() == log.topics@.len(),
            spec_bloom_topics(bloom@, tview.skip(j as int)) == spec_bloom_topics(
                spec_accrue(old(bloom)@, log.address@),
                tview,
            ),
        decreases log.topics@.len() - j,
    {
        proof {
            assert(tview.skip(j as int)[0] == tview[j as int]);
            assert(tview.skip(j as int).skip(1) =~= tview.skip(j + 1));
            assert(tview[j as int] == log.topics@[j as int]@);
        }
        accrue(bloom, log.topics[j].as_slice());
        j = j + 1;
    }
    proof {
        assert(tview.skip(log.topics@.len() as int) =~= Seq::<Seq<u8>>::empty());
    }
}

/// The bloom filter recomputed from `logs`, exactly [`spec_bloom`] of their
/// views.
pub fn logs_bloom(logs: &Vec<Log>) -> (r: Vec<u8>)
    ensures
        r@ == spec_bloom(crate::record::logs_view(logs@)),
        r@.len() == 256,
{
    let ghost full: Seq<LogV> = crate::record::logs_view(logs@);
    let mut bloom: Vec<u8> = Vec::new();
    let mut z: usize = 0;
    while z < 256
        invariant
            z <= 256,
            bloom@ =~= zero_bloom().take(z as int),
        decreases 256 - z,
    {
        bloom.push(0u8);
        proof {
            assert(bloom@ =~= zero_bloom().take(z + 1));
        }
        z = z + 1;
    }
    proof {
        assert(bloom@ =~= zero_bloom());
        assert(full.skip(0) =~= full);
    }
    let mut i: usize = 0;
    while i < logs.len()
        invariant
            i <= logs.len(),
            full == crate::record::logs_view(logs@),
            full.len() == logs.len(),
            bloom@.len() == 256,
            spec_bloom_logs(bloom@, full.skip(i as int)) == spec_bloom(full),
        decreases logs.len() - i,
    {
        proof {
            assert(full.skip(i as int)[0] == full[i as int]);
            assert(full.skip(i as int).skip(1) =~= full.skip(i + 1));
            assert(full[i as int] == crate::record::log_view(logs@[i as int]));
        }
        accrue_log(&mut bloom, &logs[i]);
        i = i + 1;
    }
    proof {
        assert(full.skip(full.len() as int) =~= Seq::<LogV>::empty());
    }
    bloom
}

} // verus!
