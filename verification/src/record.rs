use vstd::prelude::*;

verus! {

/// A canonical header hash: exactly 32 bytes.
///
/// Any other length fetched from storage is an integrity violation, so the
/// length bound is carried as this type's well-formedness condition.
pub struct HeaderHash(Vec<u8>);

impl View for HeaderHash {
    type V = Seq<u8>;

    closed spec fn view(&self) -> Seq<u8> {
        self.0@
    }
}

impl HeaderHash {
    pub open spec fn wf(&self) -> bool {
        self@.len() == 32
    }

    pub fn new(bytes: Vec<u8>) -> (r: Self)
        requires
            bytes@.len() == 32,
        ensures
            r@ == bytes@,
            r.wf(),
    {
        HeaderHash(bytes)
    }

    pub fn as_bytes(&self) -> (r: &[u8])
        ensures
            r@ == self@,
    {
        self.0.as_slice()
    }
}

/// A canonical block header, as this core reads it.
///
/// The field-level codec for the full canonical header shape belongs to the
/// external collaborator; this core keeps the header's exact RLP encoding and
/// the one field its own logic consumes, the block number.
pub struct Header {
    /// The header's RLP encoding: one well-formed RLP list.
    pub encoding: Vec<u8>,
    /// The block number, read from the ninth field of that list.
    pub number: u64,
}

/// A header paired with its externally-known hash, as fetched from the
/// `hash by number` table — not a hash recomputed from the header's contents.
pub struct SealedHeader {
    pub header: Header,
    pub hash: HeaderHash,
}

/// One transaction of a block body, kept as its exact RLP item bytes.
///
/// The canonical transaction codec is the external collaborator's; this core
/// only delimits the items of the legacy body list.
pub struct Transaction {
    pub encoding: Vec<u8>,
}

/// A log entry of a receipt.
pub struct Log {
    /// The emitting address: exactly 20 bytes.
    pub address: Vec<u8>,
    /// The log topics: each exactly 32 bytes.
    pub topics: Vec<Vec<u8>>,
    /// The uninterpreted log payload.
    pub data: Vec<u8>,
}

/// The mathematical shape of a log: address bytes, topic words, data bytes.
pub type LogV = (Seq<u8>, Seq<Seq<u8>>, Seq<u8>);

pub open spec fn log_view(l: Log) -> LogV {
    (l.address@, l.topics@.map_values(|t: Vec<u8>| t@), l.data@)
}

pub open spec fn logs_view(ls: Seq<Log>) -> Seq<LogV> {
    ls.map_values(|l: Log| log_view(l))
}

impl Log {
    pub open spec fn wf(&self) -> bool {
        &&& self.address@.len() == 20
        &&& forall|i: int| 0 <= i < self.topics@.len() ==> (#[trigger] self.topics@[i])@.len() == 32
    }
}

/// The transaction type of a receipt. The whole historical record of the
/// legacy chain predates typed transactions, so only the legacy kind exists.
#[derive(Clone, Copy, Debug, PartialEq, Eq, Structural)]
pub enum TxType {
    Legacy,
}

/// A receipt as stored by the legacy database: no bloom filter.
pub struct Receipt {
    pub tx_type: TxType,
    pub success: bool,
    pub cumulative_gas_used: u64,
    pub logs: Vec<Log>,
}

/// A receipt together with the bloom filter recomputed from its logs.
pub struct ReceiptWithBloom {
    pub receipt: Receipt,
    /// The 2048-bit bloom filter: exactly 256 bytes.
    pub bloom: Vec<u8>,
}

/// The mathematical shape of a decoded receipt:
/// success flag, cumulative gas, logs, bloom bytes.
pub type ReceiptV = (bool, u64, Seq<LogV>, Seq<u8>);

pub open spec fn receipt_view(r: ReceiptWithBloom) -> ReceiptV {
    (r.receipt.success, r.receipt.cumulative_gas_used, logs_view(r.receipt.logs@), r.bloom@)
}

pub open spec fn receipt_views(rs: Seq<ReceiptWithBloom>) -> Seq<ReceiptV> {
    rs.map_values(|r: ReceiptWithBloom| receipt_view(r))
}

pub open spec fn tx_views(ts: Seq<Transaction>) -> Seq<Seq<u8>> {
    ts.map_values(|t: Transaction| t.encoding@)
}

/// The composition handed back by `block_by_number`: a sealed header and the
/// block's transactions. The legacy chain never has ommers or withdrawals, so
/// neither has a representation here.
pub struct SealedBlock {
    pub header: SealedHeader,
    pub body: Vec<Transaction>,
}

} // verus!
