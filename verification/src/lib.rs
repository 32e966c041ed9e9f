//! Read path for a legacy, Geth-style embedded chain database.
//!
//! The crate turns block numbers into canonical block records: it builds the
//! byte-exact keys of the legacy rawdb schema, decodes the RLP values stored
//! under them (tolerating the historical quirks of pruned "Bedrock"-era data:
//! omitted bloom filters, doubly-wrapped transaction lists, a zero-length
//! genesis receipt list), and fails loudly on any integrity mismatch rather
//! than silently producing corrupt chain data.

pub mod bloom;
pub mod decode;
pub mod error;
pub mod key;
pub mod reader;
pub mod record;
pub mod rlp;
pub mod store;
