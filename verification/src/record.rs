//! The records the collision index holds: one per qualifying transaction
//! input, carrying the input's identity, its full signature hex, and the
//! fingerprint derived from it.

use vstd::prelude::*;
use crate::block::{BlockV, TxV};
use crate::fingerprint::{eligible, fingerprint_of};
use crate::hex::{hex_of, hex_swapped_of};

verus! {

/// One indexed input: identity (transaction id, input position, block height),
/// the hex encoding of its signature script, and the derived fingerprint.
pub struct Record {
    pub txid: Vec<u8>,
    pub input_index: usize,
    pub block_height: usize,
    pub sig_hex: Vec<u8>,
    pub fingerprint: Vec<u8>,
}

/// Mathematical model of a record.
pub struct RecordV {
    pub txid: Seq<u8>,
    pub input_index: int,
    pub block_height: int,
    pub sig_hex: Seq<u8>,
    pub fingerprint: Seq<u8>,
}

impl View for Record {
    type V = RecordV;

    open spec fn view(&self) -> RecordV {
        RecordV {
            txid: self.txid@,
            input_index: self.input_index as int,
            block_height: self.block_height as int,
            sig_hex: self.sig_hex@,
            fingerprint: self.fingerprint@,
        }
    }
}

/// The record derived from one eligible input.
pub open spec fn input_record(hash: Seq<u8>, height: int, idx: int, script: Seq<u8>) -> RecordV {
    RecordV {
        txid: hex_swapped_of(hash),
        input_index: idx,
        block_height: height,
        sig_hex: hex_of(script),
        fingerprint: fingerprint_of(script),
    }
}

/// Records of the first `n` inputs of one transaction: one per eligible input,
/// in input order.
pub open spec fn tx_records_upto(t: TxV, height: int, n: int) -> Seq<RecordV>
    decreases n,
{
    if n <= 0 {
        Seq::empty()
    } else {
        tx_records_upto(t, height, n - 1) + if eligible(t.inputs[n - 1].script_sig) {
            seq![input_record(t.hash, height, n - 1, t.inputs[n - 1].script_sig)]
        } else {
            Seq::empty()
        }
    }
}

/// Records of all inputs of one transaction.
pub open spec fn tx_records(t: TxV, height: int) -> Seq<RecordV> {
    tx_records_upto(t, height, t.inputs.len() as int)
}

/// Records of the first `n` transactions of a block, in transaction order.
pub open spec fn block_records_upto(b: BlockV, n: int) -> Seq<RecordV>
    decreases n,
{
    if n <= 0 {
        Seq::empty()
    } else {
        block_records_upto(b, n - 1) + tx_records(b.txs[n - 1], b.height)
    }
}

/// Records of all transactions of a block.
pub open spec fn block_records(b: BlockV) -> Seq<RecordV> {
    block_records_upto(b, b.txs.len() as int)
}

/// Records of a whole stream of blocks, in stream order.
pub open spec fn run_records(blocks: Seq<BlockV>) -> Seq<RecordV>
    decreases blocks.len(),
{
    if blocks.len() == 0 {
        Seq::empty()
    } else {
        run_records(blocks.drop_last()) + block_records(blocks.last())
    }
}

} // verus!
