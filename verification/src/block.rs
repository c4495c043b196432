//! The decoded-block data the engine consumes: an ordered sequence of
//! transactions, each with a hash and an ordered sequence of inputs carrying
//! raw signature-script bytes.

use vstd::prelude::*;

verus! {

/// One transaction input: its raw signature script and its sequence number.
pub struct TxInput {
    pub script_sig: Vec<u8>,
    pub sequence: u32,
}

/// Mathematical model of a transaction input.
pub struct TxInputV {
    pub script_sig: Seq<u8>,
    pub sequence: u32,
}

impl View for TxInput {
    type V = TxInputV;

    open spec fn view(&self) -> TxInputV {
        TxInputV { script_sig: self.script_sig@, sequence: self.sequence }
    }
}

/// One decoded transaction: its hash, its inputs, and its declared output count.
pub struct Tx {
    pub hash: Vec<u8>,
    pub inputs: Vec<TxInput>,
    pub out_count: u64,
}

/// Mathematical model of a transaction.
pub struct TxV {
    pub hash: Seq<u8>,
    pub inputs: Seq<TxInputV>,
    pub out_count: u64,
}

impl View for Tx {
    type V = TxV;

    open spec fn view(&self) -> TxV {
        TxV {
            hash: self.hash@,
            inputs: self.inputs@.map_values(|i: TxInput| i@),
            out_count: self.out_count,
        }
    }
}

/// One decoded block: its height and its transactions.
pub struct Block {
    pub height: usize,
    pub txs: Vec<Tx>,
}

/// Mathematical model of a block.
pub struct BlockV {
    pub height: int,
    pub txs: Seq<TxV>,
}

impl View for Block {
    type V = BlockV;

    open spec fn view(&self) -> BlockV {
        BlockV { height: self.height as int, txs: self.txs@.map_values(|t: Tx| t@) }
    }
}

/// Number of inputs over the first `n` transactions of a block.
pub open spec fn in_count_upto(b: BlockV, n: int) -> nat
    decreases n,
{
    if n <= 0 {
        0
    } else {
        in_count_upto(b, n - 1) + b.txs[n - 1].inputs.len()
    }
}

/// Number of inputs over all transactions of a block.
pub open spec fn block_in_count(b: BlockV) -> nat {
    in_count_upto(b, b.txs.len() as int)
}

/// Sum of declared output counts over the first `n` transactions of a block.
pub open spec fn out_count_upto(b: BlockV, n: int) -> nat
    decreases n,
{
    if n <= 0 {
        0
    } else {
        out_count_upto(b, n - 1) + b.txs[n - 1].out_count as nat
    }
}

/// Sum of declared output counts over all transactions of a block.
pub open spec fn block_out_count(b: BlockV) -> nat {
    out_count_upto(b, b.txs.len() as int)
}

/// The per-transaction counts grow with the number of transactions taken.
pub proof fn lemma_counts_monotone(b: BlockV, n: int)
    requires
        0 <= n <= b.txs.len(),
    ensures
        in_count_upto(b, n) <= block_in_count(b),
        out_count_upto(b, n) <= block_out_count(b),
    decreases b.txs.len() - n,
{
    if n < b.txs.len() {
        lemma_counts_monotone(b, n + 1);
    }
}

} // verus!
