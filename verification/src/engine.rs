//! The run controller: lifecycle of one scan. `Idle` until `on_start`,
//! `Started` while blocks stream in through `on_block`, `Completed` once
//! `on_complete` has resolved duplicates and rendered the report.
//!
//! The controller owns the collision index and the summary counters for
//! exactly one run; the caller performs the surrounding file work (creating
//! the temporary output at start, writing the rendered bytes, renaming them
//! to the final block-range-stamped name at completion).

use vstd::prelude::*;
use crate::block::{Block, BlockV, block_in_count, block_out_count, in_count_upto, out_count_upto,
    lemma_counts_monotone};
use crate::fingerprint::{eligible, fingerprint_from_hex};
use crate::hex::{clone_bytes, hex_swapped_of, lemma_hex_of_len, to_hex, to_hex_swapped};
use crate::index::CollisionIndex;
use crate::record::{Record, RecordV, block_records, block_records_upto, input_record, run_records,
    tx_records, tx_records_upto};
use crate::resolve::{resolve, weak_indices};
use crate::sink::{filename_bytes, output_bytes, output_filename, render_output};

verus! {

/// Lifecycle state of one run.
#[derive(Clone, Copy, PartialEq, Eq, Structural, Debug)]
pub enum Phase {
    Idle,
    Started,
    Completed,
}

/// The counters one run reports at completion.
#[derive(Clone, Copy, PartialEq, Eq, Structural, Debug)]
pub struct RunSummary {
    pub blocks: u64,
    pub transactions: u64,
    pub inputs: u64,
    pub outputs: u64,
    pub comparisons: u64,
    pub weak_matches: u64,
}

/// What `on_complete` hands back: the rendered report, the final filename,
/// and the run's counters.
pub struct CompletionReport {
    pub output: Vec<u8>,
    pub filename: Vec<u8>,
    pub summary: RunSummary,
}

/// Transactions over a stream of blocks.
pub open spec fn total_txs(blocks: Seq<BlockV>) -> nat
    decreases blocks.len(),
{
    if blocks.len() == 0 {
        0
    } else {
        total_txs(blocks.drop_last()) + blocks.last().txs.len()
    }
}

/// Transaction inputs over a stream of blocks.
pub open spec fn total_inputs(blocks: Seq<BlockV>) -> nat
    decreases blocks.len(),
{
    if blocks.len() == 0 {
        0
    } else {
        total_inputs(blocks.drop_last()) + block_in_count(blocks.last())
    }
}

/// Declared transaction outputs over a stream of blocks.
pub open spec fn total_outputs(blocks: Seq<BlockV>) -> nat
    decreases blocks.len(),
{
    if blocks.len() == 0 {
        0
    } else {
        total_outputs(blocks.drop_last()) + block_out_count(blocks.last())
    }
}

/// The nonce-collision scanner: accumulates fingerprints across one pass of
/// blocks and reports the colliding transactions at completion.
pub struct WeakWallets {
    phase: Phase,
    start_height: usize,
    end_height: usize,
    index: CollisionIndex,
    summary: RunSummary,
    processed: Ghost<Seq<BlockV>>,
}

impl WeakWallets {
    /// Lifecycle state.
    pub closed spec fn phase(self) -> Phase {
        self.phase
    }

    /// Height handed to `on_start`.
    pub closed spec fn start_height(self) -> int {
        self.start_height as int
    }

    /// Height of the last block seen, or the height handed to `on_complete`.
    pub closed spec fn end_height(self) -> int {
        self.end_height as int
    }

    /// The records accumulated so far, in insertion order.
    pub closed spec fn records(self) -> Seq<RecordV> {
        self.index@
    }

    /// The blocks processed so far, in stream order.
    pub closed spec fn processed(self) -> Seq<BlockV> {
        self.processed@
    }

    /// The counters as they stand.
    pub closed spec fn summary(self) -> RunSummary {
        self.summary
    }

    /// The records are exactly those of the processed blocks, and the
    /// counters tally the processed blocks, their transactions, their inputs
    /// and their declared outputs.
    pub open spec fn wf(self) -> bool {
        &&& self.records() == run_records(self.processed())
        &&& self.summary().blocks as int == self.processed().len() as int
        &&& self.summary().transactions as int == total_txs(self.processed()) as int
        &&& self.summary().inputs as int == total_inputs(self.processed()) as int
        &&& self.summary().outputs as int == total_outputs(self.processed()) as int
    }

    /// A fresh, idle scanner with empty index and zeroed counters.
    pub fn new() -> (s: Self)
        ensures
            s.wf(),
            s.phase() == Phase::Idle,
            s.start_height() == 0,
            s.end_height() == 0,
            s.records() == Seq::<RecordV>::empty(),
            s.processed() == Seq::<BlockV>::empty(),
            s.summary() == (RunSummary {
                blocks: 0,
                transactions: 0,
                inputs: 0,
                outputs: 0,
                comparisons: 0,
                weak_matches: 0,
            }),
    {
        WeakWallets {
            phase: Phase::Idle,
            start_height: 0,
            end_height: 0,
            index: CollisionIndex::new(),
            summary: RunSummary {
                blocks: 0,
                transactions: 0,
                inputs: 0,
                outputs: 0,
                comparisons: 0,
                weak_matches: 0,
            },
            processed: Ghost(Seq::empty()),
        }
    }

    /// A fresh, idle scanner whose index is pre-sized for `cap` records, for
    /// runs over corpora whose scale is known up front.
    pub fn with_capacity(cap: usize) -> (s: Self)
        ensures
            s.wf(),
            s.phase() == Phase::Idle,
            s.start_height() == 0,
            s.end_height() == 0,
            s.records() == Seq::<RecordV>::empty(),
            s.processed() == Seq::<BlockV>::empty(),
            s.summary() == (RunSummary {
                blocks: 0,
                transactions: 0,
                inputs: 0,
                outputs: 0,
                comparisons: 0,
                weak_matches: 0,
            }),
    {
        WeakWallets {
            phase: Phase::Idle,
            start_height: 0,
            end_height: 0,
            index: CollisionIndex::with_capacity(cap),
            summary: RunSummary {
                blocks: 0,
                transactions: 0,
                inputs: 0,
                outputs: 0,
                comparisons: 0,
                weak_matches: 0,
            },
            processed: Ghost(Seq::empty()),
        }
    }

    /// The counters as they stand, for the caller's own bookkeeping.
    pub fn current_summary(&self) -> (s: RunSummary)
        ensures
            s == self.summary(),
    {
        self.summary
    }

    /// How many records the index holds so far.
    pub fn record_count(&self) -> (n: usize)
        ensures
            n == self.records().len(),
    {
        self.index.len()
    }

    /// Enter the run: remember the first block height. The caller creates the
    /// temporary output file and any spill directory first and fails the run
    /// if it cannot.
    pub fn on_start(&mut self, block_height: usize)
        requires
            old(self).phase() == Phase::Idle,
            old(self).wf(),
        ensures
            final(self).wf(),
            final(self).phase() == Phase::Started,
            final(self).start_height() == block_height as int,
            final(self).end_height() == old(self).end_height(),
            final(self).records() == old(self).records(),
            final(self).processed() == old(self).processed(),
            final(self).summary() == old(self).summary(),
    {
        self.start_height = block_height;
        self.phase = Phase::Started;
    }

    /// Consume one block: count its transactions, inputs and outputs, and
    /// index a fingerprint record for every eligible input.
    pub fn on_block(&mut self, block: &Block)
        requires
            old(self).phase() == Phase::Started,
            old(self).wf(),
            old(self).summary().blocks + 1 <= u64::MAX,
            old(self).summary().transactions + block@.txs.len() <= u64::MAX,
            old(self).summary().inputs + block_in_count(block@) <= u64::MAX,
            old(self).summary().outputs + block_out_count(block@) <= u64::MAX,
        ensures
            final(self).wf(),
            final(self).phase() == Phase::Started,
            final(self).start_height() == old(self).start_height(),
            final(self).end_height() == block@.height,
            final(self).records() == old(self).records() + block_records(block@),
            final(self).processed() == old(self).processed().push(block@),
            final(self).summary() == (RunSummary {
                blocks: (old(self).summary().blocks + 1) as u64,
                transactions: (old(self).summary().transactions + block@.txs.len()) as u64,
                inputs: (old(self).summary().inputs + block_in_count(block@)) as u64,
                outputs: (old(self).summary().outputs + block_out_count(block@)) as u64,
                comparisons: old(self).summary().comparisons,
                weak_matches: old(self).summary().weak_matches,
            }),
    {
        self.end_height = block.height;
        let ghost recs0 = self.index@;
        let ghost b = block@;
        let ntx = block.txs.len();
        self.summary.blocks = self.summary.blocks + 1;
        self.summary.transactions = self.summary.transactions + (ntx as u64);
        for t in 0..ntx
            invariant
                ntx == block.txs.len(),
                b == block@,
                self.phase == old(self).phase,
                self.start_height == old(self).start_height,
                self.end_height == block.height,
                self.processed == old(self).processed,
                self.summary.blocks == old(self).summary.blocks + 1,
                self.summary.transactions == old(self).summary.transactions + ntx,
                self.summary.comparisons == old(self).summary.comparisons,
                self.summary.weak_matches == old(self).summary.weak_matches,
                self.summary.inputs as int == old(self).summary.inputs + in_count_upto(
                    b,
                    t as int,
                ),
                self.summary.outputs as int == old(self).summary.outputs + out_count_upto(
                    b,
                    t as int,
                ),
                old(self).summary.inputs + block_in_count(b) <= u64::MAX,
                old(self).summary.outputs + block_out_count(b) <= u64::MAX,
                self.index@ == recs0 + block_records_upto(b, t as int),
        {
            let tx = &block.txs[t];
            proof {
                assert(b.txs[t as int] == tx@);
            }
            let txid_hex = to_hex_swapped(&tx.hash);
            let nin = tx.inputs.len();
            for j in 0..nin
                invariant
                    ntx == block.txs.len(),
                    t < ntx,
                    b == block@,
                    nin == tx.inputs.len(),
                    b.txs[t as int] == tx@,
                    txid_hex@ == hex_swapped_of(tx.hash@),
                    self.phase == old(self).phase,
                    self.start_height == old(self).start_height,
                    self.end_height == block.height,
                    self.processed == old(self).processed,
                    self.summary == prev_summary_snapshot(old(self).summary, ntx as int,
                        in_count_upto(b, t as int), out_count_upto(b, t as int)),
                    self.index@ == recs0 + block_records_upto(b, t as int) + tx_records_upto(
                        tx@,
                        b.height,
                        j as int,
                    ),
            {
                let input = &tx.inputs[j];
                proof {
                    assert(tx@.inputs[j as int] == input@);
                }
                let sig_hex = to_hex(&input.script_sig);
                proof {
                    lemma_hex_of_len(input.script_sig@);
                }
                let ghost pre = self.index@;
                match fingerprint_from_hex(&sig_hex) {
                    Some(fp) => {
                        let rec = Record {
                            txid: clone_bytes(&txid_hex),
                            input_index: j,
                            block_height: block.height,
                            sig_hex,
                            fingerprint: fp,
                        };
                        proof {
                            assert(eligible(input.script_sig@));
                            assert(rec@ == input_record(
                                tx.hash@,
                                b.height,
                                j as int,
                                input.script_sig@,
                            ));
                        }
                        self.index.insert(rec);
                        proof {
                            assert(tx_records_upto(tx@, b.height, j + 1) =~= tx_records_upto(
                                tx@,
                                b.height,
                                j as int,
                            ) + seq![
                                input_record(tx.hash@, b.height, j as int, input.script_sig@),
                            ]);
                            assert(self.index@ =~= recs0 + block_records_upto(b, t as int)
                                + tx_records_upto(tx@, b.height, j + 1));
                        }
                    },
                    None => {
                        proof {
                            assert(!eligible(input.script_sig@));
                            assert(tx_records_upto(tx@, b.height, j + 1) =~= tx_records_upto(
                                tx@,
                                b.height,
                                j as int,
                            ));
                        }
                    },
                }
            }
            proof {
                assert(tx_records_upto(tx@, b.height, nin as int) == tx_records(tx@, b.height));
                assert(block_records_upto(b, t + 1) =~= block_records_upto(b, t as int)
                    + tx_records(b.txs[t as int], b.height));
                assert(self.index@ =~= recs0 + block_records_upto(b, t + 1));
                lemma_counts_monotone(b, t + 1);
                assert(in_count_upto(b, t + 1) == in_count_upto(b, t as int)
                    + b.txs[t as int].inputs.len());
                assert(b.txs[t as int].inputs.len() == nin);
                assert(out_count_upto(b, t + 1) == out_count_upto(b, t as int)
                    + b.txs[t as int].out_count);
                assert(b.txs[t as int].out_count == tx.out_count);
            }
            self.summary.inputs = self.summary.inputs + (nin as u64);
            self.summary.outputs = self.summary.outputs + tx.out_count;
        }
        proof {
            assert(block_records_upto(b, ntx as int) == block_records(b));
            assert(in_count_upto(b, ntx as int) == block_in_count(b));
            assert(out_count_upto(b, ntx as int) == block_out_count(b));
        }
        self.processed = Ghost(self.processed@.push(b));
        proof {
            assert(self.processed@.drop_last() =~= old(self).processed@);
            assert(self.processed@.last() == b);
            assert(run_records(self.processed@) == run_records(old(self).processed@)
                + block_records(b));
            assert(self.index@ =~= run_records(self.processed@));
            assert(total_txs(self.processed@) == total_txs(old(self).processed@) + b.txs.len());
            assert(total_inputs(self.processed@) == total_inputs(old(self).processed@)
                + block_in_count(b));
            assert(total_outputs(self.processed@) == total_outputs(old(self).processed@)
                + block_out_count(b));
        }
    }

    /// End the stream: resolve every fingerprint that occurs at least twice,
    /// render the report, form the final filename, and settle the counters.
    /// The caller writes the report bytes to the temporary file and renames
    /// it to the returned name; on a rename failure the temporary file is
    /// left in place.
    pub fn on_complete(&mut self, block_height: usize) -> (r: CompletionReport)
        requires
            old(self).phase() == Phase::Started,
            old(self).wf(),
        ensures
            final(self).wf(),
            final(self).phase() == Phase::Completed,
            final(self).start_height() == old(self).start_height(),
            final(self).end_height() == block_height as int,
            final(self).records() == old(self).records(),
            final(self).processed() == old(self).processed(),
            final(self).summary() == r.summary,
            r.output@ == output_bytes(old(self).records()),
            r.filename@ == filename_bytes(old(self).start_height(), block_height as int),
            r.summary == (RunSummary {
                blocks: old(self).summary().blocks,
                transactions: old(self).summary().transactions,
                inputs: old(self).summary().inputs,
                outputs: old(self).summary().outputs,
                comparisons: r.summary.comparisons,
                weak_matches: r.summary.weak_matches,
            }),
            r.summary.comparisons as int == old(self).records().len() as int,
            r.summary.weak_matches as int == weak_indices(old(self).records()).len() as int,
    {
        self.end_height = block_height;
        let res = resolve(&self.index);
        let output = render_output(&self.index, &res.weak);
        let filename = output_filename(self.start_height, block_height);
        self.summary.comparisons = res.comparisons;
        self.summary.weak_matches = res.weak_count;
        self.phase = Phase::Completed;
        CompletionReport { output, filename, summary: self.summary }
    }
}

/// The summary as it stands mid-block: blocks and transactions already
/// counted, inputs and outputs counted up to the current transaction.
pub open spec fn prev_summary_snapshot(s: RunSummary, ntx: int, ins: nat, outs: nat) -> RunSummary {
    RunSummary {
        blocks: (s.blocks + 1) as u64,
        transactions: (s.transactions + ntx) as u64,
        inputs: (s.inputs + ins) as u64,
        outputs: (s.outputs + outs) as u64,
        comparisons: s.comparisons,
        weak_matches: s.weak_matches,
    }
}

/// Re-running the engine on an identical stream of blocks yields
/// byte-identical report contents: two well-formed scanners that processed
/// the same blocks hold the same records, so `on_complete` renders the same
/// bytes for both.
pub proof fn lemma_identical_stream_identical_output(a: WeakWallets, b: WeakWallets)
    requires
        a.wf(),
        b.wf(),
        a.processed() == b.processed(),
    ensures
        a.records() == b.records(),
        output_bytes(a.records()) == output_bytes(b.records()),
{
}

/// A well-formed scanner's counters tally exactly the processed stream:
/// as many blocks as were delivered and as many transactions as they held,
/// however many collisions were found.
pub proof fn lemma_summary_reflects_stream(e: WeakWallets)
    requires
        e.wf(),
    ensures
        e.summary().blocks as int == e.processed().len() as int,
        e.summary().transactions as int == total_txs(e.processed()) as int,
        e.summary().inputs as int == total_inputs(e.processed()) as int,
        e.summary().outputs as int == total_outputs(e.processed()) as int,
{
}

} // verus!
