//! The spill-file variant's pure half: the fingerprint lines written for one
//! block. A caller that bounds memory by spilling per-block candidates to
//! disk appends exactly these lines to the block's spill file; they are the
//! fingerprints of the very records the in-memory index accumulates, so both
//! configurations resolve to identical results.

use vstd::prelude::*;
use crate::block::Block;
use crate::fingerprint::fingerprint_from_hex;
use crate::hex::{lemma_hex_of_len, to_hex};
use crate::record::{RecordV, block_records, block_records_upto, input_record, tx_records,
    tx_records_upto};

verus! {

/// The fingerprints of a record sequence, in order.
pub open spec fn fingerprints_of(recs: Seq<RecordV>) -> Seq<Seq<u8>> {
    recs.map_values(|r: RecordV| r.fingerprint)
}

/// The candidate lines of one block: the fingerprint of every eligible
/// input, in block order.
pub fn block_candidates(block: &Block) -> (r: Vec<Vec<u8>>)
    ensures
        r@.map_values(|v: Vec<u8>| v@) == fingerprints_of(block_records(block@)),
{
    let ghost b = block@;
    let mut r: Vec<Vec<u8>> = Vec::new();
    let ntx = block.txs.len();
    for t in 0..ntx
        invariant
            ntx == block.txs.len(),
            b == block@,
            r@.map_values(|v: Vec<u8>| v@) == fingerprints_of(block_records_upto(b, t as int)),
    {
        let tx = &block.txs[t];
        proof {
            assert(b.txs[t as int] == tx@);
        }
        let nin = tx.inputs.len();
        for j in 0..nin
            invariant
                ntx == block.txs.len(),
                t < ntx,
                b == block@,
                nin == tx.inputs.len(),
                b.txs[t as int] == tx@,
                r@.map_values(|v: Vec<u8>| v@) == fingerprints_of(
                    block_records_upto(b, t as int) + tx_records_upto(tx@, b.height, j as int),
                ),
        {
            let input = &tx.inputs[j];
            proof {
                assert(tx@.inputs[j as int] == input@);
            }
            let sig_hex = to_hex(&input.script_sig);
            proof {
                lemma_hex_of_len(input.script_sig@);
            }
            match fingerprint_from_hex(&sig_hex) {
                Some(fp) => {
                    let ghost fpv = fp@;
                    let ghost r_pre = r@;
                    r.push(fp);
                    proof {
                        let rec = input_record(tx.hash@, b.height, j as int, input.script_sig@);
                        assert(fpv == rec.fingerprint);
                        assert(tx_records_upto(tx@, b.height, j + 1) =~= tx_records_upto(
                            tx@,
                            b.height,
                            j as int,
                        ) + seq![rec]);
                        assert(r@.map_values(|v: Vec<u8>| v@) =~= r_pre.map_values(
                            |v: Vec<u8>| v@,
                        ).push(fpv));
                        assert(r@.map_values(|v: Vec<u8>| v@) =~= fingerprints_of(
                            block_records_upto(b, t as int) + tx_records_upto(
                                tx@,
                                b.height,
                                j + 1,
                            ),
                        ));
                    }
                },
                None => {
                    proof {
                        assert(tx_records_upto(tx@, b.height, j + 1) =~= tx_records_upto(
                            tx@,
                            b.height,
                            j as int,
                        ));
                    }
                },
            }
        }
        proof {
            assert(tx_records_upto(tx@, b.height, nin as int) == tx_records(tx@, b.height));
            assert(block_records_upto(b, t + 1) =~= block_records_upto(b, t as int) + tx_records(
                b.txs[t as int],
                b.height,
            ));
        }
    }
    proof {
        assert(block_records_upto(b, ntx as int) == block_records(b));
    }
    r
}

} // verus!
