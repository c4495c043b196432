use weakwallets::block::{Block, Tx, TxInput};
use weakwallets::engine::WeakWallets;
use weakwallets::spill::block_candidates;

fn hex_string(bytes: &[u8]) -> String {
    let mut s = String::new();
    for b in bytes {
        s.push_str(&format!("{:02x}", b));
    }
    s
}

fn hex_swapped_string(bytes: &[u8]) -> String {
    let mut s = String::new();
    for b in bytes.iter().rev() {
        s.push_str(&format!("{:02x}", b));
    }
    s
}

/// A 38-byte script whose fingerprint bytes (5..37) are fixed and whose
/// leading bytes carry `tag`, so different tags collide on purpose.
fn colliding_script(tag: u8) -> Vec<u8> {
    let mut script = vec![tag; 38];
    for i in 5..37 {
        script[i] = 0x40 + (i as u8);
    }
    script
}

fn tx_with_script(hash_seed: u8, script: Vec<u8>, out_count: u64) -> Tx {
    Tx {
        hash: vec![hash_seed; 32],
        inputs: vec![TxInput { script_sig: script, sequence: 0xffffffff }],
        out_count,
    }
}

#[test]
fn pair_of_colliding_transactions_yields_two_rows() {
    // Two transactions in one block whose signature scripts agree on the
    // 64-character hex sub-slice at offset 10: both must be reported.
    let script_a = colliding_script(0x01);
    let script_b = colliding_script(0x02);
    let fingerprint = hex_string(&script_a[5..37]);
    assert_eq!(fingerprint, hex_string(&script_b[5..37]));
    assert_eq!(fingerprint.len(), 64);

    let tx_a = tx_with_script(0xaa, script_a.clone(), 1);
    let tx_b = tx_with_script(0xbb, script_b.clone(), 2);
    let block = Block { height: 100, txs: vec![tx_a, tx_b] };

    let mut engine = WeakWallets::new();
    engine.on_start(100);
    engine.on_block(&block);
    let report = engine.on_complete(100);

    let expected = format!(
        "txid;sig\n{};{}\n{};{}\n",
        hex_swapped_string(&[0xaa; 32]),
        hex_string(&script_a),
        hex_swapped_string(&[0xbb; 32]),
        hex_string(&script_b),
    );
    assert_eq!(report.output, expected.into_bytes());

    let text = String::from_utf8(report.output.clone()).unwrap();
    let rows: Vec<&str> = text.lines().skip(1).collect();
    assert_eq!(rows.len(), 2);
    for row in rows {
        assert!(row.contains(&fingerprint));
    }
    assert_eq!(report.filename, b"weak_wallets-100-100.csv".to_vec());
    assert_eq!(report.summary.weak_matches, 2);
    assert_eq!(report.summary.comparisons, 2);
}

#[test]
fn below_threshold_script_yields_header_only() {
    // One transaction whose signature script is 40 hex characters long:
    // below the minimum, so the report holds only the header row.
    let script = vec![0x77; 20];
    assert_eq!(hex_string(&script).len(), 40);
    let block = Block { height: 7, txs: vec![tx_with_script(0xcc, script, 1)] };

    let mut engine = WeakWallets::new();
    engine.on_start(7);
    engine.on_block(&block);
    let report = engine.on_complete(7);

    assert_eq!(report.output, b"txid;sig\n".to_vec());
    assert_eq!(report.filename, b"weak_wallets-7-7.csv".to_vec());
    assert_eq!(report.summary.weak_matches, 0);
    assert_eq!(report.summary.transactions, 1);
    assert_eq!(report.summary.inputs, 1);
}

#[test]
fn counters_tally_blocks_transactions_inputs_and_outputs() {
    // Three blocks with five transactions in all: the summary must report
    // five transactions and three blocks however many collisions were found.
    let b1 = Block {
        height: 1,
        txs: vec![
            tx_with_script(0x01, vec![0x11; 10], 2),
            tx_with_script(0x02, vec![0x22; 50], 3),
        ],
    };
    let b2 = Block { height: 2, txs: vec![tx_with_script(0x03, vec![0x33; 5], 1)] };
    let b3 = Block {
        height: 3,
        txs: vec![
            tx_with_script(0x04, vec![0x44; 60], 4),
            Tx { hash: vec![0x05; 32], inputs: Vec::new(), out_count: 5 },
        ],
    };

    let mut engine = WeakWallets::new();
    engine.on_start(1);
    engine.on_block(&b1);
    engine.on_block(&b2);
    let mid = engine.current_summary();
    assert_eq!(mid.blocks, 2);
    assert_eq!(mid.transactions, 3);
    assert_eq!(engine.record_count(), 1);
    engine.on_block(&b3);
    let report = engine.on_complete(3);

    assert_eq!(report.summary.blocks, 3);
    assert_eq!(report.summary.transactions, 5);
    assert_eq!(report.summary.inputs, 4);
    assert_eq!(report.summary.outputs, 15);
    assert_eq!(report.filename, b"weak_wallets-1-3.csv".to_vec());
}

#[test]
fn identical_streams_give_identical_output() {
    // Re-running the whole engine on an identical input stream produces
    // byte-identical report contents.
    let make_blocks = || {
        vec![
            Block {
                height: 10,
                txs: vec![
                    tx_with_script(0x0a, colliding_script(0x01), 1),
                    tx_with_script(0x0b, vec![0x99; 45], 1),
                ],
            },
            Block { height: 11, txs: vec![tx_with_script(0x0c, colliding_script(0x09), 2)] },
        ]
    };

    let run = |blocks: Vec<Block>| {
        let mut engine = WeakWallets::new();
        engine.on_start(10);
        for b in &blocks {
            engine.on_block(b);
        }
        engine.on_complete(11)
    };

    let first = run(make_blocks());
    let second = run(make_blocks());
    assert_eq!(first.output, second.output);
    assert_eq!(first.filename, second.filename);
    assert!(!first.output.is_empty());
}

#[test]
fn presized_engine_behaves_like_a_fresh_one() {
    let block = Block { height: 50, txs: vec![tx_with_script(0x41, colliding_script(0x04), 1)] };
    let mut fresh = WeakWallets::new();
    fresh.on_start(50);
    fresh.on_block(&block);
    let mut presized = WeakWallets::with_capacity(64);
    presized.on_start(50);
    presized.on_block(&block);
    assert_eq!(fresh.on_complete(50).output, presized.on_complete(50).output);
}

#[test]
fn empty_stream_reports_header_only() {
    let mut engine = WeakWallets::new();
    engine.on_start(0);
    let report = engine.on_complete(0);
    assert_eq!(report.output, b"txid;sig\n".to_vec());
    assert_eq!(report.filename, b"weak_wallets-0-0.csv".to_vec());
    assert_eq!(report.summary.blocks, 0);
    assert_eq!(report.summary.transactions, 0);
}

#[test]
fn collisions_are_found_across_blocks() {
    let b1 = Block { height: 20, txs: vec![tx_with_script(0x11, colliding_script(0x01), 1)] };
    let b2 = Block { height: 21, txs: vec![tx_with_script(0x22, colliding_script(0x02), 1)] };

    let mut engine = WeakWallets::new();
    engine.on_start(20);
    engine.on_block(&b1);
    engine.on_block(&b2);
    let report = engine.on_complete(21);

    assert_eq!(report.summary.weak_matches, 2);
    assert_eq!(report.filename, b"weak_wallets-20-21.csv".to_vec());
    let text = String::from_utf8(report.output).unwrap();
    assert_eq!(text.lines().count(), 3);
    assert!(text.contains(&hex_swapped_string(&[0x11; 32])));
    assert!(text.contains(&hex_swapped_string(&[0x22; 32])));
}

#[test]
fn spill_candidates_are_the_eligible_fingerprints() {
    // One eligible and one short input: the spill lines for the block are
    // exactly the fingerprints of the eligible ones, in block order.
    let eligible_script = colliding_script(0x03);
    let expected = hex_string(&eligible_script[5..37]).into_bytes();
    let block = Block {
        height: 30,
        txs: vec![
            tx_with_script(0x31, eligible_script, 1),
            tx_with_script(0x32, vec![0x12; 8], 1),
        ],
    };
    let lines = block_candidates(&block);
    assert_eq!(lines.len(), 1);
    assert_eq!(lines[0], expected);
}
