//! The result sink's pure half: rendering the colliding records as a
//! semicolon-delimited report with a header row, and forming the
//! block-range-stamped output filename. Writing the bytes to a temporary
//! file and renaming it atomically is the caller's side of the contract.

use vstd::prelude::*;
use crate::index::CollisionIndex;
use crate::record::RecordV;
use crate::resolve::{weak_indices, lemma_weak_indices_iff};

verus! {

/// The header row: `txid;sig` and a newline.
pub open spec fn header_bytes() -> Seq<u8> {
    seq![116, 120, 105, 100, 59u8, 115, 105, 103, 10u8]
}

/// One data row: the transaction id, a semicolon, the full signature hex, and
/// a newline.
pub open spec fn row_bytes(r: RecordV) -> Seq<u8> {
    r.txid + seq![59u8] + r.sig_hex + seq![10u8]
}

/// The data rows for the records at the listed positions, in list order.
pub open spec fn rows_bytes(recs: Seq<RecordV>, idxs: Seq<int>) -> Seq<u8>
    decreases idxs.len(),
{
    if idxs.len() == 0 {
        Seq::empty()
    } else {
        rows_bytes(recs, idxs.drop_last()) + row_bytes(recs[idxs.last()])
    }
}

/// The whole report: the header row, then one row per colliding record, in
/// insertion order.
pub open spec fn output_bytes(recs: Seq<RecordV>) -> Seq<u8> {
    header_bytes() + rows_bytes(recs, weak_indices(recs))
}

/// The decimal digits of a non-negative number, most significant first.
pub open spec fn dec_digits(n: int) -> Seq<u8>
    decreases n,
{
    if n < 10 {
        seq![(48 + if n >= 0 { n } else { 0 }) as u8]
    } else {
        dec_digits(n / 10) + seq![(48 + n % 10) as u8]
    }
}

/// The name the finished report is renamed to:
/// `weak_wallets-<start_height>-<end_height>.csv`.
pub open spec fn filename_bytes(start: int, end: int) -> Seq<u8> {
    seq![119, 101, 97, 107, 95, 119, 97, 108, 108, 101, 116, 115, 45u8]
        + dec_digits(start) + seq![45u8] + dec_digits(end) + seq![46u8, 99, 115, 118]
}

/// Append the bytes of `src` to `out`.
fn append_bytes(out: &mut Vec<u8>, src: &Vec<u8>)
    ensures
        final(out)@ == old(out)@ + src@,
{
    let n = src.len();
    for i in 0..n
        invariant
            n == src.len(),
            out@ == old(out)@ + src@.subrange(0, i as int),
    {
        out.push(src[i]);
        proof {
            assert(src@.subrange(0, i + 1) =~= src@.subrange(0, i as int).push(src@[i as int]));
            assert(out@ =~= old(out)@ + src@.subrange(0, i + 1));
        }
    }
    proof {
        assert(src@.subrange(0, src@.len() as int) =~= src@);
    }
}

/// The decimal rendering of a number, as executable code.
pub fn to_decimal(n: u64) -> (r: Vec<u8>)
    ensures
        r@ == dec_digits(n as int),
{
    let mut rev: Vec<u8> = Vec::new();
    let mut m: u64 = n;
    proof {
        assert(dec_digits(n as int) =~= dec_digits(m as int) + rev@.reverse());
    }
    while m >= 10
        invariant
            dec_digits(n as int) == dec_digits(m as int) + rev@.reverse(),
        decreases m,
    {
        let d = (m % 10) as u8;
        let ghost rev_pre = rev@;
        rev.push(48 + d);
        m = m / 10;
        proof {
            assert(rev@.reverse() =~= seq![(48 + d) as u8] + rev_pre.reverse());
            assert(dec_digits(n as int) =~= dec_digits(m as int) + rev@.reverse());
        }
    }
    let ghost rev_pre = rev@;
    rev.push(48 + (m as u8));
    proof {
        assert(rev@.reverse() =~= seq![(48 + m) as u8] + rev_pre.reverse());
        assert(dec_digits(m as int) =~= seq![(48 + m) as u8]);
        assert(dec_digits(n as int) =~= rev@.reverse());
    }
    let mut r: Vec<u8> = Vec::new();
    let len = rev.len();
    for i in 0..len
        invariant
            len == rev@.len(),
            r@.len() == i,
            forall|t: int| 0 <= t < i ==> r@[t] == rev@[len - 1 - t],
    {
        r.push(rev[len - 1 - i]);
    }
    proof {
        assert(r@ =~= rev@.reverse());
    }
    r
}

/// The block-range-stamped output filename, as executable code.
pub fn output_filename(start_height: usize, end_height: usize) -> (r: Vec<u8>)
    ensures
        r@ == filename_bytes(start_height as int, end_height as int),
{
    let mut r: Vec<u8> = Vec::new();
    let prefix: [u8; 13] = [
        119, 101, 97, 107, 95, 119, 97, 108, 108, 101, 116, 115, 45u8,
    ];
    for i in 0..13usize
        invariant
            r@ =~= prefix@.subrange(0, i as int),
            (prefix@ =~= seq![
                119, 101, 97, 107, 95, 119, 97, 108, 108, 101, 116, 115, 45u8,
            ]),
    {
        r.push(prefix[i]);
        proof {
            assert(r@ =~= prefix@.subrange(0, i + 1));
        }
    }
    proof {
        assert(prefix@.subrange(0, 13) =~= prefix@);
    }
    let start_dec = to_decimal(start_height as u64);
    append_bytes(&mut r, &start_dec);
    r.push(45u8);
    let end_dec = to_decimal(end_height as u64);
    append_bytes(&mut r, &end_dec);
    r.push(46u8);
    r.push(99);
    r.push(115);
    r.push(118);
    proof {
        assert(r@ =~= filename_bytes(start_height as int, end_height as int));
    }
    r
}

/// Render the whole report for the given index and its resolved colliding
/// positions: the header row, then one row per colliding record.
pub fn render_output(index: &CollisionIndex, weak: &Vec<usize>) -> (out: Vec<u8>)
    requires
        weak@.map_values(|x: usize| x as int) == weak_indices(index@),
    ensures
        out@ == output_bytes(index@),
{
    let ghost recs = index@;
    let ghost idxs = weak_indices(recs);
    proof {
        lemma_weak_indices_iff(recs, recs.len() as int);
        assert forall|u: int| 0 <= u < idxs.len() implies 0 <= #[trigger] idxs[u] < recs.len() by {
            assert(idxs.contains(idxs[u]));
        }
    }
    let mut out: Vec<u8> = Vec::new();
    out.push(116);
    out.push(120);
    out.push(105);
    out.push(100);
    out.push(59u8);
    out.push(115);
    out.push(105);
    out.push(103);
    out.push(10u8);
    proof {
        assert(out@ =~= header_bytes());
    }
    let m = weak.len();
    for t in 0..m
        invariant
            m == weak@.len(),
            recs == index@,
            idxs == weak_indices(recs),
            weak@.map_values(|x: usize| x as int) == idxs,
            forall|u: int|
                0 <= u < idxs.len() ==> 0 <= #[trigger] idxs[u] < recs.len(),
            out@ == header_bytes() + rows_bytes(recs, idxs.subrange(0, t as int)),
    {
        let i = weak[t];
        proof {
            assert(idxs[t as int] == i as int);
            assert(idxs.contains(idxs[t as int]));
        }
        let rec = index.get(i);
        append_bytes(&mut out, &rec.txid);
        out.push(59u8);
        append_bytes(&mut out, &rec.sig_hex);
        out.push(10u8);
        proof {
            assert(idxs.subrange(0, t + 1).drop_last() =~= idxs.subrange(0, t as int));
            assert(idxs.subrange(0, t + 1).last() == i as int);
            assert(row_bytes(rec@) =~= rec@.txid + seq![59u8] + rec@.sig_hex + seq![10u8]);
            assert(out@ =~= header_bytes() + rows_bytes(recs, idxs.subrange(0, t + 1)));
        }
    }
    proof {
        assert(idxs.subrange(0, idxs.len() as int) =~= idxs);
    }
    out
}

} // verus!
