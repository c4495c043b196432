//! Fingerprint extraction: deciding whether a raw signature script is long
//! enough to carry a DER-encoded ECDSA signature, and deriving a fixed
//! sub-range of its hex encoding as the r-value fingerprint.

use vstd::prelude::*;
use crate::hex::{hex_of, lemma_hex_of_len, to_hex};

verus! {

/// A signature script qualifies only when its hex encoding is strictly longer
/// than this many characters; shorter scripts cannot carry a usable signature.
pub const MIN_SIG_HEX_LEN: usize = 74;

/// First hex character of the fingerprint slice: skips the DER sequence and
/// length header bytes to land inside the r-value encoding.
pub const FP_OFFSET: usize = 10;

/// One past the last hex character of the fingerprint slice.
pub const FP_END: usize = 74;

/// Whether a signature script is long enough to fingerprint.
pub open spec fn eligible(script: Seq<u8>) -> bool {
    2 * script.len() > MIN_SIG_HEX_LEN
}

/// The fingerprint of an eligible script: a fixed sub-range of its hex encoding.
pub open spec fn fingerprint_of(script: Seq<u8>) -> Seq<u8> {
    hex_of(script).subrange(FP_OFFSET as int, FP_END as int)
}

/// What `extract` returns: a fingerprint for eligible scripts, nothing otherwise.
pub open spec fn extract_spec(script: Seq<u8>) -> Option<Seq<u8>> {
    if eligible(script) {
        Some(fingerprint_of(script))
    } else {
        None
    }
}

/// The fingerprint slice of an already hex-encoded script, if long enough.
pub fn fingerprint_from_hex(sig_hex: &Vec<u8>) -> (r: Option<Vec<u8>>)
    ensures
        match r {
            Some(fp) => sig_hex@.len() > MIN_SIG_HEX_LEN && fp@ == sig_hex@.subrange(
                FP_OFFSET as int,
                FP_END as int,
            ),
            None => sig_hex@.len() <= MIN_SIG_HEX_LEN,
        },
{
    if sig_hex.len() > MIN_SIG_HEX_LEN {
        let mut fp: Vec<u8> = Vec::new();
        for j in FP_OFFSET..FP_END
            invariant
                sig_hex@.len() > MIN_SIG_HEX_LEN,
                fp@ == sig_hex@.subrange(FP_OFFSET as int, j as int),
        {
            fp.push(sig_hex[j]);
            proof {
                assert(fp@ =~= sig_hex@.subrange(FP_OFFSET as int, j + 1));
            }
        }
        Some(fp)
    } else {
        None
    }
}

/// Derive the r-value fingerprint of a raw signature script, or nothing when
/// the script is too short to carry one.
pub fn extract(script: &Vec<u8>) -> (r: Option<Vec<u8>>)
    ensures
        match r {
            Some(fp) => eligible(script@) && fp@ == fingerprint_of(script@),
            None => !eligible(script@),
        },
{
    let sig_hex = to_hex(script);
    proof {
        lemma_hex_of_len(script@);
    }
    fingerprint_from_hex(&sig_hex)
}

/// Scripts whose hex encoding is shorter than the minimum length are never
/// fingerprinted.
pub proof fn lemma_short_script_yields_none(script: Seq<u8>)
    requires
        2 * script.len() < MIN_SIG_HEX_LEN,
    ensures
        extract_spec(script) is None,
{
}

/// Fingerprint extraction is deterministic: the result is a function of the
/// script bytes alone, so the same bytes always yield the same answer.
pub proof fn lemma_extract_deterministic(a: Seq<u8>, b: Seq<u8>)
    requires
        a == b,
    ensures
        extract_spec(a) == extract_spec(b),
{
}

} // verus!
