//! Framing of the surface's interrupt reports.

use vstd::prelude::*;

verus! {

/// The byte that marks the start of a report.
pub const REPORT_START: u8 = 0xb0;

/// The (control number, value) pairs of a report, read from position `i`:
/// where a pair would start, the start marker is skipped; otherwise two bytes
/// form a pair; a lone byte at the end is dropped.
pub open spec fn report_pairs_from(b: Seq<u8>, i: int) -> Seq<(u8, u8)>
    decreases b.len() - i,
{
    if i < 0 || i + 1 >= b.len() {
        seq![]
    } else if b[i] == REPORT_START {
        report_pairs_from(b, i + 1)
    } else {
        seq![(b[i], b[i + 1])] + report_pairs_from(b, i + 2)
    }
}

/// The (control number, value) pairs of a whole report.
pub open spec fn report_pairs(b: Seq<u8>) -> Seq<(u8, u8)> {
    report_pairs_from(b, 0)
}

/// Splits a report read from the surface into (control number, value) pairs.
pub fn split_report(bytes: &[u8]) -> (r: Vec<(u8, u8)>)
    ensures
        r@ == report_pairs(bytes@),
{
    let mut pairs: Vec<(u8, u8)> = Vec::new();
    let mut i: usize = 0;
    while i < bytes.len() && bytes.len() - i > 1
        invariant
            i <= bytes@.len() + 1,
            pairs@ + report_pairs_from(bytes@, i as int) == report_pairs(bytes@),
        decreases bytes@.len() + 1 - i,
    {
        if bytes[i] == REPORT_START {
            i = i + 1;
        } else {
            let ghost before = pairs@;
            pairs.push((bytes[i], bytes[i + 1]));
            proof {
                assert(pairs@ + report_pairs_from(bytes@, i + 2) =~= before
                    + report_pairs_from(bytes@, i as int));
            }
            i = i + 2;
        }
    }
    proof {
        assert(report_pairs_from(bytes@, i as int) =~= Seq::<(u8, u8)>::empty());
        assert(pairs@ =~= pairs@ + Seq::<(u8, u8)>::empty());
    }
    pairs
}

} // verus!
