//! The temporary-address builder used by the query collaborator: a
//! prefix, a timestamp in seconds, and the configured domain, composed
//! into one address of the form `prefix_seconds@domain`.

use vstd::prelude::*;
use crate::parse::append_bytes;

verus! {

/// The decimal rendering of a number, most significant digit first, no
/// leading zeroes (zero itself is "0").
pub open spec fn dec_rep(n: nat) -> Seq<u8>
    decreases n,
{
    if n < 10 {
        seq![(48 + n) as u8]
    } else {
        dec_rep(n / 10).push((48 + (n % 10)) as u8)
    }
}

/// Renders a number in decimal.
pub fn decimal_bytes(n: u64) -> (r: Vec<u8>)
    ensures
        r@ == dec_rep(n as nat),
{
    let mut rev_digits: Vec<u8> = Vec::new();
    let mut m = n;
    proof {
        assert(dec_rep(n as nat) =~= dec_rep(n as nat) + rev_digits@.reverse());
    }
    while m >= 10
        invariant
            dec_rep(n as nat) == dec_rep(m as nat) + rev_digits@.reverse(),
        decreases m,
    {
        let d: u8 = 48 + (m % 10) as u8;
        let ghost r0 = rev_digits@;
        rev_digits.push(d);
        proof {
            assert(dec_rep(m as nat) == dec_rep((m as nat) / 10).push(d));
            assert(rev_digits@.reverse() =~= seq![d] + r0.reverse());
            assert(dec_rep((m as nat) / 10) + (seq![d] + r0.reverse()) =~= (dec_rep(
                (m as nat) / 10,
            ).push(d)) + r0.reverse());
            assert((m / 10) as nat == (m as nat) / 10);
        }
        m = m / 10;
    }
    let mut out: Vec<u8> = Vec::new();
    out.push(48 + m as u8);
    proof {
        assert(dec_rep(m as nat) == seq![(48 + m) as u8]);
        assert(out@ =~= seq![(48 + m) as u8] + rev_digits@.reverse().subrange(0, 0));
    }
    let total = rev_digits.len();
    let mut k: usize = 0;
    while k < total
        invariant
            total == rev_digits@.len(),
            k <= total,
            m < 10,
            dec_rep(n as nat) == dec_rep(m as nat) + rev_digits@.reverse(),
            dec_rep(m as nat) == seq![(48 + m) as u8],
            out@ == seq![(48 + m) as u8] + rev_digits@.reverse().subrange(0, k as int),
        decreases total - k,
    {
        out.push(rev_digits[total - 1 - k]);
        proof {
            let rv = rev_digits@.reverse();
            assert(rv[k as int] == rev_digits@[total - 1 - k]);
            assert(rv.subrange(0, k as int).push(rv[k as int]) =~= rv.subrange(0, k as int + 1));
            assert(out@ =~= seq![(48 + m) as u8] + rv.subrange(0, k as int + 1));
        }
        k = k + 1;
    }
    proof {
        let rv = rev_digits@.reverse();
        assert(rv.subrange(0, rv.len() as int) =~= rv);
        assert(out@ =~= dec_rep(m as nat) + rv);
    }
    out
}

/// Builds the temporary address `prefix_seconds@domain`.
pub fn temp_address(prefix: &[u8], ts_secs: u64, domain: &[u8]) -> (r: Vec<u8>)
    ensures
        r@ == prefix@ + seq![95u8] + dec_rep(ts_secs as nat) + seq![64u8] + domain@,
{
    let mut r: Vec<u8> = Vec::new();
    append_bytes(&mut r, prefix);
    r.push(95);
    let ds = decimal_bytes(ts_secs);
    append_bytes(&mut r, ds.as_slice());
    r.push(64);
    append_bytes(&mut r, domain);
    proof {
        assert(r@ =~= prefix@ + seq![95u8] + dec_rep(ts_secs as nat) + seq![64u8] + domain@);
    }
    r
}

} // verus!
