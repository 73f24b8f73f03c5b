//! Verified text assembly: appending single characters and decimal numbers
//! to a growing `String`.

use vstd::prelude::*;

verus! {

/// Relies on `String::push`: appends exactly one character at the end.
#[verifier::external_body]
pub(crate) fn push_char(out: &mut String, c: char)
    ensures
        final(out)@ == old(out)@ + seq![c],
{
    out.push(c);
}

/// The decimal digits of `n`, most significant first, with no sign and no
/// leading zero (a single `'0'` for zero itself).
pub open spec fn dec_str(n: nat) -> Seq<char>
    decreases n,
{
    if n < 10 {
        seq![((n + 48) as u8) as char]
    } else {
        dec_str(n / 10) + seq![((n % 10 + 48) as u8) as char]
    }
}

/// Appends the decimal form of `n` to `out`.
pub fn append_decimal(out: &mut String, n: u64)
    ensures
        final(out)@ == old(out)@ + dec_str(n as nat),
{
    let mut digits: Vec<char> = Vec::new();
    let mut m: u64 = n;
    loop
        invariant_except_break
            m == 0 ==> digits@.len() == 0,
            digits@.len() == 0 ==> m == n,
            dec_str(n as nat) == (if digits@.len() == 0 {
                dec_str(m as nat)
            } else {
                dec_str(m as nat) + digits@
            }),
        ensures
            dec_str(n as nat) == digits@,
        decreases m,
    {
        let ghost old_digits = digits@;
        let ghost m0 = m as nat;
        let d: u8 = (m % 10) as u8;
        let c: char = (d + 48) as char;
        digits.insert(0, c);
        m = m / 10;
        proof {
            assert(digits@ =~= seq![c] + old_digits);
            if m0 < 10 {
                assert(dec_str(m0) == seq![c]);
                assert(seq![c] + old_digits =~= dec_str(m0) + old_digits);
            } else {
                assert(dec_str(m0) == dec_str(m0 / 10) + seq![c]);
                assert((dec_str(m0 / 10) + seq![c]) + old_digits =~= dec_str(m0 / 10) + (
                seq![c] + old_digits));
            }
        }
        if m == 0 {
            break;
        }
    }
    let ghost start = out@;
    let mut i: usize = 0;
    while i < digits.len()
        invariant
            i <= digits@.len(),
            out@ == start + digits@.take(i as int),
        decreases digits@.len() - i,
    {
        proof {
            assert(digits@.take(i + 1) =~= digits@.take(i as int) + seq![digits@[i as int]]);
        }
        let c = digits[i];
        push_char(out, c);
        i = i + 1;
    }
    proof {
        assert(digits@.take(digits@.len() as int) =~= digits@);
    }
}

} // verus!
