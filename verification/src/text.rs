//! Building request text: appending literal text and decimal numbers to a
//! byte buffer, with the output pinned down byte for byte.

use vstd::prelude::*;
use vstd::string::StringSliceAdditionalSpecFns;

verus! {

/// Decimal digits of a non-negative number, most significant first, as
/// ASCII bytes.
pub open spec fn spec_digits(n: nat) -> Seq<u8>
    decreases n,
{
    if n < 10 {
        seq![(48 + n) as u8]
    } else {
        spec_digits(n / 10).push((48 + n % 10) as u8)
    }
}

/// The decimal rendering of a signed 32-bit value, as ASCII bytes.
pub open spec fn spec_i32_text(n: int) -> Seq<u8> {
    if n < 0 {
        seq![45u8] + spec_digits((-n) as nat)
    } else {
        spec_digits(n as nat)
    }
}

/// The text a boolean renders as, in JSON and in log lines alike.
pub open spec fn spec_bool_text(b: bool) -> Seq<u8> {
    if b {
        "true".spec_bytes()
    } else {
        "false".spec_bytes()
    }
}

/// Append the bytes of a text literal or slice to the buffer.
#[verifier::loop_isolation(false)]
pub fn append_str(out: &mut Vec<u8>, s: &str)
    ensures
        final(out)@ == old(out)@ + s.spec_bytes(),
{
    let bytes = s.as_bytes();
    let mut i: usize = 0;
    while i < bytes.len()
        invariant
            i <= bytes.len(),
            out@ == old(out)@ + bytes@.take(i as int),
        decreases bytes.len() - i,
    {
        proof {
            assert(old(out)@ + bytes@.take(i as int + 1) =~= (old(out)@ + bytes@.take(
                i as int,
            )).push(bytes@[i as int]));
        }
        out.push(bytes[i]);
        i = i + 1;
    }
    proof {
        assert(bytes@.take(bytes@.len() as int) =~= bytes@);
    }
}

/// Append `true` or `false`.
pub fn append_bool_text(out: &mut Vec<u8>, b: bool)
    ensures
        final(out)@ == old(out)@ + spec_bool_text(b),
{
    if b {
        append_str(out, "true");
    } else {
        append_str(out, "false");
    }
}

/// Append the decimal rendering of `n` to the buffer.
#[verifier::loop_isolation(false)]
pub fn append_i32(out: &mut Vec<u8>, n: i32)
    ensures
        final(out)@ == old(out)@ + spec_i32_text(n as int),
{
    let ghost entry = out@;
    let mut mag: u32 = if n < 0 {
        out.push(45);
        (-(n as i64)) as u32
    } else {
        n as u32
    };
    let ghost mid = out@;
    let ghost mag0 = mag;
    if mag == 0 {
        out.push(48);
        proof {
            assert(out@ =~= entry + spec_i32_text(n as int));
        }
        return ;
    }
    let mut rev: Vec<u8> = Vec::new();
    while mag > 0
        invariant
            mag > 0 ==> spec_digits(mag0 as nat) == spec_digits(mag as nat) + rev@.reverse(),
            mag == 0 ==> spec_digits(mag0 as nat) == rev@.reverse(),
            mag == 0 ==> rev@.len() > 0,
            out@ == mid,
        decreases mag,
    {
        let ghost prev_mag = mag;
        let ghost prev_rev = rev@;
        let digit: u8 = 48 + (mag % 10) as u8;
        rev.push(digit);
        mag = mag / 10;
        proof {
            assert(rev@.reverse() =~= seq![digit] + prev_rev.reverse());
            if mag > 0 {
                assert(spec_digits(prev_mag as nat) == spec_digits(mag as nat).push(digit));
                assert(spec_digits(mag as nat).push(digit) + prev_rev.reverse() =~= spec_digits(
                    mag as nat,
                ) + rev@.reverse());
            } else {
                assert(spec_digits(prev_mag as nat) =~= seq![digit]);
                assert(seq![digit] + prev_rev.reverse() =~= rev@.reverse());
            }
        }
    }
    let mut j: usize = rev.len();
    while j > 0
        invariant
            j <= rev.len(),
            out@ == mid + rev@.reverse().take(rev@.len() - j as int),
        decreases j,
    {
        proof {
            assert(mid + rev@.reverse().take(rev@.len() - (j as int - 1)) =~= (mid
                + rev@.reverse().take(rev@.len() - j as int)).push(rev@[j as int - 1]));
        }
        j = j - 1;
        out.push(rev[j]);
    }
    proof {
        assert(rev@.reverse().take(rev@.len() - 0) =~= rev@.reverse());
        assert(out@ =~= entry + spec_i32_text(n as int));
    }
}

} // verus!
