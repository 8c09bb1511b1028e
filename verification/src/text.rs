//! Building command payloads as ASCII byte strings: decimal rendering of
//! integers, and rendering of fixed-point centi values with one fraction
//! digit (round half away from zero).

use vstd::prelude::*;

verus! {

/// The decimal digits of `n`, most significant first.
pub open spec fn dec_digits(n: nat) -> Seq<u8>
    decreases n,
{
    if n < 10 {
        seq![(0x30 + n) as u8]
    } else {
        dec_digits(n / 10).push((0x30 + n % 10) as u8)
    }
}

/// A signed decimal rendering.
pub open spec fn dec_int(n: int) -> Seq<u8> {
    if n < 0 {
        seq![0x2du8] + dec_digits((-n) as nat)
    } else {
        dec_digits(n as nat)
    }
}

/// Tenths nearest to `c` hundredths, half away from zero, as a magnitude;
/// the sign travels separately.
pub open spec fn deci_magnitude(c: int) -> int {
    (if c < 0 {
        -c
    } else {
        c
    } + 5) / 10
}

/// `c` hundredths rendered with exactly one fraction digit.
pub open spec fn fmt_one_decimal(c: int) -> Seq<u8> {
    let d = deci_magnitude(c);
    (if c < 0 {
        seq![0x2du8]
    } else {
        Seq::empty()
    }) + dec_digits((d / 10) as nat) + seq![0x2eu8, (0x30 + d % 10) as u8]
}

/// Append a byte slice.
pub fn append_bytes(dst: &mut Vec<u8>, src: &[u8])
    ensures
        final(dst)@ == old(dst)@ + src@,
{
    let ghost prior = dst@;
    let mut i: usize = 0;
    proof {
        assert(dst@ =~= prior + src@.take(0));
    }
    while i < src.len()
        invariant
            i <= src@.len(),
            dst@ =~= prior + src@.take(i as int),
        decreases src@.len() - i,
    {
        dst.push(src[i]);
        proof {
            assert(src@.take(i + 1) =~= src@.take(i as int).push(src@[i as int]));
            assert(dst@ =~= prior + src@.take(i + 1));
        }
        i = i + 1;
    }
    proof {
        assert(src@.take(src@.len() as int) =~= src@);
    }
}

/// Append the decimal digits of `n`.
pub fn append_u64_dec(dst: &mut Vec<u8>, n: u64)
    ensures
        final(dst)@ == old(dst)@ + dec_digits(n as nat),
    decreases n,
{
    if n < 10 {
        dst.push(0x30 + n as u8);
        proof {
            assert(dst@ =~= old(dst)@ + dec_digits(n as nat));
        }
    } else {
        append_u64_dec(dst, n / 10);
        dst.push(0x30 + (n % 10) as u8);
        proof {
            assert(old(dst)@ + dec_digits((n / 10) as nat).push((0x30 + n % 10) as u8) =~= (old(
                dst,
            )@ + dec_digits((n / 10) as nat)).push((0x30 + n % 10) as u8));
        }
    }
}

/// Append a signed decimal rendering.
pub fn append_i64_dec(dst: &mut Vec<u8>, n: i64)
    requires
        n > i64::MIN,
    ensures
        final(dst)@ == old(dst)@ + dec_int(n as int),
{
    if n < 0 {
        let ghost prior = dst@;
        dst.push(0x2d);
        append_u64_dec(dst, (-n) as u64);
        proof {
            assert(prior.push(0x2du8) + dec_digits((-n) as nat) =~= prior + (seq![0x2du8]
                + dec_digits((-n) as nat)));
        }
    } else {
        append_u64_dec(dst, n as u64);
    }
}

/// Append `c` hundredths with one fraction digit.
pub fn append_one_decimal(dst: &mut Vec<u8>, c: i64)
    requires
        -1000000000 <= c <= 1000000000,
    ensures
        final(dst)@ == old(dst)@ + fmt_one_decimal(c as int),
{
    let ghost prior = dst@;
    let mag: i64 = if c < 0 {
        -c
    } else {
        c
    };
    let d: i64 = (mag + 5) / 10;
    if c < 0 {
        dst.push(0x2d);
    }
    let ghost mid = dst@;
    append_u64_dec(dst, (d / 10) as u64);
    dst.push(0x2e);
    dst.push(0x30 + (d % 10) as u8);
    proof {
        assert(d == deci_magnitude(c as int));
        assert(mid + dec_digits((d / 10) as nat) + seq![0x2eu8, (0x30 + d % 10) as u8] =~= ((mid
            + dec_digits((d / 10) as nat)).push(0x2eu8)).push((0x30 + d % 10) as u8));
        if c < 0 {
            assert(mid =~= prior + seq![0x2du8]);
            assert(prior + (seq![0x2du8] + dec_digits((d / 10) as nat) + seq![
                0x2eu8,
                (0x30 + d % 10) as u8,
            ]) =~= mid + dec_digits((d / 10) as nat) + seq![0x2eu8, (0x30 + d % 10) as u8]);
        } else {
            assert(mid == prior);
            assert(prior + (Seq::<u8>::empty() + dec_digits((d / 10) as nat) + seq![
                0x2eu8,
                (0x30 + d % 10) as u8,
            ]) =~= mid + dec_digits((d / 10) as nat) + seq![0x2eu8, (0x30 + d % 10) as u8]);
        }
    }
}

} // verus!
