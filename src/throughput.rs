//! Human-readable throughput strings: bytes, KB or MB per second, two decimals.
use vstd::prelude::*;
use vstd::string::*;
use crate::decimal::{decimal, digit_char, push_decimal, push_digit};

verus! {

pub const KIB: u64 = 1024;

pub const MIB: u64 = 1048576;

/// `num / den` rounded to the nearest integer, ties to the even neighbour.
pub open spec fn round_half_even(num: nat, den: nat) -> nat
    recommends
        den > 0,
{
    let q = num / den;
    let r = num % den;
    if 2 * r > den || (2 * r == den && q % 2 == 1) {
        q + 1
    } else {
        q
    }
}

/// A count of hundredths written with two decimals: `1234` is `12.34`.
pub open spec fn hundredths_text(h: nat) -> Seq<char> {
    decimal(h / 100) + seq!['.', digit_char((h / 10) % 10), digit_char(h % 10)]
}

/// The text of a rate of `num / den` bytes per second. A rate above 1,048,576 is
/// shown in MB/s, one above 1024 in KB/s, any other in B/s; the boundaries
/// themselves use the lower unit.
pub open spec fn speed_text(num: nat, den: nat) -> Seq<char> {
    if num > (MIB as nat) * den {
        hundredths_text(round_half_even(num * 100, den * (MIB as nat))) + seq![' ', 'M', 'B', '/', 's']
    } else if num > (KIB as nat) * den {
        hundredths_text(round_half_even(num * 100, den * (KIB as nat))) + seq![' ', 'K', 'B', '/', 's']
    } else {
        hundredths_text(round_half_even(num * 100, den)) + seq![' ', 'B', '/', 's']
    }
}

/// The text shown for `bytes` transferred in `elapsed_millis` milliseconds.
pub open spec fn throughput_text(bytes: nat, elapsed_millis: nat) -> Seq<char> {
    if elapsed_millis == 0 {
        seq!['0', ' ', 'B', '/', 's']
    } else {
        speed_text(bytes * 1000, elapsed_millis)
    }
}

/// `num / den` rounded half to even.
fn div_round_half_even(num: u128, den: u128) -> (r: u128)
    requires
        den > 0,
        num < u128::MAX / 2,
        den < u128::MAX / 2,
    ensures
        r as nat == round_half_even(num as nat, den as nat),
{
    let q = num / den;
    let rem = num % den;
    proof {
        vstd::arithmetic::div_mod::lemma_div_is_ordered_by_denominator(num as int, 1, den as int);
    }
    if 2 * rem > den || (2 * rem == den && q % 2 == 1) {
        q + 1
    } else {
        q
    }
}

/// Appends `h` hundredths with two decimals.
fn push_hundredths(s: &mut String, h: u128)
    ensures
        final(s)@ == old(s)@ + hundredths_text(h as nat),
{
    push_decimal(s, h / 100);
    proof { reveal_strlit("."); }
    s.append(".");
    push_digit(s, ((h / 10) % 10) as u8);
    push_digit(s, (h % 10) as u8);
    assert(final(s)@ =~= old(s)@ + hundredths_text(h as nat));
}

/// The text of a rate of `num / den` bytes per second.
pub fn rate_string(num: u128, den: u128) -> (r: String)
    requires
        den > 0,
        num <= 1000 * (u64::MAX as u128),
        den <= u64::MAX as u128,
    ensures
        r@ == speed_text(num as nat, den as nat),
{
    let mut s = String::new();
    assert(num * 100 < u128::MAX / 2) by (nonlinear_arith)
        requires
            num <= 1000 * (u64::MAX as u128),
    ;
    assert(den * (MIB as u128) <= (u64::MAX as u128) * (MIB as u128) && den * (KIB as u128) <= (
    u64::MAX as u128) * (MIB as u128)) by (nonlinear_arith)
        requires
            den <= u64::MAX as u128,
    ;
    assert(den * (MIB as u128) > 0 && den * (KIB as u128) > 0) by (nonlinear_arith)
        requires
            den > 0,
    ;
    if num > (MIB as u128) * den {
        let h = div_round_half_even(num * 100, den * (MIB as u128));
        push_hundredths(&mut s, h);
        proof { reveal_strlit(" MB/s"); }
        s.append(" MB/s");
    } else if num > (KIB as u128) * den {
        let h = div_round_half_even(num * 100, den * (KIB as u128));
        push_hundredths(&mut s, h);
        proof { reveal_strlit(" KB/s"); }
        s.append(" KB/s");
    } else {
        let h = div_round_half_even(num * 100, den);
        push_hundredths(&mut s, h);
        proof { reveal_strlit(" B/s"); }
        s.append(" B/s");
    }
    assert(s@ =~= speed_text(num as nat, den as nat));
    s
}

/// The throughput shown for `bytes` received in `elapsed_millis` milliseconds:
/// `"0 B/s"` while no time has passed.
pub fn throughput_string(bytes: u64, elapsed_millis: u64) -> (r: String)
    ensures
        r@ == throughput_text(bytes as nat, elapsed_millis as nat),
{
    if elapsed_millis == 0 {
        proof { reveal_strlit("0 B/s"); }
        let s = String::from_str("0 B/s");
        assert(s@ =~= throughput_text(bytes as nat, elapsed_millis as nat));
        s
    } else {
        rate_string((bytes as u128) * 1000, elapsed_millis as u128)
    }
}

} // verus!
