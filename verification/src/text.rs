//! Decimal rendering of unsigned integers, used by the metrics exposition
//! and by routing reason strings.

use vstd::prelude::*;

verus! {

use crate::strutil::ascii_to_string;

/// The character for a single decimal digit.
pub open spec fn dec_digit(d: int) -> char
    recommends
        0 <= d < 10,
{
    ((48 + d) as u8) as char
}

/// The decimal representation of a number, most significant digit first.
pub open spec fn dec_str(n: nat) -> Seq<char>
    decreases n,
{
    if n < 10 {
        seq![dec_digit(n as int)]
    } else {
        dec_str(n / 10).push(dec_digit((n % 10) as int))
    }
}

/// Render a wide number in decimal.
pub fn u128_to_string(n: u128) -> (r: String)
    ensures
        r@ == dec_str(n as nat),
{
    let mut digits: Vec<u8> = Vec::new();
    let mut m: u128 = n;
    let d0: u8 = 48 + (m % 10) as u8;
    digits.insert(0, d0);
    proof {
        let chars = |i: int, b: u8| b as char;
        assert(digits@.map(chars) =~= seq![d0 as char]);
        assert(dec_digit((n % 10) as int) == d0 as char);
        if n >= 10 {
            assert(dec_str(n as nat) == dec_str((n / 10) as nat).push(dec_digit((n % 10) as int)));
            assert(dec_str((n / 10) as nat).push(d0 as char) =~= dec_str((n / 10) as nat) + seq![
                d0 as char,
            ]);
        } else {
            assert(dec_str(n as nat) =~= seq![d0 as char]);
        }
    }
    m = m / 10;
    while m > 0
        invariant
            forall|i: int| 0 <= i < digits@.len() ==> 48 <= #[trigger] digits@[i] < 58,
            digits@.len() >= 1,
            dec_str(n as nat) == if m > 0 {
                dec_str(m as nat) + digits@.map(|i: int, b: u8| b as char)
            } else {
                digits@.map(|i: int, b: u8| b as char)
            },
        decreases m,
    {
        let ghost prev = digits@;
        let d: u8 = 48 + (m % 10) as u8;
        digits.insert(0, d);
        proof {
            let chars = |i: int, b: u8| b as char;
            assert(digits@.map(chars) =~= seq![d as char] + prev.map(chars));
            assert(dec_digit((m % 10) as int) == d as char);
            if m >= 10 {
                assert(dec_str(m as nat) == dec_str((m / 10) as nat).push(
                    dec_digit((m % 10) as int),
                ));
                assert(dec_str((m / 10) as nat).push(d as char) + prev.map(chars) =~= dec_str(
                    (m / 10) as nat,
                ) + (seq![d as char] + prev.map(chars)));
            } else {
                assert(dec_str(m as nat) =~= seq![d as char]);
                assert(seq![d as char] + prev.map(chars) =~= dec_str(m as nat) + prev.map(chars));
            }
        }
        m = m / 10;
    }
    ascii_to_string(digits)
}

/// Render a number in decimal.
pub fn u64_to_string(n: u64) -> (r: String)
    ensures
        r@ == dec_str(n as nat),
{
    let mut digits: Vec<u8> = Vec::new();
    let mut m: u64 = n;
    let d0: u8 = 48 + (m % 10) as u8;
    digits.insert(0, d0);
    proof {
        let chars = |i: int, b: u8| b as char;
        assert(digits@.map(chars) =~= seq![d0 as char]);
        assert(dec_digit((n % 10) as int) == d0 as char);
        if n >= 10 {
            assert(dec_str(n as nat) == dec_str((n / 10) as nat).push(dec_digit((n % 10) as int)));
            assert(dec_str((n / 10) as nat).push(d0 as char) =~= dec_str((n / 10) as nat) + seq![
                d0 as char,
            ]);
        } else {
            assert(dec_str(n as nat) =~= seq![d0 as char]);
        }
    }
    m = m / 10;
    while m > 0
        invariant
            forall|i: int| 0 <= i < digits@.len() ==> 48 <= #[trigger] digits@[i] < 58,
            digits@.len() >= 1,
            dec_str(n as nat) == if m > 0 {
                dec_str(m as nat) + digits@.map(|i: int, b: u8| b as char)
            } else {
                digits@.map(|i: int, b: u8| b as char)
            },
        decreases m,
    {
        let ghost prev = digits@;
        let d: u8 = 48 + (m % 10) as u8;
        digits.insert(0, d);
        proof {
            let chars = |i: int, b: u8| b as char;
            assert(digits@.map(chars) =~= seq![d as char] + prev.map(chars));
            assert(dec_digit((m % 10) as int) == d as char);
            if m >= 10 {
                assert(dec_str(m as nat) == dec_str((m / 10) as nat).push(
                    dec_digit((m % 10) as int),
                ));
                assert(dec_str((m / 10) as nat).push(d as char) + prev.map(chars) =~= dec_str(
                    (m / 10) as nat,
                ) + (seq![d as char] + prev.map(chars)));
            } else {
                assert(dec_str(m as nat) =~= seq![d as char]);
                assert(seq![d as char] + prev.map(chars) =~= dec_str(m as nat) + prev.map(chars));
            }
        }
        m = m / 10;
    }
    ascii_to_string(digits)
}

} // verus!
