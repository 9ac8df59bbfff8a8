//! Decimal rendering of unsigned integers, for URLs and the admin
//! page.

use vstd::prelude::*;
use crate::digest::hex_digit;

verus! {

/// The decimal rendering of a number, most significant digit first.
pub open spec fn dec_of(n: nat) -> Seq<char>
    decreases n,
{
    if n < 10 {
        seq![hex_digit(n as u8)]
    } else {
        dec_of(n / 10) + seq![hex_digit((n % 10) as u8)]
    }
}

/// The string slice holding one decimal digit.
fn digit_str(d: u64) -> (r: &'static str)
    requires
        d < 10,
    ensures
        r@ == seq![hex_digit(d as u8)],
{
    let r: &'static str = if d == 0 {
        "0"
    } else if d == 1 {
        "1"
    } else if d == 2 {
        "2"
    } else if d == 3 {
        "3"
    } else if d == 4 {
        "4"
    } else if d == 5 {
        "5"
    } else if d == 6 {
        "6"
    } else if d == 7 {
        "7"
    } else if d == 8 {
        "8"
    } else {
        "9"
    };
    proof {
        reveal_strlit("0");
        reveal_strlit("1");
        reveal_strlit("2");
        reveal_strlit("3");
        reveal_strlit("4");
        reveal_strlit("5");
        reveal_strlit("6");
        reveal_strlit("7");
        reveal_strlit("8");
        reveal_strlit("9");
        assert(r@ =~= seq![hex_digit(d as u8)]);
    }
    r
}

/// Render a number in decimal.
#[verifier::loop_isolation(false)]
pub fn u64_to_string(n: u64) -> (r: String)
    ensures
        r@ == dec_of(n as nat),
{
    let mut digits: Vec<u64> = Vec::new();
    let mut m: u64 = n;
    if m == 0 {
        let r = String::from_str(digit_str(0));
        return r;
    }
    while m > 0
        invariant
            dec_of(n as nat) == (if m > 0 {
                dec_of(m as nat) + digits_chars(digits@).reverse()
            } else {
                digits_chars(digits@).reverse()
            }),
            forall|k: int| 0 <= k < digits@.len() ==> #[trigger] digits@[k] < 10,
        decreases m,
    {
        let d = m % 10;
        let ghost chars_pre = digits_chars(digits@);
        digits.push(d);
        proof {
            assert(digits_chars(digits@) =~= chars_pre.push(hex_digit(d as u8)));
            assert(digits_chars(digits@).reverse() =~= seq![hex_digit(d as u8)]
                + chars_pre.reverse());
        }
        m = m / 10;
        proof {
            if m > 0 {
                assert(dec_of((m * 10 + d) as nat) == dec_of(m as nat) + seq![
                    hex_digit(d as u8),
                ]);
                assert(dec_of(n as nat) =~= dec_of(m as nat) + digits_chars(digits@).reverse());
            } else {
                assert(dec_of(d as nat) == seq![hex_digit(d as u8)]);
                assert(dec_of(n as nat) =~= digits_chars(digits@).reverse());
            }
        }
    }
    let mut r = String::new();
    let len = digits.len();
    let mut k: usize = 0;
    while k < len
        invariant
            len == digits@.len(),
            0 <= k <= len,
            r@ == digits_chars(digits@).reverse().take(k as int),
            forall|j: int| 0 <= j < digits@.len() ==> #[trigger] digits@[j] < 10,
        decreases len - k,
    {
        let d = digits[len - 1 - k];
        r.append(digit_str(d));
        proof {
            assert(digits_chars(digits@).reverse()[k as int] == hex_digit(d as u8));
            assert(r@ =~= digits_chars(digits@).reverse().take(k + 1));
        }
        k += 1;
    }
    proof {
        assert(digits_chars(digits@).reverse().take(len as int) =~= digits_chars(
            digits@,
        ).reverse());
    }
    r
}

/// The digit characters for a sequence of digit values.
pub open spec fn digits_chars(ds: Seq<u64>) -> Seq<char> {
    Seq::new(ds.len(), |i: int| hex_digit(ds[i] as u8))
}

} // verus!
