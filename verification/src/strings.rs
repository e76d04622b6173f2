//! Exact decimal rendering of integers, and the fixed-point formatting
//! that the delegation and staking responses carry.

use vstd::prelude::*;
use vstd::string::StringExecFns;
use vstd::string::StringSliceAdditionalSpecFns;

verus! {

/// The digit character of one decimal digit.
pub open spec fn spec_digit(d: nat) -> char {
    if d == 0 {
        '0'
    } else if d == 1 {
        '1'
    } else if d == 2 {
        '2'
    } else if d == 3 {
        '3'
    } else if d == 4 {
        '4'
    } else if d == 5 {
        '5'
    } else if d == 6 {
        '6'
    } else if d == 7 {
        '7'
    } else if d == 8 {
        '8'
    } else {
        '9'
    }
}

/// The decimal rendering of a natural number, without leading zeros.
pub open spec fn spec_dec_str(n: nat) -> Seq<char>
    decreases n,
{
    if n < 10 {
        seq![spec_digit(n)]
    } else {
        spec_dec_str(n / 10).push(spec_digit(n % 10))
    }
}

/// One digit as a string slice.
fn digit_str(d: u8) -> (r: &'static str)
    requires
        d < 10,
    ensures
        r@ =~= seq![spec_digit(d as nat)],
{
    proof {
        reveal_strlit("0");
        reveal_strlit("1");
        reveal_strlit("2");
        reveal_strlit("3");
        reveal_strlit("4");
        reveal_strlit("5");
        reveal_strlit("6");
        reveal_strlit("7");
        reveal_strlit("8");
        reveal_strlit("9");
    }
    if d == 0 {
        "0"
    } else if d == 1 {
        "1"
    } else if d == 2 {
        "2"
    } else if d == 3 {
        "3"
    } else if d == 4 {
        "4"
    } else if d == 5 {
        "5"
    } else if d == 6 {
        "6"
    } else if d == 7 {
        "7"
    } else if d == 8 {
        "8"
    } else {
        "9"
    }
}

/// Renders a number in decimal.
pub fn u128_to_decimal(n: u128) -> (r: String)
    ensures
        r@ == spec_dec_str(n as nat),
    decreases n,
{
    if n < 10 {
        let s = digit_str(n as u8).to_owned();
        proof {
            assert(s@ =~= spec_dec_str(n as nat));
        }
        s
    } else {
        let mut s = u128_to_decimal(n / 10);
        s.append(digit_str((n % 10) as u8));
        proof {
            assert(s@ =~= spec_dec_str(n as nat));
        }
        s
    }
}

/// Converts an integer amount to a fixed-point decimal string with
/// eighteen zero decimal places, after dividing by `divisor`.
pub fn format_u128_to_decimal_18(amount: u128, divisor: u128) -> (r: String)
    requires
        divisor > 0,
    ensures
        r@ == spec_dec_str((amount / divisor) as nat) + ".000000000000000000"@,
{
    let whole = u128_to_decimal(amount / divisor);
    whole.concat(".000000000000000000")
}

/// The decimal value of a digit run; meaningful when every byte is an
/// ASCII digit.
pub open spec fn spec_dec_val(s: Seq<u8>) -> nat
    decreases s.len(),
{
    if s.len() == 0 {
        0
    } else {
        (spec_dec_val(s.drop_last()) * 10 + (s.last() - 0x30)) as nat
    }
}

/// Whether a byte run is one or more ASCII digits.
pub open spec fn spec_all_digits(s: Seq<u8>) -> bool {
    s.len() > 0 && forall|i: int| 0 <= i < s.len() ==> 0x30 <= #[trigger] s[i] <= 0x39
}

/// Parses a plain run of decimal digits, refusing anything else and any
/// value past the 128-bit range.
pub fn parse_u128_decimal(s: &str) -> (r: Option<u128>)
    ensures
        r matches Some(v) ==> spec_all_digits(s.spec_bytes()) && v == spec_dec_val(
            s.spec_bytes(),
        ),
        r is None ==> !spec_all_digits(s.spec_bytes()) || spec_dec_val(s.spec_bytes())
            > u128::MAX,
{
    let bytes = s.as_bytes();
    if bytes.len() == 0 {
        return None;
    }
    let mut acc: u128 = 0;
    let mut i: usize = 0;
    while i < bytes.len()
        invariant
            0 <= i <= bytes@.len(),
            bytes@ == s.spec_bytes(),
            bytes@.len() > 0,
            acc == spec_dec_val(bytes@.take(i as int)),
            forall|j: int| 0 <= j < i ==> 0x30 <= #[trigger] bytes@[j] <= 0x39,
            spec_dec_val(bytes@.take(i as int)) <= u128::MAX,
        decreases bytes@.len() - i,
    {
        let b = bytes[i];
        if b < 0x30 || b > 0x39 {
            return None;
        }
        let d: u128 = (b - 0x30) as u128;
        let next = match acc.checked_mul(10) {
            Some(m) => m.checked_add(d),
            None => None,
        };
        proof {
            let pre = bytes@.take(i as int);
            let post = bytes@.take(i + 1);
            assert(post.drop_last() =~= pre);
            assert(post.last() == b);
        }
        match next {
            Some(v) => {
                acc = v;
            },
            None => {
                proof {
                    if spec_all_digits(bytes@) {
                        lemma_dec_val_grows(bytes@, i + 1, bytes@.len() as int);
                        assert(bytes@.take(bytes@.len() as int) =~= bytes@);
                        assert(spec_dec_val(bytes@.take(i + 1)) == acc * 10 + d);
                    }
                }
                return None;
            },
        }
        i += 1;
    }
    proof {
        assert(bytes@.take(bytes@.len() as int) =~= bytes@);
    }
    Some(acc)
}

/// A longer digit run never reads smaller.
proof fn lemma_dec_val_grows(s: Seq<u8>, i: int, j: int)
    requires
        0 <= i <= j <= s.len(),
        forall|k: int| 0 <= k < s.len() ==> 0x30 <= #[trigger] s[k] <= 0x39,
    ensures
        spec_dec_val(s.take(j)) >= spec_dec_val(s.take(i)),
    decreases j - i,
{
    if i < j {
        lemma_dec_val_grows(s, i, j - 1);
        assert(s.take(j).drop_last() =~= s.take(j - 1));
        assert(s.take(j).last() == s[j - 1]);
        assert(spec_dec_val(s.take(j - 1)) * 10 >= spec_dec_val(s.take(j - 1)))
            by (nonlinear_arith)
            requires
                spec_dec_val(s.take(j - 1)) >= 0,
        ;
    }
}

/// The eighteen fraction digits of a value below 10^18, most significant
/// first.
pub open spec fn spec_frac18(n: nat) -> Seq<char> {
    Seq::new(18, |i: int| spec_digit((n / spec_pow10((17 - i) as nat)) % 10))
}

/// The amount string with eighteen decimal places: the value read as an
/// integer count of 10^-18 units.  Inputs that do not parse render as
/// zero.
pub fn format_decimal_18(input: &str) -> (r: String)
    ensures
        ({
            let parsed = parse_ok_value(input.spec_bytes());
            r@ == (if parsed is Some {
                spec_dec_str((parsed->0 / 1000000000000000000) as nat) + "."@ + spec_frac18(
                    (parsed->0 % 1000000000000000000) as nat,
                )
            } else {
                "0.000000000000000000"@
            })
        }),
{
    match parse_u128_decimal(input) {
        Some(val) => {
            let whole = u128_to_decimal(val / 1000000000000000000);
            let frac: u128 = val % 1000000000000000000;
            let mut s = whole.concat(".");
            let ghost head = s@;
            let mut div: u128 = 100000000000000000;
            let mut k: usize = 0;
            proof {
                lemma_pow10_17();
                assert(s@ =~= head + Seq::new(0nat, |i: int| spec_digit(
                    ((frac as nat) / spec_pow10((17 - i) as nat)) % 10,
                )));
            }
            while k < 18
                invariant
                    0 <= k <= 18,
                    frac < 1000000000000000000,
                    k < 18 ==> div == spec_pow10((17 - k) as nat),
                    k < 18 ==> div >= 1,
                    s@ == head + Seq::new(k as nat, |i: int| spec_digit(
                        ((frac as nat) / spec_pow10((17 - i) as nat)) % 10,
                    )),
                decreases 18 - k,
            {
                let d: u128 = (frac / div) % 10;
                s.append(digit_str(d as u8));
                proof {
                    assert(Seq::new((k + 1) as nat, |i: int| spec_digit(
                        ((frac as nat) / spec_pow10((17 - i) as nat)) % 10,
                    )) =~= Seq::new(k as nat, |i: int| spec_digit(
                        ((frac as nat) / spec_pow10((17 - i) as nat)) % 10,
                    )).push(spec_digit(((frac as nat) / spec_pow10((17 - k) as nat)) % 10)));
                    assert(s@ =~= head + Seq::new((k + 1) as nat, |i: int| spec_digit(
                        ((frac as nat) / spec_pow10((17 - i) as nat)) % 10,
                    )));
                }
                if k < 17 {
                    proof {
                        assert(spec_pow10((17 - k) as nat) == 10 * spec_pow10((16 - k) as nat));
                        vstd::arithmetic::div_mod::lemma_div_denominator(
                            div as int,
                            10,
                            spec_pow10((16 - k) as nat) as int,
                        );
                        lemma_pow10_pos((16 - k) as nat);
                        assert(div / 10 == spec_pow10((16 - k) as nat)) by (nonlinear_arith)
                            requires
                                div == 10 * spec_pow10((16 - k) as nat),
                                spec_pow10((16 - k) as nat) >= 1,
                        ;
                    }
                    div = div / 10;
                }
                k += 1;
            }
            proof {
                assert(s@ =~= spec_dec_str((val / 1000000000000000000) as nat) + "."@
                    + spec_frac18((val % 1000000000000000000) as nat));
            }
            s
        },
        None => {
            let r = String::from_str("0.000000000000000000");
            proof {
                assert(parse_ok_value(input.spec_bytes()) is None);
            }
            r
        },
    }
}

/// Ten raised to `n`.
pub open spec fn spec_pow10(n: nat) -> nat
    decreases n,
{
    if n == 0 {
        1
    } else {
        10 * spec_pow10((n - 1) as nat)
    }
}

/// The literal value of ten to the seventeenth, and that every smaller
/// power is at least one.
pub proof fn lemma_pow10_17()
    ensures
        spec_pow10(17) == 100000000000000000,
        forall|n: nat| n <= 17 ==> #[trigger] spec_pow10(n) >= 1,
{
    reveal_with_fuel(spec_pow10, 19);
    assert forall|n: nat| n <= 17 implies #[trigger] spec_pow10(n) >= 1 by {
        lemma_pow10_pos(n);
    }
}

pub proof fn lemma_pow10_pos(n: nat)
    ensures
        spec_pow10(n) >= 1,
    decreases n,
{
    if n > 0 {
        lemma_pow10_pos((n - 1) as nat);
    }
}

/// The parsed value of a digit run, when it is one and fits.
pub open spec fn parse_ok_value(s: Seq<u8>) -> Option<u128> {
    if spec_all_digits(s) && spec_dec_val(s) <= u128::MAX {
        Some(spec_dec_val(s) as u128)
    } else {
        None
    }
}

} // verus!
