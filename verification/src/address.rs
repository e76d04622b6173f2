//! 20-byte account, token and contract identifiers.

use vstd::prelude::*;
use vstd::string::StringSliceAdditionalSpecFns;

verus! {

/// A 20-byte address, split into the leading 4 bytes and trailing 16 bytes.
///
/// Ordering a pool's pair as `base < quote` compares addresses as the
/// big-endian reading of their bytes, which is the same as the lexicographic
/// byte order.
#[derive(Clone, Copy, Debug, PartialEq, Eq, Structural, Hash)]
pub struct Address {
    pub hi: u32,
    pub lo: u128,
}

/// The all-zero address.
pub open spec fn address_zero() -> Address {
    Address { hi: 0, lo: 0 }
}

impl Address {
    /// The big-endian reading of the 20 bytes.
    pub open spec fn as_nat(self) -> nat {
        (self.hi * 0x100000000000000000000000000000000 + self.lo) as nat
    }

    pub fn zero() -> (r: Address)
        ensures
            r.as_nat() == 0,
            r == address_zero(),
    {
        Address { hi: 0, lo: 0 }
    }

    /// Lexicographic byte comparison; true when `self < other`.
    pub fn lt(&self, other: &Address) -> (r: bool)
        ensures
            r == (self.as_nat() < other.as_nat()),
    {
        if self.hi != other.hi {
            self.hi < other.hi
        } else {
            self.lo < other.lo
        }
    }

    /// Whether a byte string is a well-formed `0x`-prefixed, forty-digit
    /// hexadecimal address.
    pub open spec fn spec_hex_ok(s: Seq<u8>) -> bool {
        &&& s.len() == 42
        &&& s[0] == 0x30
        &&& (s[1] == 0x78 || s[1] == 0x58)
        &&& forall|i: int| 2 <= i < 42 ==> is_hex_digit(#[trigger] s[i])
    }

    /// Parses `0x`-prefixed hexadecimal, forty digits after the prefix.
    pub fn from_hex(s: &str) -> (r: Option<Address>)
        ensures
            Self::spec_hex_ok(s.spec_bytes()) <==> r is Some,
            r matches Some(a) ==> a.as_nat() == hex_val(s.spec_bytes().subrange(2, 42)),
    {
        let bytes = s.as_bytes();
        if bytes.len() != 42 {
            return None;
        }
        if bytes[0] != 0x30 || (bytes[1] != 0x78 && bytes[1] != 0x58) {
            return None;
        }
        proof {
            lemma_pow16_values();
        }
        let mut acc_hi: u32 = 0;
        let mut acc_lo: u128 = 0;
        let mut i: usize = 2;
        while i < 10
            invariant
                2 <= i <= 10,
                bytes@ == s.spec_bytes(),
                bytes@.len() == 42,
                forall|j: int| 2 <= j < i ==> is_hex_digit(#[trigger] bytes@[j]),
                acc_hi == hex_val(bytes@.subrange(2, i as int)),
                pow16(8) == 0x100000000 && pow16(32) == 0x100000000000000000000000000000000,
            decreases 10 - i,
        {
            proof {
                lemma_hex_val_bound(bytes@.subrange(2, i as int));
                lemma_pow16_mono((i - 2) as nat, 7);
                assert(acc_hi * 16 + 15 < 0x100000000) by (nonlinear_arith)
                    requires
                        acc_hi < pow16(7),
                        pow16(7) * 16 == pow16(8),
                        pow16(8) == 0x100000000,
                ;
            }
            let d = hex_digit(bytes[i]);
            match d {
                Some(v) => {
                    acc_hi = acc_hi * 16 + v as u32;
                },
                None => {
                    return None;
                },
            }
            proof {
                let pre = bytes@.subrange(2, i as int);
                let post = bytes@.subrange(2, i + 1);
                assert(post.drop_last() =~= pre);
            }
            i += 1;
        }
        while i < 42
            invariant
                10 <= i <= 42,
                bytes@ == s.spec_bytes(),
                bytes@.len() == 42,
                forall|j: int| 2 <= j < i ==> is_hex_digit(#[trigger] bytes@[j]),
                acc_hi == hex_val(bytes@.subrange(2, 10)),
                acc_lo == hex_val(bytes@.subrange(10, i as int)),
                pow16(8) == 0x100000000 && pow16(32) == 0x100000000000000000000000000000000,
            decreases 42 - i,
        {
            proof {
                lemma_hex_val_bound(bytes@.subrange(10, i as int));
                lemma_pow16_mono((i - 10) as nat, 31);
                assert(acc_lo * 16 + 15 < 0x100000000000000000000000000000000)
                    by (nonlinear_arith)
                    requires
                        acc_lo < pow16(31),
                        pow16(31) * 16 == pow16(32),
                        pow16(32) == 0x100000000000000000000000000000000,
                ;
            }
            let d = hex_digit(bytes[i]);
            match d {
                Some(v) => {
                    acc_lo = acc_lo * 16 + v as u128;
                },
                None => {
                    return None;
                },
            }
            proof {
                let pre = bytes@.subrange(10, i as int);
                let post = bytes@.subrange(10, i + 1);
                assert(post.drop_last() =~= pre);
            }
            i += 1;
        }
        proof {
            let whole = bytes@.subrange(2, 42);
            let top = bytes@.subrange(2, 10);
            let rest = bytes@.subrange(10, 42);
            assert(whole =~= top + rest);
            lemma_hex_val_append(top, rest);
            assert(pow16(rest.len() as nat) == pow16(32));
        }
        Some(Address { hi: acc_hi, lo: acc_lo })
    }
}

impl Default for Address {
    /// The all-zero address, which stands for the native token.
    fn default() -> (r: Address)
        ensures
            r.as_nat() == 0,
            r == address_zero(),
    {
        Address { hi: 0, lo: 0 }
    }
}

/// 16 raised to `n`.
pub open spec fn pow16(n: nat) -> nat
    decreases n,
{
    if n == 0 {
        1
    } else {
        16 * pow16((n - 1) as nat)
    }
}

pub proof fn lemma_pow16_values()
    ensures
        pow16(7) * 16 == pow16(8),
        pow16(31) * 16 == pow16(32),
        pow16(8) == 0x100000000,
        pow16(32) == 0x100000000000000000000000000000000,
{
    reveal_with_fuel(pow16, 33);
}

pub proof fn lemma_pow16_mono(a: nat, b: nat)
    requires
        a <= b,
    ensures
        pow16(a) <= pow16(b),
        pow16(a) >= 1,
    decreases b,
{
    if b > 0 && a < b {
        lemma_pow16_mono(a, (b - 1) as nat);
    } else if b > 0 {
        lemma_pow16_mono((a - 1) as nat, (b - 1) as nat);
    }
}

/// The `Address` whose big-endian reading is `n`, for `n < 2^160`.
pub open spec fn spec_address_of(n: nat) -> Address {
    let m: nat = 0x10000000000000000 * 0x10000000000000000;
    Address { hi: (n / m) as u32, lo: (n % m) as u128 }
}

/// The 20-byte reading determines the two fields.
pub proof fn lemma_address_of_as_nat(a: Address)
    ensures
        spec_address_of(a.as_nat()) == a,
{
    let n: int = a.as_nat() as int;
    let m: int = (0x10000000000000000 * 0x10000000000000000) as int;
    assert(n == a.hi * m + a.lo);
    vstd::arithmetic::div_mod::lemma_fundamental_div_mod_converse(n, m, a.hi as int, a.lo as int);
}

/// Whether a byte is an ASCII hexadecimal digit.
pub open spec fn is_hex_digit(c: u8) -> bool {
    (0x30 <= c <= 0x39) || (0x61 <= c <= 0x66) || (0x41 <= c <= 0x46)
}

/// The value of an ASCII hexadecimal digit.
pub open spec fn spec_hex_digit(c: u8) -> nat {
    if 0x30 <= c <= 0x39 {
        (c - 0x30) as nat
    } else if 0x61 <= c <= 0x66 {
        (c - 0x61 + 10) as nat
    } else if 0x41 <= c <= 0x46 {
        (c - 0x41 + 10) as nat
    } else {
        0
    }
}

/// The big-endian base-16 reading of a run of hexadecimal digits.
pub open spec fn hex_val(s: Seq<u8>) -> nat
    decreases s.len(),
{
    if s.len() == 0 {
        0
    } else {
        (hex_val(s.drop_last()) * 16 + spec_hex_digit(s.last())) as nat
    }
}

pub proof fn lemma_hex_val_bound(s: Seq<u8>)
    ensures
        hex_val(s) < pow16(s.len()),
    decreases s.len(),
{
    if s.len() > 0 {
        lemma_hex_val_bound(s.drop_last());
        assert(hex_val(s.drop_last()) * 16 <= (pow16((s.len() - 1) as nat) - 1) * 16)
            by (nonlinear_arith)
            requires
                hex_val(s.drop_last()) <= pow16((s.len() - 1) as nat) - 1,
        ;
    }
}

pub proof fn lemma_hex_val_append(a: Seq<u8>, b: Seq<u8>)
    ensures
        hex_val(a + b) == hex_val(a) * pow16(b.len()) + hex_val(b),
    decreases b.len(),
{
    if b.len() == 0 {
        assert(a + b =~= a);
        assert(pow16(b.len()) == 1);
        assert(hex_val(b) == 0);
        assert(hex_val(a) * pow16(b.len()) == hex_val(a)) by (nonlinear_arith)
            requires
                pow16(b.len()) == 1,
        ;
    } else {
        lemma_hex_val_append(a, b.drop_last());
        assert((a + b).drop_last() =~= a + b.drop_last());
        assert((a + b).last() == b.last());
        assert(hex_val(a + b) == hex_val(a + b.drop_last()) * 16 + spec_hex_digit(b.last()));
        assert(hex_val(a + b) == hex_val(a) * pow16(b.len()) + hex_val(b)) by (nonlinear_arith)
            requires
                hex_val(a + b) == (hex_val(a) * pow16((b.len() - 1) as nat) + hex_val(
                    b.drop_last(),
                )) * 16 + spec_hex_digit(b.last()),
                hex_val(b) == hex_val(b.drop_last()) * 16 + spec_hex_digit(b.last()),
                pow16(b.len()) == 16 * pow16((b.len() - 1) as nat),
        ;
    }
}

/// The value of one ASCII hexadecimal digit.
pub fn hex_digit(c: u8) -> (r: Option<u8>)
    ensures
        is_hex_digit(c) ==> r == Some(spec_hex_digit(c) as u8),
        !is_hex_digit(c) ==> r is None,
        r matches Some(v) ==> v < 16,
{
    if c >= 0x30 && c <= 0x39 {
        Some(c - 0x30)
    } else if c >= 0x61 && c <= 0x66 {
        Some(c - 0x61 + 10)
    } else if c >= 0x41 && c <= 0x46 {
        Some(c - 0x41 + 10)
    } else {
        None
    }
}

} // verus!
