//! Decoding and encoding of 32-byte-slot packed event payloads.
//!
//! Every value is big-endian and right-aligned within its slot.  The spec
//! functions `be_val` and `pow256` give the mathematical reading of a byte
//! run; every parser is proved to return exactly that reading.

use vstd::prelude::*;
use crate::address::Address;
use crate::u256::U256;

verus! {

/// 256 raised to `n`.
pub open spec fn pow256(n: nat) -> nat
    decreases n,
{
    if n == 0 {
        1
    } else {
        256 * pow256((n - 1) as nat)
    }
}

/// The big-endian reading of a byte run: the first byte is most significant.
pub open spec fn be_val(s: Seq<u8>) -> nat
    decreases s.len(),
{
    if s.len() == 0 {
        0
    } else {
        (be_val(s.drop_last()) * 256 + s.last()) as nat
    }
}

/// The value of a byte run where index `i` carries weight `256^i`.
pub open spec fn le_val(s: Seq<u8>) -> nat
    decreases s.len(),
{
    if s.len() == 0 {
        0
    } else {
        (le_val(s.drop_last()) + s.last() * pow256((s.len() - 1) as nat)) as nat
    }
}

/// The two's-complement reading of an unsigned value of `bits` bits.
pub open spec fn twos_complement(v: nat, bits: nat) -> int {
    if v >= pow256(bits / 8) / 2 {
        v - pow256(bits / 8)
    } else {
        v as int
    }
}

pub proof fn lemma_pow256_mono(a: nat, b: nat)
    requires
        a <= b,
    ensures
        pow256(a) <= pow256(b),
        pow256(a) >= 1,
    decreases b,
{
    if b > 0 && a < b {
        lemma_pow256_mono(a, (b - 1) as nat);
    } else if b > 0 {
        lemma_pow256_mono((a - 1) as nat, (b - 1) as nat);
    }
}

pub proof fn lemma_pow256_add(a: nat, b: nat)
    ensures
        pow256(a + b) == pow256(a) * pow256(b),
    decreases b,
{
    if b == 0 {
        assert(pow256(a + 0) == pow256(a) * 1);
    } else {
        lemma_pow256_add(a, (b - 1) as nat);
        assert(pow256(a + b) == 256 * pow256((a + b - 1) as nat));
        assert(pow256(a) * (256 * pow256((b - 1) as nat)) == 256 * (pow256(a) * pow256(
            (b - 1) as nat,
        ))) by (nonlinear_arith);
    }
}

/// Handy literal values of `pow256`.
pub proof fn lemma_pow256_values()
    ensures
        pow256(1) == 0x100,
        pow256(4) == 0x100000000,
        pow256(8) == 0x10000000000000000,
        pow256(16) == 0x100000000000000000000000000000000,
        pow256(20) == 0x10000000000000000000000000000000000000000,
        pow256(32) == 0x10000000000000000000000000000000000000000000000000000000000000000,
{
    reveal_with_fuel(pow256, 33);
}

/// A big-endian reading is bounded by `256^len`.
pub proof fn lemma_be_val_bound(s: Seq<u8>)
    ensures
        be_val(s) < pow256(s.len()),
    decreases s.len(),
{
    if s.len() == 0 {
    } else {
        lemma_be_val_bound(s.drop_last());
        assert(be_val(s.drop_last()) * 256 <= (pow256((s.len() - 1) as nat) - 1) * 256)
            by (nonlinear_arith)
            requires
                be_val(s.drop_last()) <= pow256((s.len() - 1) as nat) - 1,
        ;
    }
}

/// Splitting a big-endian run: the left part carries weight `256^len(right)`.
pub proof fn lemma_be_val_append(a: Seq<u8>, b: Seq<u8>)
    ensures
        be_val(a + b) == be_val(a) * pow256(b.len()) + be_val(b),
    decreases b.len(),
{
    if b.len() == 0 {
        assert(a + b =~= a);
        assert(pow256(b.len()) == 1);
        assert(be_val(b) == 0);
        assert(be_val(a) * pow256(b.len()) == be_val(a)) by (nonlinear_arith)
            requires
                pow256(b.len()) == 1,
        ;
    } else {
        lemma_be_val_append(a, b.drop_last());
        assert((a + b).drop_last() =~= a + b.drop_last());
        assert((a + b).last() == b.last());
        assert(be_val(a + b) == be_val(a + b.drop_last()) * 256 + b.last());
        assert(be_val(a + b) == be_val(a) * pow256(b.len()) + be_val(b)) by (nonlinear_arith)
            requires
                be_val(a + b) == (be_val(a) * pow256((b.len() - 1) as nat) + be_val(
                    b.drop_last(),
                )) * 256 + b.last(),
                be_val(b) == be_val(b.drop_last()) * 256 + b.last(),
                pow256(b.len()) == 256 * pow256((b.len() - 1) as nat),
        ;
    }
}

/// A run of zero bytes reads as zero.
pub proof fn lemma_be_val_zeros(s: Seq<u8>)
    requires
        forall|i: int| 0 <= i < s.len() ==> s[i] == 0,
    ensures
        be_val(s) == 0,
    decreases s.len(),
{
    if s.len() > 0 {
        lemma_be_val_zeros(s.drop_last());
    }
}

/// Reads `width` big-endian bytes at `start` into an integer.
pub fn read_be_u128(input: &[u8], start: usize, width: usize) -> (r: u128)
    requires
        width <= 16,
        start + width <= input@.len(),
    ensures
        r == be_val(input@.subrange(start as int, start + width)),
{
    let n: usize = input.len();
    let mut acc: u128 = 0;
    let mut i: usize = 0;
    while i < width
        invariant
            i <= width,
            width <= 16,
            start + width <= n == input@.len(),
            acc == be_val(input@.subrange(start as int, start + i)),
            acc < pow256(i as nat),
        decreases width - i,
    {
        proof {
            lemma_pow256_mono(i as nat + 1, 16);
            lemma_pow256_values();
            assert(acc * 256 + 255 < pow256(i as nat + 1)) by (nonlinear_arith)
                requires
                    acc < pow256(i as nat),
                    pow256(i as nat + 1) == 256 * pow256(i as nat),
            ;
        }
        let b: u8 = input[start + i];
        acc = acc * 256 + b as u128;
        proof {
            let pre = input@.subrange(start as int, start + i);
            let post = input@.subrange(start as int, start + i + 1);
            assert(post.drop_last() =~= pre);
            assert(post.last() == b);
        }
        i += 1;
    }
    acc
}

/// Parses a bool: the last byte of the slot, zero or not.
pub fn parse_bool(input: &[u8], start: usize) -> (r: bool)
    requires
        start + 32 <= input@.len(),
    ensures
        r == (input@[start + 31] != 0),
{
    let n: usize = input.len();
    proof {
        assert(start + 31 < n);
    }
    input[start + 31] != 0u8
}

/// Parses a `u64` from the last 8 bytes of the slot at `start`.
pub fn parse_u64(input: &[u8], start: usize) -> (r: u64)
    requires
        start + 32 <= input@.len(),
    ensures
        r == be_val(input@.subrange(start + 24, start + 32)),
{
    let n: usize = input.len();
    proof {
        assert(start + 32 <= n);
        lemma_pow256_values();
        lemma_pow256_mono(8, 8);
        lemma_be_val_bound(input@.subrange(start + 24, start + 32));
    }
    let v: u128 = read_be_u128(input, start + 24, 8);
    v as u64
}

/// Parses a `u32` from the last 4 bytes of the slot at `start`.
pub fn parse_u32(input: &[u8], start: usize) -> (r: u32)
    requires
        start + 32 <= input@.len(),
    ensures
        r == be_val(input@.subrange(start + 28, start + 32)),
{
    let n: usize = input.len();
    proof {
        assert(start + 32 <= n);
        lemma_pow256_values();
        lemma_be_val_bound(input@.subrange(start + 28, start + 32));
    }
    let v: u128 = read_be_u128(input, start + 28, 4);
    v as u32
}

/// Parses a `u16` from the last 2 bytes of the slot at `start`.
pub fn parse_u16(input: &[u8], start: usize) -> (r: u16)
    requires
        start + 32 <= input@.len(),
    ensures
        r == be_val(input@.subrange(start + 30, start + 32)),
{
    let n: usize = input.len();
    proof {
        assert(start + 32 <= n);
        reveal_with_fuel(pow256, 3);
        lemma_be_val_bound(input@.subrange(start + 30, start + 32));
    }
    let v: u128 = read_be_u128(input, start + 30, 2);
    v as u16
}

/// Parses a `u8` from the last byte of the slot at `start`.
pub fn parse_u8(input: &[u8], start: usize) -> (r: u8)
    requires
        start + 32 <= input@.len(),
    ensures
        r == be_val(input@.subrange(start + 31, start + 32)),
{
    let n: usize = input.len();
    proof {
        assert(start + 32 <= n);
        reveal_with_fuel(pow256, 2);
        lemma_be_val_bound(input@.subrange(start + 31, start + 32));
    }
    let v: u128 = read_be_u128(input, start + 31, 1);
    v as u8
}

/// Parses a `u128` from the last 16 bytes of the slot at `start`.
pub fn parse_u128(input: &[u8], start: usize) -> (r: u128)
    requires
        start + 32 <= input@.len(),
    ensures
        r == be_val(input@.subrange(start + 16, start + 32)),
{
    let n: usize = input.len();
    proof {
        assert(start + 32 <= n);
    }
    read_be_u128(input, start + 16, 16)
}

/// Parses an `i32` from the last 4 bytes of the slot, two's complement.
pub fn parse_i32(input: &[u8], start: usize) -> (r: i32)
    requires
        start + 32 <= input@.len(),
    ensures
        r == twos_complement(be_val(input@.subrange(start + 28, start + 32)), 32),
{
    proof {
        lemma_pow256_values();
    }
    let u: u32 = parse_u32(input, start);
    if u < 0x80000000 {
        u as i32
    } else {
        let mag: u32 = (0xffffffff - u) + 1;
        -((mag - 1) as i32) - 1
    }
}

/// Parses an `i128` from the last 16 bytes of the slot, two's complement.
pub fn parse_i128(input: &[u8], start: usize) -> (r: i128)
    requires
        start + 32 <= input@.len(),
    ensures
        r == twos_complement(be_val(input@.subrange(start + 16, start + 32)), 128),
{
    proof {
        lemma_pow256_values();
        lemma_be_val_bound(input@.subrange(start + 16, start + 32));
    }
    let u: u128 = parse_u128(input, start);
    if u < 0x80000000000000000000000000000000 {
        u as i128
    } else {
        let mag: u128 = (0xffffffffffffffffffffffffffffffff - u) + 1;
        -((mag - 1) as i128) - 1
    }
}

/// Parses a `U256` from the full 32-byte slot at `start`.
pub fn parse_uint256(input: &[u8], start: usize) -> (r: U256)
    requires
        start + 32 <= input@.len(),
    ensures
        r.as_nat() == be_val(input@.subrange(start as int, start + 32)),
{
    let n: usize = input.len();
    proof {
        assert(start + 32 <= n);
        lemma_pow256_values();
    }
    let w3: u128 = read_be_u128(input, start, 8);
    let w2: u128 = read_be_u128(input, start + 8, 8);
    let w1: u128 = read_be_u128(input, start + 16, 8);
    let w0: u128 = read_be_u128(input, start + 24, 8);
    proof {
        let s = input@.subrange(start as int, start + 32);
        let s3 = input@.subrange(start as int, start + 8);
        let s2 = input@.subrange(start + 8, start + 16);
        let s1 = input@.subrange(start + 16, start + 24);
        let s0 = input@.subrange(start + 24, start + 32);
        lemma_be_val_bound(s3);
        lemma_be_val_bound(s2);
        lemma_be_val_bound(s1);
        lemma_be_val_bound(s0);
        assert(s =~= ((s3 + s2) + s1) + s0);
        lemma_be_val_append(s3, s2);
        lemma_be_val_append(s3 + s2, s1);
        lemma_be_val_append((s3 + s2) + s1, s0);
        let e64: int = 0x10000000000000000;
        assert(be_val(s) == ((be_val(s3) * e64 + be_val(s2)) * e64 + be_val(s1)) * e64 + be_val(
            s0,
        ));
        assert(((w3 * e64 + w2) * e64 + w1) * e64 + w0 == w0 + w1 * e64 + w2 * (e64 * e64) + w3 * (
        e64 * e64 * e64)) by (nonlinear_arith);
    }
    U256 { l0: w0 as u64, l1: w1 as u64, l2: w2 as u64, l3: w3 as u64 }
}

/// Appends `count` zero bytes.
pub fn push_zeros(out: &mut Vec<u8>, count: usize)
    requires
        old(out)@.len() + count <= usize::MAX,
    ensures
        final(out)@.len() == old(out)@.len() + count,
        final(out)@.subrange(0, old(out)@.len() as int) == old(out)@,
        forall|j: int| old(out)@.len() <= j < final(out)@.len() ==> final(out)@[j] == 0,
{
    let mut i: usize = 0;
    while i < count
        invariant
            i <= count,
            old(out)@.len() + count <= usize::MAX,
            out@.len() == old(out)@.len() + i,
            out@.subrange(0, old(out)@.len() as int) == old(out)@,
            forall|j: int| old(out)@.len() <= j < out@.len() ==> out@[j] == 0,
        decreases count - i,
    {
        out.push(0);
        proof {
            assert(out@.subrange(0, old(out)@.len() as int) =~= old(out)@);
        }
        i += 1;
    }
}

/// Appends the `width`-byte big-endian run of `v`.
pub fn push_be(out: &mut Vec<u8>, v: u128, width: usize)
    requires
        width <= 16,
        (v as nat) < pow256(width as nat),
        old(out)@.len() + width <= usize::MAX,
    ensures
        final(out)@.len() == old(out)@.len() + width,
        final(out)@.subrange(0, old(out)@.len() as int) == old(out)@,
        be_val(final(out)@.subrange(old(out)@.len() as int, final(out)@.len() as int)) == v,
{
    let ghost base = out@.len() as int;
    proof {
        vstd::arithmetic::div_mod::lemma_div_basics(v as int);
        assert(pow256(0) == 1);
    }
    // little-endian digits first
    let mut tmp: Vec<u8> = Vec::new();
    let mut acc: u128 = v;
    let mut i: usize = 0;
    while i < width
        invariant
            i <= width <= 16,
            tmp@.len() == i,
            acc == (v as nat) / pow256(i as nat),
            forall|j: int|
                0 <= j < i ==> tmp@[j] == ((v as nat) / pow256(j as nat)) % 256,
        decreases width - i,
    {
        let b: u8 = (acc % 256) as u8;
        tmp.push(b);
        proof {
            lemma_pow256_mono(i as nat, i as nat + 1);
            vstd::arithmetic::div_mod::lemma_div_denominator(
                v as int,
                pow256(i as nat) as int,
                256,
            );
            assert(pow256(i as nat + 1) == 256 * pow256(i as nat));
            assert(pow256(i as nat) * 256 == 256 * pow256(i as nat)) by (nonlinear_arith);
        }
        acc = acc / 256;
        i += 1;
    }
    proof {
        assert(acc == 0) by (nonlinear_arith)
            requires
                acc == (v as nat) / pow256(width as nat),
                (v as nat) < pow256(width as nat),
                pow256(width as nat) >= 1,
        ;
    }
    // emit most significant first
    let mut k: usize = 0;
    while k < width
        invariant
            k <= width <= 16,
            tmp@.len() == width,
            forall|j: int|
                0 <= j < width ==> tmp@[j] == ((v as nat) / pow256(j as nat)) % 256,
            (v as nat) < pow256(width as nat),
            out@.len() == base + k,
            base == old(out)@.len(),
            base + width <= usize::MAX,
            out@.subrange(0, base) == old(out)@,
            be_val(out@.subrange(base, base + k)) == (v as nat) / pow256((width - k) as nat),
        decreases width - k,
    {
        let b: u8 = tmp[width - 1 - k];
        let ghost prev = out@;
        out.push(b);
        proof {
            let pre = out@.subrange(base, base + k);
            let post = out@.subrange(base, base + k + 1);
            assert(pre =~= prev.subrange(base, base + k));
            assert(post.drop_last() =~= pre);
            assert(post.last() == b);
            assert(out@.subrange(0, base) =~= old(out)@);
            let pw: nat = (width - k - 1) as nat;
            let x: int = ((v as nat) / pow256(pw)) as int;
            lemma_pow256_mono(pw, pw + 1);
            vstd::arithmetic::div_mod::lemma_fundamental_div_mod(x, 256);
            vstd::arithmetic::div_mod::lemma_div_denominator(v as int, pow256(pw) as int, 256);
            assert(pow256(pw + 1) == 256 * pow256(pw));
            assert(pow256(pw) * 256 == 256 * pow256(pw)) by (nonlinear_arith);
            assert(x / 256 == (v as nat) / pow256((width - k) as nat));
            assert(b == x % 256);
            assert(be_val(post) == be_val(pre) * 256 + b);
            assert(be_val(post) == (v as nat) / pow256(pw));
        }
        k += 1;
    }
    proof {
        assert((v as nat) / pow256(0) == v) by {
            vstd::arithmetic::div_mod::lemma_div_basics(v as int);
            assert(pow256(0) == 1);
        }
    }
}

/// Appends a 32-byte slot holding a `u128`, right-aligned.
pub fn push_slot_u128(out: &mut Vec<u8>, v: u128)
    requires
        old(out)@.len() + 32 <= usize::MAX,
    ensures
        final(out)@.len() == old(out)@.len() + 32,
        final(out)@.subrange(0, old(out)@.len() as int) == old(out)@,
        be_val(final(out)@.subrange(old(out)@.len() as int + 16, old(out)@.len() as int + 32)) == v,
        be_val(final(out)@.subrange(old(out)@.len() as int, old(out)@.len() as int + 32)) == v,
{
    let ghost base = out@.len() as int;
    proof {
        lemma_pow256_values();
    }
    push_zeros(out, 16);
    let ghost mid = out@;
    push_be(out, v, 16);
    proof {
        assert(out@.subrange(0, base) =~= old(out)@);
        assert(out@.subrange(0, base + 16) == mid);
        let zs = out@.subrange(base, base + 16);
        let vs = out@.subrange(base + 16, base + 32);
        assert(zs =~= mid.subrange(base, base + 16));
        assert(forall|j: int| 0 <= j < 16 ==> zs[j] == 0);
        lemma_be_val_zeros(zs);
        let whole = out@.subrange(base, base + 32);
        assert(whole =~= zs + vs);
        lemma_be_val_append(zs, vs);
    }
}

/// Appends a 32-byte slot holding a `u64`, right-aligned.
pub fn push_slot_u64(out: &mut Vec<u8>, v: u64)
    requires
        old(out)@.len() + 32 <= usize::MAX,
    ensures
        final(out)@.len() == old(out)@.len() + 32,
        final(out)@.subrange(0, old(out)@.len() as int) == old(out)@,
        be_val(final(out)@.subrange(old(out)@.len() as int + 24, old(out)@.len() as int + 32)) == v,
{
    let ghost base = out@.len() as int;
    proof {
        lemma_pow256_values();
    }
    push_zeros(out, 24);
    push_be(out, v as u128, 8);
    proof {
        assert(out@.subrange(0, base) =~= old(out)@);
    }
}

/// Appends a 32-byte slot holding a `u16`, right-aligned.
pub fn push_slot_u16(out: &mut Vec<u8>, v: u16)
    requires
        old(out)@.len() + 32 <= usize::MAX,
    ensures
        final(out)@.len() == old(out)@.len() + 32,
        final(out)@.subrange(0, old(out)@.len() as int) == old(out)@,
        be_val(final(out)@.subrange(old(out)@.len() as int + 30, old(out)@.len() as int + 32)) == v,
{
    let ghost base = out@.len() as int;
    proof {
        reveal_with_fuel(pow256, 3);
    }
    push_zeros(out, 30);
    push_be(out, v as u128, 2);
    proof {
        assert(out@.subrange(0, base) =~= old(out)@);
    }
}

/// Appends a 32-byte slot holding a `u8`, right-aligned.
pub fn push_slot_u8(out: &mut Vec<u8>, v: u8)
    requires
        old(out)@.len() + 32 <= usize::MAX,
    ensures
        final(out)@.len() == old(out)@.len() + 32,
        final(out)@.subrange(0, old(out)@.len() as int) == old(out)@,
        be_val(final(out)@.subrange(old(out)@.len() as int + 31, old(out)@.len() as int + 32)) == v,
{
    let ghost base = out@.len() as int;
    proof {
        reveal_with_fuel(pow256, 2);
    }
    push_zeros(out, 31);
    push_be(out, v as u128, 1);
    proof {
        assert(out@.subrange(0, base) =~= old(out)@);
    }
}

/// Appends a 32-byte slot holding a bool in its last byte.
pub fn push_slot_bool(out: &mut Vec<u8>, v: bool)
    requires
        old(out)@.len() + 32 <= usize::MAX,
    ensures
        final(out)@.len() == old(out)@.len() + 32,
        final(out)@.subrange(0, old(out)@.len() as int) == old(out)@,
        (final(out)@[old(out)@.len() as int + 31] != 0) == v,
{
    let ghost base = out@.len() as int;
    push_zeros(out, 31);
    let b: u8 = if v {
        1
    } else {
        0
    };
    out.push(b);
    proof {
        assert(out@.subrange(0, base) =~= old(out)@);
    }
}

/// Appends a 32-byte slot holding a full 256-bit integer.
pub fn push_slot_u256(out: &mut Vec<u8>, v: &U256)
    requires
        old(out)@.len() + 32 <= usize::MAX,
    ensures
        final(out)@.len() == old(out)@.len() + 32,
        final(out)@.subrange(0, old(out)@.len() as int) == old(out)@,
        be_val(final(out)@.subrange(old(out)@.len() as int, old(out)@.len() as int + 32)) == v.as_nat(),
{
    let ghost base = out@.len() as int;
    proof {
        lemma_pow256_values();
    }
    let hi: u128 = v.l2 as u128 + (v.l3 as u128) * 0x10000000000000000;
    let lo: u128 = v.l0 as u128 + (v.l1 as u128) * 0x10000000000000000;
    push_be(out, hi, 16);
    let ghost mid = out@;
    push_be(out, lo, 16);
    proof {
        assert(out@.subrange(0, base) =~= old(out)@);
        assert(out@.subrange(0, base + 16) == mid);
        let hs = out@.subrange(base, base + 16);
        let ls = out@.subrange(base + 16, base + 32);
        assert(hs =~= mid.subrange(base, base + 16));
        assert(be_val(hs) == hi);
        let whole = out@.subrange(base, base + 32);
        assert(whole =~= hs + ls);
        lemma_be_val_append(hs, ls);
        assert(be_val(whole) == hi * 0x100000000000000000000000000000000 + lo);
        assert(hi * 0x100000000000000000000000000000000 + lo == v.as_nat()) by (nonlinear_arith)
            requires
                hi == v.l2 + v.l3 * 0x10000000000000000,
                lo == v.l0 + v.l1 * 0x10000000000000000,
                v.as_nat() == v.l0 + v.l1 * 0x10000000000000000 + v.l2
                    * 0x100000000000000000000000000000000 + v.l3
                    * 0x1000000000000000000000000000000000000000000000000,
        ;
    }
}

/// Appends a 32-byte slot holding an address in its last 20 bytes.
pub fn push_slot_address(out: &mut Vec<u8>, a: &Address)
    requires
        old(out)@.len() + 32 <= usize::MAX,
    ensures
        final(out)@.len() == old(out)@.len() + 32,
        final(out)@.subrange(0, old(out)@.len() as int) == old(out)@,
        be_val(final(out)@.subrange(old(out)@.len() as int + 12, old(out)@.len() as int + 32)) == a.as_nat(),
{
    let ghost base = out@.len() as int;
    proof {
        lemma_pow256_values();
    }
    push_zeros(out, 12);
    push_be(out, a.hi as u128, 4);
    let ghost mid = out@;
    push_be(out, a.lo, 16);
    proof {
        assert(out@.subrange(0, base) =~= old(out)@);
        assert(out@.subrange(0, base + 16) == mid);
        let hs = out@.subrange(base + 12, base + 16);
        let ls = out@.subrange(base + 16, base + 32);
        assert(hs =~= mid.subrange(base + 12, base + 16));
        assert(be_val(hs) == a.hi);
        let whole = out@.subrange(base + 12, base + 32);
        assert(whole =~= hs + ls);
        lemma_be_val_append(hs, ls);
        assert(be_val(whole) == a.hi * pow256(16) + a.lo);
    }
}

/// Appends a 32-byte slot holding an `i128`, two's complement.
pub fn push_slot_i128(out: &mut Vec<u8>, v: i128)
    requires
        old(out)@.len() + 32 <= usize::MAX,
    ensures
        final(out)@.len() == old(out)@.len() + 32,
        final(out)@.subrange(0, old(out)@.len() as int) == old(out)@,
        twos_complement(
            be_val(final(out)@.subrange(old(out)@.len() as int + 16, old(out)@.len() as int + 32)),
            128,
        ) == v,
{
    proof {
        lemma_pow256_values();
    }
    let u: u128 = if v >= 0 {
        v as u128
    } else {
        0xffffffffffffffffffffffffffffffff - (((-(v + 1)) as u128 + 1) - 1)
    };
    push_slot_u128(out, u);
}

/// Appends a 32-byte slot holding an `i32`, two's complement.
pub fn push_slot_i32(out: &mut Vec<u8>, v: i32)
    requires
        old(out)@.len() + 32 <= usize::MAX,
    ensures
        final(out)@.len() == old(out)@.len() + 32,
        final(out)@.subrange(0, old(out)@.len() as int) == old(out)@,
        twos_complement(
            be_val(final(out)@.subrange(old(out)@.len() as int + 28, old(out)@.len() as int + 32)),
            32,
        ) == v,
{
    let ghost base = out@.len() as int;
    proof {
        lemma_pow256_values();
    }
    let u: u32 = if v >= 0 {
        v as u32
    } else {
        0xffffffff - (((-(v + 1)) as u32 + 1) - 1)
    };
    push_zeros(out, 28);
    push_be(out, u as u128, 4);
    proof {
        assert(out@.subrange(0, base) =~= old(out)@);
    }
}

/// Parses an `Address` from bytes `[start + 12, start + 32)` of the slot.
pub fn parse_address(input: &[u8], start: usize) -> (r: Address)
    requires
        start + 32 <= input@.len(),
    ensures
        r.as_nat() == be_val(input@.subrange(start + 12, start + 32)),
{
    let n: usize = input.len();
    proof {
        assert(start + 32 <= n);
        lemma_pow256_values();
        lemma_be_val_bound(input@.subrange(start + 12, start + 16));
    }
    let hi: u128 = read_be_u128(input, start + 12, 4);
    let lo: u128 = read_be_u128(input, start + 16, 16);
    proof {
        let s = input@.subrange(start + 12, start + 32);
        let sh = input@.subrange(start + 12, start + 16);
        let sl = input@.subrange(start + 16, start + 32);
        assert(s =~= sh + sl);
        lemma_be_val_append(sh, sl);
    }
    Address { hi: hi as u32, lo }
}

} // verus!
