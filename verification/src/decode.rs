//! What the bytes of a record spell: the number, in either byte order and
//! with or without a sign, and the record that a number is written as.

use vstd::prelude::*;

verus! {

/// The byte order of a fixed-width record.
#[derive(Clone, Copy, Debug, PartialEq, Eq, Structural)]
pub enum Endian {
    /// The first byte is the least significant.
    Little,
    /// The first byte is the most significant.
    Big,
}

/// 256 to the power `n`: the number of values that `n` bytes can spell.
pub open spec fn pow256(n: nat) -> nat
    decreases n,
{
    if n == 0 {
        1
    } else {
        256 * pow256((n - 1) as nat)
    }
}

/// The number that `bytes` spell when the first byte is the least
/// significant one.
pub open spec fn le_nat(bytes: Seq<u8>) -> nat
    decreases bytes.len(),
{
    if bytes.len() == 0 {
        0
    } else {
        bytes[0] as nat + 256 * le_nat(bytes.drop_first())
    }
}

/// The unsigned number that `bytes` spell in the given byte order.
/// Big-endian is little-endian read backwards.
pub open spec fn unsigned_value(bytes: Seq<u8>, endian: Endian) -> nat {
    match endian {
        Endian::Little => le_nat(bytes),
        Endian::Big => le_nat(bytes.reverse()),
    }
}

/// The two's-complement reading of an unsigned number of `width` bytes:
/// the upper half of the range stands for the negative numbers.
pub open spec fn twos_complement(u: nat, width: nat) -> int {
    if 2 * u < pow256(width) {
        u as int
    } else {
        u - pow256(width)
    }
}

/// The integer that one record spells.
pub open spec fn decode(bytes: Seq<u8>, signed: bool, endian: Endian) -> int {
    let u = unsigned_value(bytes, endian);
    if signed {
        twos_complement(u, bytes.len())
    } else {
        u as int
    }
}

/// Whether `v` is a value of the integer type of `width` bytes with the given
/// signedness.
pub open spec fn in_range(v: int, width: nat, signed: bool) -> bool {
    if signed {
        -pow256(width) <= 2 * v < pow256(width)
    } else {
        0 <= v < pow256(width)
    }
}

/// The `width` bytes of `u`, least significant first.
pub open spec fn le_bytes(u: nat, width: nat) -> Seq<u8>
    decreases width,
{
    if width == 0 {
        Seq::empty()
    } else {
        seq![(u % 256) as u8] + le_bytes(u / 256, (width - 1) as nat)
    }
}

/// The record of `width` bytes that stands for `v`: a negative number is
/// written as its two's complement.
pub open spec fn encode(v: int, width: nat, endian: Endian) -> Seq<u8> {
    let u = if v >= 0 {
        v as nat
    } else {
        (v + pow256(width)) as nat
    };
    match endian {
        Endian::Little => le_bytes(u, width),
        Endian::Big => le_bytes(u, width).reverse(),
    }
}

/// `n` bytes spell a number below `256^n`.
pub proof fn lemma_le_nat_bound(bytes: Seq<u8>)
    ensures
        le_nat(bytes) < pow256(bytes.len()),
    decreases bytes.len(),
{
    if bytes.len() > 0 {
        lemma_le_nat_bound(bytes.drop_first());
    }
}

/// In either byte order, `n` bytes spell a number below `256^n`.
pub proof fn lemma_unsigned_value_bound(bytes: Seq<u8>, endian: Endian)
    ensures
        unsigned_value(bytes, endian) < pow256(bytes.len()),
{
    lemma_le_nat_bound(bytes);
    lemma_le_nat_bound(bytes.reverse());
}

/// What a record spells is in the range of the type that it was read as.
pub proof fn lemma_decode_in_range(bytes: Seq<u8>, signed: bool, endian: Endian)
    ensures
        in_range(decode(bytes, signed, endian), bytes.len(), signed),
{
    lemma_unsigned_value_bound(bytes, endian);
}

proof fn lemma_le_bytes_len(u: nat, width: nat)
    ensures
        le_bytes(u, width).len() == width,
    decreases width,
{
    if width > 0 {
        lemma_le_bytes_len(u / 256, (width - 1) as nat);
    }
}

proof fn lemma_le_nat_le_bytes(u: nat, width: nat)
    requires
        u < pow256(width),
    ensures
        le_nat(le_bytes(u, width)) == u,
    decreases width,
{
    if width > 0 {
        let rest = le_bytes(u / 256, (width - 1) as nat);
        lemma_le_nat_le_bytes(u / 256, (width - 1) as nat);
        assert(le_bytes(u, width).drop_first() =~= rest);
    }
}

/// Writing a value of a type as a record and reading the record back in the
/// same byte order gives the value again; the record has the type's width.
pub proof fn lemma_decode_encode(v: int, width: nat, signed: bool, endian: Endian)
    requires
        in_range(v, width, signed),
    ensures
        encode(v, width, endian).len() == width,
        decode(encode(v, width, endian), signed, endian) == v,
{
    let u = if v >= 0 {
        v as nat
    } else {
        (v + pow256(width)) as nat
    };
    lemma_le_bytes_len(u, width);
    lemma_le_nat_le_bytes(u, width);
    assert(le_bytes(u, width).reverse().reverse() =~= le_bytes(u, width));
}

/// Reads the unsigned number that at most eight bytes spell.
pub(crate) fn unsigned_of(bytes: &[u8], endian: Endian) -> (u: u64)
    requires
        bytes@.len() <= 8,
    ensures
        u == unsigned_value(bytes@, endian),
        u < pow256(bytes@.len()),
{
    let n = bytes.len();
    let mut acc: u64 = 0;
    let mut k: usize = 0;
    // After `k` steps `acc` holds what the `k` most significant bytes spell.
    while k < n
        invariant
            n == bytes@.len(),
            n <= 8,
            k <= n,
            endian == Endian::Little ==> acc == le_nat(bytes@.subrange(n - k, n as int)),
            endian == Endian::Big ==> acc == le_nat(bytes@.subrange(0, k as int).reverse()),
            acc < pow256(k as nat),
        decreases n - k,
    {
        let byte = match endian {
            Endian::Little => bytes[n - 1 - k],
            Endian::Big => bytes[k],
        };
        proof {
            reveal_with_fuel(pow256, 9);
            let little = bytes@.subrange(n - k - 1, n as int);
            assert(little.drop_first() =~= bytes@.subrange(n - k, n as int));
            let big = bytes@.subrange(0, k + 1).reverse();
            assert(big.drop_first() =~= bytes@.subrange(0, k as int).reverse());
        }
        acc = 256 * acc + byte as u64;
        k += 1;
    }
    proof {
        assert(bytes@.subrange(0, n as int) =~= bytes@);
    }
    acc
}

} // verus!
