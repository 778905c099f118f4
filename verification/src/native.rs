//! The eight integer types of the records, and how each is read from the
//! bytes of a record.

use vstd::laws_cmp::group_laws_cmp;
use vstd::laws_cmp::obeys_cmp;
use vstd::prelude::*;
use vstd::std_specs::cmp::OrdSpec;

use crate::decode::decode;
use crate::decode::encode;
use crate::decode::in_range;
use crate::decode::lemma_decode_encode;
use crate::decode::pow256;
use crate::decode::unsigned_of;
use crate::decode::Endian;

verus! {

/// A fixed-width machine integer that a column can hold.
///
/// `int_value` is the number that the machine value stands for. The natural
/// order of the type is the order of these numbers, and two machine values
/// with the same number are the same value.
pub trait NativeInt: Copy + Ord {
    /// The mathematical integer that `self` stands for.
    spec fn int_value(self) -> int;

    /// The number of bytes in one record of the type.
    spec fn width() -> nat;

    /// Whether the type has negative values.
    spec fn signed() -> bool;

    /// The value of the type that stands for `v`, for `v` in the range of
    /// the type.
    spec fn of_int(v: int) -> Self;

    /// The order that std gives the type is the order of the integers: `Ord`
    /// on the type is lawful, `a` sorts before `b` exactly when its number
    /// is smaller, and equal numbers mean equal values.
    proof fn lemma_order(a: Self, b: Self)
        ensures
            obeys_cmp::<Self>(),
            (a.cmp_spec(&b) is Less) <==> a.int_value() < b.int_value(),
            a.int_value() == b.int_value() <==> a == b,
    ;

    /// Every value of the type lies in the range that its width and
    /// signedness give, and the width is between one and eight bytes.
    proof fn lemma_range(v: Self)
        ensures
            1 <= Self::width() <= 8,
            in_range(v.int_value(), Self::width(), Self::signed()),
            Self::of_int(v.int_value()) == v,
    ;

    /// Every integer in the range of the type is the number of a value of
    /// the type.
    proof fn lemma_of_int(v: int)
        requires
            in_range(v, Self::width(), Self::signed()),
        ensures
            Self::of_int(v).int_value() == v,
    ;

    /// Reads one record: `bytes` holds exactly the bytes of one value, in the
    /// given byte order.
    fn from_bytes(bytes: &[u8], endian: Endian) -> (v: Self)
        requires
            bytes@.len() == Self::width(),
        ensures
            v.int_value() == decode(bytes@, Self::signed(), endian),
            v == Self::of_int(decode(bytes@, Self::signed(), endian)),
    ;
}

impl NativeInt for i8 {
    open spec fn int_value(self) -> int {
        self as int
    }

    open spec fn width() -> nat {
        1
    }

    open spec fn signed() -> bool {
        true
    }

    open spec fn of_int(v: int) -> Self {
        v as i8
    }

    proof fn lemma_order(a: Self, b: Self) {
        broadcast use group_laws_cmp;
    }

    proof fn lemma_range(v: Self) {
        reveal_with_fuel(pow256, 2);
    }

    proof fn lemma_of_int(v: int) {
        reveal_with_fuel(pow256, 2);
    }

    fn from_bytes(bytes: &[u8], endian: Endian) -> (v: Self) {
        let u = unsigned_of(bytes, endian);
        proof {
            reveal_with_fuel(pow256, 2);
        }
        // The upper half of the unsigned range stands for the negative
        // numbers, counted up from the least one.
        if u < 0x80 {
            u as i8
        } else {
            ((u - 0x80) as i8) + i8::MIN
        }
    }
}

impl NativeInt for i16 {
    open spec fn int_value(self) -> int {
        self as int
    }

    open spec fn width() -> nat {
        2
    }

    open spec fn signed() -> bool {
        true
    }

    open spec fn of_int(v: int) -> Self {
        v as i16
    }

    proof fn lemma_order(a: Self, b: Self) {
        broadcast use group_laws_cmp;
    }

    proof fn lemma_range(v: Self) {
        reveal_with_fuel(pow256, 3);
    }

    proof fn lemma_of_int(v: int) {
        reveal_with_fuel(pow256, 3);
    }

    fn from_bytes(bytes: &[u8], endian: Endian) -> (v: Self) {
        let u = unsigned_of(bytes, endian);
        proof {
            reveal_with_fuel(pow256, 3);
        }
        // The upper half of the unsigned range stands for the negative
        // numbers, counted up from the least one.
        if u < 0x8000 {
            u as i16
        } else {
            ((u - 0x8000) as i16) + i16::MIN
        }
    }
}

impl NativeInt for i32 {
    open spec fn int_value(self) -> int {
        self as int
    }

    open spec fn width() -> nat {
        4
    }

    open spec fn signed() -> bool {
        true
    }

    open spec fn of_int(v: int) -> Self {
        v as i32
    }

    proof fn lemma_order(a: Self, b: Self) {
        broadcast use group_laws_cmp;
    }

    proof fn lemma_range(v: Self) {
        reveal_with_fuel(pow256, 5);
    }

    proof fn lemma_of_int(v: int) {
        reveal_with_fuel(pow256, 5);
    }

    fn from_bytes(bytes: &[u8], endian: Endian) -> (v: Self) {
        let u = unsigned_of(bytes, endian);
        proof {
            reveal_with_fuel(pow256, 5);
        }
        // The upper half of the unsigned range stands for the negative
        // numbers, counted up from the least one.
        if u < 0x8000_0000 {
            u as i32
        } else {
            ((u - 0x8000_0000) as i32) + i32::MIN
        }
    }
}

impl NativeInt for i64 {
    open spec fn int_value(self) -> int {
        self as int
    }

    open spec fn width() -> nat {
        8
    }

    open spec fn signed() -> bool {
        true
    }

    open spec fn of_int(v: int) -> Self {
        v as i64
    }

    proof fn lemma_order(a: Self, b: Self) {
        broadcast use group_laws_cmp;
    }

    proof fn lemma_range(v: Self) {
        reveal_with_fuel(pow256, 9);
    }

    proof fn lemma_of_int(v: int) {
        reveal_with_fuel(pow256, 9);
    }

    fn from_bytes(bytes: &[u8], endian: Endian) -> (v: Self) {
        let u = unsigned_of(bytes, endian);
        proof {
            reveal_with_fuel(pow256, 9);
        }
        // The upper half of the unsigned range stands for the negative
        // numbers, counted up from the least one.
        if u < 0x8000_0000_0000_0000 {
            u as i64
        } else {
            ((u - 0x8000_0000_0000_0000) as i64) + i64::MIN
        }
    }
}

impl NativeInt for u8 {
    open spec fn int_value(self) -> int {
        self as int
    }

    open spec fn width() -> nat {
        1
    }

    open spec fn signed() -> bool {
        false
    }

    open spec fn of_int(v: int) -> Self {
        v as u8
    }

    proof fn lemma_order(a: Self, b: Self) {
        broadcast use group_laws_cmp;
    }

    proof fn lemma_range(v: Self) {
        reveal_with_fuel(pow256, 2);
    }

    proof fn lemma_of_int(v: int) {
        reveal_with_fuel(pow256, 2);
    }

    fn from_bytes(bytes: &[u8], endian: Endian) -> (v: Self) {
        let u = unsigned_of(bytes, endian);
        proof {
            reveal_with_fuel(pow256, 2);
        }
        u as u8
    }
}

impl NativeInt for u16 {
    open spec fn int_value(self) -> int {
        self as int
    }

    open spec fn width() -> nat {
        2
    }

    open spec fn signed() -> bool {
        false
    }

    open spec fn of_int(v: int) -> Self {
        v as u16
    }

    proof fn lemma_order(a: Self, b: Self) {
        broadcast use group_laws_cmp;
    }

    proof fn lemma_range(v: Self) {
        reveal_with_fuel(pow256, 3);
    }

    proof fn lemma_of_int(v: int) {
        reveal_with_fuel(pow256, 3);
    }

    fn from_bytes(bytes: &[u8], endian: Endian) -> (v: Self) {
        let u = unsigned_of(bytes, endian);
        proof {
            reveal_with_fuel(pow256, 3);
        }
        u as u16
    }
}

impl NativeInt for u32 {
    open spec fn int_value(self) -> int {
        self as int
    }

    open spec fn width() -> nat {
        4
    }

    open spec fn signed() -> bool {
        false
    }

    open spec fn of_int(v: int) -> Self {
        v as u32
    }

    proof fn lemma_order(a: Self, b: Self) {
        broadcast use group_laws_cmp;
    }

    proof fn lemma_range(v: Self) {
        reveal_with_fuel(pow256, 5);
    }

    proof fn lemma_of_int(v: int) {
        reveal_with_fuel(pow256, 5);
    }

    fn from_bytes(bytes: &[u8], endian: Endian) -> (v: Self) {
        let u = unsigned_of(bytes, endian);
        proof {
            reveal_with_fuel(pow256, 5);
        }
        u as u32
    }
}

impl NativeInt for u64 {
    open spec fn int_value(self) -> int {
        self as int
    }

    open spec fn width() -> nat {
        8
    }

    open spec fn signed() -> bool {
        false
    }

    open spec fn of_int(v: int) -> Self {
        v as u64
    }

    proof fn lemma_order(a: Self, b: Self) {
        broadcast use group_laws_cmp;
    }

    proof fn lemma_range(v: Self) {
        reveal_with_fuel(pow256, 9);
    }

    proof fn lemma_of_int(v: int) {
        reveal_with_fuel(pow256, 9);
    }

    fn from_bytes(bytes: &[u8], endian: Endian) -> (v: Self) {
        let u = unsigned_of(bytes, endian);
        proof {
            reveal_with_fuel(pow256, 9);
        }
        u as u64
    }
}

/// Writing a value of an integer type as a record of the type's width and
/// reading the record back in the same byte order gives the value again.
pub proof fn lemma_round_trip<T: NativeInt>(v: T, endian: Endian)
    ensures
        encode(v.int_value(), T::width(), endian).len() == T::width(),
        decode(encode(v.int_value(), T::width(), endian), T::signed(), endian) == v.int_value(),
        T::of_int(decode(encode(v.int_value(), T::width(), endian), T::signed(), endian)) == v,
{
    T::lemma_range(v);
    lemma_decode_encode(v.int_value(), T::width(), T::signed(), endian);
}

} // verus!
