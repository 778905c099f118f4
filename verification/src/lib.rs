//! Converts a stream of fixed-width binary integers into a column of its
//! unique values in ascending order.
//!
//! The work is done in three stages. The records of the source are decoded
//! to integers of one of eight types, in either byte order ([`fs`],
//! [`decode`], [`native`]). The integers are collected into an ordered set,
//! which drops the duplicates ([`ints2uniq_bt`], [`rints2uniq_bt`]). The set
//! is written out, ascending, as an arrow array without nulls
//! ([`uniq2arrow_bt`], [`column`]). What the stages promise is stated over
//! plain sequences and sets; [`order`] holds the laws of the result.

use std::collections::BTreeSet;
use vstd::laws_cmp::lemma_ref_obeys_cmp_spec;
use vstd::laws_cmp::obeys_cmp;
use vstd::prelude::*;
use vstd::std_specs::btree::axiom_increasing_seq_meaning;
use vstd::std_specs::btree::increasing_seq;
use vstd::std_specs::cmp::OrdSpec;
use vstd::std_specs::iter::IteratorSpec;

use crate::column::lemma_present;
use crate::column::null_free;
use crate::column::values;
use crate::column::ColumnInt;
use crate::column::Int16Column;
use crate::column::Int32Column;
use crate::column::Int64Column;
use crate::column::Int8Column;
use crate::column::UInt16Column;
use crate::column::UInt32Column;
use crate::column::UInt64Column;
use crate::column::UInt8Column;
use crate::native::NativeInt;
use crate::order::doubled;
use crate::order::is_column_of;
use crate::order::lemma_column_cardinality;
use crate::order::lemma_duplicates_collapse;
use crate::order::lists_ascending;
use crate::order::strictly_ascending;

pub mod column;
pub mod decode;
pub mod fs;
pub mod native;
pub mod order;

verus! {

/// Whether no item of `ints` is a failure.
pub open spec fn all_ok<T, E>(ints: Seq<Result<T, E>>) -> bool {
    forall|i: int| 0 <= i < ints.len() ==> (#[trigger] ints[i]) is Ok
}

/// The integers of a sequence without failures, in order.
pub open spec fn ok_values<T, E>(ints: Seq<Result<T, E>>) -> Seq<T> {
    ints.map_values(|r: Result<T, E>| r->Ok_0)
}

/// Whether `e` is the first failure in `ints`: the failure of an item that
/// only integers come before.
pub open spec fn is_first_failure<T, E>(ints: Seq<Result<T, E>>, e: E) -> bool {
    exists|k: int|
        0 <= k < ints.len() && #[trigger] ints[k] == Err::<T, E>(e) && all_ok(ints.take(k))
}

/// Whether `column` is the column of the unique values of `ints`: no slot
/// is null, and the values are exactly those that occur in `ints`, in
/// strictly ascending order.
pub open spec fn is_uniq_column<T: ColumnInt>(column: &T::Column, ints: Seq<T>) -> bool {
    &&& null_free::<T>(column)
    &&& is_column_of(values::<T>(column), ints)
}

/// Duplicates do not show in the column: the column of a sequence and the
/// column of the same sequence with every item written twice hold the same
/// slots.
pub proof fn lemma_uniq_column_of_doubled<T: ColumnInt>(
    column: &T::Column,
    column2: &T::Column,
    ints: Seq<T>,
)
    requires
        is_uniq_column::<T>(column, ints),
        is_uniq_column::<T>(column2, doubled(ints)),
    ensures
        T::slots(column) == T::slots(column2),
{
    lemma_duplicates_collapse(ints, values::<T>(column), values::<T>(column2));
    assert(T::slots(column).len() == values::<T>(column).len());
    assert(T::slots(column2).len() == values::<T>(column2).len());
    assert forall|i: int| 0 <= i < T::slots(column).len() implies T::slots(column)[i] == T::slots(
        column2,
    )[i] by {
        assert(T::slots(column)[i] is Some);
        assert(T::slots(column2)[i] is Some);
        assert(values::<T>(column)[i] == values::<T>(column2)[i]);
    }
    assert(T::slots(column) =~= T::slots(column2));
}

/// Collects the integers into the ordered set of their values: every item
/// is inserted, and an item that the set holds already changes nothing.
///
/// `ints` is an iterator that keeps the iterator laws and ends; what the
/// contract calls `ints.remaining()` is the sequence of all its items.
pub fn ints2uniq_bt<I, T>(ints: I) -> (uniq: BTreeSet<T>)
    where
        T: NativeInt,
        I: Iterator<Item = T>,
    requires
        ints.obeys_prophetic_iter_laws(),
        ints.decrease() is Some,
    ensures
        uniq@ == ints.remaining().to_set(),
{
    let ghost all = ints.remaining();
    let mut iter = ints;
    let mut uniq: BTreeSet<T> = BTreeSet::new();
    let ghost mut seen: Seq<T> = Seq::empty();
    loop
        invariant
            iter.obeys_prophetic_iter_laws(),
            iter.decrease() is Some,
            all == seen + iter.remaining(),
            uniq@ == seen.to_set(),
        ensures
            uniq@ == all.to_set(),
        decreases iter.decrease()->0,
    {
        match iter.next() {
            Some(x) => {
                proof {
                    T::lemma_order(x, x);
                    seen.lemma_push_to_set_commute(x);
                    seen = seen.push(x);
                }
                uniq.insert(x);
            },
            None => {
                assert(seen =~= all);
                break ;
            },
        }
    }
    uniq
}

/// Collects the integers into the ordered set of their values, and gives up
/// at the first failure: the failure is returned, and the set built so far
/// is dropped.
pub fn rints2uniq_bt<I, T, E>(ints: I) -> (res: Result<BTreeSet<T>, E>)
    where
        T: NativeInt,
        I: Iterator<Item = Result<T, E>>,
    requires
        ints.obeys_prophetic_iter_laws(),
        ints.decrease() is Some,
    ensures
        res is Ok <==> all_ok(ints.remaining()),
        res matches Ok(uniq) ==> uniq@ == ok_values(ints.remaining()).to_set(),
        res matches Err(e) ==> is_first_failure(ints.remaining(), e),
{
    let ghost all = ints.remaining();
    let mut iter = ints;
    let mut uniq: BTreeSet<T> = BTreeSet::new();
    let ghost mut seen: Seq<Result<T, E>> = Seq::empty();
    loop
        invariant
            iter.obeys_prophetic_iter_laws(),
            iter.decrease() is Some,
            all == ints.remaining(),
            all == seen + iter.remaining(),
            all_ok(seen),
            uniq@ == ok_values(seen).to_set(),
        ensures
            all_ok(all),
            uniq@ == ok_values(all).to_set(),
        decreases iter.decrease()->0,
    {
        match iter.next() {
            Some(Ok(x)) => {
                proof {
                    T::lemma_order(x, x);
                    ok_values(seen).lemma_push_to_set_commute(x);
                    assert(ok_values(seen.push(Ok(x))) =~= ok_values(seen).push(x));
                    seen = seen.push(Ok(x));
                }
                uniq.insert(x);
            },
            Some(Err(e)) => {
                proof {
                    let k = seen.len() as int;
                    assert(all[k] == Err::<T, E>(e));
                    assert(all.take(k) =~= seen);
                    assert(!all_ok(all));
                }
                return Err(e);
            },
            None => {
                assert(seen =~= all);
                break ;
            },
        }
    }
    Ok(uniq)
}

/// What std calls increasing, in the order that `Ord` gives the type, is
/// strictly ascending by the integers.
proof fn lemma_increasing_is_ascending<T: NativeInt>(refs: Seq<&T>)
    requires
        increasing_seq(refs),
    ensures
        strictly_ascending(refs.unref()),
{
    let any: T = arbitrary();
    T::lemma_order(any, any);
    broadcast use lemma_ref_obeys_cmp_spec;
    assert(obeys_cmp::<&T>());
    axiom_increasing_seq_meaning::<&T>(refs);
    assert forall|i: int, j: int| 0 <= i < j < refs.len() implies refs.unref()[i].int_value()
        < refs.unref()[j].int_value() by {
        T::lemma_order(*refs[i], *refs[j]);
        assert(OrdSpec::cmp_spec(&refs[i], &refs[j]) is Less);
    }
}

/// Lists the members of the set in ascending order.
fn uniq2vec<T: NativeInt>(uniq: &BTreeSet<T>) -> (vals: Vec<T>)
    ensures
        lists_ascending(vals@, uniq@),
{
    let mut vals: Vec<T> = Vec::new();
    proof {
        let any: T = arbitrary();
        T::lemma_order(any, any);
    }
    let ghost walk = uniq.iter().remaining();
    for x in it: uniq.iter()
        invariant
            it.seq() == walk,
            vals@.len() == it.index(),
            forall|j: int| 0 <= j < vals@.len() ==> vals@[j] == *(#[trigger] walk[j]),
    {
        vals.push(*x);
    }
    proof {
        assert(vals@ =~= walk.unref());
        lemma_increasing_is_ascending(walk);
    }
    vals
}

/// Materializes the set as a column: walks the set once, in ascending
/// order, and appends each member to the column. Nothing is reordered or
/// dropped, and no slot of the column is null.
pub fn uniq2arrow_bt<T: ColumnInt>(uniq: BTreeSet<T>) -> (column: T::Column)
    ensures
        null_free::<T>(&column),
        lists_ascending(values::<T>(&column), uniq@),
{
    let vals = uniq2vec(&uniq);
    let column = T::column_of(vals);
    proof {
        lemma_present::<T>(&column, vals@);
    }
    column
}

/// Reduces the integers to the column of their unique values in ascending
/// order.
///
/// The column is never longer than the input, and as long exactly when no
/// value occurs twice in the input.
pub fn ints2uniq2arrow_bt<I, T>(ints: I) -> (column: T::Column)
    where
        T: ColumnInt,
        I: Iterator<Item = T>,
    requires
        ints.obeys_prophetic_iter_laws(),
        ints.decrease() is Some,
    ensures
        is_uniq_column::<T>(&column, ints.remaining()),
        values::<T>(&column).len() <= ints.remaining().len(),
        values::<T>(&column).len() == ints.remaining().len() <==> ints.remaining().no_duplicates(),
{
    let ghost all = ints.remaining();
    let uniq: BTreeSet<T> = ints2uniq_bt::<I, T>(ints);
    let column = uniq2arrow_bt(uniq);
    proof {
        lemma_column_cardinality(values::<T>(&column), all);
    }
    column
}

/// Reduces the integers to the column of their unique values in ascending
/// order, and gives up at the first failure: the failure is returned, and no
/// column.
pub fn rints2uniq2arrow_bt<I, T, E>(ints: I) -> (res: Result<T::Column, E>)
    where
        T: ColumnInt,
        I: Iterator<Item = Result<T, E>>,
    requires
        ints.obeys_prophetic_iter_laws(),
        ints.decrease() is Some,
    ensures
        res is Ok <==> all_ok(ints.remaining()),
        res matches Ok(column) ==> is_uniq_column::<T>(&column, ok_values(ints.remaining())),
        res matches Err(e) ==> is_first_failure(ints.remaining(), e),
{
    match rints2uniq_bt::<I, T, E>(ints) {
        Ok(uniq) => Ok(uniq2arrow_bt(uniq)),
        Err(e) => Err(e),
    }
}

/// Creates the column of unique `i8` values from the integers.
pub fn ints2uniq2arrow_bt8<I>(ints: I) -> (column: Int8Column)
    where
        I: Iterator<Item = i8>,
    requires
        ints.obeys_prophetic_iter_laws(),
        ints.decrease() is Some,
    ensures
        is_uniq_column::<i8>(&column, ints.remaining()),
        values::<i8>(&column).len() <= ints.remaining().len(),
        values::<i8>(&column).len() == ints.remaining().len() <==> ints.remaining().no_duplicates(),
{
    ints2uniq2arrow_bt::<I, i8>(ints)
}

/// Creates the column of unique `i16` values from the integers.
pub fn ints2uniq2arrow_bt16<I>(ints: I) -> (column: Int16Column)
    where
        I: Iterator<Item = i16>,
    requires
        ints.obeys_prophetic_iter_laws(),
        ints.decrease() is Some,
    ensures
        is_uniq_column::<i16>(&column, ints.remaining()),
        values::<i16>(&column).len() <= ints.remaining().len(),
        values::<i16>(&column).len() == ints.remaining().len() <==> ints.remaining().no_duplicates(),
{
    ints2uniq2arrow_bt::<I, i16>(ints)
}

/// Creates the column of unique `i32` values from the integers.
pub fn ints2uniq2arrow_bt32<I>(ints: I) -> (column: Int32Column)
    where
        I: Iterator<Item = i32>,
    requires
        ints.obeys_prophetic_iter_laws(),
        ints.decrease() is Some,
    ensures
        is_uniq_column::<i32>(&column, ints.remaining()),
        values::<i32>(&column).len() <= ints.remaining().len(),
        values::<i32>(&column).len() == ints.remaining().len() <==> ints.remaining().no_duplicates(),
{
    ints2uniq2arrow_bt::<I, i32>(ints)
}

/// Creates the column of unique `i64` values from the integers.
pub fn ints2uniq2arrow_bt64<I>(ints: I) -> (column: Int64Column)
    where
        I: Iterator<Item = i64>,
    requires
        ints.obeys_prophetic_iter_laws(),
        ints.decrease() is Some,
    ensures
        is_uniq_column::<i64>(&column, ints.remaining()),
        values::<i64>(&column).len() <= ints.remaining().len(),
        values::<i64>(&column).len() == ints.remaining().len() <==> ints.remaining().no_duplicates(),
{
    ints2uniq2arrow_bt::<I, i64>(ints)
}

/// Creates the column of unique `u8` values from the integers.
pub fn uints2uniq2arrow_bt8<I>(ints: I) -> (column: UInt8Column)
    where
        I: Iterator<Item = u8>,
    requires
        ints.obeys_prophetic_iter_laws(),
        ints.decrease() is Some,
    ensures
        is_uniq_column::<u8>(&column, ints.remaining()),
        values::<u8>(&column).len() <= ints.remaining().len(),
        values::<u8>(&column).len() == ints.remaining().len() <==> ints.remaining().no_duplicates(),
{
    ints2uniq2arrow_bt::<I, u8>(ints)
}

/// Creates the column of unique `u16` values from the integers.
pub fn uints2uniq2arrow_bt16<I>(ints: I) -> (column: UInt16Column)
    where
        I: Iterator<Item = u16>,
    requires
        ints.obeys_prophetic_iter_laws(),
        ints.decrease() is Some,
    ensures
        is_uniq_column::<u16>(&column, ints.remaining()),
        values::<u16>(&column).len() <= ints.remaining().len(),
        values::<u16>(&column).len() == ints.remaining().len() <==> ints.remaining().no_duplicates(),
{
    ints2uniq2arrow_bt::<I, u16>(ints)
}

/// Creates the column of unique `u32` values from the integers.
pub fn uints2uniq2arrow_bt32<I>(ints: I) -> (column: UInt32Column)
    where
        I: Iterator<Item = u32>,
    requires
        ints.obeys_prophetic_iter_laws(),
        ints.decrease() is Some,
    ensures
        is_uniq_column::<u32>(&column, ints.remaining()),
        values::<u32>(&column).len() <= ints.remaining().len(),
        values::<u32>(&column).len() == ints.remaining().len() <==> ints.remaining().no_duplicates(),
{
    ints2uniq2arrow_bt::<I, u32>(ints)
}

/// Creates the column of unique `u64` values from the integers.
pub fn uints2uniq2arrow_bt64<I>(ints: I) -> (column: UInt64Column)
    where
        I: Iterator<Item = u64>,
    requires
        ints.obeys_prophetic_iter_laws(),
        ints.decrease() is Some,
    ensures
        is_uniq_column::<u64>(&column, ints.remaining()),
        values::<u64>(&column).len() <= ints.remaining().len(),
        values::<u64>(&column).len() == ints.remaining().len() <==> ints.remaining().no_duplicates(),
{
    ints2uniq2arrow_bt::<I, u64>(ints)
}

/// Tries to create the column of unique `i8` values from the integers.
pub fn rints2uniq2arrow_bt8<I, E>(ints: I) -> (res: Result<Int8Column, E>)
    where
        I: Iterator<Item = Result<i8, E>>,
    requires
        ints.obeys_prophetic_iter_laws(),
        ints.decrease() is Some,
    ensures
        res is Ok <==> all_ok(ints.remaining()),
        res matches Ok(column) ==> is_uniq_column::<i8>(&column, ok_values(ints.remaining())),
        res matches Err(e) ==> is_first_failure(ints.remaining(), e),
{
    rints2uniq2arrow_bt::<I, i8, E>(ints)
}

/// Tries to create the column of unique `i16` values from the integers.
pub fn rints2uniq2arrow_bt16<I, E>(ints: I) -> (res: Result<Int16Column, E>)
    where
        I: Iterator<Item = Result<i16, E>>,
    requires
        ints.obeys_prophetic_iter_laws(),
        ints.decrease() is Some,
    ensures
        res is Ok <==> all_ok(ints.remaining()),
        res matches Ok(column) ==> is_uniq_column::<i16>(&column, ok_values(ints.remaining())),
        res matches Err(e) ==> is_first_failure(ints.remaining(), e),
{
    rints2uniq2arrow_bt::<I, i16, E>(ints)
}

/// Tries to create the column of unique `i32` values from the integers.
pub fn rints2uniq2arrow_bt32<I, E>(ints: I) -> (res: Result<Int32Column, E>)
    where
        I: Iterator<Item = Result<i32, E>>,
    requires
        ints.obeys_prophetic_iter_laws(),
        ints.decrease() is Some,
    ensures
        res is Ok <==> all_ok(ints.remaining()),
        res matches Ok(column) ==> is_uniq_column::<i32>(&column, ok_values(ints.remaining())),
        res matches Err(e) ==> is_first_failure(ints.remaining(), e),
{
    rints2uniq2arrow_bt::<I, i32, E>(ints)
}

/// Tries to create the column of unique `i64` values from the integers.
pub fn rints2uniq2arrow_bt64<I, E>(ints: I) -> (res: Result<Int64Column, E>)
    where
        I: Iterator<Item = Result<i64, E>>,
    requires
        ints.obeys_prophetic_iter_laws(),
        ints.decrease() is Some,
    ensures
        res is Ok <==> all_ok(ints.remaining()),
        res matches Ok(column) ==> is_uniq_column::<i64>(&column, ok_values(ints.remaining())),
        res matches Err(e) ==> is_first_failure(ints.remaining(), e),
{
    rints2uniq2arrow_bt::<I, i64, E>(ints)
}

/// Tries to create the column of unique `u8` values from the integers.
pub fn ruints2uniq2arrow_bt8<I, E>(ints: I) -> (res: Result<UInt8Column, E>)
    where
        I: Iterator<Item = Result<u8, E>>,
    requires
        ints.obeys_prophetic_iter_laws(),
        ints.decrease() is Some,
    ensures
        res is Ok <==> all_ok(ints.remaining()),
        res matches Ok(column) ==> is_uniq_column::<u8>(&column, ok_values(ints.remaining())),
        res matches Err(e) ==> is_first_failure(ints.remaining(), e),
{
    rints2uniq2arrow_bt::<I, u8, E>(ints)
}

/// Tries to create the column of unique `u16` values from the integers.
pub fn ruints2uniq2arrow_bt16<I, E>(ints: I) -> (res: Result<UInt16Column, E>)
    where
        I: Iterator<Item = Result<u16, E>>,
    requires
        ints.obeys_prophetic_iter_laws(),
        ints.decrease() is Some,
    ensures
        res is Ok <==> all_ok(ints.remaining()),
        res matches Ok(column) ==> is_uniq_column::<u16>(&column, ok_values(ints.remaining())),
        res matches Err(e) ==> is_first_failure(ints.remaining(), e),
{
    rints2uniq2arrow_bt::<I, u16, E>(ints)
}

/// Tries to create the column of unique `u32` values from the integers.
pub fn ruints2uniq2arrow_bt32<I, E>(ints: I) -> (res: Result<UInt32Column, E>)
    where
        I: Iterator<Item = Result<u32, E>>,
    requires
        ints.obeys_prophetic_iter_laws(),
        ints.decrease() is Some,
    ensures
        res is Ok <==> all_ok(ints.remaining()),
        res matches Ok(column) ==> is_uniq_column::<u32>(&column, ok_values(ints.remaining())),
        res matches Err(e) ==> is_first_failure(ints.remaining(), e),
{
    rints2uniq2arrow_bt::<I, u32, E>(ints)
}

/// Tries to create the column of unique `u64` values from the integers.
pub fn ruints2uniq2arrow_bt64<I, E>(ints: I) -> (res: Result<UInt64Column, E>)
    where
        I: Iterator<Item = Result<u64, E>>,
    requires
        ints.obeys_prophetic_iter_laws(),
        ints.decrease() is Some,
    ensures
        res is Ok <==> all_ok(ints.remaining()),
        res matches Ok(column) ==> is_uniq_column::<u64>(&column, ok_values(ints.remaining())),
        res matches Err(e) ==> is_first_failure(ints.remaining(), e),
{
    rints2uniq2arrow_bt::<I, u64, E>(ints)
}

} // verus!
