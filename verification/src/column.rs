//! The columns: arrow arrays of the eight integer types, and what is known
//! of what they hold.

use arrow::array::PrimitiveArray;
use arrow::datatypes::Int16Type;
use arrow::datatypes::Int32Type;
use arrow::datatypes::Int64Type;
use arrow::datatypes::Int8Type;
use arrow::datatypes::UInt16Type;
use arrow::datatypes::UInt32Type;
use arrow::datatypes::UInt64Type;
use arrow::datatypes::UInt8Type;
use vstd::prelude::*;

use crate::native::NativeInt;

verus! {

/// The slots of a column that holds `values` in order and no null.
pub open spec fn present<T>(values: Seq<T>) -> Seq<Option<T>> {
    values.map_values(|v: T| Some(v))
}

/// A column of `i8`: an arrow `PrimitiveArray` of `Int8Type`. The array is
/// opaque to the verifier; `int8_slots` names what it holds.
#[verifier::external_body]
#[derive(Debug)]
pub struct Int8Column {
    array: PrimitiveArray<Int8Type>,
}

/// The slots of the column in order: `Some` with the value, or `None` for a
/// null slot.
pub uninterp spec fn int8_slots(column: Int8Column) -> Seq<Option<i8>>;

/// Calls `PrimitiveArray::from_iter_values`, which collects the items of the
/// iterator in order into the array's value buffer and gives the array no
/// null buffer: the column holds `values` in order, and no slot is null.
#[verifier::external_body]
fn int8_from_values(values: Vec<i8>) -> (column: Int8Column)
    ensures
        int8_slots(column) == present(values@),
{
    Int8Column { array: PrimitiveArray::from_iter_values(values) }
}

/// Calls `PrimitiveArray::iter`, which walks the slots from the first to the
/// last and gives `None` for a null slot and `Some` with the value for any
/// other: the result holds the slots of the column in order.
#[verifier::external_body]
fn int8_to_vec(column: &Int8Column) -> (slots: Vec<Option<i8>>)
    ensures
        slots@ == int8_slots(*column),
{
    column.array.iter().collect()
}

impl Int8Column {
    /// The slots of the column in order: `Some` with the value, or `None`
    /// for a null slot.
    pub fn to_vec(&self) -> (slots: Vec<Option<i8>>)
        ensures
            slots@ == int8_slots(*self),
    {
        int8_to_vec(self)
    }
}

/// A column of `i16`: an arrow `PrimitiveArray` of `Int16Type`. The array is
/// opaque to the verifier; `int16_slots` names what it holds.
#[verifier::external_body]
#[derive(Debug)]
pub struct Int16Column {
    array: PrimitiveArray<Int16Type>,
}

/// The slots of the column in order: `Some` with the value, or `None` for a
/// null slot.
pub uninterp spec fn int16_slots(column: Int16Column) -> Seq<Option<i16>>;

/// Calls `PrimitiveArray::from_iter_values`, which collects the items of the
/// iterator in order into the array's value buffer and gives the array no
/// null buffer: the column holds `values` in order, and no slot is null.
#[verifier::external_body]
fn int16_from_values(values: Vec<i16>) -> (column: Int16Column)
    ensures
        int16_slots(column) == present(values@),
{
    Int16Column { array: PrimitiveArray::from_iter_values(values) }
}

/// Calls `PrimitiveArray::iter`, which walks the slots from the first to the
/// last and gives `None` for a null slot and `Some` with the value for any
/// other: the result holds the slots of the column in order.
#[verifier::external_body]
fn int16_to_vec(column: &Int16Column) -> (slots: Vec<Option<i16>>)
    ensures
        slots@ == int16_slots(*column),
{
    column.array.iter().collect()
}

impl Int16Column {
    /// The slots of the column in order: `Some` with the value, or `None`
    /// for a null slot.
    pub fn to_vec(&self) -> (slots: Vec<Option<i16>>)
        ensures
            slots@ == int16_slots(*self),
    {
        int16_to_vec(self)
    }
}

/// A column of `i32`: an arrow `PrimitiveArray` of `Int32Type`. The array is
/// opaque to the verifier; `int32_slots` names what it holds.
#[verifier::external_body]
#[derive(Debug)]
pub struct Int32Column {
    array: PrimitiveArray<Int32Type>,
}

/// The slots of the column in order: `Some` with the value, or `None` for a
/// null slot.
pub uninterp spec fn int32_slots(column: Int32Column) -> Seq<Option<i32>>;

/// Calls `PrimitiveArray::from_iter_values`, which collects the items of the
/// iterator in order into the array's value buffer and gives the array no
/// null buffer: the column holds `values` in order, and no slot is null.
#[verifier::external_body]
fn int32_from_values(values: Vec<i32>) -> (column: Int32Column)
    ensures
        int32_slots(column) == present(values@),
{
    Int32Column { array: PrimitiveArray::from_iter_values(values) }
}

/// Calls `PrimitiveArray::iter`, which walks the slots from the first to the
/// last and gives `None` for a null slot and `Some` with the value for any
/// other: the result holds the slots of the column in order.
#[verifier::external_body]
fn int32_to_vec(column: &Int32Column) -> (slots: Vec<Option<i32>>)
    ensures
        slots@ == int32_slots(*column),
{
    column.array.iter().collect()
}

impl Int32Column {
    /// The slots of the column in order: `Some` with the value, or `None`
    /// for a null slot.
    pub fn to_vec(&self) -> (slots: Vec<Option<i32>>)
        ensures
            slots@ == int32_slots(*self),
    {
        int32_to_vec(self)
    }
}

/// A column of `i64`: an arrow `PrimitiveArray` of `Int64Type`. The array is
/// opaque to the verifier; `int64_slots` names what it holds.
#[verifier::external_body]
#[derive(Debug)]
pub struct Int64Column {
    array: PrimitiveArray<Int64Type>,
}

/// The slots of the column in order: `Some` with the value, or `None` for a
/// null slot.
pub uninterp spec fn int64_slots(column: Int64Column) -> Seq<Option<i64>>;

/// Calls `PrimitiveArray::from_iter_values`, which collects the items of the
/// iterator in order into the array's value buffer and gives the array no
/// null buffer: the column holds `values` in order, and no slot is null.
#[verifier::external_body]
fn int64_from_values(values: Vec<i64>) -> (column: Int64Column)
    ensures
        int64_slots(column) == present(values@),
{
    Int64Column { array: PrimitiveArray::from_iter_values(values) }
}

/// Calls `PrimitiveArray::iter`, which walks the slots from the first to the
/// last and gives `None` for a null slot and `Some` with the value for any
/// other: the result holds the slots of the column in order.
#[verifier::external_body]
fn int64_to_vec(column: &Int64Column) -> (slots: Vec<Option<i64>>)
    ensures
        slots@ == int64_slots(*column),
{
    column.array.iter().collect()
}

impl Int64Column {
    /// The slots of the column in order: `Some` with the value, or `None`
    /// for a null slot.
    pub fn to_vec(&self) -> (slots: Vec<Option<i64>>)
        ensures
            slots@ == int64_slots(*self),
    {
        int64_to_vec(self)
    }
}

/// A column of `u8`: an arrow `PrimitiveArray` of `UInt8Type`. The array is
/// opaque to the verifier; `uint8_slots` names what it holds.
#[verifier::external_body]
#[derive(Debug)]
pub struct UInt8Column {
    array: PrimitiveArray<UInt8Type>,
}

/// The slots of the column in order: `Some` with the value, or `None` for a
/// null slot.
pub uninterp spec fn uint8_slots(column: UInt8Column) -> Seq<Option<u8>>;

/// Calls `PrimitiveArray::from_iter_values`, which collects the items of the
/// iterator in order into the array's value buffer and gives the array no
/// null buffer: the column holds `values` in order, and no slot is null.
#[verifier::external_body]
fn uint8_from_values(values: Vec<u8>) -> (column: UInt8Column)
    ensures
        uint8_slots(column) == present(values@),
{
    UInt8Column { array: PrimitiveArray::from_iter_values(values) }
}

/// Calls `PrimitiveArray::iter`, which walks the slots from the first to the
/// last and gives `None` for a null slot and `Some` with the value for any
/// other: the result holds the slots of the column in order.
#[verifier::external_body]
fn uint8_to_vec(column: &UInt8Column) -> (slots: Vec<Option<u8>>)
    ensures
        slots@ == uint8_slots(*column),
{
    column.array.iter().collect()
}

impl UInt8Column {
    /// The slots of the column in order: `Some` with the value, or `None`
    /// for a null slot.
    pub fn to_vec(&self) -> (slots: Vec<Option<u8>>)
        ensures
            slots@ == uint8_slots(*self),
    {
        uint8_to_vec(self)
    }
}

/// A column of `u16`: an arrow `PrimitiveArray` of `UInt16Type`. The array is
/// opaque to the verifier; `uint16_slots` names what it holds.
#[verifier::external_body]
#[derive(Debug)]
pub struct UInt16Column {
    array: PrimitiveArray<UInt16Type>,
}

/// The slots of the column in order: `Some` with the value, or `None` for a
/// null slot.
pub uninterp spec fn uint16_slots(column: UInt16Column) -> Seq<Option<u16>>;

/// Calls `PrimitiveArray::from_iter_values`, which collects the items of the
/// iterator in order into the array's value buffer and gives the array no
/// null buffer: the column holds `values` in order, and no slot is null.
#[verifier::external_body]
fn uint16_from_values(values: Vec<u16>) -> (column: UInt16Column)
    ensures
        uint16_slots(column) == present(values@),
{
    UInt16Column { array: PrimitiveArray::from_iter_values(values) }
}

/// Calls `PrimitiveArray::iter`, which walks the slots from the first to the
/// last and gives `None` for a null slot and `Some` with the value for any
/// other: the result holds the slots of the column in order.
#[verifier::external_body]
fn uint16_to_vec(column: &UInt16Column) -> (slots: Vec<Option<u16>>)
    ensures
        slots@ == uint16_slots(*column),
{
    column.array.iter().collect()
}

impl UInt16Column {
    /// The slots of the column in order: `Some` with the value, or `None`
    /// for a null slot.
    pub fn to_vec(&self) -> (slots: Vec<Option<u16>>)
        ensures
            slots@ == uint16_slots(*self),
    {
        uint16_to_vec(self)
    }
}

/// A column of `u32`: an arrow `PrimitiveArray` of `UInt32Type`. The array is
/// opaque to the verifier; `uint32_slots` names what it holds.
#[verifier::external_body]
#[derive(Debug)]
pub struct UInt32Column {
    array: PrimitiveArray<UInt32Type>,
}

/// The slots of the column in order: `Some` with the value, or `None` for a
/// null slot.
pub uninterp spec fn uint32_slots(column: UInt32Column) -> Seq<Option<u32>>;

/// Calls `PrimitiveArray::from_iter_values`, which collects the items of the
/// iterator in order into the array's value buffer and gives the array no
/// null buffer: the column holds `values` in order, and no slot is null.
#[verifier::external_body]
fn uint32_from_values(values: Vec<u32>) -> (column: UInt32Column)
    ensures
        uint32_slots(column) == present(values@),
{
    UInt32Column { array: PrimitiveArray::from_iter_values(values) }
}

/// Calls `PrimitiveArray::iter`, which walks the slots from the first to the
/// last and gives `None` for a null slot and `Some` with the value for any
/// other: the result holds the slots of the column in order.
#[verifier::external_body]
fn uint32_to_vec(column: &UInt32Column) -> (slots: Vec<Option<u32>>)
    ensures
        slots@ == uint32_slots(*column),
{
    column.array.iter().collect()
}

impl UInt32Column {
    /// The slots of the column in order: `Some` with the value, or `None`
    /// for a null slot.
    pub fn to_vec(&self) -> (slots: Vec<Option<u32>>)
        ensures
            slots@ == uint32_slots(*self),
    {
        uint32_to_vec(self)
    }
}

/// A column of `u64`: an arrow `PrimitiveArray` of `UInt64Type`. The array is
/// opaque to the verifier; `uint64_slots` names what it holds.
#[verifier::external_body]
#[derive(Debug)]
pub struct UInt64Column {
    array: PrimitiveArray<UInt64Type>,
}

/// The slots of the column in order: `Some` with the value, or `None` for a
/// null slot.
pub uninterp spec fn uint64_slots(column: UInt64Column) -> Seq<Option<u64>>;

/// Calls `PrimitiveArray::from_iter_values`, which collects the items of the
/// iterator in order into the array's value buffer and gives the array no
/// null buffer: the column holds `values` in order, and no slot is null.
#[verifier::external_body]
fn uint64_from_values(values: Vec<u64>) -> (column: UInt64Column)
    ensures
        uint64_slots(column) == present(values@),
{
    UInt64Column { array: PrimitiveArray::from_iter_values(values) }
}

/// Calls `PrimitiveArray::iter`, which walks the slots from the first to the
/// last and gives `None` for a null slot and `Some` with the value for any
/// other: the result holds the slots of the column in order.
#[verifier::external_body]
fn uint64_to_vec(column: &UInt64Column) -> (slots: Vec<Option<u64>>)
    ensures
        slots@ == uint64_slots(*column),
{
    column.array.iter().collect()
}

impl UInt64Column {
    /// The slots of the column in order: `Some` with the value, or `None`
    /// for a null slot.
    pub fn to_vec(&self) -> (slots: Vec<Option<u64>>)
        ensures
            slots@ == uint64_slots(*self),
    {
        uint64_to_vec(self)
    }
}

/// A machine integer with its column type.
pub trait ColumnInt: NativeInt {
    /// The column type for the integer.
    type Column;

    /// The slots of `column` in order: `Some` with the value, or `None` for
    /// a null slot.
    spec fn slots(column: &Self::Column) -> Seq<Option<Self>>;

    /// Builds the column that holds `values` in order and no null.
    fn column_of(values: Vec<Self>) -> (column: Self::Column)
        ensures
            Self::slots(&column) == present(values@),
    ;
}

impl ColumnInt for i8 {
    type Column = Int8Column;

    open spec fn slots(column: &Int8Column) -> Seq<Option<i8>> {
        int8_slots(*column)
    }

    fn column_of(values: Vec<i8>) -> (column: Int8Column) {
        int8_from_values(values)
    }
}

impl ColumnInt for i16 {
    type Column = Int16Column;

    open spec fn slots(column: &Int16Column) -> Seq<Option<i16>> {
        int16_slots(*column)
    }

    fn column_of(values: Vec<i16>) -> (column: Int16Column) {
        int16_from_values(values)
    }
}

impl ColumnInt for i32 {
    type Column = Int32Column;

    open spec fn slots(column: &Int32Column) -> Seq<Option<i32>> {
        int32_slots(*column)
    }

    fn column_of(values: Vec<i32>) -> (column: Int32Column) {
        int32_from_values(values)
    }
}

impl ColumnInt for i64 {
    type Column = Int64Column;

    open spec fn slots(column: &Int64Column) -> Seq<Option<i64>> {
        int64_slots(*column)
    }

    fn column_of(values: Vec<i64>) -> (column: Int64Column) {
        int64_from_values(values)
    }
}

impl ColumnInt for u8 {
    type Column = UInt8Column;

    open spec fn slots(column: &UInt8Column) -> Seq<Option<u8>> {
        uint8_slots(*column)
    }

    fn column_of(values: Vec<u8>) -> (column: UInt8Column) {
        uint8_from_values(values)
    }
}

impl ColumnInt for u16 {
    type Column = UInt16Column;

    open spec fn slots(column: &UInt16Column) -> Seq<Option<u16>> {
        uint16_slots(*column)
    }

    fn column_of(values: Vec<u16>) -> (column: UInt16Column) {
        uint16_from_values(values)
    }
}

impl ColumnInt for u32 {
    type Column = UInt32Column;

    open spec fn slots(column: &UInt32Column) -> Seq<Option<u32>> {
        uint32_slots(*column)
    }

    fn column_of(values: Vec<u32>) -> (column: UInt32Column) {
        uint32_from_values(values)
    }
}

impl ColumnInt for u64 {
    type Column = UInt64Column;

    open spec fn slots(column: &UInt64Column) -> Seq<Option<u64>> {
        uint64_slots(*column)
    }

    fn column_of(values: Vec<u64>) -> (column: UInt64Column) {
        uint64_from_values(values)
    }
}

/// Whether no slot of `column` is null.
pub open spec fn null_free<T: ColumnInt>(column: &T::Column) -> bool {
    forall|i: int| 0 <= i < T::slots(column).len() ==> (#[trigger] T::slots(column)[i]) is Some
}

/// The values in the slots of `column`, in order. For a null slot the value
/// is arbitrary: this speaks of columns that are `null_free`.
pub open spec fn values<T: ColumnInt>(column: &T::Column) -> Seq<T> {
    T::slots(column).map_values(|slot: Option<T>| slot->Some_0)
}

/// A column whose slots are those of a sequence of values holds the values
/// and is free of nulls.
pub proof fn lemma_present<T: ColumnInt>(column: &T::Column, seq: Seq<T>)
    requires
        T::slots(column) == present(seq),
    ensures
        null_free::<T>(column),
        values::<T>(column) == seq,
{
    assert(values::<T>(column) =~= seq);
}

} // verus!
