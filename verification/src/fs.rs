//! Reading a source of packed records: what one pull gives, the integers
//! of a source held in memory, and the column of their unique values.

use std::collections::BTreeSet;
use vstd::arithmetic::div_mod::lemma_fundamental_div_mod;
use vstd::arithmetic::div_mod::lemma_fundamental_div_mod_converse;
use vstd::prelude::*;

use crate::all_ok;
use crate::column::values;
use crate::column::ColumnInt;
use crate::column::Int16Column;
use crate::column::Int32Column;
use crate::column::Int64Column;
use crate::column::Int8Column;
use crate::column::UInt16Column;
use crate::column::UInt32Column;
use crate::column::UInt64Column;
use crate::column::UInt8Column;
use crate::decode::decode;
use crate::decode::lemma_decode_in_range;
use crate::decode::Endian;
use crate::is_first_failure;
use crate::is_uniq_column;
use crate::native::NativeInt;
use crate::ok_values;
use crate::order::lemma_column_cardinality;
use crate::uniq2arrow_bt;

pub mod helper_reader2ints;

verus! {

/// The source ended inside a record: its length is not a multiple of the
/// record width.
#[derive(Clone, Copy, Debug, PartialEq, Eq, Structural)]
pub struct TruncatedRecord {
    /// Where the incomplete record starts in the source.
    pub offset: usize,
    /// How many bytes of it the source holds: at least one, and fewer than
    /// a record has.
    pub len: usize,
}

/// The `i`-th record of `width` bytes in `rdr`.
pub open spec fn record(rdr: Seq<u8>, i: int, width: int) -> Seq<u8> {
    rdr.subrange(i * width, (i + 1) * width)
}

/// How many complete records of `width` bytes a source of `len` bytes holds.
pub open spec fn whole_records(len: nat, width: nat) -> nat {
    len / width
}

/// How many bytes follow the last complete record.
pub open spec fn leftover(len: nat, width: nat) -> nat {
    len % width
}

/// The failure that a source of `len` bytes ends with when `len` is not a
/// multiple of `width`.
pub open spec fn truncation(len: nat, width: nat) -> TruncatedRecord {
    TruncatedRecord {
        offset: (len - leftover(len, width)) as usize,
        len: leftover(len, width) as usize,
    }
}

/// `v` is what `buf2int` made of the record `bytes`.
pub open spec fn maps_record<F, const N: usize, T>(v: T, bytes: Seq<u8>, buf2int: F) -> bool
    where
        F: Fn([u8; N]) -> T,
{
    exists|buf: [u8; N]| buf@ == bytes && #[trigger] call_ensures(buf2int, (buf,), v)
}

/// `ints` holds, in source order, what `buf2int` made of each complete
/// record of `rdr`.
pub open spec fn maps_records<F, const N: usize, T>(ints: Seq<T>, rdr: Seq<u8>, buf2int: F) -> bool
    where
        F: Fn([u8; N]) -> T,
{
    &&& ints.len() == whole_records(rdr.len(), N as nat)
    &&& forall|i: int|
        0 <= i < ints.len() ==> maps_record(#[trigger] ints[i], record(rdr, i, N as int), buf2int)
}

/// The integers that the complete records of `rdr` spell, in source order,
/// read as values of `T` in the given byte order.
pub open spec fn decoded<T: NativeInt>(rdr: Seq<u8>, endian: Endian) -> Seq<T> {
    Seq::new(
        whole_records(rdr.len(), T::width()),
        |i: int| T::of_int(decode(record(rdr, i, T::width() as int), T::signed(), endian)),
    )
}

/// What reading `rdr` to its end gives: the integers of the complete
/// records and, where bytes are left over, the failure after them.
pub open spec fn decoding<T: NativeInt>(rdr: Seq<u8>, endian: Endian) -> Seq<
    Result<T, TruncatedRecord>,
> {
    let ints = decoded::<T>(rdr, endian).map_values(|v: T| Ok::<T, TruncatedRecord>(v));
    if leftover(rdr.len(), T::width()) == 0 {
        ints
    } else {
        ints.push(Err(truncation(rdr.len(), T::width())))
    }
}

/// The `i`-th complete record lies within the source and has `width` bytes.
proof fn lemma_record_within(len: nat, width: nat, i: int)
    requires
        width > 0,
        0 <= i < whole_records(len, width),
    ensures
        0 <= i * width,
        (i + 1) * width <= len,
        (i + 1) * width - i * width == width,
{
    let whole = len as int / width as int;
    lemma_fundamental_div_mod(len as int, width as int);
    assert(0 <= i * width && (i + 1) * width <= width * whole && (i + 1) * width - i * width
        == width) by (nonlinear_arith)
        requires
            width > 0,
            0 <= i < whole,
    ;
}

/// The `i`-th item of `decoded` stands for the integer that the `i`-th
/// record spells.
pub proof fn lemma_decoded_value<T: NativeInt>(rdr: Seq<u8>, endian: Endian, i: int)
    requires
        0 <= i < whole_records(rdr.len(), T::width()),
    ensures
        decoded::<T>(rdr, endian).len() == whole_records(rdr.len(), T::width()),
        decoded::<T>(rdr, endian)[i].int_value() == decode(
            record(rdr, i, T::width() as int),
            T::signed(),
            endian,
        ),
{
    let width = T::width();
    let bytes = record(rdr, i, width as int);
    T::lemma_range(arbitrary());
    lemma_record_within(rdr.len(), width, i);
    lemma_decode_in_range(bytes, T::signed(), endian);
    T::lemma_of_int(decode(bytes, T::signed(), endian));
}

/// Reading a source that ends on a record boundary gives its integers and
/// no failure; reading any other gives the failure as the first and only
/// one, after the integers of the complete records.
pub proof fn lemma_decoding<T: NativeInt>(rdr: Seq<u8>, endian: Endian)
    ensures
        all_ok(decoding::<T>(rdr, endian)) <==> leftover(rdr.len(), T::width()) == 0,
        leftover(rdr.len(), T::width()) == 0 ==> ok_values(decoding::<T>(rdr, endian))
            == decoded::<T>(rdr, endian),
        leftover(rdr.len(), T::width()) != 0 ==> is_first_failure(
            decoding::<T>(rdr, endian),
            truncation(rdr.len(), T::width()),
        ),
{
    let all = decoding::<T>(rdr, endian);
    let ints = decoded::<T>(rdr, endian);
    if leftover(rdr.len(), T::width()) == 0 {
        assert(ok_values(all) =~= ints);
    } else {
        let k = ints.len() as int;
        assert(all[k] == Err::<T, TruncatedRecord>(truncation(rdr.len(), T::width())));
        assert(all_ok(all.take(k)));
    }
}

/// What one pull on a source gives.
#[derive(Clone, Copy, Debug, PartialEq, Eq)]
pub enum Pull<T> {
    /// A complete record was read: the integer that it maps to.
    Item(T),
    /// The source ended on a record boundary: the sequence is over.
    End,
    /// The source ended inside a record.
    Truncated(TruncatedRecord),
}

/// Decides what a pull gives that asked the source for the `N` bytes of
/// the record at `offset` and got `got` of them before the source ended.
/// `buf` holds the bytes that were read, from its start.
///
/// All `N` bytes give the integer that `buf2int` makes of the record. No
/// byte at all is the end of the sequence, and no failure. Anything in
/// between is a record that the end of the source cut off.
pub fn pull<F, const N: usize, T>(buf: [u8; N], got: usize, offset: usize, buf2int: &F) -> (step:
    Pull<T>)
    where
        F: Fn([u8; N]) -> T,
    requires
        got <= N,
        call_requires(*buf2int, (buf,)),
    ensures
        got == N ==> (step matches Pull::Item(v) && call_ensures(*buf2int, (buf,), v)),
        got < N ==> step == if got == 0 {
            Pull::<T>::End
        } else {
            Pull::<T>::Truncated(TruncatedRecord { offset, len: got })
        },
{
    if got == N {
        Pull::Item(buf2int(buf))
    } else if got == 0 {
        Pull::End
    } else {
        Pull::Truncated(TruncatedRecord { offset, len: got })
    }
}

/// Copies the first `got` bytes at `pos` out of the source into a record
/// buffer. The rest of the buffer is zero.
fn read_record<const N: usize>(rdr: &[u8], pos: usize, got: usize) -> (buf: [u8; N])
    requires
        got <= N,
        pos + got <= rdr@.len(),
    ensures
        buf@.subrange(0, got as int) == rdr@.subrange(pos as int, pos + got),
{
    let total = rdr.len();
    let mut buf: [u8; N] = [0u8; N];
    let mut j: usize = 0;
    while j < got
        invariant
            j <= got <= N,
            pos + got <= total,
            total == rdr@.len(),
            forall|k: int| 0 <= k < j ==> buf@[k] == rdr@[pos + k],
        decreases got - j,
    {
        buf[j] = rdr[pos + j];
        j += 1;
    }
    assert(buf@.subrange(0, got as int) =~= rdr@.subrange(pos as int, pos + got));
    buf
}

/// Cuts the source into records of `N` bytes and maps each to an integer
/// with `buf2int`, in source order: the items that pulling on the source
/// gives until it is over.
///
/// Every complete record gives `Ok` with what `buf2int` made of it. A source
/// that ends on a record boundary gives nothing more; one that ends inside a
/// record gives one last item, the failure, and no value for the partial
/// record.
pub fn rdr2ints<F, const N: usize, T>(rdr: &[u8], buf2int: F) -> (ints: Vec<
    Result<T, TruncatedRecord>,
>)
    where
        F: Fn([u8; N]) -> T,
    requires
        N > 0,
        forall|buf: [u8; N]| call_requires(buf2int, (buf,)),
    ensures
        ints@.len() == whole_records(rdr@.len(), N as nat) + if leftover(rdr@.len(), N as nat)
            == 0 {
            0nat
        } else {
            1nat
        },
        all_ok(ints@.take(whole_records(rdr@.len(), N as nat) as int)),
        maps_records(
            ok_values(ints@.take(whole_records(rdr@.len(), N as nat) as int)),
            rdr@,
            buf2int,
        ),
        leftover(rdr@.len(), N as nat) != 0 ==> ints@[whole_records(rdr@.len(), N as nat) as int]
            == Err::<T, TruncatedRecord>(truncation(rdr@.len(), N as nat)),
{
    let total = rdr.len();
    let mut ints: Vec<Result<T, TruncatedRecord>> = Vec::new();
    let mut pos: usize = 0;
    let ghost mut whole: Seq<Result<T, TruncatedRecord>> = Seq::empty();
    assert(0 * N == 0) by (nonlinear_arith);
    loop
        invariant_except_break
            ints@ == whole,
        invariant
            N > 0,
            total == rdr@.len(),
            pos <= total,
            pos == whole.len() * N,
            forall|buf: [u8; N]| call_requires(buf2int, (buf,)),
            forall|i: int|
                0 <= i < whole.len() ==> (#[trigger] whole[i] matches Ok(v) && maps_record(
                    v,
                    record(rdr@, i, N as int),
                    buf2int,
                )),
        ensures
            total - pos < N,
            ints@ == if pos == total {
                whole
            } else {
                whole.push(Err(TruncatedRecord { offset: pos, len: (total - pos) as usize }))
            },
        decreases total - pos,
    {
        let got = if total - pos >= N {
            N
        } else {
            total - pos
        };
        let buf = read_record::<N>(rdr, pos, got);
        let ghost done = whole.len() as int;
        assert((done + 1) * N == pos + N) by (nonlinear_arith)
            requires
                pos == done * N,
        ;
        match pull(buf, got, pos, &buf2int) {
            Pull::Item(v) => {
                proof {
                    assert(buf@.subrange(0, N as int) =~= buf@);
                    whole = whole.push(Ok(v));
                }
                ints.push(Ok(v));
                pos += N;
            },
            Pull::End => {
                break ;
            },
            Pull::Truncated(e) => {
                ints.push(Err(e));
                break ;
            },
        }
    }
    proof {
        lemma_fundamental_div_mod_converse(total as int, N as int, whole.len() as int, total - pos);
        assert(ints@.take(whole.len() as int) =~= whole);
        assert forall|i: int| 0 <= i < whole.len() implies maps_record(
            #[trigger] ok_values(whole)[i],
            record(rdr@, i, N as int),
            buf2int,
        ) by {
            assert(whole[i] is Ok);
        }
    }
    ints
}

/// Reads the source to its end and reduces the integers of its records to
/// the column of their unique values in ascending order.
///
/// The records are mapped one by one, in source order, and each integer
/// goes into the ordered set at once. A source whose length is a multiple
/// of the record width gives the column, also when it is empty; any other
/// gives the failure and no column.
pub fn rdr2arrow<F, const N: usize, T>(rdr: &[u8], buf2int: F) -> (res: Result<
    T::Column,
    TruncatedRecord,
>)
    where
        T: ColumnInt,
        F: Fn([u8; N]) -> T,
    requires
        N > 0,
        forall|buf: [u8; N]| call_requires(buf2int, (buf,)),
    ensures
        res is Ok <==> leftover(rdr@.len(), N as nat) == 0,
        res matches Err(e) ==> e == truncation(rdr@.len(), N as nat),
        res matches Ok(column) ==> exists|ints: Seq<T>|
            maps_records(ints, rdr@, buf2int) && #[trigger] is_uniq_column::<T>(&column, ints),
        rdr@.len() == 0 ==> (res matches Ok(column) && values::<T>(&column).len() == 0),
{
    let total = rdr.len();
    let mut uniq: BTreeSet<T> = BTreeSet::new();
    let ghost mut ints: Seq<T> = Seq::empty();
    let mut pos: usize = 0;
    assert(0 * N == 0) by (nonlinear_arith);
    while total - pos >= N
        invariant
            N > 0,
            total == rdr@.len(),
            pos <= total,
            pos == ints.len() * N,
            forall|buf: [u8; N]| call_requires(buf2int, (buf,)),
            forall|i: int|
                0 <= i < ints.len() ==> maps_record(
                    #[trigger] ints[i],
                    record(rdr@, i, N as int),
                    buf2int,
                ),
            uniq@ == ints.to_set(),
        decreases total - pos,
    {
        let buf = read_record::<N>(rdr, pos, N);
        let ghost done = ints.len() as int;
        assert((done + 1) * N == pos + N) by (nonlinear_arith)
            requires
                pos == done * N,
        ;
        let v = buf2int(buf);
        proof {
            assert(buf@.subrange(0, N as int) =~= buf@);
            T::lemma_order(v, v);
            ints.lemma_push_to_set_commute(v);
            ints = ints.push(v);
        }
        uniq.insert(v);
        pos += N;
    }
    proof {
        lemma_fundamental_div_mod_converse(total as int, N as int, ints.len() as int, total - pos);
    }
    if pos < total {
        return Err(TruncatedRecord { offset: pos, len: total - pos });
    }
    let res: Result<T::Column, TruncatedRecord> = Ok(uniq2arrow_bt(uniq));
    proof {
        let column = res->Ok_0;
        assert(maps_records(ints, rdr@, buf2int) && is_uniq_column::<T>(&column, ints));
        lemma_column_cardinality(values::<T>(&column), ints);
    }
    res
}

/// Reads the source as records of `T` in the given byte order.
pub(crate) fn rdr2native<const N: usize, T: NativeInt>(rdr: &[u8], endian: Endian) -> (ints: Vec<
    Result<T, TruncatedRecord>,
>)
    requires
        N == T::width(),
    ensures
        ints@ == decoding::<T>(rdr@, endian),
{
    let buf2int = |buf: [u8; N]| -> (v: T)
        ensures
            v == T::of_int(decode(buf@, T::signed(), endian)),
        { T::from_bytes(buf.as_slice(), endian) };
    proof {
        T::lemma_range(arbitrary());
    }
    let ints = rdr2ints(rdr, buf2int);
    proof {
        let whole = whole_records(rdr@.len(), N as nat) as int;
        let oks = ok_values(ints@.take(whole));
        assert forall|i: int| 0 <= i < whole implies ints@[i] == decoding::<T>(rdr@, endian)[i] by {
            assert(ints@.take(whole)[i] is Ok);
            assert(maps_record(oks[i], record(rdr@, i, N as int), buf2int));
        }
        assert(ints@ =~= decoding::<T>(rdr@, endian));
    }
    ints
}

/// Reads the source as records of `T` in the given byte order and reduces
/// the integers to the column of their unique values.
fn rdr2native_arrow<const N: usize, T: ColumnInt>(rdr: &[u8], endian: Endian) -> (res: Result<
    T::Column,
    TruncatedRecord,
>)
    requires
        N == T::width(),
    ensures
        res is Ok <==> leftover(rdr@.len(), T::width()) == 0,
        res matches Err(e) ==> e == truncation(rdr@.len(), T::width()),
        res matches Ok(column) ==> is_uniq_column::<T>(&column, decoded::<T>(rdr@, endian)),
        rdr@.len() == 0 ==> (res matches Ok(column) && values::<T>(&column).len() == 0),
{
    let buf2int = |buf: [u8; N]| -> (v: T)
        ensures
            v == T::of_int(decode(buf@, T::signed(), endian)),
        { T::from_bytes(buf.as_slice(), endian) };
    proof {
        T::lemma_range(arbitrary());
    }
    let res = rdr2arrow::<_, N, T>(rdr, buf2int);
    proof {
        if let Ok(column) = &res {
            let ints = choose|ints: Seq<T>|
                maps_records(ints, rdr@, buf2int) && #[trigger] is_uniq_column::<T>(column, ints);
            assert forall|i: int| 0 <= i < ints.len() implies ints[i] == decoded::<T>(
                rdr@,
                endian,
            )[i] by {
                assert(maps_record(ints[i], record(rdr@, i, N as int), buf2int));
            }
            assert(ints =~= decoded::<T>(rdr@, endian));
        }
    }
    res
}

/// Reads the source as little-endian `i8` records and converts it to the
/// column of their unique values.
pub fn rdr2arrow_i8le(rdr: &[u8]) -> (res: Result<Int8Column, TruncatedRecord>)
    ensures
        res is Ok <==> leftover(rdr@.len(), 1) == 0,
        res matches Err(e) ==> e == truncation(rdr@.len(), 1),
        res matches Ok(column) ==> is_uniq_column::<i8>(
            &column,
            decoded::<i8>(rdr@, Endian::Little),
        ),
        rdr@.len() == 0 ==> (res matches Ok(column) && values::<i8>(&column).len() == 0),
{
    rdr2native_arrow::<1, i8>(rdr, Endian::Little)
}

/// Reads the source as little-endian `i16` records and converts it to the
/// column of their unique values.
pub fn rdr2arrow_i16le(rdr: &[u8]) -> (res: Result<Int16Column, TruncatedRecord>)
    ensures
        res is Ok <==> leftover(rdr@.len(), 2) == 0,
        res matches Err(e) ==> e == truncation(rdr@.len(), 2),
        res matches Ok(column) ==> is_uniq_column::<i16>(
            &column,
            decoded::<i16>(rdr@, Endian::Little),
        ),
        rdr@.len() == 0 ==> (res matches Ok(column) && values::<i16>(&column).len() == 0),
{
    rdr2native_arrow::<2, i16>(rdr, Endian::Little)
}

/// Reads the source as little-endian `i32` records and converts it to the
/// column of their unique values.
pub fn rdr2arrow_i32le(rdr: &[u8]) -> (res: Result<Int32Column, TruncatedRecord>)
    ensures
        res is Ok <==> leftover(rdr@.len(), 4) == 0,
        res matches Err(e) ==> e == truncation(rdr@.len(), 4),
        res matches Ok(column) ==> is_uniq_column::<i32>(
            &column,
            decoded::<i32>(rdr@, Endian::Little),
        ),
        rdr@.len() == 0 ==> (res matches Ok(column) && values::<i32>(&column).len() == 0),
{
    rdr2native_arrow::<4, i32>(rdr, Endian::Little)
}

/// Reads the source as little-endian `i64` records and converts it to the
/// column of their unique values.
pub fn rdr2arrow_i64le(rdr: &[u8]) -> (res: Result<Int64Column, TruncatedRecord>)
    ensures
        res is Ok <==> leftover(rdr@.len(), 8) == 0,
        res matches Err(e) ==> e == truncation(rdr@.len(), 8),
        res matches Ok(column) ==> is_uniq_column::<i64>(
            &column,
            decoded::<i64>(rdr@, Endian::Little),
        ),
        rdr@.len() == 0 ==> (res matches Ok(column) && values::<i64>(&column).len() == 0),
{
    rdr2native_arrow::<8, i64>(rdr, Endian::Little)
}

/// Reads the source as little-endian `u8` records and converts it to the
/// column of their unique values.
pub fn rdr2arrow_u8le(rdr: &[u8]) -> (res: Result<UInt8Column, TruncatedRecord>)
    ensures
        res is Ok <==> leftover(rdr@.len(), 1) == 0,
        res matches Err(e) ==> e == truncation(rdr@.len(), 1),
        res matches Ok(column) ==> is_uniq_column::<u8>(
            &column,
            decoded::<u8>(rdr@, Endian::Little),
        ),
        rdr@.len() == 0 ==> (res matches Ok(column) && values::<u8>(&column).len() == 0),
{
    rdr2native_arrow::<1, u8>(rdr, Endian::Little)
}

/// Reads the source as little-endian `u16` records and converts it to the
/// column of their unique values.
pub fn rdr2arrow_u16le(rdr: &[u8]) -> (res: Result<UInt16Column, TruncatedRecord>)
    ensures
        res is Ok <==> leftover(rdr@.len(), 2) == 0,
        res matches Err(e) ==> e == truncation(rdr@.len(), 2),
        res matches Ok(column) ==> is_uniq_column::<u16>(
            &column,
            decoded::<u16>(rdr@, Endian::Little),
        ),
        rdr@.len() == 0 ==> (res matches Ok(column) && values::<u16>(&column).len() == 0),
{
    rdr2native_arrow::<2, u16>(rdr, Endian::Little)
}

/// Reads the source as little-endian `u32` records and converts it to the
/// column of their unique values.
pub fn rdr2arrow_u32le(rdr: &[u8]) -> (res: Result<UInt32Column, TruncatedRecord>)
    ensures
        res is Ok <==> leftover(rdr@.len(), 4) == 0,
        res matches Err(e) ==> e == truncation(rdr@.len(), 4),
        res matches Ok(column) ==> is_uniq_column::<u32>(
            &column,
            decoded::<u32>(rdr@, Endian::Little),
        ),
        rdr@.len() == 0 ==> (res matches Ok(column) && values::<u32>(&column).len() == 0),
{
    rdr2native_arrow::<4, u32>(rdr, Endian::Little)
}

/// Reads the source as little-endian `u64` records and converts it to the
/// column of their unique values.
pub fn rdr2arrow_u64le(rdr: &[u8]) -> (res: Result<UInt64Column, TruncatedRecord>)
    ensures
        res is Ok <==> leftover(rdr@.len(), 8) == 0,
        res matches Err(e) ==> e == truncation(rdr@.len(), 8),
        res matches Ok(column) ==> is_uniq_column::<u64>(
            &column,
            decoded::<u64>(rdr@, Endian::Little),
        ),
        rdr@.len() == 0 ==> (res matches Ok(column) && values::<u64>(&column).len() == 0),
{
    rdr2native_arrow::<8, u64>(rdr, Endian::Little)
}

/// Reads the source as big-endian `i8` records and converts it to the
/// column of their unique values.
pub fn rdr2arrow_i8be(rdr: &[u8]) -> (res: Result<Int8Column, TruncatedRecord>)
    ensures
        res is Ok <==> leftover(rdr@.len(), 1) == 0,
        res matches Err(e) ==> e == truncation(rdr@.len(), 1),
        res matches Ok(column) ==> is_uniq_column::<i8>(
            &column,
            decoded::<i8>(rdr@, Endian::Big),
        ),
        rdr@.len() == 0 ==> (res matches Ok(column) && values::<i8>(&column).len() == 0),
{
    rdr2native_arrow::<1, i8>(rdr, Endian::Big)
}

/// Reads the source as big-endian `i16` records and converts it to the
/// column of their unique values.
pub fn rdr2arrow_i16be(rdr: &[u8]) -> (res: Result<Int16Column, TruncatedRecord>)
    ensures
        res is Ok <==> leftover(rdr@.len(), 2) == 0,
        res matches Err(e) ==> e == truncation(rdr@.len(), 2),
        res matches Ok(column) ==> is_uniq_column::<i16>(
            &column,
            decoded::<i16>(rdr@, Endian::Big),
        ),
        rdr@.len() == 0 ==> (res matches Ok(column) && values::<i16>(&column).len() == 0),
{
    rdr2native_arrow::<2, i16>(rdr, Endian::Big)
}

/// Reads the source as big-endian `i32` records and converts it to the
/// column of their unique values.
pub fn rdr2arrow_i32be(rdr: &[u8]) -> (res: Result<Int32Column, TruncatedRecord>)
    ensures
        res is Ok <==> leftover(rdr@.len(), 4) == 0,
        res matches Err(e) ==> e == truncation(rdr@.len(), 4),
        res matches Ok(column) ==> is_uniq_column::<i32>(
            &column,
            decoded::<i32>(rdr@, Endian::Big),
        ),
        rdr@.len() == 0 ==> (res matches Ok(column) && values::<i32>(&column).len() == 0),
{
    rdr2native_arrow::<4, i32>(rdr, Endian::Big)
}

/// Reads the source as big-endian `i64` records and converts it to the
/// column of their unique values.
pub fn rdr2arrow_i64be(rdr: &[u8]) -> (res: Result<Int64Column, TruncatedRecord>)
    ensures
        res is Ok <==> leftover(rdr@.len(), 8) == 0,
        res matches Err(e) ==> e == truncation(rdr@.len(), 8),
        res matches Ok(column) ==> is_uniq_column::<i64>(
            &column,
            decoded::<i64>(rdr@, Endian::Big),
        ),
        rdr@.len() == 0 ==> (res matches Ok(column) && values::<i64>(&column).len() == 0),
{
    rdr2native_arrow::<8, i64>(rdr, Endian::Big)
}

/// Reads the source as big-endian `u8` records and converts it to the
/// column of their unique values.
pub fn rdr2arrow_u8be(rdr: &[u8]) -> (res: Result<UInt8Column, TruncatedRecord>)
    ensures
        res is Ok <==> leftover(rdr@.len(), 1) == 0,
        res matches Err(e) ==> e == truncation(rdr@.len(), 1),
        res matches Ok(column) ==> is_uniq_column::<u8>(
            &column,
            decoded::<u8>(rdr@, Endian::Big),
        ),
        rdr@.len() == 0 ==> (res matches Ok(column) && values::<u8>(&column).len() == 0),
{
    rdr2native_arrow::<1, u8>(rdr, Endian::Big)
}

/// Reads the source as big-endian `u16` records and converts it to the
/// column of their unique values.
pub fn rdr2arrow_u16be(rdr: &[u8]) -> (res: Result<UInt16Column, TruncatedRecord>)
    ensures
        res is Ok <==> leftover(rdr@.len(), 2) == 0,
        res matches Err(e) ==> e == truncation(rdr@.len(), 2),
        res matches Ok(column) ==> is_uniq_column::<u16>(
            &column,
            decoded::<u16>(rdr@, Endian::Big),
        ),
        rdr@.len() == 0 ==> (res matches Ok(column) && values::<u16>(&column).len() == 0),
{
    rdr2native_arrow::<2, u16>(rdr, Endian::Big)
}

/// Reads the source as big-endian `u32` records and converts it to the
/// column of their unique values.
pub fn rdr2arrow_u32be(rdr: &[u8]) -> (res: Result<UInt32Column, TruncatedRecord>)
    ensures
        res is Ok <==> leftover(rdr@.len(), 4) == 0,
        res matches Err(e) ==> e == truncation(rdr@.len(), 4),
        res matches Ok(column) ==> is_uniq_column::<u32>(
            &column,
            decoded::<u32>(rdr@, Endian::Big),
        ),
        rdr@.len() == 0 ==> (res matches Ok(column) && values::<u32>(&column).len() == 0),
{
    rdr2native_arrow::<4, u32>(rdr, Endian::Big)
}

/// Reads the source as big-endian `u64` records and converts it to the
/// column of their unique values.
pub fn rdr2arrow_u64be(rdr: &[u8]) -> (res: Result<UInt64Column, TruncatedRecord>)
    ensures
        res is Ok <==> leftover(rdr@.len(), 8) == 0,
        res matches Err(e) ==> e == truncation(rdr@.len(), 8),
        res matches Ok(column) ==> is_uniq_column::<u64>(
            &column,
            decoded::<u64>(rdr@, Endian::Big),
        ),
        rdr@.len() == 0 ==> (res matches Ok(column) && values::<u64>(&column).len() == 0),
{
    rdr2native_arrow::<8, u64>(rdr, Endian::Big)
}

} // verus!
