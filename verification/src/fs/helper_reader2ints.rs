//! One reader for each integer type and byte order.

use vstd::prelude::*;

use crate::decode::Endian;
use crate::fs::decoding;
use crate::fs::rdr2native;
use crate::fs::TruncatedRecord;

verus! {

/// Reads the source as little-endian `i8` records.
pub fn rdr2ints8le(rdr: &[u8]) -> (ints: Vec<Result<i8, TruncatedRecord>>)
    ensures
        ints@ == decoding::<i8>(rdr@, Endian::Little),
{
    rdr2native::<1, i8>(rdr, Endian::Little)
}

/// Reads the source as little-endian `i16` records.
pub fn rdr2ints16le(rdr: &[u8]) -> (ints: Vec<Result<i16, TruncatedRecord>>)
    ensures
        ints@ == decoding::<i16>(rdr@, Endian::Little),
{
    rdr2native::<2, i16>(rdr, Endian::Little)
}

/// Reads the source as little-endian `i32` records.
pub fn rdr2ints32le(rdr: &[u8]) -> (ints: Vec<Result<i32, TruncatedRecord>>)
    ensures
        ints@ == decoding::<i32>(rdr@, Endian::Little),
{
    rdr2native::<4, i32>(rdr, Endian::Little)
}

/// Reads the source as little-endian `i64` records.
pub fn rdr2ints64le(rdr: &[u8]) -> (ints: Vec<Result<i64, TruncatedRecord>>)
    ensures
        ints@ == decoding::<i64>(rdr@, Endian::Little),
{
    rdr2native::<8, i64>(rdr, Endian::Little)
}

/// Reads the source as little-endian `u8` records.
pub fn rdr2uints8le(rdr: &[u8]) -> (ints: Vec<Result<u8, TruncatedRecord>>)
    ensures
        ints@ == decoding::<u8>(rdr@, Endian::Little),
{
    rdr2native::<1, u8>(rdr, Endian::Little)
}

/// Reads the source as little-endian `u16` records.
pub fn rdr2uints16le(rdr: &[u8]) -> (ints: Vec<Result<u16, TruncatedRecord>>)
    ensures
        ints@ == decoding::<u16>(rdr@, Endian::Little),
{
    rdr2native::<2, u16>(rdr, Endian::Little)
}

/// Reads the source as little-endian `u32` records.
pub fn rdr2uints32le(rdr: &[u8]) -> (ints: Vec<Result<u32, TruncatedRecord>>)
    ensures
        ints@ == decoding::<u32>(rdr@, Endian::Little),
{
    rdr2native::<4, u32>(rdr, Endian::Little)
}

/// Reads the source as little-endian `u64` records.
pub fn rdr2uints64le(rdr: &[u8]) -> (ints: Vec<Result<u64, TruncatedRecord>>)
    ensures
        ints@ == decoding::<u64>(rdr@, Endian::Little),
{
    rdr2native::<8, u64>(rdr, Endian::Little)
}

/// Reads the source as big-endian `i8` records.
pub fn rdr2ints8be(rdr: &[u8]) -> (ints: Vec<Result<i8, TruncatedRecord>>)
    ensures
        ints@ == decoding::<i8>(rdr@, Endian::Big),
{
    rdr2native::<1, i8>(rdr, Endian::Big)
}

/// Reads the source as big-endian `i16` records.
pub fn rdr2ints16be(rdr: &[u8]) -> (ints: Vec<Result<i16, TruncatedRecord>>)
    ensures
        ints@ == decoding::<i16>(rdr@, Endian::Big),
{
    rdr2native::<2, i16>(rdr, Endian::Big)
}

/// Reads the source as big-endian `i32` records.
pub fn rdr2ints32be(rdr: &[u8]) -> (ints: Vec<Result<i32, TruncatedRecord>>)
    ensures
        ints@ == decoding::<i32>(rdr@, Endian::Big),
{
    rdr2native::<4, i32>(rdr, Endian::Big)
}

/// Reads the source as big-endian `i64` records.
pub fn rdr2ints64be(rdr: &[u8]) -> (ints: Vec<Result<i64, TruncatedRecord>>)
    ensures
        ints@ == decoding::<i64>(rdr@, Endian::Big),
{
    rdr2native::<8, i64>(rdr, Endian::Big)
}

/// Reads the source as big-endian `u8` records.
pub fn rdr2uints8be(rdr: &[u8]) -> (ints: Vec<Result<u8, TruncatedRecord>>)
    ensures
        ints@ == decoding::<u8>(rdr@, Endian::Big),
{
    rdr2native::<1, u8>(rdr, Endian::Big)
}

/// Reads the source as big-endian `u16` records.
pub fn rdr2uints16be(rdr: &[u8]) -> (ints: Vec<Result<u16, TruncatedRecord>>)
    ensures
        ints@ == decoding::<u16>(rdr@, Endian::Big),
{
    rdr2native::<2, u16>(rdr, Endian::Big)
}

/// Reads the source as big-endian `u32` records.
pub fn rdr2uints32be(rdr: &[u8]) -> (ints: Vec<Result<u32, TruncatedRecord>>)
    ensures
        ints@ == decoding::<u32>(rdr@, Endian::Big),
{
    rdr2native::<4, u32>(rdr, Endian::Big)
}

/// Reads the source as big-endian `u64` records.
pub fn rdr2uints64be(rdr: &[u8]) -> (ints: Vec<Result<u64, TruncatedRecord>>)
    ensures
        ints@ == decoding::<u64>(rdr@, Endian::Big),
{
    rdr2native::<8, u64>(rdr, Endian::Big)
}

} // verus!
