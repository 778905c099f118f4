use std::collections::BTreeSet;

use rs_ints2uniq2arrow::fs::helper_reader2ints::rdr2uints8le;
use rs_ints2uniq2arrow::fs::rdr2arrow;
use rs_ints2uniq2arrow::fs::rdr2arrow_i16le;
use rs_ints2uniq2arrow::fs::rdr2arrow_i32le;
use rs_ints2uniq2arrow::fs::rdr2arrow_i64be;
use rs_ints2uniq2arrow::fs::rdr2arrow_u8le;
use rs_ints2uniq2arrow::fs::TruncatedRecord;
use rs_ints2uniq2arrow::ints2uniq2arrow_bt;
use rs_ints2uniq2arrow::ints2uniq2arrow_bt16;
use rs_ints2uniq2arrow::ints2uniq2arrow_bt32;
use rs_ints2uniq2arrow::ints2uniq2arrow_bt64;
use rs_ints2uniq2arrow::ints2uniq2arrow_bt8;
use rs_ints2uniq2arrow::ints2uniq_bt;
use rs_ints2uniq2arrow::rints2uniq2arrow_bt;
use rs_ints2uniq2arrow::rints2uniq2arrow_bt16;
use rs_ints2uniq2arrow::rints2uniq2arrow_bt32;
use rs_ints2uniq2arrow::rints2uniq2arrow_bt64;
use rs_ints2uniq2arrow::rints2uniq2arrow_bt8;
use rs_ints2uniq2arrow::rints2uniq_bt;
use rs_ints2uniq2arrow::ruints2uniq2arrow_bt16;
use rs_ints2uniq2arrow::ruints2uniq2arrow_bt32;
use rs_ints2uniq2arrow::ruints2uniq2arrow_bt64;
use rs_ints2uniq2arrow::ruints2uniq2arrow_bt8;
use rs_ints2uniq2arrow::uints2uniq2arrow_bt16;
use rs_ints2uniq2arrow::uints2uniq2arrow_bt32;
use rs_ints2uniq2arrow::uints2uniq2arrow_bt64;
use rs_ints2uniq2arrow::uints2uniq2arrow_bt8;
use rs_ints2uniq2arrow::uniq2arrow_bt;

fn some<T: Copy>(values: &[T]) -> Vec<Option<T>> {
    values.iter().map(|v| Some(*v)).collect()
}

#[test]
fn unsigned_bytes_become_sorted_unique_column() {
    let bytes: [u8; 5] = [3, 1, 3, 2, 1];
    let ints = rdr2uints8le(&bytes);
    assert_eq!(ints, vec![Ok(3u8), Ok(1), Ok(3), Ok(2), Ok(1)]);
    let uniq: BTreeSet<u8> = rints2uniq_bt(ints.into_iter()).unwrap();
    assert_eq!(uniq, BTreeSet::from([1u8, 2, 3]));
    let column = uniq2arrow_bt::<u8>(uniq);
    assert_eq!(column.to_vec(), vec![Some(1u8), Some(2), Some(3)]);
    let column = rdr2arrow_u8le(&bytes).unwrap();
    assert_eq!(column.to_vec(), vec![Some(1u8), Some(2), Some(3)]);
}

#[test]
fn signed_order_puts_negative_first() {
    let mut bytes: Vec<u8> = Vec::new();
    for v in [-1i32, 5, -1] {
        bytes.extend_from_slice(&v.to_le_bytes());
    }
    assert_eq!(bytes.len(), 12);
    let column = rdr2arrow_i32le(&bytes).unwrap();
    assert_eq!(column.to_vec(), vec![Some(-1i32), Some(5)]);
}

#[test]
fn five_bytes_of_two_byte_records_fail() {
    let res = rdr2arrow_i16le(&[1, 0, 2, 0, 3]);
    match res {
        Ok(_) => panic!("a source that ends inside a record gave a column"),
        Err(e) => assert_eq!(e, TruncatedRecord { offset: 4, len: 1 }),
    }
}

#[test]
fn ints2uniq_bt_collapses_duplicates() {
    let uniq: BTreeSet<i32> = ints2uniq_bt(vec![7, -3, 7, 0, -3, 7].into_iter());
    let members: Vec<i32> = uniq.into_iter().collect();
    assert_eq!(members, vec![-3, 0, 7]);
}

#[test]
fn ints2uniq_bt_of_nothing_is_empty() {
    let uniq: BTreeSet<u16> = ints2uniq_bt(Vec::<u16>::new().into_iter());
    assert!(uniq.is_empty());
}

#[test]
fn uniq2arrow_bt_lists_members_ascending() {
    let mut uniq: BTreeSet<i64> = BTreeSet::new();
    for v in [40i64, i64::MIN, -1, i64::MAX, 0] {
        uniq.insert(v);
    }
    let column = uniq2arrow_bt::<i64>(uniq);
    assert_eq!(column.to_vec(), some(&[i64::MIN, -1, 0, 40, i64::MAX]));
}

#[test]
fn uniq2arrow_bt_of_empty_set_is_empty_column() {
    let column = uniq2arrow_bt::<u32>(BTreeSet::new());
    assert_eq!(column.to_vec(), Vec::<Option<u32>>::new());
}

#[test]
fn generic_pipeline_matches_named_one() {
    let input = vec![9u16, 2, 9, 65535, 0, 2];
    let generic = ints2uniq2arrow_bt::<_, u16>(input.clone().into_iter());
    let named = uints2uniq2arrow_bt16(input.into_iter());
    assert_eq!(generic.to_vec(), named.to_vec());
    assert_eq!(named.to_vec(), some(&[0u16, 2, 9, 65535]));
}

#[test]
fn duplicating_every_item_changes_nothing() {
    let input = vec![12i32, -7, 12, 100, i32::MIN, 0, -7];
    let mut twice: Vec<i32> = Vec::new();
    for v in &input {
        twice.push(*v);
        twice.push(*v);
    }
    let once = ints2uniq2arrow_bt32(input.into_iter());
    let doubled = ints2uniq2arrow_bt32(twice.into_iter());
    assert_eq!(once.to_vec(), doubled.to_vec());
    assert_eq!(once.to_vec(), some(&[i32::MIN, -7, 0, 12, 100]));
}

#[test]
fn column_depends_on_values_not_on_their_order() {
    let a = ints2uniq2arrow_bt8(vec![3i8, -2, 3, 1].into_iter());
    let b = ints2uniq2arrow_bt8(vec![1i8, 3, -2, -2, 1].into_iter());
    assert_eq!(a.to_vec(), b.to_vec());
}

#[test]
fn neighbours_in_the_column_strictly_ascend() {
    let mut input: Vec<i64> = Vec::new();
    let mut x: u64 = 0x9e37_79b9_7f4a_7c15;
    for _ in 0..500 {
        x = x.wrapping_mul(6364136223846793005).wrapping_add(1442695040888963407);
        input.push(((x >> 40) as i64) - (1 << 23));
        input.push((x >> 58) as i64);
    }
    let column = ints2uniq2arrow_bt64(input.into_iter()).to_vec();
    assert!(column.len() > 1);
    for pair in column.windows(2) {
        let a = pair[0].unwrap();
        let b = pair[1].unwrap();
        assert!(a < b);
    }
}

#[test]
fn unsigned_order_is_numeric_not_bitwise_signed() {
    let column = uints2uniq2arrow_bt8(vec![200u8, 3, 128, 127].into_iter());
    assert_eq!(column.to_vec(), some(&[3u8, 127, 128, 200]));
    let column = uints2uniq2arrow_bt64(vec![u64::MAX, 1, 1 << 63, 0].into_iter());
    assert_eq!(column.to_vec(), some(&[0u64, 1, 1 << 63, u64::MAX]));
}

#[test]
fn signed_order_is_numeric() {
    let column = ints2uniq2arrow_bt16(vec![i16::MAX, -1, i16::MIN, 0, 1].into_iter());
    assert_eq!(column.to_vec(), some(&[i16::MIN, -1, 0, 1, i16::MAX]));
}

#[test]
fn column_is_as_long_as_input_without_duplicates() {
    let input = vec![5u32, 1, 4, 2, 3];
    let column = uints2uniq2arrow_bt32(input.clone().into_iter());
    assert_eq!(column.to_vec().len(), input.len());
}

#[test]
fn column_is_shorter_than_input_with_duplicates() {
    let input = vec![5u32, 1, 5, 2, 1];
    let column = uints2uniq2arrow_bt32(input.clone().into_iter());
    assert_eq!(column.to_vec().len(), 3);
    assert!(column.to_vec().len() < input.len());
}

#[test]
fn column_has_no_null_slot() {
    let column = ints2uniq2arrow_bt64(vec![0i64, -9, 9, 0].into_iter());
    assert!(column.to_vec().iter().all(|slot| slot.is_some()));
}

#[test]
fn column_of_no_integers_is_empty() {
    assert!(ints2uniq2arrow_bt8(Vec::new().into_iter()).to_vec().is_empty());
    assert!(uints2uniq2arrow_bt64(Vec::new().into_iter()).to_vec().is_empty());
}

#[test]
fn rints2uniq_bt_without_failure_is_the_set() {
    let input: Vec<Result<u8, String>> = vec![Ok(2), Ok(9), Ok(2)];
    let uniq = rints2uniq_bt(input.into_iter()).unwrap();
    assert_eq!(uniq.into_iter().collect::<Vec<u8>>(), vec![2, 9]);
}

#[test]
fn rints2uniq_bt_returns_first_failure() {
    let input: Vec<Result<u8, &str>> = vec![Ok(2), Err("first"), Ok(9), Err("second")];
    assert_eq!(rints2uniq_bt(input.into_iter()), Err("first"));
}

#[test]
fn rints2uniq_bt_stops_pulling_at_the_failure() {
    let input: Vec<Result<i16, u8>> = vec![Ok(1), Err(7), Ok(2), Ok(3)];
    let mut items = input.into_iter();
    let res = rints2uniq_bt(&mut items);
    assert_eq!(res, Err(7));
    assert_eq!(items.next(), Some(Ok(2)));
}

#[test]
fn rints2uniq2arrow_bt_without_failure_is_the_column() {
    let input: Vec<Result<i32, String>> = vec![Ok(5), Ok(-5), Ok(5), Ok(0)];
    let column = rints2uniq2arrow_bt::<_, i32, String>(input.into_iter()).unwrap();
    assert_eq!(column.to_vec(), some(&[-5i32, 0, 5]));
}

#[test]
fn rints2uniq2arrow_bt_gives_no_column_on_failure() {
    let input: Vec<Result<i32, String>> = vec![Ok(5), Ok(-5), Err("broken".to_string()), Ok(0)];
    match rints2uniq2arrow_bt::<_, i32, String>(input.into_iter()) {
        Ok(_) => panic!("a failure in the input gave a column"),
        Err(e) => assert_eq!(e, "broken"),
    }
}

#[test]
fn failure_as_first_item_is_returned() {
    let input: Vec<Result<u64, u32>> = vec![Err(1), Ok(3)];
    assert!(matches!(ruints2uniq2arrow_bt64(input.into_iter()), Err(1)));
}

#[test]
fn failure_as_last_item_is_returned() {
    let input: Vec<Result<u64, u32>> = vec![Ok(3), Ok(4), Err(9)];
    assert!(matches!(ruints2uniq2arrow_bt64(input.into_iter()), Err(9)));
}

#[test]
fn named_fallible_pipelines_give_sorted_unique_columns() {
    let c = rints2uniq2arrow_bt8(vec![Ok::<i8, ()>(4), Ok(-4), Ok(4)].into_iter()).unwrap();
    assert_eq!(c.to_vec(), some(&[-4i8, 4]));
    let c = rints2uniq2arrow_bt16(vec![Ok::<i16, ()>(300), Ok(-300), Ok(300)].into_iter()).unwrap();
    assert_eq!(c.to_vec(), some(&[-300i16, 300]));
    let c = rints2uniq2arrow_bt32(vec![Ok::<i32, ()>(70000), Ok(-70000)].into_iter()).unwrap();
    assert_eq!(c.to_vec(), some(&[-70000i32, 70000]));
    let c = rints2uniq2arrow_bt64(vec![Ok::<i64, ()>(1 << 40), Ok(-(1 << 40))].into_iter()).unwrap();
    assert_eq!(c.to_vec(), some(&[-(1i64 << 40), 1 << 40]));
    let c = ruints2uniq2arrow_bt8(vec![Ok::<u8, ()>(255), Ok(0), Ok(255)].into_iter()).unwrap();
    assert_eq!(c.to_vec(), some(&[0u8, 255]));
    let c = ruints2uniq2arrow_bt16(vec![Ok::<u16, ()>(65535), Ok(1)].into_iter()).unwrap();
    assert_eq!(c.to_vec(), some(&[1u16, 65535]));
    let c = ruints2uniq2arrow_bt32(vec![Ok::<u32, ()>(u32::MAX), Ok(7)].into_iter()).unwrap();
    assert_eq!(c.to_vec(), some(&[7u32, u32::MAX]));
    let c = ruints2uniq2arrow_bt64(vec![Ok::<u64, ()>(u64::MAX), Ok(7)].into_iter()).unwrap();
    assert_eq!(c.to_vec(), some(&[7u64, u64::MAX]));
}

#[test]
fn big_endian_source_to_column() {
    let mut bytes: Vec<u8> = Vec::new();
    for v in [10i64, -10, i64::MIN, 10, i64::MAX] {
        bytes.extend_from_slice(&v.to_be_bytes());
    }
    let column = rdr2arrow_i64be(&bytes).unwrap();
    assert_eq!(column.to_vec(), some(&[i64::MIN, -10, 10, i64::MAX]));
}

#[test]
fn rdr2arrow_with_own_mapping() {
    let sum = |buf: [u8; 3]| -> u16 { buf[0] as u16 + buf[1] as u16 + buf[2] as u16 };
    let column = rdr2arrow::<_, 3, u16>(&[1, 1, 1, 0, 0, 9, 3, 0, 0, 255, 255, 255], sum).unwrap();
    assert_eq!(column.to_vec(), some(&[3u16, 9, 765]));
    let res = rdr2arrow::<_, 3, u16>(&[1, 1, 1, 0], sum);
    match res {
        Ok(_) => panic!("a source that ends inside a record gave a column"),
        Err(e) => assert_eq!(e, TruncatedRecord { offset: 3, len: 1 }),
    }
}

#[test]
fn column_prints_for_debugging() {
    let column = rdr2arrow_u8le(&[2, 1]).unwrap();
    let text = format!("{:?}", column);
    assert!(text.contains("UInt8Column"));
}
