use radix_table::{
    bytes_eq, bytes_lt, sum_u32, u64_to_dec, ColumnDataF, ColumnDataIndex, ColumnWrapper,
    Dictionary, ErrorDesc, InputTypes, ItemTypeId, OnwedBinaryColumn, OpName,
};

#[test]
fn split_binary_column() {
    let names: Vec<Vec<u8>> = vec![b"ab".to_vec(), b"c".to_vec(), b"defg".to_vec()];
    let mut col = OnwedBinaryColumn::new(&names);
    let prefix = col.split_off_left(1).unwrap();
    let (pd, _, pl, _) = prefix.downcast_binary_owned(ItemTypeId::Str).unwrap();
    assert_eq!(pd, b"ab".to_vec());
    assert_eq!(pl, vec![2]);
    let (sd, sp, sl, off) = col.downcast_binary_owned(ItemTypeId::Str).unwrap();
    assert_eq!(sd, b"cdefg".to_vec());
    assert_eq!(sp, vec![2, 3]);
    assert_eq!(sl, vec![1, 4]);
    assert_eq!(off, 2);
}

#[test]
fn split_binary_column_out_of_bounds() {
    let names: Vec<Vec<u8>> = vec![b"ab".to_vec()];
    let mut col = OnwedBinaryColumn::new(&names);
    assert_eq!(col.split_off_left(2).unwrap_err(), ErrorDesc::Boundary);
}

#[test]
fn byte_order_and_equality() {
    assert!(bytes_lt(b"1A", b"2A"));
    assert!(!bytes_lt(b"2A", b"1A"));
    assert!(bytes_lt(b"1", b"1A"));
    assert!(!bytes_lt(b"1A", b"1A"));
    assert!(bytes_eq(b"1A", b"1A"));
    assert!(!bytes_eq(b"1A", b"1B"));
    assert!(!bytes_eq(b"1A", b"1"));
}

#[test]
fn decimal_display() {
    assert_eq!(u64_to_dec(0), b"0".to_vec());
    assert_eq!(u64_to_dec(7), b"7".to_vec());
    assert_eq!(u64_to_dec(12), b"12".to_vec());
    assert_eq!(u64_to_dec(1024), b"1024".to_vec());
    assert_eq!(u64_to_dec(u64::MAX), b"18446744073709551615".to_vec());
}

#[test]
fn sum_per_group() {
    let dict = Dictionary::new();
    let values = ColumnWrapper::new_from_vec::<u32>(vec![1, 2, 3, 4]);
    let gids = ColumnWrapper::new_from_vec::<usize>(vec![0, 1, 0, 1]);
    let gcount = ColumnWrapper::new_const::<usize>(2);
    let missing = ColumnDataIndex::Missing;
    let mut out = ColumnWrapper::new_from_vec::<u32>(Vec::new());
    out.op(
        &dict,
        OpName::Sum,
        &missing,
        &[
            InputTypes::Ref(&values, &missing),
            InputTypes::Ref(&gids, &missing),
            InputTypes::Ref(&gcount, &missing),
        ],
    )
    .unwrap();
    assert_eq!(
        out.column().downcast_ref::<u32>().unwrap(),
        &vec![4u32, 6u32]
    );
}

#[test]
fn sum_all_null_group_is_zero() {
    let mut values = ColumnWrapper::new_from_vec::<u32>(vec![5, 6]);
    values.bitmap_set(ColumnDataF::new(vec![false, false]));
    let gids = ColumnWrapper::new_from_vec::<usize>(vec![0, 0]);
    let gcount = ColumnWrapper::new_const::<usize>(1);
    let missing = ColumnDataIndex::Missing;
    let mut out = ColumnWrapper::new_from_vec::<u32>(Vec::new());
    sum_u32(
        &mut out,
        &missing,
        &[
            InputTypes::Ref(&values, &missing),
            InputTypes::Ref(&gids, &missing),
            InputTypes::Ref(&gcount, &missing),
        ],
    )
    .unwrap();
    assert_eq!(out.column().downcast_ref::<u32>().unwrap(), &vec![0u32]);
    assert!(!out.bitmap().is_some());
}

#[test]
fn max_all_null_group_is_absent() {
    let dict = Dictionary::new();
    let mut values = ColumnWrapper::new_from_vec::<u64>(vec![5, 6, 9]);
    values.bitmap_set(ColumnDataF::new(vec![false, false, true]));
    let gids = ColumnWrapper::new_from_vec::<usize>(vec![0, 0, 1]);
    let gcount = ColumnWrapper::new_const::<usize>(2);
    let missing = ColumnDataIndex::Missing;
    let mut out = ColumnWrapper::new_from_vec::<u64>(Vec::new());
    out.op(
        &dict,
        OpName::Max,
        &missing,
        &[
            InputTypes::Ref(&values, &missing),
            InputTypes::Ref(&gids, &missing),
            InputTypes::Ref(&gcount, &missing),
        ],
    )
    .unwrap();
    assert_eq!(
        out.column().downcast_ref::<u64>().unwrap(),
        &vec![0u64, 9u64]
    );
    assert_eq!(out.bitmap().downcast_ref().unwrap(), &vec![false, true]);
}

#[test]
fn count_non_null_rows_per_group() {
    let dict = Dictionary::new();
    let mut values = ColumnWrapper::new_from_vec::<u32>(vec![5, 6, 9]);
    values.bitmap_set(ColumnDataF::new(vec![true, false, true]));
    let gids = ColumnWrapper::new_from_vec::<usize>(vec![0, 0, 1]);
    let gcount = ColumnWrapper::new_const::<usize>(2);
    let missing = ColumnDataIndex::Missing;
    let mut out = ColumnWrapper::new_from_vec::<u32>(Vec::new());
    out.op(
        &dict,
        OpName::Count,
        &missing,
        &[
            InputTypes::Ref(&values, &missing),
            InputTypes::Ref(&gids, &missing),
            InputTypes::Ref(&gcount, &missing),
        ],
    )
    .unwrap();
    assert_eq!(
        out.column().downcast_ref::<u32>().unwrap(),
        &vec![1u32, 1u32]
    );
}

#[test]
fn lookup_failure_reports_missing_signature() {
    let dict = Dictionary::new();
    let mut sig = radix_table::Signature::new_op(OpName::Add);
    sig.add_input::<bool>();
    sig.add_input::<bool>();
    assert!(dict.get(&sig).is_none());

    let mut sig2 = radix_table::Signature::new_op(OpName::Add);
    sig2.add_input::<u32>();
    sig2.add_input::<u32>();
    assert!(dict.get(&sig2).is_some());
}

#[test]
fn binary_to_const_needs_single_element() {
    let one = ColumnWrapper::new_from_binary_vec(&vec![b"x".to_vec()]);
    let (col, _) = one.get_inner();
    assert!(col.binary_to_const().is_ok());

    let two = ColumnWrapper::new_from_binary_vec(&vec![b"x".to_vec(), b"y".to_vec()]);
    let (col2, _) = two.get_inner();
    assert_eq!(col2.binary_to_const().unwrap_err(), ErrorDesc::Policy);
}

#[test]
fn push_length_mismatch_is_rejected() {
    let mut t = radix_table::Table::new(vec![2, 2]).unwrap();
    let short: Vec<u32> = vec![1, 2, 3];
    assert_eq!(t.push::<u32>(&short).unwrap_err(), ErrorDesc::LengthMismatch);
}
