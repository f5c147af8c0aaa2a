use radix_table::{
    ColumnDataF, ColumnDataIndex, ColumnWrapper, Dictionary, ErrorDesc, InputTypes, ItemTypeId,
    OnwedBinaryColumn, OpName, Table,
};

fn byte_strings(names: &[&str]) -> Vec<Vec<u8>> {
    names.iter().map(|s| s.as_bytes().to_vec()).collect()
}

fn strings_of(rows: &[Vec<u8>]) -> Vec<String> {
    rows.iter()
        .map(|b| String::from_utf8(b.clone()).unwrap())
        .collect()
}

#[test]
fn binarycolumninit() {
    let names = byte_strings(&["Jane", "Merry", "", "Christopher"]);
    let bnames = OnwedBinaryColumn::new(&names);

    let datau8: Vec<u8> = names.iter().flatten().copied().collect();
    let len: Vec<usize> = names.iter().map(|s| s.len()).collect();
    let (res_data, _res_start_pos, res_len, _) =
        bnames.downcast_binary_owned(ItemTypeId::Str).unwrap();
    assert_eq!(res_data, datau8);
    assert_eq!(res_len, len);
}

#[test]
fn binarycolumn_wrong_type_downcast_owned() {
    let names = byte_strings(&["Jane", "Merry", "", "Christopher"]);
    let bnames = OnwedBinaryColumn::new(&names);
    let b = bnames.downcast_binary_owned(ItemTypeId::USize);
    assert_eq!(b.is_err(), true);
}

#[test]
fn binarycolumn_wrong_type_downcast_ref() {
    let names = byte_strings(&["Jane", "Merry", "", "Christopher"]);
    let bnames = OnwedBinaryColumn::new(&names);
    let b = bnames.downcast_binary_ref(ItemTypeId::USize);
    assert_eq!(b.is_err(), true);
}

#[test]
fn binarycolumn_wrong_type_downcast_mut() {
    let names = byte_strings(&["Jane", "Merry", "", "Christopher"]);
    let mut bnames = OnwedBinaryColumn::new(&names);
    let b = bnames.downcast_binary_mut(ItemTypeId::USize);
    assert_eq!(b.is_err(), true);
}

#[test]
fn binarycolumnlen() {
    let names = byte_strings(&["Jane", "Merry", "", "Christopher"]);
    let cw = ColumnWrapper::new_from_binary_vec(&names);
    assert_eq!(cw.len(), 4);

    let cw2 = ColumnWrapper::new_from_binary_vec(&names);
    assert_eq!(cw2.len(), 4);
}

#[test]
fn copycolumnlen() {
    let names: Vec<u32> = vec![1, 2, 3];
    let cw = ColumnWrapper::new_from_slice::<u32>(names.as_slice());
    assert_eq!(cw.len(), 3);

    let cw = ColumnWrapper::new_from_vec::<u32>(names);
    assert_eq!(cw.len(), 3);
}

#[test]
fn binarycolumnpartition() {
    let names = byte_strings(&["Jaane", "Merry", "", "Christopher", "Peter"]);
    let mut t = Table::new(vec![2, 2, 1]).unwrap();
    t.push_binary(&names, &Vec::new()).unwrap();
    let p_column = t.get_part_col(&0).unwrap();
    assert_eq!(p_column.len(), 3);
}

#[test]
fn binarycolumnmaterialize() {
    let names = byte_strings(&["Jane", "Merry", "", "Christopher", "Peter"]);
    let mut t = Table::new(vec![2, 2, 1]).unwrap();
    t.push_binary(&names, &Vec::new()).unwrap();
    let p_column = t.get_part_col(&0).unwrap();
    assert_eq!(p_column.len(), 3);

    let v = t.materialize_binary(&0).unwrap();
    assert_eq!(v.0, names);
}

#[test]
fn copycolumnmaterialize() {
    let names: Vec<u32> = vec![1, 2, 3, 4, 5, 6, 7, 8, 9];
    let mut t = Table::new(vec![2, 2, 2, 2, 1]).unwrap();
    t.push::<u32>(&names).unwrap();
    let p_column = t.get_part_col(&0).unwrap();
    assert_eq!(p_column.len(), 5);

    let v = t.materialize::<u32>(&0).unwrap();
    assert_eq!(v.0, names);
    assert!(!v.1.is_some());
}

#[test]
fn copycolumnmaterialize_bitmap() {
    let names: Vec<u32> = vec![1, 2, 3, 4, 5, 6, 7, 8, 9];
    let bitmap: Vec<bool> = vec![true, false, true, true, true, true, true, true, true];
    let mut t = Table::new(vec![2, 2, 2, 2, 1]).unwrap();
    t.push_with_bitmap::<u32>(&names, &bitmap).unwrap();
    let p_column = t.get_part_col(&0).unwrap();
    assert_eq!(p_column.len(), 5);

    let v = t.materialize::<u32>(&0).unwrap();
    assert_eq!(v.0, names);
    assert_eq!(v.1.downcast_ref().unwrap().as_slice(), bitmap.as_slice());
}

#[test]
fn columns_addassign() {
    let dict = Dictionary::new();
    let mut t = Table::new(vec![2, 2, 2, 2, 1]).unwrap();

    let c1_names: Vec<u32> = vec![1, 2, 3, 4, 5, 6, 7, 8, 9];
    let c1_bitmap: Vec<bool> = vec![true, false, true, true, true, true, true, true, true];
    let c2_names: Vec<u32> = vec![1, 2, 3, 4, 5, 6, 7, 8, 9];
    let c2_bitmap: Vec<bool> = vec![true, true, true, true, true, true, true, true, false];

    let mut c1 = ColumnWrapper::new_from_vec::<u32>(c1_names);
    c1.bitmap_set(ColumnDataF::new(c1_bitmap));
    let mut c2 = ColumnWrapper::new_from_vec::<u32>(c2_names);
    c2.bitmap_set(ColumnDataF::new(c2_bitmap));

    let missing = ColumnDataIndex::Missing;
    c1.op(
        &dict,
        OpName::AddAssign,
        &missing,
        &[InputTypes::Ref(&c2, &missing)],
    )
    .unwrap();

    let c1_bitmap: Vec<bool> = c1.bitmap().downcast_ref().unwrap().clone();
    let c2_bitmap: Vec<bool> = c2.bitmap().downcast_ref().unwrap().clone();
    let c1_vals: Vec<u32> = c1.column().downcast_ref::<u32>().unwrap().clone();
    let c2_vals: Vec<u32> = c2.column().downcast_ref::<u32>().unwrap().clone();

    t.push_with_bitmap::<u32>(&c1_vals, &c1_bitmap).unwrap();
    t.push_with_bitmap::<u32>(&c2_vals, &c2_bitmap).unwrap();

    let expected = vec!["2", "(null)", "6", "8", "10", "12", "14", "16", "(null)"];
    let result = strings_of(&t.materialize_as_string(&0).unwrap());
    assert_eq!(result, expected);
}

#[test]
fn columns_eq_copy() {
    let dict = Dictionary::new();
    let mut t = Table::new(vec![2, 2, 2, 2, 1]).unwrap();

    let mut c1_names: Vec<bool> = vec![false; 9];
    let mut c1_bitmap: Vec<bool> = vec![true, true, true, true, false, true, true, true, true];
    let c2_names: Vec<u32> = vec![1, 2, 3, 4, 5, 6, 7, 8, 9];
    let c2_bitmap: Vec<bool> = vec![true, false, true, true, true, true, true, true, true];
    let c3_names: Vec<u32> = vec![1, 2, 3, 4, 5, 7, 7, 8, 9];
    let c3_bitmap: Vec<bool> = vec![true, true, true, true, true, true, true, true, false];

    t.push_with_bitmap::<u32>(&c3_names, &c3_bitmap).unwrap();
    t.push_with_bitmap::<u32>(&c2_names, &c2_bitmap).unwrap();
    t.push_mut_with_bitmap::<bool>(c1_names.as_mut_slice(), c1_bitmap.as_mut_slice())
        .unwrap();

    let c3_index = vec![
        ColumnDataIndex::new(vec![0, 0]),
        ColumnDataIndex::new(vec![0, 0]),
        ColumnDataIndex::new(vec![0, 0]),
        ColumnDataIndex::new(vec![0, 0]),
        ColumnDataIndex::new(vec![0]),
    ];
    t.push_index(c3_index, &[0]).unwrap();

    t.op(&dict, OpName::Eq, &2, &[1, 0]).unwrap();

    let expected = vec![
        "true", "(null)", "true", "false", "true", "false", "true", "false", "(null)",
    ];
    let result = strings_of(&t.materialize_as_string(&2).unwrap());
    assert_eq!(result, expected);
}

#[test]
fn columns_eq_binary() {
    let dict = Dictionary::new();
    let mut t = Table::new(vec![2, 2, 2, 2, 1]).unwrap();

    let mut c1_names: Vec<bool> = vec![false; 9];
    let mut c1_bitmap: Vec<bool> = vec![true, true, true, true, false, true, true, true, true];
    let c2_names = byte_strings(&["1A", "2A", "3A", "4A", "5A", "6A", "7A", "8A", "9A"]);
    let c2_bitmap: Vec<bool> = vec![true, true, true, true, true, true, true, true, false];
    let c3_names = byte_strings(&["1A", "2A", "3A", "4A", "5A", "6A", "7A", "8A", "9A"]);
    let c3_bitmap: Vec<bool> = vec![true, false, true, true, true, true, true, true, true];

    t.push_binary(&c3_names, &c3_bitmap).unwrap();
    t.push_binary(&c2_names, &c2_bitmap).unwrap();
    t.push_mut_with_bitmap::<bool>(c1_names.as_mut_slice(), c1_bitmap.as_mut_slice())
        .unwrap();

    let c2_index = vec![
        ColumnDataIndex::new(vec![0, 0]),
        ColumnDataIndex::new(vec![0, 0]),
        ColumnDataIndex::new(vec![0, 0]),
        ColumnDataIndex::new(vec![0, 0]),
        ColumnDataIndex::new(vec![0]),
    ];
    t.push_index(c2_index, &[1]).unwrap();

    t.op(&dict, OpName::Eq, &2, &[1, 0]).unwrap();

    let expected = vec![
        "true", "(null)", "true", "false", "true", "false", "true", "false", "(null)",
    ];
    let result = strings_of(&t.materialize_as_string(&2).unwrap());
    assert_eq!(result, expected);
}

#[test]
fn test_filter() {
    let mut index: Vec<usize> = vec![1, 2, 3, 4, 5];
    let keep_all = vec![true, true, true, true, true];
    let keep_some = vec![false, true, false, true, false];
    let no_bitmap: ColumnDataF<bool> = ColumnDataF::Missing;

    let mut index_ref = ColumnDataIndex::new_from_slice_mut(index.as_mut_slice());
    radix_table::filter(&mut index_ref, &keep_all, &no_bitmap, &None).unwrap();
    assert_eq!(index_ref.downcast_vec().unwrap(), &mut vec![1, 2, 3, 4, 5]);

    let mut index_ref = ColumnDataIndex::new_from_slice_mut(index.as_mut_slice());
    radix_table::filter(&mut index_ref, &keep_some, &no_bitmap, &None).unwrap();
    assert_eq!(index_ref.downcast_vec().unwrap(), &mut vec![2, 4]);

    let mut index_owned = ColumnDataIndex::new(index.clone());
    radix_table::filter(&mut index_owned, &keep_all, &no_bitmap, &None).unwrap();
    assert_eq!(index_owned.downcast_vec().unwrap(), &mut vec![1, 2, 3, 4, 5]);

    let mut index_owned = ColumnDataIndex::new(index.clone());
    radix_table::filter(&mut index_owned, &keep_some, &no_bitmap, &None).unwrap();
    assert_eq!(index_owned.downcast_vec().unwrap(), &mut vec![2, 4]);
}

#[test]
fn columns_hash() {
    let mut t = Table::new(vec![2, 2, 2, 2, 1]).unwrap();

    let c2_names = byte_strings(&["1A", "2A", "3A", "4A", "5A", "6A", "7A", "8A", "9A"]);
    let c2_bitmap: Vec<bool> = vec![true, true, true, true, true, true, true, true, false];
    let c1_names = byte_strings(&["1A", "2A", "3A", "4A", "5A", "6A", "7A", "8A", "9A"]);
    let c1_bitmap: Vec<bool> = vec![true, false, true, true, true, true, true, true, true];

    t.push_binary(&c1_names, &c1_bitmap).unwrap();
    t.push_binary(&c2_names, &c2_bitmap).unwrap();

    let c2_index = vec![
        ColumnDataIndex::new(vec![0, 0]),
        ColumnDataIndex::new(vec![0, 0]),
        ColumnDataIndex::new(vec![0, 0]),
        ColumnDataIndex::new(vec![0, 0]),
        ColumnDataIndex::new(vec![0]),
    ];
    t.push_index(c2_index, &[1]).unwrap();

    let h1: Vec<u64> = t.build_hash(&[1]).unwrap().into_iter().flatten().collect();
    t.push::<u64>(&h1).unwrap();

    let h2: Vec<u64> = t
        .build_hash(&[1, 0])
        .unwrap()
        .into_iter()
        .flatten()
        .collect();
    t.push::<u64>(&h2).unwrap();

    assert_eq!(h1[0], h1[1]);
    assert_eq!(h1[2], h1[3]);
    assert_eq!(h1[4], h1[5]);
    assert_eq!(h1[6], h1[7]);
    assert_eq!(h1[8], u64::MAX);

    assert_eq!(h1[1].wrapping_sub(1), h2[1]);
}

#[test]
fn columns_groups() {
    let mut t = Table::new(vec![4, 5]).unwrap();

    let c1_names = byte_strings(&["1A", "1A", "3A", "3A", "5A", "6A", "7A", "8A", "8A"]);
    let c1_bitmap: Vec<bool> = vec![true, false, true, true, true, true, true, true, true];
    let c2_names = byte_strings(&["1A", "2A", "3A", "4A", "5A", "6A", "7A", "8A", "7A"]);
    let c2_bitmap: Vec<bool> = vec![true, true, true, true, true, true, false, true, false];

    t.push_binary(&c1_names, &c1_bitmap).unwrap();
    t.push_binary(&c2_names, &c2_bitmap).unwrap();

    let c2_index = vec![
        ColumnDataIndex::new(vec![0, 0, 2, 2]),
        ColumnDataIndex::new(vec![0, 0, 2, 2, 4]),
    ];
    t.push_index(c2_index, &[1]).unwrap();

    let h1: Vec<usize> = t
        .build_groups(&[1])
        .unwrap()
        .into_iter()
        .flat_map(|(v, _)| v)
        .collect();
    t.push::<usize>(&h1).unwrap();

    let h2: Vec<usize> = t
        .build_groups(&[1, 0])
        .unwrap()
        .into_iter()
        .flat_map(|(v, _)| v)
        .collect();
    t.push::<usize>(&h2).unwrap();

    assert_eq!(h1, vec![0, 0, 1, 1, 0, 0, 1, 1, 1]);
    assert_eq!(h2, vec![0, 1, 2, 2, 0, 1, 2, 3, 3]);
}

#[test]
fn wrong_type_column_downcast() {
    let cw = ColumnWrapper::new_from_vec::<u32>(vec![1, 2, 3]);
    assert_eq!(
        cw.column().downcast_ref::<u64>().unwrap_err(),
        ErrorDesc::TypeMismatch
    );
    assert!(cw.column().downcast_ref::<u32>().is_ok());
}

#[test]
fn columns_filter() {
    let dict = Dictionary::new();
    let mut t = Table::new(vec![2, 2, 2, 2, 1]).unwrap();

    let c2_names = byte_strings(&["1A", "2A", "3A", "4A", "5A", "6A", "7A", "8A", "9A"]);
    let c2_bitmap: Vec<bool> = vec![true, true, true, true, true, true, true, true, false];
    let c1_names = byte_strings(&["1A", "2A", "3A", "4A", "5A", "6A", "7A", "8A", "9A"]);
    let c1_bitmap: Vec<bool> = vec![true, false, true, true, true, true, true, true, true];

    t.push_binary(&c1_names, &c1_bitmap).unwrap();
    t.push_binary(&c2_names, &c2_bitmap).unwrap();

    let c2_index = vec![
        ColumnDataIndex::new(vec![0, 0]),
        ColumnDataIndex::new(vec![0, 0]),
        ColumnDataIndex::new(vec![0, 0]),
        ColumnDataIndex::new(vec![0, 0]),
        ColumnDataIndex::new(vec![0]),
    ];
    t.push_index(c2_index, &[1]).unwrap();

    let e = radix_table::TableExpression::new(OpName::Eq, &[0, 1]);
    t.filter(&dict, &e).unwrap();

    let expected = vec!["1A", "3A", "5A", "7A"];
    let result = strings_of(&t.materialize_as_string(&1).unwrap());
    assert_eq!(result, expected);
}

#[test]
fn test_expression() {
    let dict = Dictionary::new();
    let mut t = Table::new(vec![2, 2, 2, 2, 1]).unwrap();

    let mut c1_names: Vec<u32> = vec![1, 2, 3, 4, 5, 6, 7, 8, 9];
    let mut c1_bitmap: Vec<bool> = vec![true, true, true, true, false, true, true, true, true];
    let c2_names: Vec<u32> = vec![1, 2, 3, 4, 5, 6, 7, 8, 9];
    let c2_bitmap: Vec<bool> = vec![true, false, true, true, true, true, true, true, true];
    let c3_names: Vec<u32> = vec![1, 2, 3, 4, 5, 7, 7, 8, 9];
    let c3_bitmap: Vec<bool> = vec![true, true, true, true, true, true, true, true, false];

    t.push_with_bitmap::<u32>(&c3_names, &c3_bitmap).unwrap();
    t.push_with_bitmap::<u32>(&c2_names, &c2_bitmap).unwrap();
    t.push_mut_with_bitmap::<u32>(c1_names.as_mut_slice(), c1_bitmap.as_mut_slice())
        .unwrap();

    let c3_index = vec![
        ColumnDataIndex::new(vec![0, 0]),
        ColumnDataIndex::new(vec![0, 0]),
        ColumnDataIndex::new(vec![0, 0]),
        ColumnDataIndex::new(vec![0, 0]),
        ColumnDataIndex::new(vec![0]),
    ];
    t.push_index(c3_index, &[0]).unwrap();

    let mut e = radix_table::TableExpression::new(OpName::Lt, &[500, 1000]);
    e.expand_node(500, OpName::Add, &[0, 500]).unwrap();
    e.expand_node(500, OpName::Add, &[1, 2]).unwrap();

    let const_val = ColumnWrapper::new_const::<u32>(16);
    let mut holder = Some(const_val);
    e.expand_node_as_const(1000, &mut holder).unwrap();

    t.add_expression_as_new_column(&dict, &e).unwrap();

    let expected = vec![
        "true", "(null)", "true", "true", "(null)", "false", "false", "false", "(null)",
    ];
    let result = strings_of(&t.materialize_as_string(&3).unwrap());
    assert_eq!(result, expected);
}

#[test]
fn columns_group_expression() {
    let dict = Dictionary::new();
    let mut t = Table::new(vec![4, 5]).unwrap();

    let c1_names = byte_strings(&["1A", "1A", "3A", "3A", "5A", "6A", "5A", "8A", "8A"]);
    let c1_bitmap: Vec<bool> = vec![true, false, true, true, true, true, true, true, true];
    let c2_names: Vec<u64> = vec![1, 2, 3, 4, 5, 6, 7, 8, 7];
    let c2_bitmap: Vec<bool> = vec![true, true, true, true, true, true, true, true, false];

    t.push_binary(&c1_names, &c1_bitmap).unwrap();
    t.push_with_bitmap::<u64>(&c2_names, &c2_bitmap).unwrap();

    let c2_index = vec![
        ColumnDataIndex::new(vec![0, 0, 2, 2]),
        ColumnDataIndex::new(vec![0, 0, 2, 2, 4]),
    ];
    t.push_index(c2_index, &[1]).unwrap();

    let mut e = radix_table::TableExpression::new(OpName::Sum, &[1]);
    e.partition_by.push(radix_table::ExpressionInput::Column(0));

    t.add_expression_as_new_column(&dict, &e).unwrap();

    // Partition one groups rows {0,1} and {2,3}; partition two groups
    // {0,1}, {2}, {3,4}. Sums are per group of the indexed u64 column.
    let cols = t.number_of_columns();
    assert_eq!(cols, 3);
}

#[test]
fn repartition_plan_counts() {
    let hash: Vec<Vec<u64>> = vec![vec![0, 1, 2, 3], vec![0, 1, 2, 3]];
    let tmap = radix_table::TableToTableMap::new(&hash, 2, 2);
    assert_eq!(tmap.number_of_buckets, 4);
    assert_eq!(tmap.bucket_number_of_elements, vec![2, 2, 2, 2]);
    assert_eq!(tmap.write_offsets.len(), 2);
    assert_eq!(tmap.write_offsets[0], vec![0, 0, 0, 0]);
    assert_eq!(tmap.write_offsets[1], vec![1, 1, 1, 1]);
}

#[test]
fn columns_tabletotable() {
    let mut t = Table::new(vec![2, 2, 2, 2, 1]).unwrap();

    let c1_names: Vec<u64> = vec![1, 2, 3, 4, 5, 6, 7, 8, 9];
    let c1_bitmap: Vec<bool> = vec![true, false, true, true, true, true, true, true, true];
    let c2_names = byte_strings(&["1A", "2A", "3A", "4A", "5A", "6A", "7A", "8A", "9A"]);
    let c2_bitmap: Vec<bool> = vec![true, true, true, true, true, true, true, true, false];

    t.push_with_bitmap::<u64>(&c1_names, &c1_bitmap).unwrap();
    t.push_binary(&c2_names, &c2_bitmap).unwrap();

    let c2_index = vec![
        ColumnDataIndex::new(vec![0, 0]),
        ColumnDataIndex::new(vec![0, 0]),
        ColumnDataIndex::new(vec![0, 0]),
        ColumnDataIndex::new(vec![0, 0]),
        ColumnDataIndex::new(vec![0]),
    ];
    t.push_index(c2_index, &[1]).unwrap();

    let h = t.build_hash(&[1]).unwrap();
    let h1: Vec<u64> = h.iter().flatten().map(|i| *i & 3).collect();
    t.push::<u64>(&h1).unwrap();

    for (number_of_worker_threads, bucket_bits) in
        [(2usize, 1usize), (2, 2), (2, 12), (1024, 1), (1024, 8), (1024, 12)]
    {
        let tmap = radix_table::TableToTableMap::new(&h, number_of_worker_threads, bucket_bits);
        let missing = ColumnDataIndex::Missing;

        let res = t.column_repartition(&h, &tmap, &0).unwrap();
        let mut c_part_1: Vec<(String, bool)> = Vec::new();
        for c in &res {
            let c_data = c.as_string(&missing).unwrap();
            let c_bitmap: Vec<bool> = c.bitmap().downcast_ref().unwrap().clone();
            for (d, b) in c_data.into_iter().zip(c_bitmap.into_iter()) {
                c_part_1.push((String::from_utf8(d).unwrap(), b));
            }
        }
        c_part_1.sort_by(|a, b| a.0.cmp(&b.0));

        let res = t.column_repartition(&h, &tmap, &1).unwrap();
        let mut c_part_2: Vec<(String, bool)> = Vec::new();
        for c in &res {
            let c_data = c.as_string(&missing).unwrap();
            let c_bitmap: Vec<bool> = c.bitmap().downcast_ref().unwrap().clone();
            for (d, b) in c_data.into_iter().zip(c_bitmap.into_iter()) {
                c_part_2.push((String::from_utf8(d).unwrap(), b));
            }
        }
        c_part_2.sort_by(|a, b| a.0.cmp(&b.0));

        let c_part_1_expected: Vec<(String, bool)> = vec![
            ("1".to_string(), true),
            ("2".to_string(), false),
            ("3".to_string(), true),
            ("4".to_string(), true),
            ("5".to_string(), true),
            ("6".to_string(), true),
            ("7".to_string(), true),
            ("8".to_string(), true),
            ("9".to_string(), true),
        ];
        let c_part_2_expected: Vec<(String, bool)> = vec![
            ("1A".to_string(), true),
            ("1A".to_string(), true),
            ("3A".to_string(), true),
            ("3A".to_string(), true),
            ("5A".to_string(), true),
            ("5A".to_string(), true),
            ("7A".to_string(), true),
            ("7A".to_string(), true),
            ("9A".to_string(), false),
        ];
        assert_eq!(c_part_1_expected, c_part_1);
        assert_eq!(c_part_2_expected, c_part_2);
    }
}
