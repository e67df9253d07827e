use chunk_concat::builder::{ColumnBuilder, StringColumnBuilder};
use chunk_concat::chunk::{Chunk, ErrorCode, Value};
use chunk_concat::column::{ArrayColumn, Column, NullableColumn, NumberColumn, StringColumn};
use chunk_concat::plans::{AlterViewPlan, Config};
use chunk_concat::scalar::{NumberScalar, Scalar};

fn i32_col(v: &[i32]) -> Column {
    Column::Number(NumberColumn::Int32(v.to_vec()))
}

fn i64_col(v: &[i64]) -> Column {
    Column::Number(NumberColumn::Int64(v.to_vec()))
}

fn bool_col(v: &[bool]) -> Column {
    Column::Boolean(v.to_vec())
}

fn str_col(rows: &[&str]) -> Column {
    let mut data = Vec::new();
    let mut offsets = vec![0usize];
    for r in rows {
        data.extend_from_slice(r.as_bytes());
        offsets.push(data.len());
    }
    Column::String(StringColumn { data, offsets })
}

fn nullable(column: Column, validity: &[bool]) -> Column {
    Column::Nullable(Box::new(NullableColumn { column, validity: validity.to_vec() }))
}

fn array(values: Column, offsets: &[usize]) -> Column {
    Column::Array(Box::new(ArrayColumn { values, offsets: offsets.to_vec() }))
}

fn string_rows(c: &Column) -> Vec<String> {
    match c {
        Column::String(s) => (0..s.offsets.len() - 1)
            .map(|r| String::from_utf8(s.data[s.offsets[r]..s.offsets[r + 1]].to_vec()).unwrap())
            .collect(),
        _ => panic!("not a string column"),
    }
}

fn chunk(columns: Vec<Value>, num_rows: usize) -> Chunk {
    Chunk::new(columns, num_rows)
}

#[test]
fn s1_primitives() {
    let out = Column::concat(&[i32_col(&[1, 2, 3]), i32_col(&[4]), i32_col(&[5, 6])]);
    assert_eq!(out, i32_col(&[1, 2, 3, 4, 5, 6]));
    assert_eq!(out.len(), 6);
}

#[test]
fn s2_strings() {
    let out = Column::concat(&[str_col(&[""]), str_col(&["a", "bc"]), str_col(&["", "def"])]);
    assert_eq!(string_rows(&out), vec!["", "a", "bc", "", "def"]);
    match &out {
        Column::String(s) => {
            assert_eq!(s.offsets, vec![0, 0, 1, 3, 3, 6]);
            assert_eq!(s.data, b"abcdef".to_vec());
        },
        _ => panic!("not a string column"),
    }
}

#[test]
fn s3_nullable() {
    let a = nullable(i64_col(&[1, 0]), &[true, false]);
    let b = nullable(i64_col(&[0, 4, 5]), &[false, true, true]);
    let out = Column::concat(&[a, b]);
    match &out {
        Column::Nullable(n) => {
            assert_eq!(n.validity, vec![true, false, false, true, true]);
            assert_eq!(n.column, i64_col(&[1, 0, 0, 4, 5]));
        },
        _ => panic!("not a nullable column"),
    }
}

#[test]
fn s4_scalar_broadcast() {
    let c1 = chunk(vec![Value::Scalar(Scalar::Boolean(true))], 3);
    let c2 = chunk(vec![Value::Column(bool_col(&[false, true]))], 2);
    let out = Chunk::concat(&[c1, c2]).unwrap();
    assert_eq!(out.num_rows(), 5);
    assert_eq!(out.num_columns(), 1);
    assert_eq!(out.columns()[0], Value::Column(bool_col(&[true, true, true, false, true])));
}

#[test]
fn s5_array_of_strings() {
    let a = array(str_col(&["x"]), &[0, 1, 1]);
    let b = array(str_col(&["y", "z"]), &[0, 2]);
    let out = Column::concat(&[a, b]);
    match &out {
        Column::Array(arr) => {
            assert_eq!(arr.offsets, vec![0, 1, 1, 3]);
            assert_eq!(string_rows(&arr.values), vec!["x", "y", "z"]);
        },
        _ => panic!("not an array column"),
    }
    assert_eq!(out.len(), 3);
}

#[test]
fn s6_empty() {
    assert_eq!(Chunk::concat(&[]), Err(ErrorCode::EmptyInput));
}

#[test]
fn empty_input_message() {
    assert_eq!(ErrorCode::EmptyInput.message(), "cannot concat an empty sequence of chunks");
}

#[test]
fn length_is_sum_of_lengths() {
    let cols = [
        Column::Number(NumberColumn::UInt8(vec![1, 2])),
        Column::Number(NumberColumn::UInt8(vec![])),
        Column::Number(NumberColumn::UInt8(vec![3, 4, 5])),
    ];
    let out = Column::concat(&cols);
    assert_eq!(out.len(), 5);
    assert_eq!(out, Column::Number(NumberColumn::UInt8(vec![1, 2, 3, 4, 5])));
}

#[test]
fn rows_keep_their_source_position() {
    let xs = [i64_col(&[10, 11]), i64_col(&[20, 21, 22]), i64_col(&[30])];
    let out = Column::concat(&xs);
    match &out {
        Column::Number(NumberColumn::Int64(v)) => {
            let mut offset = 0;
            for x in xs.iter() {
                if let Column::Number(NumberColumn::Int64(src)) = x {
                    for (k, item) in src.iter().enumerate() {
                        assert_eq!(v[offset + k], *item);
                    }
                    offset += src.len();
                }
            }
            assert_eq!(offset, v.len());
        },
        _ => panic!("not an i64 column"),
    }
}

#[test]
fn concat_is_associative() {
    let a = str_col(&["p", ""]);
    let b = str_col(&["qq"]);
    let c = str_col(&["", "rrr", "s"]);
    let whole = Column::concat(&[str_col(&["p", ""]), str_col(&["qq"]), str_col(&["", "rrr", "s"])]);
    let left = Column::concat(&[Column::concat(&[str_col(&["p", ""]), str_col(&["qq"])]), c]);
    let right = Column::concat(&[a, Column::concat(&[b, str_col(&["", "rrr", "s"])])]);
    assert_eq!(whole, left);
    assert_eq!(whole, right);
}

#[test]
fn singleton_is_identity() {
    let t = Column::Tuple { fields: vec![i32_col(&[1, 2]), str_col(&["a", "b"])], len: 2 };
    let out = Column::concat(&[Column::Tuple {
        fields: vec![i32_col(&[1, 2]), str_col(&["a", "b"])],
        len: 2,
    }]);
    assert_eq!(out, t);
}

#[test]
fn number_scalar_broadcast() {
    let c1 = chunk(vec![Value::Scalar(Scalar::Number(NumberScalar::Int64(7)))], 2);
    let c2 = chunk(vec![Value::Column(i64_col(&[1, 2, 3]))], 3);
    let c3 = chunk(vec![Value::Scalar(Scalar::Number(NumberScalar::Int64(-1)))], 1);
    let out = Chunk::concat(&[c1, c2, c3]).unwrap();
    assert_eq!(out.num_rows(), 6);
    assert_eq!(out.columns()[0], Value::Column(i64_col(&[7, 7, 1, 2, 3, -1])));
}

#[test]
fn string_scalar_broadcast() {
    let c1 = chunk(vec![Value::Column(str_col(&["a"]))], 1);
    let c2 = chunk(vec![Value::Scalar(Scalar::String(b"xy".to_vec()))], 3);
    let out = Chunk::concat(&[c1, c2]).unwrap();
    match &out.columns()[0] {
        Value::Column(c) => assert_eq!(string_rows(c), vec!["a", "xy", "xy", "xy"]),
        _ => panic!("result slot is not dense"),
    }
}

#[test]
fn tuple_and_array_scalar_broadcast() {
    let tuple = Scalar::Tuple(vec![
        Scalar::Number(NumberScalar::UInt16(9)),
        Scalar::Array(str_col(&["u", "v"])),
    ]);
    let c1 = chunk(vec![Value::Scalar(tuple)], 2);
    let c2 = chunk(
        vec![Value::Column(Column::Tuple {
            fields: vec![
                Column::Number(NumberColumn::UInt16(vec![1])),
                array(str_col(&["w"]), &[0, 1]),
            ],
            len: 1,
        })],
        1,
    );
    let out = Chunk::concat(&[c1, c2]).unwrap();
    let expected = Column::Tuple {
        fields: vec![
            Column::Number(NumberColumn::UInt16(vec![9, 9, 1])),
            array(str_col(&["u", "v", "u", "v", "w"]), &[0, 2, 4, 5]),
        ],
        len: 3,
    };
    assert_eq!(out.columns()[0], Value::Column(expected));
}

#[test]
fn array_scalar_repeated_zero_times() {
    let s = Scalar::Array(i32_col(&[1, 2]));
    let out = s.repeat(0);
    assert_eq!(out, array(i32_col(&[]), &[0]));
}

#[test]
fn null_rows_preserved() {
    let a = nullable(str_col(&["a", "junk"]), &[true, false]);
    let b = nullable(str_col(&["", "c"]), &[false, true]);
    let out = Column::concat(&[a, b]);
    match &out {
        Column::Nullable(n) => {
            assert_eq!(n.validity, vec![true, false, false, true]);
            assert_eq!(string_rows(&n.column), vec!["a", "junk", "", "c"]);
        },
        _ => panic!("not a nullable column"),
    }
}

#[test]
fn string_bytes_identical() {
    let a = str_col(&["héllo", ""]);
    let b = str_col(&["", "wörld", "!"]);
    let out = Column::concat(&[a, b]);
    assert_eq!(string_rows(&out), vec!["héllo", "", "", "wörld", "!"]);
}

#[test]
fn tuple_concat_is_fieldwise() {
    let t1 = Column::Tuple { fields: vec![i32_col(&[1]), str_col(&["a"])], len: 1 };
    let t2 = Column::Tuple { fields: vec![i32_col(&[2, 3]), str_col(&["bb", ""])], len: 2 };
    let out = Column::concat(&[t1, t2]);
    match &out {
        Column::Tuple { fields, len } => {
            assert_eq!(*len, 3);
            assert_eq!(fields.len(), 2);
            assert_eq!(fields[0], Column::concat(&[i32_col(&[1]), i32_col(&[2, 3])]));
            assert_eq!(fields[1], Column::concat(&[str_col(&["a"]), str_col(&["bb", ""])]));
        },
        _ => panic!("not a tuple column"),
    }
}

#[test]
fn result_type_matches_first_input() {
    let a = nullable(array(i32_col(&[1, 2]), &[0, 2]), &[true]);
    let b = nullable(array(i32_col(&[]), &[0, 0]), &[false]);
    let out = Column::concat(&[a, b]);
    match &out {
        Column::Nullable(n) => {
            assert_eq!(n.validity, vec![true, false]);
            assert_eq!(n.column, array(i32_col(&[1, 2]), &[0, 2, 2]));
        },
        _ => panic!("not a nullable column"),
    }
}

#[test]
fn length_only_variants() {
    let out = Column::concat(&[Column::Null { len: 2 }, Column::Null { len: 0 }, Column::Null { len: 3 }]);
    assert_eq!(out, Column::Null { len: 5 });
    let out = Column::concat(&[Column::EmptyArray { len: 1 }, Column::EmptyArray { len: 4 }]);
    assert_eq!(out, Column::EmptyArray { len: 5 });
}

#[test]
fn single_chunk_keeps_scalars() {
    let c = chunk(
        vec![Value::Scalar(Scalar::Null), Value::Column(i32_col(&[4, 5]))],
        2,
    );
    let out = Chunk::concat(&[c]).unwrap();
    assert_eq!(out.num_rows(), 2);
    assert_eq!(out.columns()[0], Value::Scalar(Scalar::Null));
    assert_eq!(out.columns()[1], Value::Column(i32_col(&[4, 5])));
}

#[test]
fn zero_row_chunks_take_part() {
    let c1 = chunk(vec![Value::Column(i32_col(&[]))], 0);
    let c2 = chunk(vec![Value::Scalar(Scalar::Number(NumberScalar::Int32(3)))], 0);
    let c3 = chunk(vec![Value::Column(i32_col(&[8]))], 1);
    let out = Chunk::concat(&[c1, c2, c3]).unwrap();
    assert_eq!(out.num_rows(), 1);
    assert_eq!(out.columns()[0], Value::Column(i32_col(&[8])));
}

#[test]
fn zero_width_chunks() {
    let out = Chunk::concat(&[chunk(vec![], 2), chunk(vec![], 3)]).unwrap();
    assert_eq!(out.num_rows(), 5);
    assert_eq!(out.num_columns(), 0);
}

#[test]
fn extreme_number_values() {
    let a = Column::Number(NumberColumn::UInt64(vec![u64::MAX, 0]));
    let b = Column::Number(NumberColumn::UInt64(vec![1]));
    assert_eq!(Column::concat(&[a, b]), Column::Number(NumberColumn::UInt64(vec![u64::MAX, 0, 1])));
    let a = Column::Number(NumberColumn::Int8(vec![i8::MIN]));
    let b = Column::Number(NumberColumn::Int8(vec![i8::MAX]));
    assert_eq!(Column::concat(&[a, b]), Column::Number(NumberColumn::Int8(vec![i8::MIN, i8::MAX])));
}

#[test]
fn all_number_widths() {
    let cases = vec![
        (Column::Number(NumberColumn::UInt16(vec![1])), Column::Number(NumberColumn::UInt16(vec![2])), Column::Number(NumberColumn::UInt16(vec![1, 2]))),
        (Column::Number(NumberColumn::UInt32(vec![1])), Column::Number(NumberColumn::UInt32(vec![2])), Column::Number(NumberColumn::UInt32(vec![1, 2]))),
        (Column::Number(NumberColumn::Int16(vec![-1])), Column::Number(NumberColumn::Int16(vec![2])), Column::Number(NumberColumn::Int16(vec![-1, 2]))),
    ];
    for (a, b, expected) in cases {
        assert_eq!(Column::concat(&[a, b]), expected);
    }
}

#[test]
fn nested_arrays() {
    let inner_a = array(i32_col(&[1, 2, 3]), &[0, 2, 3]);
    let inner_b = array(i32_col(&[4]), &[0, 0, 1]);
    let a = array(inner_a, &[0, 2]);
    let b = array(inner_b, &[0, 1, 2]);
    let out = Column::concat(&[a, b]);
    let expected = array(array(i32_col(&[1, 2, 3, 4]), &[0, 2, 3, 3, 4]), &[0, 2, 3, 4]);
    assert_eq!(out, expected);
}

#[test]
fn builders_append_rows() {
    let mut s = StringColumnBuilder::with_capacity(2, 3);
    s.push_item(&b"abc".to_vec(), 1, 3);
    let mut b = ColumnBuilder::String(s);
    b.append_column(&str_col(&["x", ""]));
    assert_eq!(string_rows(&b.build()), vec!["bc", "x", ""]);
    let out = Column::concat_scalar_types(ColumnBuilder::Boolean(vec![]), &[&bool_col(&[true]), &bool_col(&[false, false])]);
    assert_eq!(out, bool_col(&[true, false, false]));
}

#[test]
fn empty_like_and_duplicate() {
    let c = nullable(str_col(&["a"]), &[true]);
    assert_eq!(c.empty_like(), nullable(str_col(&[]), &[]));
    assert_eq!(c.duplicate(), c);
    let s = Scalar::Tuple(vec![Scalar::String(b"q".to_vec()), Scalar::EmptyArray]);
    assert_eq!(s.duplicate(), s);
}

#[test]
fn plain_records() {
    let plan = AlterViewPlan {
        tenant: "t".to_string(),
        catalog: "default".to_string(),
        database: "db".to_string(),
        viewname: "v".to_string(),
        subquery: "select 1".to_string(),
    };
    assert_eq!(plan.clone(), plan);
    let config = Config {
        log_level: "INFO".to_string(),
        metric_api_address: "127.0.0.1:7171".to_string(),
        flight_api_address: "127.0.0.1:9191".to_string(),
    };
    assert_eq!(config.clone().log_level, "INFO");
}

#[test]
fn repeat_each_scalar_kind() {
    assert_eq!(Scalar::Null.repeat(3), Column::Null { len: 3 });
    assert_eq!(Scalar::EmptyArray.repeat(2), Column::EmptyArray { len: 2 });
    assert_eq!(Scalar::Boolean(false).repeat(2), bool_col(&[false, false]));
    assert_eq!(
        Scalar::Number(NumberScalar::UInt32(5)).repeat(3),
        Column::Number(NumberColumn::UInt32(vec![5, 5, 5]))
    );
    assert_eq!(string_rows(&Scalar::String(b"ab".to_vec()).repeat(2)), vec!["ab", "ab"]);
    assert_eq!(string_rows(&Scalar::String(vec![]).repeat(2)), vec!["", ""]);
    assert_eq!(Scalar::Array(i32_col(&[1])).repeat(2), array(i32_col(&[1, 1]), &[0, 1, 2]));
    assert_eq!(
        Scalar::Tuple(vec![Scalar::Boolean(true)]).repeat(1),
        Column::Tuple { fields: vec![bool_col(&[true])], len: 1 }
    );
}

#[test]
fn nullable_chunks_concat() {
    let c1 = chunk(vec![Value::Column(nullable(i32_col(&[1, 0]), &[true, false]))], 2);
    let c2 = chunk(vec![Value::Column(nullable(i32_col(&[3]), &[true]))], 1);
    let out = Chunk::concat(&[c1, c2]).unwrap();
    assert_eq!(out.columns()[0], Value::Column(nullable(i32_col(&[1, 0, 3]), &[true, false, true])));
}

#[test]
fn builder_with_rows_keeps_them_first() {
    let out = Column::concat_scalar_types(ColumnBuilder::Boolean(vec![false, true]), &[&bool_col(&[true])]);
    assert_eq!(out, bool_col(&[false, true, true]));
    let out = Column::concat_scalar_types(ColumnBuilder::Null { len: 4 }, &[&Column::Null { len: 1 }, &Column::Null { len: 2 }]);
    assert_eq!(out, Column::Null { len: 7 });
    let mut s = StringColumnBuilder::with_capacity(1, 2);
    s.push_item(&b"hi".to_vec(), 0, 2);
    let out = Column::concat_scalar_types(ColumnBuilder::String(s), &[&str_col(&["", "yo"])]);
    assert_eq!(string_rows(&out), vec!["hi", "", "yo"]);
}

#[test]
fn builder_without_columns_is_built_as_is() {
    let out = Column::concat_scalar_types(ColumnBuilder::EmptyArray { len: 3 }, &[]);
    assert_eq!(out, Column::EmptyArray { len: 3 });
    let out = Column::concat_scalar_types(ColumnBuilder::Boolean(vec![]), &[]);
    assert_eq!(out, bool_col(&[]));
}

#[test]
fn chunk_concat_is_associative() {
    let mk = |v: &[i32], s: Option<i32>, n: usize| match s {
        Some(x) => chunk(vec![Value::Scalar(Scalar::Number(NumberScalar::Int32(x)))], n),
        None => chunk(vec![Value::Column(i32_col(v))], n),
    };
    let whole = Chunk::concat(&[mk(&[1, 2], None, 2), mk(&[], Some(9), 2), mk(&[3], None, 1)]).unwrap();
    let ab = Chunk::concat(&[mk(&[1, 2], None, 2), mk(&[], Some(9), 2)]).unwrap();
    let left = Chunk::concat(&[ab, mk(&[3], None, 1)]).unwrap();
    let bc = Chunk::concat(&[mk(&[], Some(9), 2), mk(&[3], None, 1)]).unwrap();
    let right = Chunk::concat(&[mk(&[1, 2], None, 2), bc]).unwrap();
    assert_eq!(whole, left);
    assert_eq!(whole, right);
    assert_eq!(whole.columns()[0], Value::Column(i32_col(&[1, 2, 9, 9, 3])));
}
