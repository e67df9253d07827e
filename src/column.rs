use vstd::prelude::*;

verus! {

/// Width and signedness of the elements of a number column.
#[derive(Clone, Copy, Debug, PartialEq, Eq, Structural)]
pub enum NumberKind {
    UInt8,
    UInt16,
    UInt32,
    UInt64,
    Int8,
    Int16,
    Int32,
    Int64,
}

/// A contiguous buffer of fixed-width integers.
#[derive(Clone, Debug, PartialEq)]
pub enum NumberColumn {
    UInt8(Vec<u8>),
    UInt16(Vec<u16>),
    UInt32(Vec<u32>),
    UInt64(Vec<u64>),
    Int8(Vec<i8>),
    Int16(Vec<i16>),
    Int32(Vec<i32>),
    Int64(Vec<i64>),
}

/// Variable-length byte strings: row `r` is `data[offsets[r]..offsets[r + 1]]`.
#[derive(Clone, Debug, PartialEq)]
pub struct StringColumn {
    pub data: Vec<u8>,
    pub offsets: Vec<usize>,
}

/// Lists: row `r` holds rows `offsets[r]..offsets[r + 1]` of `values`.
#[derive(Debug, PartialEq)]
pub struct ArrayColumn {
    pub values: Column,
    pub offsets: Vec<usize>,
}

/// A column whose rows may be absent: row `r` is present when `validity[r]`.
#[derive(Debug, PartialEq)]
pub struct NullableColumn {
    pub column: Column,
    pub validity: Vec<bool>,
}

/// A dense, typed, row-indexed sequence of values.
#[derive(Debug, PartialEq)]
pub enum Column {
    Null { len: usize },
    EmptyArray { len: usize },
    Number(NumberColumn),
    Boolean(Vec<bool>),
    String(StringColumn),
    Array(Box<ArrayColumn>),
    Nullable(Box<NullableColumn>),
    Tuple { fields: Vec<Column>, len: usize },
}

/// The logical type of a column: its variant tag and, for nested variants,
/// the types of what it holds.
pub enum DataType {
    Null,
    EmptyArray,
    Number(NumberKind),
    Boolean,
    String,
    Array(Box<DataType>),
    Nullable(Box<DataType>),
    Tuple(Seq<DataType>),
}

/// The value held by one row of a column.
///
/// A nullable row keeps its validity bit and the payload stored under it, so
/// two columns with equal rows are equal slot for slot.
pub enum Datum {
    Null,
    Int(int),
    Boolean(bool),
    Bytes(Seq<u8>),
    List(Seq<Datum>),
    Masked(bool, Box<Datum>),
    Tuple(Seq<Datum>),
}

pub open spec fn number_kind(c: NumberColumn) -> NumberKind {
    match c {
        NumberColumn::UInt8(_) => NumberKind::UInt8,
        NumberColumn::UInt16(_) => NumberKind::UInt16,
        NumberColumn::UInt32(_) => NumberKind::UInt32,
        NumberColumn::UInt64(_) => NumberKind::UInt64,
        NumberColumn::Int8(_) => NumberKind::Int8,
        NumberColumn::Int16(_) => NumberKind::Int16,
        NumberColumn::Int32(_) => NumberKind::Int32,
        NumberColumn::Int64(_) => NumberKind::Int64,
    }
}

/// The elements of a number column, as mathematical integers.
pub open spec fn number_values(c: NumberColumn) -> Seq<int> {
    match c {
        NumberColumn::UInt8(v) => v@.map_values(|x: u8| x as int),
        NumberColumn::UInt16(v) => v@.map_values(|x: u16| x as int),
        NumberColumn::UInt32(v) => v@.map_values(|x: u32| x as int),
        NumberColumn::UInt64(v) => v@.map_values(|x: u64| x as int),
        NumberColumn::Int8(v) => v@.map_values(|x: i8| x as int),
        NumberColumn::Int16(v) => v@.map_values(|x: i16| x as int),
        NumberColumn::Int32(v) => v@.map_values(|x: i32| x as int),
        NumberColumn::Int64(v) => v@.map_values(|x: i64| x as int),
    }
}

/// Offsets that start at zero, never decrease, and end at `end`.
pub open spec fn offsets_wf(offsets: Seq<usize>, end: nat) -> bool {
    &&& offsets.len() >= 1
    &&& offsets[0] == 0
    &&& forall|i: int, j: int| 0 <= i <= j < offsets.len() ==> #[trigger] offsets[i] <= #[trigger] offsets[j]
    &&& offsets[offsets.len() - 1] == end
}

/// Number of rows of a column.
pub open spec fn row_count(c: Column) -> nat {
    match c {
        Column::Null { len } => len as nat,
        Column::EmptyArray { len } => len as nat,
        Column::Number(n) => number_values(n).len(),
        Column::Boolean(b) => b@.len(),
        Column::String(s) => (s.offsets@.len() - 1) as nat,
        Column::Array(a) => (a.offsets@.len() - 1) as nat,
        Column::Nullable(n) => n.validity@.len(),
        Column::Tuple { len, .. } => len as nat,
    }
}

/// The physical invariants of a column and of everything nested in it.
pub open spec fn wf(c: Column) -> bool
    decreases c,
{
    match c {
        Column::String(s) => offsets_wf(s.offsets@, s.data@.len()),
        Column::Array(a) => offsets_wf(a.offsets@, row_count(a.values)) && wf(a.values),
        Column::Nullable(n) => row_count(n.column) == n.validity@.len() && wf(n.column),
        Column::Tuple { fields, len } => forall|j: int|
            0 <= j < fields@.len() ==> row_count(#[trigger] fields@[j]) == len && wf(fields@[j]),
        _ => true,
    }
}

/// The logical type of a column.
pub open spec fn ty(c: Column) -> DataType
    decreases c,
{
    match c {
        Column::Null { .. } => DataType::Null,
        Column::EmptyArray { .. } => DataType::EmptyArray,
        Column::Number(n) => DataType::Number(number_kind(n)),
        Column::Boolean(_) => DataType::Boolean,
        Column::String(_) => DataType::String,
        Column::Array(a) => DataType::Array(Box::new(ty(a.values))),
        Column::Nullable(n) => DataType::Nullable(Box::new(ty(n.column))),
        Column::Tuple { fields, .. } => DataType::Tuple(
            Seq::new(fields@.len(), |j: int| if 0 <= j < fields@.len() { ty(fields@[j]) } else { DataType::Null }),
        ),
    }
}

/// The value of row `r` of a column.
pub open spec fn row(c: Column, r: int) -> Datum
    decreases c,
{
    match c {
        Column::Null { .. } => Datum::Null,
        Column::EmptyArray { .. } => Datum::List(Seq::empty()),
        Column::Number(n) => Datum::Int(number_values(n)[r]),
        Column::Boolean(b) => Datum::Boolean(b@[r]),
        Column::String(s) => Datum::Bytes(s.data@.subrange(s.offsets@[r] as int, s.offsets@[r + 1] as int)),
        Column::Array(a) => {
            let start = a.offsets@[r] as int;
            Datum::List(Seq::new((a.offsets@[r + 1] - start) as nat, |k: int| row(a.values, start + k)))
        },
        Column::Nullable(n) => Datum::Masked(n.validity@[r], Box::new(row(n.column, r))),
        Column::Tuple { fields, .. } => Datum::Tuple(
            Seq::new(fields@.len(), |j: int| if 0 <= j < fields@.len() { row(fields@[j], r) } else { Datum::Null }),
        ),
    }
}

/// All rows of a column, in order.
pub open spec fn rows(c: Column) -> Seq<Datum> {
    Seq::new(row_count(c), |r: int| row(c, r))
}

/// Number of rows of all columns of `xs` together.
pub open spec fn total_rows(xs: Seq<Column>) -> nat
    decreases xs.len(),
{
    if xs.len() == 0 {
        0
    } else {
        total_rows(xs.drop_last()) + row_count(xs.last())
    }
}

/// The rows of all columns of `xs`, one column after the other.
pub open spec fn flat_rows(xs: Seq<Column>) -> Seq<Datum>
    decreases xs.len(),
{
    if xs.len() == 0 {
        Seq::empty()
    } else {
        flat_rows(xs.drop_last()) + rows(xs.last())
    }
}

/// Number of string bytes held by a column (zero for other variants).
pub open spec fn byte_count(c: Column) -> nat {
    match c {
        Column::String(s) => s.data@.len(),
        _ => 0,
    }
}

/// Number of string bytes held by all columns of `xs` together.
pub open spec fn total_bytes(xs: Seq<Column>) -> nat
    decreases xs.len(),
{
    if xs.len() == 0 {
        0
    } else {
        total_bytes(xs.drop_last()) + byte_count(xs.last())
    }
}

/// Every column of `xs` is well formed and has type `t`.
pub open spec fn all_of_type(xs: Seq<Column>, t: DataType) -> bool {
    forall|i: int| 0 <= i < xs.len() ==> wf(#[trigger] xs[i]) && ty(xs[i]) == t
}

/// The validity bits of all nullable columns of `xs`, one column after the other.
pub open spec fn flat_validity(xs: Seq<Column>) -> Seq<bool>
    decreases xs.len(),
{
    if xs.len() == 0 {
        Seq::empty()
    } else {
        flat_validity(xs.drop_last()) + validity_bits(xs.last())
    }
}

/// The columns that a sequence of references points to.
pub open spec fn deref_all(xs: Seq<&Column>) -> Seq<Column> {
    xs.map_values(|c: &Column| *c)
}

/// The inner column of an array column.
pub open spec fn array_values(c: Column) -> Column {
    match c {
        Column::Array(a) => a.values,
        _ => Column::Null { len: 0 },
    }
}

/// The inner column of a nullable column.
pub open spec fn nullable_inner(c: Column) -> Column {
    match c {
        Column::Nullable(n) => n.column,
        _ => Column::Null { len: 0 },
    }
}

/// The validity bits of a nullable column.
pub open spec fn validity_bits(c: Column) -> Seq<bool> {
    match c {
        Column::Nullable(n) => n.validity@,
        _ => Seq::empty(),
    }
}

/// Field `j` of a tuple column.
pub open spec fn tuple_field(c: Column, j: int) -> Column {
    match c {
        Column::Tuple { fields, .. } => fields@[j],
        _ => Column::Null { len: 0 },
    }
}

/// The inner columns of the array columns of `xs`.
pub open spec fn array_values_all(xs: Seq<Column>) -> Seq<Column> {
    xs.map_values(|c: Column| array_values(c))
}

/// The inner columns of the nullable columns of `xs`.
pub open spec fn nullable_inners(xs: Seq<Column>) -> Seq<Column> {
    xs.map_values(|c: Column| nullable_inner(c))
}

/// Field `j` of each tuple column of `xs`.
pub open spec fn field_columns(xs: Seq<Column>, j: int) -> Seq<Column> {
    xs.map_values(|c: Column| tuple_field(c, j))
}

/// Number of string bytes in a row value (zero unless it is a byte string).
pub open spec fn byte_len(d: Datum) -> nat {
    match d {
        Datum::Bytes(b) => b.len(),
        _ => 0,
    }
}

/// Number of string bytes in a sequence of row values.
pub open spec fn bytes_sum(ds: Seq<Datum>) -> nat
    decreases ds.len(),
{
    if ds.len() == 0 {
        0
    } else {
        bytes_sum(ds.drop_last()) + byte_len(ds.last())
    }
}

/// The items of a list value.
pub open spec fn list_items(d: Datum) -> Seq<Datum> {
    match d {
        Datum::List(items) => items,
        _ => Seq::empty(),
    }
}

/// The items of all list values of `ds`, one list after the other.
pub open spec fn flatten_lists(ds: Seq<Datum>) -> Seq<Datum>
    decreases ds.len(),
{
    if ds.len() == 0 {
        Seq::empty()
    } else {
        flatten_lists(ds.drop_last()) + list_items(ds.last())
    }
}

/// The value stored under a nullable row, whatever its validity bit.
pub open spec fn payload(d: Datum) -> Datum {
    match d {
        Datum::Masked(_, p) => *p,
        _ => Datum::Null,
    }
}

/// The payloads of the nullable values of `ds`.
pub open spec fn payloads(ds: Seq<Datum>) -> Seq<Datum> {
    ds.map_values(|d: Datum| payload(d))
}

/// Field `j` of a tuple value.
pub open spec fn field_of(d: Datum, j: int) -> Datum {
    match d {
        Datum::Tuple(fs) => fs[j],
        _ => Datum::Null,
    }
}

/// Field `j` of each tuple value of `ds`.
pub open spec fn fields_at(ds: Seq<Datum>, j: int) -> Seq<Datum> {
    ds.map_values(|d: Datum| field_of(d, j))
}

/// A column of type `t` with rows `ds` fits in memory: its row count, its
/// string bytes, and the same for every column nested in it are at most
/// `usize::MAX`.
pub open spec fn rows_fit(t: DataType, ds: Seq<Datum>) -> bool
    decreases t,
{
    &&& ds.len() <= usize::MAX
    &&& bytes_sum(ds) <= usize::MAX
    &&& match t {
        DataType::Array(it) => rows_fit(*it, flatten_lists(ds)),
        DataType::Nullable(it) => rows_fit(*it, payloads(ds)),
        DataType::Tuple(ts) => forall|j: int|
            0 <= j < ts.len() ==> rows_fit(#[trigger] ts[j], fields_at(ds, j)),
        _ => true,
    }
}

/// The concatenation of `xs`, columns of type `t`, fits in memory.
pub open spec fn concat_fits(t: DataType, xs: Seq<Column>) -> bool {
    rows_fit(t, flat_rows(xs))
}

} // verus!
