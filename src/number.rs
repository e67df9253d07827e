use vstd::prelude::*;
use crate::column::{number_kind, number_values, Column, Datum, NumberColumn, NumberKind};

verus! {

/// An element type of number columns, with the conversions between its
/// typed buffer and the generic column.
pub trait Number: Copy + Sized {
    /// The kind of column that holds this type.
    spec fn kind() -> NumberKind;

    /// The value of an element as a mathematical integer.
    spec fn to_int(self) -> int;

    /// The buffer of `c` when `c` is a number column of this type.
    fn try_downcast_column(c: &Column) -> (r: Option<&Vec<Self>>)
        ensures
            r is Some <==> (c is Number && number_kind(c->Number_0) == Self::kind()),
            r matches Some(v) ==> v@.map_values(|x: Self| Datum::Int(x.to_int())) == number_values(c->Number_0).map_values(
                |x: int| Datum::Int(x),
            ),
    ;

    /// The number column holding `v`.
    fn upcast_column(v: Vec<Self>) -> (r: Column)
        ensures
            r is Number,
            number_kind(r->Number_0) == Self::kind(),
            number_values(r->Number_0).map_values(|x: int| Datum::Int(x)) == v@.map_values(
                |x: Self| Datum::Int(x.to_int()),
            ),
    ;
}

/// The rows of a number column holding `s`.
pub open spec fn number_rows<T: Number>(s: Seq<T>) -> Seq<Datum> {
    s.map_values(|x: T| Datum::Int(x.to_int()))
}

impl Number for u8 {
    open spec fn kind() -> NumberKind {
        NumberKind::UInt8
    }

    open spec fn to_int(self) -> int {
        self as int
    }

    fn try_downcast_column(c: &Column) -> (r: Option<&Vec<u8>>) {
        match c {
            Column::Number(NumberColumn::UInt8(v)) => {
                assert(v@.map_values(|x: Self| Datum::Int(x.to_int())) =~= number_values(c->Number_0).map_values(|x: int| Datum::Int(x)));
                Some(v)
            },
            _ => None,
        }
    }

    fn upcast_column(v: Vec<u8>) -> (r: Column) {
        let r = Column::Number(NumberColumn::UInt8(v));
        assert(number_values(r->Number_0).map_values(|x: int| Datum::Int(x)) =~= v@.map_values(|x: Self| Datum::Int(x.to_int())));
        r
    }
}

impl Number for u16 {
    open spec fn kind() -> NumberKind {
        NumberKind::UInt16
    }

    open spec fn to_int(self) -> int {
        self as int
    }

    fn try_downcast_column(c: &Column) -> (r: Option<&Vec<u16>>) {
        match c {
            Column::Number(NumberColumn::UInt16(v)) => {
                assert(v@.map_values(|x: Self| Datum::Int(x.to_int())) =~= number_values(c->Number_0).map_values(|x: int| Datum::Int(x)));
                Some(v)
            },
            _ => None,
        }
    }

    fn upcast_column(v: Vec<u16>) -> (r: Column) {
        let r = Column::Number(NumberColumn::UInt16(v));
        assert(number_values(r->Number_0).map_values(|x: int| Datum::Int(x)) =~= v@.map_values(|x: Self| Datum::Int(x.to_int())));
        r
    }
}

impl Number for u32 {
    open spec fn kind() -> NumberKind {
        NumberKind::UInt32
    }

    open spec fn to_int(self) -> int {
        self as int
    }

    fn try_downcast_column(c: &Column) -> (r: Option<&Vec<u32>>) {
        match c {
            Column::Number(NumberColumn::UInt32(v)) => {
                assert(v@.map_values(|x: Self| Datum::Int(x.to_int())) =~= number_values(c->Number_0).map_values(|x: int| Datum::Int(x)));
                Some(v)
            },
            _ => None,
        }
    }

    fn upcast_column(v: Vec<u32>) -> (r: Column) {
        let r = Column::Number(NumberColumn::UInt32(v));
        assert(number_values(r->Number_0).map_values(|x: int| Datum::Int(x)) =~= v@.map_values(|x: Self| Datum::Int(x.to_int())));
        r
    }
}

impl Number for u64 {
    open spec fn kind() -> NumberKind {
        NumberKind::UInt64
    }

    open spec fn to_int(self) -> int {
        self as int
    }

    fn try_downcast_column(c: &Column) -> (r: Option<&Vec<u64>>) {
        match c {
            Column::Number(NumberColumn::UInt64(v)) => {
                assert(v@.map_values(|x: Self| Datum::Int(x.to_int())) =~= number_values(c->Number_0).map_values(|x: int| Datum::Int(x)));
                Some(v)
            },
            _ => None,
        }
    }

    fn upcast_column(v: Vec<u64>) -> (r: Column) {
        let r = Column::Number(NumberColumn::UInt64(v));
        assert(number_values(r->Number_0).map_values(|x: int| Datum::Int(x)) =~= v@.map_values(|x: Self| Datum::Int(x.to_int())));
        r
    }
}

impl Number for i8 {
    open spec fn kind() -> NumberKind {
        NumberKind::Int8
    }

    open spec fn to_int(self) -> int {
        self as int
    }

    fn try_downcast_column(c: &Column) -> (r: Option<&Vec<i8>>) {
        match c {
            Column::Number(NumberColumn::Int8(v)) => {
                assert(v@.map_values(|x: Self| Datum::Int(x.to_int())) =~= number_values(c->Number_0).map_values(|x: int| Datum::Int(x)));
                Some(v)
            },
            _ => None,
        }
    }

    fn upcast_column(v: Vec<i8>) -> (r: Column) {
        let r = Column::Number(NumberColumn::Int8(v));
        assert(number_values(r->Number_0).map_values(|x: int| Datum::Int(x)) =~= v@.map_values(|x: Self| Datum::Int(x.to_int())));
        r
    }
}

impl Number for i16 {
    open spec fn kind() -> NumberKind {
        NumberKind::Int16
    }

    open spec fn to_int(self) -> int {
        self as int
    }

    fn try_downcast_column(c: &Column) -> (r: Option<&Vec<i16>>) {
        match c {
            Column::Number(NumberColumn::Int16(v)) => {
                assert(v@.map_values(|x: Self| Datum::Int(x.to_int())) =~= number_values(c->Number_0).map_values(|x: int| Datum::Int(x)));
                Some(v)
            },
            _ => None,
        }
    }

    fn upcast_column(v: Vec<i16>) -> (r: Column) {
        let r = Column::Number(NumberColumn::Int16(v));
        assert(number_values(r->Number_0).map_values(|x: int| Datum::Int(x)) =~= v@.map_values(|x: Self| Datum::Int(x.to_int())));
        r
    }
}

impl Number for i32 {
    open spec fn kind() -> NumberKind {
        NumberKind::Int32
    }

    open spec fn to_int(self) -> int {
        self as int
    }

    fn try_downcast_column(c: &Column) -> (r: Option<&Vec<i32>>) {
        match c {
            Column::Number(NumberColumn::Int32(v)) => {
                assert(v@.map_values(|x: Self| Datum::Int(x.to_int())) =~= number_values(c->Number_0).map_values(|x: int| Datum::Int(x)));
                Some(v)
            },
            _ => None,
        }
    }

    fn upcast_column(v: Vec<i32>) -> (r: Column) {
        let r = Column::Number(NumberColumn::Int32(v));
        assert(number_values(r->Number_0).map_values(|x: int| Datum::Int(x)) =~= v@.map_values(|x: Self| Datum::Int(x.to_int())));
        r
    }
}

impl Number for i64 {
    open spec fn kind() -> NumberKind {
        NumberKind::Int64
    }

    open spec fn to_int(self) -> int {
        self as int
    }

    fn try_downcast_column(c: &Column) -> (r: Option<&Vec<i64>>) {
        match c {
            Column::Number(NumberColumn::Int64(v)) => {
                assert(v@.map_values(|x: Self| Datum::Int(x.to_int())) =~= number_values(c->Number_0).map_values(|x: int| Datum::Int(x)));
                Some(v)
            },
            _ => None,
        }
    }

    fn upcast_column(v: Vec<i64>) -> (r: Column) {
        let r = Column::Number(NumberColumn::Int64(v));
        assert(number_values(r->Number_0).map_values(|x: int| Datum::Int(x)) =~= v@.map_values(|x: Self| Datum::Int(x.to_int())));
        r
    }
}

} // verus!
