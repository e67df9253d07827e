use vstd::prelude::*;
use crate::column::{
    concat_fits, deref_all, flat_rows, offsets_wf, row, row_count, rows, total_rows, ty, wf,
    ArrayColumn, Column, DataType, Datum, NumberColumn, NumberKind, StringColumn,
};
use crate::column::{all_of_type, bytes_sum, fields_at, flatten_lists, rows_fit};
use crate::lemmas::{lemma_flat_index, lemma_flat_len, lemma_list_push, lemma_prefix_le, lemma_take_step, list_rows};

verus! {

/// One fixed-width integer.
#[derive(Clone, Copy, Debug, PartialEq, Eq, Structural)]
pub enum NumberScalar {
    UInt8(u8),
    UInt16(u16),
    UInt32(u32),
    UInt64(u64),
    Int8(i8),
    Int16(i16),
    Int32(i32),
    Int64(i64),
}

/// One logical value, able to stand for a constant column.
#[derive(Debug, PartialEq)]
pub enum Scalar {
    Null,
    EmptyArray,
    Number(NumberScalar),
    Boolean(bool),
    String(Vec<u8>),
    Array(Column),
    Tuple(Vec<Scalar>),
}

pub open spec fn number_scalar_kind(n: NumberScalar) -> NumberKind {
    match n {
        NumberScalar::UInt8(_) => NumberKind::UInt8,
        NumberScalar::UInt16(_) => NumberKind::UInt16,
        NumberScalar::UInt32(_) => NumberKind::UInt32,
        NumberScalar::UInt64(_) => NumberKind::UInt64,
        NumberScalar::Int8(_) => NumberKind::Int8,
        NumberScalar::Int16(_) => NumberKind::Int16,
        NumberScalar::Int32(_) => NumberKind::Int32,
        NumberScalar::Int64(_) => NumberKind::Int64,
    }
}

pub open spec fn number_scalar_value(n: NumberScalar) -> int {
    match n {
        NumberScalar::UInt8(x) => x as int,
        NumberScalar::UInt16(x) => x as int,
        NumberScalar::UInt32(x) => x as int,
        NumberScalar::UInt64(x) => x as int,
        NumberScalar::Int8(x) => x as int,
        NumberScalar::Int16(x) => x as int,
        NumberScalar::Int32(x) => x as int,
        NumberScalar::Int64(x) => x as int,
    }
}

/// The type of the columns a scalar repeats into.
pub open spec fn scalar_ty(s: Scalar) -> DataType
    decreases s,
{
    match s {
        Scalar::Null => DataType::Null,
        Scalar::EmptyArray => DataType::EmptyArray,
        Scalar::Number(n) => DataType::Number(number_scalar_kind(n)),
        Scalar::Boolean(_) => DataType::Boolean,
        Scalar::String(_) => DataType::String,
        Scalar::Array(c) => DataType::Array(Box::new(ty(c))),
        Scalar::Tuple(fs) => DataType::Tuple(
            Seq::new(fs@.len(), |j: int| if 0 <= j < fs@.len() { scalar_ty(fs@[j]) } else { DataType::Null }),
        ),
    }
}

/// The row value that a scalar stands for.
pub open spec fn scalar_datum(s: Scalar) -> Datum
    decreases s,
{
    match s {
        Scalar::Null => Datum::Null,
        Scalar::EmptyArray => Datum::List(Seq::empty()),
        Scalar::Number(n) => Datum::Int(number_scalar_value(n)),
        Scalar::Boolean(b) => Datum::Boolean(b),
        Scalar::String(v) => Datum::Bytes(v@),
        Scalar::Array(c) => Datum::List(rows(c)),
        Scalar::Tuple(fs) => Datum::Tuple(
            Seq::new(fs@.len(), |j: int| if 0 <= j < fs@.len() { scalar_datum(fs@[j]) } else { Datum::Null }),
        ),
    }
}

/// A scalar's nested columns are well formed.
pub open spec fn scalar_wf(s: Scalar) -> bool
    decreases s,
{
    match s {
        Scalar::Array(c) => wf(c),
        Scalar::Tuple(fs) => forall|j: int| 0 <= j < fs@.len() ==> scalar_wf(#[trigger] fs@[j]),
        _ => true,
    }
}

/// `n` copies of a column.
pub open spec fn copies(c: Column, n: nat) -> Seq<Column> {
    Seq::new(n, |i: int| c)
}

/// A column of `n` copies of the scalar fits in memory.
pub open spec fn repeat_fits(s: Scalar, n: nat) -> bool {
    rows_fit(scalar_ty(s), Seq::new(n, |i: int| scalar_datum(s)))
}

/// `n` copies of a byte string hold `n` times its bytes.
proof fn lemma_repeat_bytes(v: Seq<u8>, n: nat)
    ensures
        bytes_sum(Seq::new(n, |i: int| Datum::Bytes(v))) == n * v.len(),
    decreases n,
{
    if n > 0 {
        let ds = Seq::new(n, |i: int| Datum::Bytes(v));
        assert(ds.drop_last() =~= Seq::new((n - 1) as nat, |i: int| Datum::Bytes(v)));
        lemma_repeat_bytes(v, (n - 1) as nat);
        assert((n - 1) * v.len() + v.len() == n * v.len()) by (nonlinear_arith);
    }
}

/// `n` copies of the list of the rows of `c`, flattened, are the rows of `n`
/// copies of `c`.
proof fn lemma_repeat_lists(c: Column, n: nat)
    ensures
        flatten_lists(Seq::new(n, |i: int| Datum::List(rows(c)))) == flat_rows(copies(c, n)),
    decreases n,
{
    if n > 0 {
        let ds = Seq::new(n, |i: int| Datum::List(rows(c)));
        assert(ds.drop_last() =~= Seq::new((n - 1) as nat, |i: int| Datum::List(rows(c))));
        assert(copies(c, n).drop_last() =~= copies(c, (n - 1) as nat));
        lemma_repeat_lists(c, (n - 1) as nat);
    } else {
        assert(flat_rows(copies(c, n)) =~= Seq::<Datum>::empty());
    }
}

/// Each field of a well-formed tuple scalar is well formed, and fits `n`
/// times when the tuple does.
proof fn lemma_tuple_scalar_field(s: Scalar, n: nat, j: int)
    requires
        scalar_wf(s),
        repeat_fits(s, n),
        s is Tuple,
        0 <= j < s->Tuple_0@.len(),
    ensures
        scalar_wf(s->Tuple_0@[j]),
        repeat_fits(s->Tuple_0@[j], n),
{
    let f = s->Tuple_0@[j];
    assert(scalar_ty(s)->Tuple_0[j] == scalar_ty(f));
    assert(fields_at(Seq::new(n, |i: int| scalar_datum(s)), j) =~= Seq::new(
        n,
        |i: int| scalar_datum(f),
    ));
}

impl Scalar {
    /// A dense column of `n` rows, each equal to this scalar.
    pub fn repeat(&self, n: usize) -> (r: Column)
        requires
            scalar_wf(*self),
            repeat_fits(*self, n as nat),
        ensures
            wf(r),
            ty(r) == scalar_ty(*self),
            rows(r) == Seq::new(n as nat, |i: int| scalar_datum(*self)),
        decreases *self,
    {
        let ghost target = Seq::new(n as nat, |i: int| scalar_datum(*self));
        match self {
            Scalar::Null => {
                let r = Column::Null { len: n };
                assert(rows(r) =~= target);
                r
            },
            Scalar::EmptyArray => {
                let r = Column::EmptyArray { len: n };
                assert(rows(r) =~= target);
                r
            },
            Scalar::Boolean(b) => {
                let r = Column::Boolean(vec![*b; n]);
                assert(rows(r) =~= target);
                r
            },
            Scalar::Number(x) => {
                let r = match x {
                    NumberScalar::UInt8(v) => Column::Number(NumberColumn::UInt8(vec![*v; n])),
                    NumberScalar::UInt16(v) => Column::Number(NumberColumn::UInt16(vec![*v; n])),
                    NumberScalar::UInt32(v) => Column::Number(NumberColumn::UInt32(vec![*v; n])),
                    NumberScalar::UInt64(v) => Column::Number(NumberColumn::UInt64(vec![*v; n])),
                    NumberScalar::Int8(v) => Column::Number(NumberColumn::Int8(vec![*v; n])),
                    NumberScalar::Int16(v) => Column::Number(NumberColumn::Int16(vec![*v; n])),
                    NumberScalar::Int32(v) => Column::Number(NumberColumn::Int32(vec![*v; n])),
                    NumberScalar::Int64(v) => Column::Number(NumberColumn::Int64(vec![*v; n])),
                };
                assert(rows(r) =~= target);
                r
            },
            Scalar::String(v) => {
                proof {
                    lemma_repeat_bytes(v@, n as nat);
                }
                Self::repeat_string(v, n)
            },
            Scalar::Array(c) => {
                proof {
                    lemma_repeat_lists(*c, n as nat);
                }
                Self::repeat_array(c, n)
            },
            Scalar::Tuple(fs) => {
                let ghost ts = scalar_ty(*self)->Tuple_0;
                let mut out: Vec<Column> = Vec::with_capacity(fs.len());
                let mut j: usize = 0;
                while j < fs.len()
                    invariant
                        j <= fs@.len(),
                        scalar_wf(*self),
                        repeat_fits(*self, n as nat),
                        *self == Scalar::Tuple(*fs),
                        out@.len() == j,
                        forall|q: int|
                            0 <= q < j ==> wf(#[trigger] out@[q]) && ty(out@[q]) == scalar_ty(fs@[q])
                                && rows(out@[q]) == Seq::new(n as nat, |i: int| scalar_datum(fs@[q])),
                    decreases fs@.len() - j,
                {
                    proof {
                        lemma_tuple_scalar_field(*self, n as nat, j as int);
                    }
                    assert(decreases_to!(*self => self->Tuple_0));
                    assert(decreases_to!(self->Tuple_0 => self->Tuple_0@));
                    assert(decreases_to!(self->Tuple_0@ => self->Tuple_0@[j as int]));
                    let c = fs[j].repeat(n);
                    out.push(c);
                    j = j + 1;
                }
                let r = Column::Tuple { fields: out, len: n };
                assert forall|q: int| 0 <= q < out@.len() implies row_count(#[trigger] out@[q]) == n by {
                    assert(rows(out@[q]).len() == n);
                }
                assert(ty(r)->Tuple_0 =~= scalar_ty(*self)->Tuple_0);
                assert forall|i: int| 0 <= i < n implies rows(r)[i] == target[i] by {
                    assert forall|q: int| 0 <= q < out@.len() implies row(#[trigger] out@[q], i)
                        == scalar_datum(fs@[q]) by {
                        assert(rows(out@[q])[i] == row(out@[q], i));
                    }
                    assert(rows(r)[i]->Tuple_0 =~= target[i]->Tuple_0);
                }
                assert(rows(r) =~= target);
                r
            },
        }
    }

    /// A string column of `n` rows, each holding the bytes `v`.
    fn repeat_string(v: &Vec<u8>, n: usize) -> (r: Column)
        requires
            n * v@.len() <= usize::MAX,
        ensures
            wf(r),
            ty(r) == DataType::String,
            rows(r) == Seq::new(n as nat, |i: int| Datum::Bytes(v@)),
    {
        let ghost target = Seq::new(n as nat, |i: int| Datum::Bytes(v@));
        let mut data: Vec<u8> = Vec::new();
        let mut offsets: Vec<usize> = Vec::new();
        offsets.push(0);
        let mut i: usize = 0;
        assert(rows(Column::String((StringColumn { data, offsets }))) =~= target.take(0));
        while i < n
            invariant
                i <= n,
                n * v@.len() <= usize::MAX,
                data@.len() == i * v@.len(),
                offsets_wf(offsets@, data@.len()),
                rows(Column::String((StringColumn { data, offsets }))) == target.take(i as int),
                target == Seq::new(n as nat, |i: int| Datum::Bytes(v@)),
            decreases n - i,
        {
            proof {
                vstd::arithmetic::mul::lemma_mul_inequality(i + 1, n as int, v@.len() as int);
                vstd::arithmetic::mul::lemma_mul_is_distributive_add_other_way(v@.len() as int, i as int, 1);
            }
            let ghost s0 = StringColumn { data, offsets };
            let mut k: usize = 0;
            let ghost d0 = data@;
            while k < v.len()
                invariant
                    k <= v@.len(),
                    d0.len() + v@.len() <= usize::MAX,
                    data@ == d0 + v@.take(k as int),
                decreases v@.len() - k,
            {
                data.push(v[k]);
                k = k + 1;
                assert(data@ =~= d0 + v@.take(k as int));
            }
            assert(v@.take(k as int) =~= v@);
            let end = data.len();
            offsets.push(end);
            proof {
                let s1 = StringColumn { data, offsets };
                crate::builder::lemma_string_push(s0, s1, v@);
                assert(target.take(i + 1) =~= target.take(i as int).push(Datum::Bytes(v@)));
            }
            i = i + 1;
        }
        assert(target.take(i as int) =~= target);
        Column::String(StringColumn { data, offsets })
    }

    /// An array column of `n` rows, each holding the rows of `c`.
    fn repeat_array(c: &Column, n: usize) -> (r: Column)
        requires
            wf(*c),
            concat_fits(ty(*c), copies(*c, n as nat)),
        ensures
            wf(r),
            ty(r) == DataType::Array(Box::new(ty(*c))),
            rows(r) == Seq::new(n as nat, |i: int| Datum::List(rows(*c))),
    {
        let ghost target = Seq::new(n as nat, |i: int| Datum::List(rows(*c)));
        let ghost cs = copies(*c, n as nat);
        let len = c.len();
        let mut parts: Vec<&Column> = Vec::with_capacity(n);
        let mut i: usize = 0;
        while i < n
            invariant
                i <= n,
                parts@.len() == i,
                forall|q: int| 0 <= q < i ==> *#[trigger] parts@[q] == *c,
            decreases n - i,
        {
            parts.push(c);
            i = i + 1;
        }
        assert(deref_all(parts@) =~= cs);
        proof {
            lemma_flat_len(cs);
        }
        let mut offsets: Vec<usize> = Vec::with_capacity(n);
        offsets.push(0);
        let mut acc: usize = 0;
        if n == 0 {
            let r = Column::Array(Box::new(ArrayColumn { values: c.empty_like(), offsets }));
            assert(rows(r) =~= target);
            return r;
        }
        assert(all_of_type(cs, ty(*c)));
        let values = Column::concat_refs(parts.as_slice());
        let mut i: usize = 0;
        assert(list_rows(values, offsets@) =~= target.take(0));
        while i < n
            invariant
                i <= n,
                cs == copies(*c, n as nat),
                wf(*c),
                len == row_count(*c),
                rows(values) == flat_rows(cs),
                flat_rows(cs).len() == total_rows(cs),
                total_rows(cs) <= usize::MAX,
                acc == total_rows(cs.take(i as int)),
                offsets_wf(offsets@, acc as nat),
                list_rows(values, offsets@) == target.take(i as int),
                target == Seq::new(n as nat, |i: int| Datum::List(rows(*c))),
            decreases n - i,
        {
            proof {
                lemma_take_step(cs, i as int);
                lemma_prefix_le(cs, i + 1);
            }
            let next = acc + len;
            proof {
                lemma_list_push(values, offsets@, acc as nat, next);
                let lhs = Seq::new((next - acc) as nat, |m: int| row(values, acc + m));
                assert forall|m: int| 0 <= m < lhs.len() implies lhs[m] == rows(*c)[m] by {
                    lemma_flat_index(cs, i as int, m);
                    assert(rows(values)[acc + m] == row(values, acc + m));
                }
                assert(lhs =~= rows(*c));
                assert(target.take(i + 1) =~= target.take(i as int).push(Datum::List(rows(*c))));
            }
            offsets.push(next);
            acc = next;
            i = i + 1;
        }
        assert(target.take(i as int) =~= target);
        assert(cs.take(i as int) =~= cs);
        let r = Column::Array(Box::new(ArrayColumn { values, offsets }));
        assert forall|q: int| 0 <= q < rows(r).len() implies rows(r)[q] == list_rows(values, offsets@)[q] by {
            assert(rows(r)[q]->List_0 =~= list_rows(values, offsets@)[q]->List_0);
        }
        assert(rows(r) =~= target);
        r
    }
}

} // verus!
