use vstd::prelude::*;
use crate::builder::{built, ColumnBuilder, StringColumnBuilder};
use crate::column::{
    all_of_type, byte_count, concat_fits, flat_rows, row_count, rows, total_bytes, total_rows, ty,
    wf, Column, DataType, Datum, NumberColumn, deref_all, array_values, array_values_all, nullable_inner,
    nullable_inners, field_columns, flat_validity, offsets_wf, row, tuple_field, ArrayColumn,
    NullableColumn, StringColumn,
};
use crate::lemmas::{
    lemma_flat_index, lemma_flat_len, lemma_list_push, lemma_nullable_rows, lemma_prefix_le,
    lemma_take_step, lemma_tuple_rows, list_rows, lemma_fits_parts,
};
use crate::number::{number_rows, Number};

verus! {

/// Appends the bits of `src` to `out`.
fn append_bits(out: &mut Vec<bool>, src: &Vec<bool>)
    requires
        old(out)@.len() + src@.len() <= usize::MAX,
    ensures
        final(out)@ == old(out)@ + src@,
{
    let ghost out0 = out@;
    let mut k: usize = 0;
    while k < src.len()
        invariant
            k <= src@.len(),
            out0.len() + src@.len() <= usize::MAX,
            out@ == out0 + src@.take(k as int),
        decreases src@.len() - k,
    {
        out.push(src[k]);
        k = k + 1;
        assert(out@ =~= out0 + src@.take(k as int));
    }
    assert(src@.take(k as int) =~= src@);
}

impl Column {
    /// Number of rows.
    pub fn len(&self) -> (r: usize)
        requires
            wf(*self),
        ensures
            r == row_count(*self),
    {
        match self {
            Column::Null { len } => *len,
            Column::EmptyArray { len } => *len,
            Column::Number(n) => match n {
                NumberColumn::UInt8(v) => v.len(),
                NumberColumn::UInt16(v) => v.len(),
                NumberColumn::UInt32(v) => v.len(),
                NumberColumn::UInt64(v) => v.len(),
                NumberColumn::Int8(v) => v.len(),
                NumberColumn::Int16(v) => v.len(),
                NumberColumn::Int32(v) => v.len(),
                NumberColumn::Int64(v) => v.len(),
            },
            Column::Boolean(b) => b.len(),
            Column::String(s) => s.offsets.len() - 1,
            Column::Array(a) => a.offsets.len() - 1,
            Column::Nullable(n) => n.validity.len(),
            Column::Tuple { len, .. } => *len,
        }
    }

    /// A column of the same type with no rows.
    pub fn empty_like(&self) -> (r: Column)
        ensures
            wf(r),
            ty(r) == ty(*self),
            row_count(r) == 0,
        decreases *self,
    {
        match self {
            Column::Null { .. } => Column::Null { len: 0 },
            Column::EmptyArray { .. } => Column::EmptyArray { len: 0 },
            Column::Number(n) => Column::Number(
                match n {
                    NumberColumn::UInt8(_) => NumberColumn::UInt8(Vec::new()),
                    NumberColumn::UInt16(_) => NumberColumn::UInt16(Vec::new()),
                    NumberColumn::UInt32(_) => NumberColumn::UInt32(Vec::new()),
                    NumberColumn::UInt64(_) => NumberColumn::UInt64(Vec::new()),
                    NumberColumn::Int8(_) => NumberColumn::Int8(Vec::new()),
                    NumberColumn::Int16(_) => NumberColumn::Int16(Vec::new()),
                    NumberColumn::Int32(_) => NumberColumn::Int32(Vec::new()),
                    NumberColumn::Int64(_) => NumberColumn::Int64(Vec::new()),
                },
            ),
            Column::Boolean(_) => Column::Boolean(Vec::new()),
            Column::String(_) => {
                let mut offsets: Vec<usize> = Vec::new();
                offsets.push(0);
                Column::String(StringColumn { data: Vec::new(), offsets })
            },
            Column::Array(a) => {
                let mut offsets: Vec<usize> = Vec::new();
                offsets.push(0);
                Column::Array(Box::new(ArrayColumn { values: a.values.empty_like(), offsets }))
            },
            Column::Nullable(nc) => Column::Nullable(
                Box::new(NullableColumn { column: nc.column.empty_like(), validity: Vec::new() }),
            ),
            Column::Tuple { fields, .. } => {
                let mut out: Vec<Column> = Vec::with_capacity(fields.len());
                let mut j: usize = 0;
                while j < fields.len()
                    invariant
                        j <= fields@.len(),
                        out@.len() == j,
                        *self == (Column::Tuple { fields: *fields, len: self->Tuple_len }),
                        forall|q: int|
                            0 <= q < j ==> wf(#[trigger] out@[q]) && ty(out@[q]) == ty(fields@[q])
                                && row_count(out@[q]) == 0,
                    decreases fields@.len() - j,
                {
                    assert(decreases_to!(*self => self->fields));
                    assert(decreases_to!(self->fields => self->fields@));
                    assert(decreases_to!(self->fields@ => self->fields@[j as int]));
                    out.push(fields[j].empty_like());
                    j = j + 1;
                }
                let r = Column::Tuple { fields: out, len: 0 };
                assert(ty(r)->Tuple_0 =~= ty(*self)->Tuple_0);
                r
            },
        }
    }

    /// Number of rows of all of `columns` together.
    fn total_len(columns: &[&Column]) -> (r: usize)
        requires
            forall|i: int| 0 <= i < columns@.len() ==> wf(#[trigger] deref_all(columns@)[i]),
            total_rows(deref_all(columns@)) <= usize::MAX,
        ensures
            r == total_rows(deref_all(columns@)),
    {
        let ghost cs = deref_all(columns@);
        let mut sum: usize = 0;
        let mut i: usize = 0;
        while i < columns.len()
            invariant
                i <= cs.len(),
                cs == deref_all(columns@),
                forall|q: int| 0 <= q < cs.len() ==> wf(#[trigger] cs[q]),
                sum == total_rows(cs.take(i as int)),
                total_rows(cs) <= usize::MAX,
            decreases cs.len() - i,
        {
            proof {
                lemma_take_step(cs, i as int);
                lemma_prefix_le(cs, i + 1);
            }
            sum = sum + columns[i].len();
            i = i + 1;
        }
        assert(cs.take(i as int) =~= cs);
        sum
    }

    /// Number of string bytes of all of `columns` together.
    fn total_data_len(columns: &[&Column]) -> (r: usize)
        requires
            total_bytes(deref_all(columns@)) <= usize::MAX,
        ensures
            r == total_bytes(deref_all(columns@)),
    {
        let ghost cs = deref_all(columns@);
        let mut sum: usize = 0;
        let mut i: usize = 0;
        while i < columns.len()
            invariant
                i <= cs.len(),
                cs == deref_all(columns@),
                sum == total_bytes(cs.take(i as int)),
                total_bytes(cs) <= usize::MAX,
            decreases cs.len() - i,
        {
            proof {
                lemma_take_step(cs, i as int);
                lemma_prefix_le(cs, i + 1);
            }
            if let Column::String(s) = columns[i] {
                sum = sum + s.data.len();
            }
            i = i + 1;
        }
        assert(cs.take(i as int) =~= cs);
        sum
    }

    /// Concatenates columns of one type into a column of that type whose rows
    /// are the rows of the inputs, one input after the other.
    pub fn concat(columns: &[Column]) -> (r: Column)
        requires
            columns@.len() > 0,
            all_of_type(columns@, ty(columns@[0])),
            concat_fits(ty(columns@[0]), columns@),
        ensures
            wf(r),
            ty(r) == ty(columns@[0]),
            row_count(r) == total_rows(columns@),
            rows(r) == flat_rows(columns@),
    {
        proof {
            lemma_fits_parts(ty(columns@[0]), columns@);
        }
        let mut refs: Vec<&Column> = Vec::with_capacity(columns.len());
        assert(deref_all(refs@) =~= columns@.take(0));
        let mut i: usize = 0;
        while i < columns.len()
            invariant
                i <= columns@.len(),
                deref_all(refs@) == columns@.take(i as int),
            decreases columns@.len() - i,
        {
            let ghost prev = refs@;
            let c: &Column = &columns[i];
            assert(*c == columns@[i as int]);
            refs.push(c);
            assert(deref_all(refs@) =~= deref_all(prev).push(*c));
            i = i + 1;
            assert(deref_all(refs@) =~= columns@.take(i as int));
        }
        assert(columns@.take(i as int) =~= columns@);
        let r = Self::concat_refs(refs.as_slice());
        proof {
            lemma_flat_len(columns@);
        }
        r
    }

    /// The recursive body of `concat`, on borrowed columns.
    pub(crate) fn concat_refs(columns: &[&Column]) -> (r: Column)
        requires
            columns@.len() > 0,
            all_of_type(deref_all(columns@), ty(*columns@[0])),
            concat_fits(ty(*columns@[0]), deref_all(columns@)),
        ensures
            wf(r),
            ty(r) == ty(*columns@[0]),
            rows(r) == flat_rows(deref_all(columns@)),
        decreases ty(*columns@[0]),
    {
        let ghost cs = deref_all(columns@);
        let ghost t = ty(cs[0]);
        proof {
            lemma_fits_parts(t, cs);
        }
        if columns.len() == 1 {
            let r = columns[0].duplicate();
            assert(cs.drop_last() =~= Seq::<Column>::empty());
            assert(flat_rows(cs.drop_last()) == Seq::<Datum>::empty());
            assert(flat_rows(cs) =~= rows(cs[0]));
            return r;
        }
        let capacity = Self::total_len(columns);
        match columns[0] {
            Column::Null { .. } => Self::concat_scalar_types(ColumnBuilder::Null { len: 0 }, columns),
            Column::EmptyArray { .. } => Self::concat_scalar_types(
                ColumnBuilder::EmptyArray { len: 0 },
                columns,
            ),
            Column::Boolean(_) => {
                let builder = ColumnBuilder::Boolean(Vec::with_capacity(capacity));
                Self::concat_scalar_types(builder, columns)
            },
            Column::String(_) => {
                let data_capacity = Self::total_data_len(columns);
                let builder = ColumnBuilder::String(
                    StringColumnBuilder::with_capacity(capacity, data_capacity),
                );
                Self::concat_scalar_types(builder, columns)
            },
            Column::Number(n) => match n {
                NumberColumn::UInt8(_) => Self::concat_primitive_types::<u8>(columns, capacity),
                NumberColumn::UInt16(_) => Self::concat_primitive_types::<u16>(columns, capacity),
                NumberColumn::UInt32(_) => Self::concat_primitive_types::<u32>(columns, capacity),
                NumberColumn::UInt64(_) => Self::concat_primitive_types::<u64>(columns, capacity),
                NumberColumn::Int8(_) => Self::concat_primitive_types::<i8>(columns, capacity),
                NumberColumn::Int16(_) => Self::concat_primitive_types::<i16>(columns, capacity),
                NumberColumn::Int32(_) => Self::concat_primitive_types::<i32>(columns, capacity),
                NumberColumn::Int64(_) => Self::concat_primitive_types::<i64>(columns, capacity),
            },
            Column::Array(_) => {
                let ghost it = ty(array_values(cs[0]));
                let ghost vs = array_values_all(cs);
                let mut inners: Vec<&Column> = Vec::with_capacity(columns.len());
                assert(deref_all(inners@) =~= array_values_all(cs.take(0)));
                let mut i: usize = 0;
                while i < columns.len()
                    invariant
                        i <= cs.len(),
                        cs == deref_all(columns@),
                        all_of_type(cs, t),
                        t == DataType::Array(Box::new(it)),
                        deref_all(inners@) == array_values_all(cs.take(i as int)),
                    decreases cs.len() - i,
                {
                    assert(wf(cs[i as int]) && ty(cs[i as int]) == t);
                    let ghost prev = inners@;
                    if let Column::Array(a) = columns[i] {
                        inners.push(&a.values);
                    }
                    assert(deref_all(inners@) =~= deref_all(prev).push(array_values(cs[i as int])));
                    assert(array_values_all(cs.take(i + 1)) =~= array_values_all(cs.take(i as int)).push(
                        array_values(cs[i as int]),
                    ));
                    i = i + 1;
                }
                assert(cs.take(i as int) =~= cs);
                assert forall|q: int| 0 <= q < vs.len() implies wf(#[trigger] vs[q]) && ty(vs[q]) == it by {
                    assert(wf(cs[q]) && ty(cs[q]) == t);
                }
                assert(*inners@[0] == vs[0]);
                assert(decreases_to!(t => it));
                let values = Self::concat_refs(inners.as_slice());
                proof {
                    lemma_flat_len(vs);
                }
                assert(concat_fits(it, vs));
                let mut offsets: Vec<usize> = Vec::with_capacity(
                    if capacity < usize::MAX {
                        capacity + 1
                    } else {
                        capacity
                    },
                );
                offsets.push(0);
                assert(list_rows(values, offsets@) =~= flat_rows(cs.take(0)));
                let mut base: usize = 0;
                let mut i: usize = 0;
                while i < columns.len()
                    invariant
                        i <= cs.len(),
                        cs == deref_all(columns@),
                        all_of_type(cs, t),
                        t == DataType::Array(Box::new(it)),
                        vs == array_values_all(cs),
                        rows(values) == flat_rows(vs),
                        total_rows(vs) <= usize::MAX,
                        base == total_rows(vs.take(i as int)),
                        offsets_wf(offsets@, base as nat),
                        list_rows(values, offsets@) == flat_rows(cs.take(i as int)),
                    decreases cs.len() - i,
                {
                    proof {
                        lemma_take_step(cs, i as int);
                        lemma_take_step(vs, i as int);
                        lemma_prefix_le(vs, i + 1);
                        assert(wf(cs[i as int]) && ty(cs[i as int]) == t);
                    }
                    if let Column::Array(a) = columns[i] {
                        let n = a.offsets.len() - 1;
                        let mut k: usize = 0;
                        while k < n
                            invariant
                                k <= n,
                                n == a.offsets@.len() - 1,
                                *columns@[i as int] == Column::Array(*a),
                                offsets_wf(a.offsets@, row_count(a.values)),
                                vs[i as int] == a.values,
                                0 <= i < vs.len(),
                                i < cs.len(),
                                cs == deref_all(columns@),
                                rows(values) == flat_rows(vs),
                                base == total_rows(vs.take(i as int)),
                                base + row_count(a.values) <= total_rows(vs),
                                total_rows(vs) <= usize::MAX,
                                offsets_wf(offsets@, (base + a.offsets@[k as int]) as nat),
                                list_rows(values, offsets@) == flat_rows(cs.take(i as int)) + rows(
                                    cs[i as int],
                                ).take(k as int),
                            decreases n - k,
                        {
                            assert(a.offsets@[k as int] <= a.offsets@[k + 1] <= a.offsets@[n as int]);
                            let next = base + a.offsets[k + 1];
                            proof {
                                let start = base + a.offsets@[k as int];
                                lemma_list_push(values, offsets@, start as nat, next);
                                let lhs = Seq::new(
                                    (next - start) as nat,
                                    |m: int| row(values, start + m),
                                );
                                assert(cs[i as int] == *columns@[i as int]);
                                let rhs = row(cs[i as int], k as int)->List_0;
                                assert(rhs.len() == lhs.len());
                                assert forall|m: int| 0 <= m < lhs.len() implies lhs[m] == rhs[m] by {
                                    lemma_flat_index(vs, i as int, a.offsets@[k as int] + m);
                                    lemma_flat_len(vs);
                                    assert(rhs[m] == row(a.values, a.offsets@[k as int] + m));
                                    assert(rows(values)[start + m] == row(values, start + m));
                                }
                                assert(lhs =~= rhs);
                                assert(rows(cs[i as int]).take(k + 1) =~= rows(cs[i as int]).take(
                                    k as int,
                                ).push(row(cs[i as int], k as int)));
                            }
                            offsets.push(next);
                            k = k + 1;
                            proof {
                                assert(list_rows(values, offsets@) =~= flat_rows(cs.take(i as int))
                                    + rows(cs[i as int]).take(k as int));
                            }
                        }
                        assert(rows(cs[i as int]).take(k as int) =~= rows(cs[i as int]));
                        base = base + a.offsets[n];
                    }
                    i = i + 1;
                }
                assert(cs.take(i as int) =~= cs);
                assert(vs.take(i as int) =~= vs);
                let r = Column::Array(Box::new(ArrayColumn { values, offsets }));
                assert forall|q: int| 0 <= q < rows(r).len() implies rows(r)[q] == list_rows(
                    values,
                    offsets@,
                )[q] by {
                    assert(rows(r)[q]->List_0 =~= list_rows(values, offsets@)[q]->List_0);
                }
                assert(rows(r) =~= list_rows(values, offsets@));
                r
            },
            Column::Nullable(_) => {
                let ghost it = ty(nullable_inner(cs[0]));
                let mut inners: Vec<&Column> = Vec::with_capacity(columns.len());
                let mut validity: Vec<bool> = Vec::with_capacity(capacity);
                assert(deref_all(inners@) =~= nullable_inners(cs.take(0)));
                let mut i: usize = 0;
                while i < columns.len()
                    invariant
                        i <= cs.len(),
                        cs == deref_all(columns@),
                        all_of_type(cs, t),
                        t == DataType::Nullable(Box::new(it)),
                        deref_all(inners@) == nullable_inners(cs.take(i as int)),
                        validity@ == flat_validity(cs.take(i as int)),
                        validity@.len() == total_rows(cs.take(i as int)),
                        total_rows(cs) <= usize::MAX,
                    decreases cs.len() - i,
                {
                    proof {
                        lemma_take_step(cs, i as int);
                        lemma_prefix_le(cs, i + 1);
                        assert(wf(cs[i as int]) && ty(cs[i as int]) == t);
                    }
                    let ghost prev = inners@;
                    if let Column::Nullable(nc) = columns[i] {
                        inners.push(&nc.column);
                        append_bits(&mut validity, &nc.validity);
                    }
                    assert(deref_all(inners@) =~= deref_all(prev).push(nullable_inner(cs[i as int])));
                    assert(nullable_inners(cs.take(i + 1)) =~= nullable_inners(cs.take(i as int)).push(
                        nullable_inner(cs[i as int]),
                    ));
                    i = i + 1;
                }
                assert(cs.take(i as int) =~= cs);
                assert forall|q: int| 0 <= q < cs.len() implies wf(#[trigger] nullable_inners(cs)[q])
                    && ty(nullable_inners(cs)[q]) == it by {
                    assert(wf(cs[q]) && ty(cs[q]) == t);
                }
                assert(*inners@[0] == nullable_inners(cs)[0]);
                assert(decreases_to!(t => it));
                let column = Self::concat_refs(inners.as_slice());
                proof {
                    lemma_nullable_rows(cs, it);
                    lemma_flat_len(nullable_inners(cs));
                }
                let r = Column::Nullable(Box::new(NullableColumn { column, validity }));
                assert forall|q: int| 0 <= q < rows(r).len() implies rows(r)[q] == flat_rows(cs)[q] by {
                    assert(rows(column)[q] == row(column, q));
                }
                assert(rows(r) =~= flat_rows(cs));
                r
            },
            Column::Tuple { fields, .. } => {
                let ghost ts = t->Tuple_0;
                let nf = fields.len();
                let mut out: Vec<Column> = Vec::with_capacity(nf);
                let mut j: usize = 0;
                while j < nf
                    invariant
                        j <= nf,
                        nf == ts.len(),
                        cs.len() > 0,
                        cs == deref_all(columns@),
                        all_of_type(cs, t),
                        t == DataType::Tuple(ts),
                        concat_fits(t, cs),
                        out@.len() == j,
                        forall|q: int|
                            0 <= q < j ==> wf(#[trigger] out@[q]) && ty(out@[q]) == ts[q] && rows(
                                out@[q],
                            ) == flat_rows(field_columns(cs, q)),
                    decreases nf - j,
                {
                    let mut parts: Vec<&Column> = Vec::with_capacity(columns.len());
                    assert(deref_all(parts@) =~= field_columns(cs.take(0), j as int));
                    let mut i: usize = 0;
                    while i < columns.len()
                        invariant
                            i <= cs.len(),
                            j < ts.len(),
                            cs == deref_all(columns@),
                            all_of_type(cs, t),
                            t == DataType::Tuple(ts),
                            deref_all(parts@) == field_columns(cs.take(i as int), j as int),
                        decreases cs.len() - i,
                    {
                        assert(wf(cs[i as int]) && ty(cs[i as int]) == t);
                        let ghost prev = parts@;
                        if let Column::Tuple { fields: fi, .. } = columns[i] {
                            parts.push(&fi[j]);
                        }
                        assert(deref_all(parts@) =~= deref_all(prev).push(
                            tuple_field(cs[i as int], j as int),
                        ));
                        assert(field_columns(cs.take(i + 1), j as int) =~= field_columns(
                            cs.take(i as int),
                            j as int,
                        ).push(tuple_field(cs[i as int], j as int)));
                        i = i + 1;
                    }
                    assert(cs.take(i as int) =~= cs);
                    assert forall|q: int| 0 <= q < cs.len() implies wf(
                        #[trigger] field_columns(cs, j as int)[q],
                    ) && ty(field_columns(cs, j as int)[q]) == ts[j as int] by {
                        assert(wf(cs[q]) && ty(cs[q]) == t);
                    }
                    assert(*parts@[0] == field_columns(cs, j as int)[0]);
                    assert(decreases_to!(t => t->Tuple_0));
                    assert(decreases_to!(t->Tuple_0 => t->Tuple_0[j as int]));
                    assert(deref_all(parts@) == field_columns(cs, j as int));
                    proof {
                        lemma_fits_parts(t, cs);
                    }
                    assert(concat_fits(ts[j as int], field_columns(cs, j as int)));
                    let c = Self::concat_refs(parts.as_slice());
                    out.push(c);
                    j = j + 1;
                }
                proof {
                    lemma_tuple_rows(cs, ts);
                    lemma_flat_len(cs);
                }
                let r = Column::Tuple { fields: out, len: capacity };
                assert(ty(r)->Tuple_0 =~= ts);
                assert forall|q: int| 0 <= q < out@.len() implies row_count(#[trigger] out@[q]) == capacity by {
                    lemma_flat_len(field_columns(cs, q));
                }
                assert forall|q: int| 0 <= q < rows(r).len() implies rows(r)[q] == flat_rows(cs)[q] by {
                    assert(rows(r)[q]->Tuple_0 =~= flat_rows(cs)[q]->Tuple_0);
                }
                assert(rows(r) =~= flat_rows(cs));
                r
            },
        }
    }
    /// Copies the rows of every column of `columns`, in order, into `builder`,
    /// and finishes it.
    pub fn concat_scalar_types(builder: ColumnBuilder, columns: &[&Column]) -> (r: Column)
        requires
            all_of_type(deref_all(columns@), ty(built(builder))),
            wf(built(builder)),
            row_count(built(builder)) + total_rows(deref_all(columns@)) <= usize::MAX,
            byte_count(built(builder)) + total_bytes(deref_all(columns@)) <= usize::MAX,
        ensures
            wf(r),
            ty(r) == ty(built(builder)),
            rows(r) == rows(built(builder)) + flat_rows(deref_all(columns@)),
    {
        let ghost t = ty(built(builder));
        let ghost rows0 = rows(built(builder));
        let ghost n0 = row_count(built(builder));
        let ghost b0 = byte_count(built(builder));
        let mut builder = builder;
        assert(rows(built(builder)) =~= rows0 + flat_rows(deref_all(columns@).take(0)));
        let mut i: usize = 0;
        while i < columns.len()
            invariant
                i <= deref_all(columns@).len(),
                all_of_type(deref_all(columns@), t),
                wf(built(builder)),
                ty(built(builder)) == t,
                rows(built(builder)) == rows0 + flat_rows(deref_all(columns@).take(i as int)),
                row_count(built(builder)) == n0 + total_rows(deref_all(columns@).take(i as int)),
                byte_count(built(builder)) == b0 + total_bytes(deref_all(columns@).take(i as int)),
                n0 + total_rows(deref_all(columns@)) <= usize::MAX,
                b0 + total_bytes(deref_all(columns@)) <= usize::MAX,
            decreases deref_all(columns@).len() - i,
        {
            proof {
                lemma_take_step(deref_all(columns@), i as int);
                lemma_prefix_le(deref_all(columns@), i + 1);
            }
            let ghost before = built(builder);
            builder.append_column(columns[i]);
            assert(rows(built(builder)).len() == rows(before).len() + rows(deref_all(columns@)[i as int]).len());
            assert(rows(built(builder)) =~= rows0 + flat_rows(deref_all(columns@).take(i + 1)));
            i = i + 1;
        }
        assert(deref_all(columns@).take(i as int) =~= deref_all(columns@));
        builder.build()
    }

    /// Copies the buffers of number columns of element type `T` end to end.
    fn concat_primitive_types<T: Number>(columns: &[&Column], capacity: usize) -> (r: Column)
        requires
            all_of_type(deref_all(columns@), DataType::Number(T::kind())),
            total_rows(deref_all(columns@)) <= usize::MAX,
        ensures
            wf(r),
            ty(r) == DataType::Number(T::kind()),
            rows(r) == flat_rows(deref_all(columns@)),
    {
        let mut out: Vec<T> = Vec::with_capacity(capacity);
        assert(number_rows(out@) =~= flat_rows(deref_all(columns@).take(0)));
        let mut i: usize = 0;
        while i < columns.len()
            invariant
                i <= deref_all(columns@).len(),
                all_of_type(deref_all(columns@), DataType::Number(T::kind())),
                number_rows(out@) == flat_rows(deref_all(columns@).take(i as int)),
                out@.len() == total_rows(deref_all(columns@).take(i as int)),
                total_rows(deref_all(columns@)) <= usize::MAX,
            decreases deref_all(columns@).len() - i,
        {
            proof {
                lemma_take_step(deref_all(columns@), i as int);
                lemma_prefix_le(deref_all(columns@), i + 1);
            }
            let ghost c = deref_all(columns@)[i as int];
            assert(ty(c) == DataType::Number(T::kind()));
            if let Some(v) = T::try_downcast_column(columns[i]) {
                assert(number_rows(v@) =~= rows(c));
                let ghost out0 = out@;
                let mut k: usize = 0;
                while k < v.len()
                    invariant
                        k <= v@.len(),
                        out0.len() + v@.len() <= usize::MAX,
                        out@ == out0 + v@.take(k as int),
                    decreases v@.len() - k,
                {
                    out.push(v[k]);
                    k = k + 1;
                    assert(out@ =~= out0 + v@.take(k as int));
                }
                assert(v@.take(k as int) =~= v@);
                assert(number_rows(out@) =~= number_rows(out0) + number_rows(v@));
            }
            i = i + 1;
        }
        assert(deref_all(columns@).take(i as int) =~= deref_all(columns@));
        let r = T::upcast_column(out);
        assert(rows(r) =~= number_rows(out@));
        r
    }
}

} // verus!
