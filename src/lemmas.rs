use vstd::prelude::*;
use crate::column::{
    byte_len, bytes_sum, concat_fits, fields_at, flatten_lists, list_items, payloads, rows_fit,
    ArrayColumn, array_values_all,
    field_columns, nullable_inners,
    all_of_type,
    array_values, flat_validity, nullable_inner, row, tuple_field, validity_bits, Datum, DataType,
    byte_count, flat_rows, offsets_wf, row_count, rows, total_bytes, total_rows, ty, wf, Column,
    StringColumn,
};

verus! {

/// Taking one more column of `xs` adds that column's rows, row count and bytes.
pub proof fn lemma_take_step(xs: Seq<Column>, i: int)
    requires
        0 <= i < xs.len(),
    ensures
        flat_rows(xs.take(i + 1)) == flat_rows(xs.take(i)) + rows(xs[i]),
        flat_validity(xs.take(i + 1)) == flat_validity(xs.take(i)) + validity_bits(xs[i]),
        total_rows(xs.take(i + 1)) == total_rows(xs.take(i)) + row_count(xs[i]),
        total_bytes(xs.take(i + 1)) == total_bytes(xs.take(i)) + byte_count(xs[i]),
{
    assert(xs.take(i + 1).drop_last() =~= xs.take(i));
}

/// The flattened rows of `xs` number `total_rows(xs)`.
pub proof fn lemma_flat_len(xs: Seq<Column>)
    ensures
        flat_rows(xs).len() == total_rows(xs),
    decreases xs.len(),
{
    if xs.len() > 0 {
        lemma_flat_len(xs.drop_last());
    }
}

/// A prefix of `xs` holds no more rows and bytes than `xs`.
pub proof fn lemma_prefix_le(xs: Seq<Column>, i: int)
    requires
        0 <= i <= xs.len(),
    ensures
        total_rows(xs.take(i)) <= total_rows(xs),
        total_bytes(xs.take(i)) <= total_bytes(xs),
    decreases xs.len() - i,
{
    if i < xs.len() {
        lemma_take_step(xs, i);
        lemma_prefix_le(xs, i + 1);
    } else {
        assert(xs.take(i) =~= xs);
    }
}

/// Two sequences of columns whose lengths agree pairwise hold as many rows.
pub proof fn lemma_total_rows_eq(xs: Seq<Column>, ys: Seq<Column>)
    requires
        xs.len() == ys.len(),
        forall|i: int| 0 <= i < xs.len() ==> row_count(#[trigger] xs[i]) == row_count(ys[i]),
    ensures
        total_rows(xs) == total_rows(ys),
    decreases xs.len(),
{
    if xs.len() > 0 {
        lemma_total_rows_eq(xs.drop_last(), ys.drop_last());
    }
}

/// Row `k` of column `i` of `xs` stands in the flattened rows after the rows
/// of the columns before it.
pub proof fn lemma_flat_index(xs: Seq<Column>, i: int, k: int)
    requires
        0 <= i < xs.len(),
        0 <= k < row_count(xs[i]),
    ensures
        total_rows(xs.take(i)) + k < total_rows(xs),
        flat_rows(xs)[total_rows(xs.take(i)) + k] == row(xs[i], k),
    decreases xs.len(),
{
    let init = xs.drop_last();
    lemma_flat_len(init);
    if i == xs.len() - 1 {
        assert(xs.take(i) =~= init);
    } else {
        assert(init.take(i) =~= xs.take(i));
        lemma_flat_index(init, i, k);
    }
}

/// The flattened rows of nullable columns pair the flattened validity bits
/// with the flattened rows of their inner columns.
pub proof fn lemma_nullable_rows(xs: Seq<Column>, it: DataType)
    requires
        all_of_type(xs, DataType::Nullable(Box::new(it))),
    ensures
        flat_validity(xs).len() == total_rows(xs),
        total_rows(nullable_inners(xs)) == total_rows(xs),
        flat_rows(xs) == Seq::new(
            total_rows(xs),
            |r: int|
                Datum::Masked(
                    flat_validity(xs)[r],
                    Box::new(flat_rows(nullable_inners(xs))[r]),
                ),
        ),
    decreases xs.len(),
{
    let inners = nullable_inners(xs);
    lemma_flat_len(xs);
    lemma_flat_len(inners);
    assert forall|i: int| 0 <= i < xs.len() implies row_count(#[trigger] xs[i]) == row_count(
        inners[i],
    ) by {
        assert(wf(xs[i]) && ty(xs[i]) == DataType::Nullable(Box::new(it)));
    }
    lemma_total_rows_eq(xs, inners);
    if xs.len() > 0 {
        let init = xs.drop_last();
        let x = xs.last();
        assert(wf(x) && ty(x) == DataType::Nullable(Box::new(it)));
        assert(nullable_inners(init) =~= inners.drop_last());
        lemma_nullable_rows(init, it);
        lemma_flat_len(init);
        let t = total_rows(init);
        assert(flat_rows(xs) =~= Seq::new(
            total_rows(xs),
            |r: int| Datum::Masked(flat_validity(xs)[r], Box::new(flat_rows(inners)[r])),
        )) by {
            assert(flat_rows(inners) == flat_rows(inners.drop_last()) + rows(nullable_inner(x)));
            lemma_flat_len(inners.drop_last());
        }
    } else {
        assert(flat_rows(xs) =~= Seq::new(
            total_rows(xs),
            |r: int| Datum::Masked(flat_validity(xs)[r], Box::new(flat_rows(inners)[r])),
        ));
    }
}

/// The flattened rows of tuple columns are the tuples of the flattened rows of
/// their fields.
pub proof fn lemma_tuple_rows(xs: Seq<Column>, ts: Seq<DataType>)
    requires
        all_of_type(xs, DataType::Tuple(ts)),
    ensures
        forall|j: int|
            0 <= j < ts.len() ==> total_rows(#[trigger] field_columns(xs, j))
                == total_rows(xs),
        flat_rows(xs) == Seq::new(
            total_rows(xs),
            |r: int|
                Datum::Tuple(
                    Seq::new(
                        ts.len(),
                        |j: int| flat_rows(field_columns(xs, j))[r],
                    ),
                ),
        ),
    decreases xs.len(),
{
    lemma_flat_len(xs);
    assert forall|j: int| 0 <= j < ts.len() implies total_rows(
        #[trigger] field_columns(xs, j),
    ) == total_rows(xs) by {
        let fj = field_columns(xs, j);
        assert forall|i: int| 0 <= i < xs.len() implies row_count(#[trigger] xs[i]) == row_count(
            fj[i],
        ) by {
            assert(wf(xs[i]) && ty(xs[i]) == DataType::Tuple(ts));
        }
        lemma_total_rows_eq(xs, fj);
    }
    let target = Seq::new(
        total_rows(xs),
        |r: int|
            Datum::Tuple(
                Seq::new(ts.len(), |j: int| flat_rows(field_columns(xs, j))[r]),
            ),
    );
    if xs.len() > 0 {
        let init = xs.drop_last();
        let x = xs.last();
        assert(wf(x) && ty(x) == DataType::Tuple(ts));
        lemma_tuple_rows(init, ts);
        lemma_flat_len(init);
        let t = total_rows(init);
        assert forall|j: int| 0 <= j < ts.len() implies flat_rows(
            #[trigger] field_columns(xs, j),
        ) == flat_rows(field_columns(init, j)) + rows(tuple_field(x, j)) by {
            assert(field_columns(init, j) =~= field_columns(xs, j).drop_last());
            lemma_flat_len(field_columns(init, j));
        }
        assert forall|r: int| 0 <= r < flat_rows(xs).len() implies flat_rows(xs)[r] == target[r] by {
            if r < t {
                assert(flat_rows(xs)[r] == flat_rows(init)[r]);
                assert forall|j: int| 0 <= j < ts.len() implies flat_rows(
                    #[trigger] field_columns(xs, j),
                )[r] == flat_rows(field_columns(init, j))[r] by {
                    lemma_flat_len(field_columns(init, j));
                }
                assert(flat_rows(xs)[r]->Tuple_0 =~= target[r]->Tuple_0);
            } else {
                assert(flat_rows(xs)[r] == row(x, r - t));
                assert forall|j: int| 0 <= j < ts.len() implies flat_rows(
                    #[trigger] field_columns(xs, j),
                )[r] == row(tuple_field(x, j), r - t) by {
                    lemma_flat_len(field_columns(init, j));
                }
                assert(row(x, r - t)->Tuple_0 =~= target[r]->Tuple_0);
            }
        }
        assert(flat_rows(xs) =~= target);
    } else {
        assert(flat_rows(xs) =~= target);
    }
}

/// The rows of a list column with inner column `values` and offsets `offsets`.
pub open spec fn list_rows(values: Column, offsets: Seq<usize>) -> Seq<Datum> {
    Seq::new(
        (offsets.len() - 1) as nat,
        |r: int|
            Datum::List(
                Seq::new(
                    (offsets[r + 1] - offsets[r]) as nat,
                    |m: int| row(values, offsets[r] + m),
                ),
            ),
    )
}

/// Pushing an offset no smaller than the last adds one list row and keeps the
/// offsets ordered.
pub proof fn lemma_list_push(values: Column, offsets: Seq<usize>, end: nat, x: usize)
    requires
        offsets_wf(offsets, end),
        end <= x,
    ensures
        offsets_wf(offsets.push(x), x as nat),
        list_rows(values, offsets.push(x)) == list_rows(values, offsets).push(
            Datum::List(
                Seq::new(
                    (x - offsets[offsets.len() - 1]) as nat,
                    |m: int| row(values, offsets[offsets.len() - 1] + m),
                ),
            ),
        ),
{
    let o = offsets.push(x);
    let n = offsets.len() - 1;
    assert forall|i: int, j: int| 0 <= i <= j < o.len() implies #[trigger] o[i] <= #[trigger] o[j] by {
        if j < offsets.len() {
            assert(offsets[i] <= offsets[j]);
        } else if i < offsets.len() {
            assert(offsets[i] <= offsets[n]);
        }
    }
    assert(list_rows(values, o) =~= list_rows(values, offsets).push(
        Datum::List(Seq::new((x - offsets[n]) as nat, |m: int| row(values, offsets[n] + m))),
    ));
}

/// String bytes add up over a concatenation of row values.
pub proof fn lemma_bytes_sum_add(a: Seq<Datum>, b: Seq<Datum>)
    ensures
        bytes_sum(a + b) == bytes_sum(a) + bytes_sum(b),
    decreases b.len(),
{
    if b.len() > 0 {
        assert((a + b).drop_last() =~= a + b.drop_last());
        lemma_bytes_sum_add(a, b.drop_last());
    } else {
        assert(a + b =~= a);
    }
}

/// List items concatenate over a concatenation of row values.
pub proof fn lemma_flatten_add(a: Seq<Datum>, b: Seq<Datum>)
    ensures
        flatten_lists(a + b) == flatten_lists(a) + flatten_lists(b),
    decreases b.len(),
{
    if b.len() > 0 {
        assert((a + b).drop_last() =~= a + b.drop_last());
        lemma_flatten_add(a, b.drop_last());
        assert(flatten_lists(a + b) =~= flatten_lists(a) + flatten_lists(b));
    } else {
        assert(a + b =~= a);
        assert(flatten_lists(a) + flatten_lists(b) =~= flatten_lists(a));
    }
}

/// Row values none of which is a byte string hold no string bytes.
pub proof fn lemma_bytes_sum_zero(ds: Seq<Datum>)
    requires
        forall|i: int| 0 <= i < ds.len() ==> byte_len(#[trigger] ds[i]) == 0,
    ensures
        bytes_sum(ds) == 0,
    decreases ds.len(),
{
    if ds.len() > 0 {
        lemma_bytes_sum_zero(ds.drop_last());
    }
}

/// The first `k` rows of a well-formed string column hold `offsets[k]` bytes.
proof fn lemma_string_prefix_bytes(s: StringColumn, k: int)
    requires
        wf(Column::String(s)),
        0 <= k < s.offsets@.len(),
    ensures
        bytes_sum(rows(Column::String(s)).take(k)) == s.offsets@[k],
    decreases k,
{
    let rs = rows(Column::String(s));
    if k > 0 {
        assert(rs.take(k).drop_last() =~= rs.take(k - 1));
        lemma_string_prefix_bytes(s, k - 1);
        assert(s.offsets@[k - 1] <= s.offsets@[k]);
    } else {
        assert(rs.take(0) =~= Seq::<Datum>::empty());
    }
}

/// A well-formed column holds as many string bytes as its rows do.
pub proof fn lemma_column_bytes(c: Column)
    requires
        wf(c),
    ensures
        byte_count(c) == bytes_sum(rows(c)),
{
    match c {
        Column::String(s) => {
            let n = s.offsets@.len() - 1;
            lemma_string_prefix_bytes(s, n);
            assert(rows(c).take(n) =~= rows(c));
        },
        _ => {
            assert forall|i: int| 0 <= i < rows(c).len() implies byte_len(#[trigger] rows(c)[i]) == 0 by {
            }
            lemma_bytes_sum_zero(rows(c));
        },
    }
}

/// The lists of the first `k` rows of a well-formed array column are the
/// first `offsets[k]` rows of its inner column.
proof fn lemma_array_prefix(a: ArrayColumn, k: int)
    requires
        wf(Column::Array(Box::new(a))),
        0 <= k < a.offsets@.len(),
    ensures
        flatten_lists(rows(Column::Array(Box::new(a))).take(k)) == rows(a.values).take(
            a.offsets@[k] as int,
        ),
    decreases k,
{
    let c = Column::Array(Box::new(a));
    let rs = rows(c);
    let o = a.offsets@;
    if k > 0 {
        assert(rs.take(k).drop_last() =~= rs.take(k - 1));
        lemma_array_prefix(a, k - 1);
        assert(o[k - 1] <= o[k] <= o[o.len() - 1]);
        assert(list_items(rs[k - 1]) =~= rows(a.values).subrange(o[k - 1] as int, o[k] as int));
        assert(rows(a.values).take(o[k - 1] as int) + rows(a.values).subrange(
            o[k - 1] as int,
            o[k] as int,
        ) =~= rows(a.values).take(o[k] as int));
    } else {
        assert(rs.take(0) =~= Seq::<Datum>::empty());
        assert(rows(a.values).take(0) =~= Seq::<Datum>::empty());
    }
}

/// The lists of a well-formed array column, flattened, are its inner rows.
pub proof fn lemma_array_flatten(c: Column)
    requires
        wf(c),
        c is Array,
    ensures
        flatten_lists(rows(c)) == rows(array_values(c)),
{
    let a = *c->Array_0;
    assert(c == Column::Array(Box::new(a)));
    let n = a.offsets@.len() - 1;
    lemma_array_prefix(a, n);
    assert(rows(c).take(n) =~= rows(c));
    assert(rows(a.values).take(a.offsets@[n] as int) =~= rows(a.values));
}

/// The string bytes of well-formed columns are those of their rows.
pub proof fn lemma_total_bytes(xs: Seq<Column>)
    requires
        forall|i: int| 0 <= i < xs.len() ==> wf(#[trigger] xs[i]),
    ensures
        total_bytes(xs) == bytes_sum(flat_rows(xs)),
    decreases xs.len(),
{
    if xs.len() > 0 {
        lemma_total_bytes(xs.drop_last());
        lemma_column_bytes(xs.last());
        lemma_bytes_sum_add(flat_rows(xs.drop_last()), rows(xs.last()));
    }
}

/// The inner rows of array columns are the items of their lists.
pub proof fn lemma_array_values_rows(xs: Seq<Column>, it: DataType)
    requires
        all_of_type(xs, DataType::Array(Box::new(it))),
    ensures
        flat_rows(array_values_all(xs)) == flatten_lists(flat_rows(xs)),
    decreases xs.len(),
{
    if xs.len() > 0 {
        let init = xs.drop_last();
        assert(array_values_all(init) =~= array_values_all(xs).drop_last());
        lemma_array_values_rows(init, it);
        assert(wf(xs.last()) && ty(xs.last()) == DataType::Array(Box::new(it)));
        lemma_array_flatten(xs.last());
        lemma_flatten_add(flat_rows(init), rows(xs.last()));
    }
}

/// What the fit of a concatenation says of the input columns and of the
/// columns nested in them.
pub proof fn lemma_fits_parts(t: DataType, xs: Seq<Column>)
    requires
        all_of_type(xs, t),
        concat_fits(t, xs),
    ensures
        total_rows(xs) <= usize::MAX,
        total_bytes(xs) <= usize::MAX,
        t is Array ==> concat_fits(*t->Array_0, array_values_all(xs)),
        t is Nullable ==> concat_fits(*t->Nullable_0, nullable_inners(xs)),
        t is Tuple ==> forall|j: int|
            0 <= j < t->Tuple_0.len() ==> concat_fits(
                #[trigger] t->Tuple_0[j],
                field_columns(xs, j),
            ),
{
    lemma_flat_len(xs);
    lemma_total_bytes(xs);
    match t {
        DataType::Array(it) => {
            lemma_array_values_rows(xs, *it);
        },
        DataType::Nullable(it) => {
            lemma_nullable_rows(xs, *it);
            lemma_flat_len(nullable_inners(xs));
            assert(payloads(flat_rows(xs)) =~= flat_rows(nullable_inners(xs)));
        },
        DataType::Tuple(ts) => {
            lemma_tuple_rows(xs, ts);
            assert forall|j: int| 0 <= j < ts.len() implies concat_fits(
                #[trigger] ts[j],
                field_columns(xs, j),
            ) by {
                lemma_flat_len(field_columns(xs, j));
                assert(fields_at(flat_rows(xs), j) =~= flat_rows(field_columns(xs, j)));
            }
        },
        _ => {},
    }
}

/// Both parts of a concatenation of row values fit in memory when the whole
/// does.
pub proof fn lemma_rows_fit_split(t: DataType, a: Seq<Datum>, b: Seq<Datum>)
    requires
        rows_fit(t, a + b),
    ensures
        rows_fit(t, a),
        rows_fit(t, b),
    decreases t,
{
    lemma_bytes_sum_add(a, b);
    match t {
        DataType::Array(it) => {
            lemma_flatten_add(a, b);
            lemma_rows_fit_split(*it, flatten_lists(a), flatten_lists(b));
        },
        DataType::Nullable(it) => {
            assert(payloads(a + b) =~= payloads(a) + payloads(b));
            lemma_rows_fit_split(*it, payloads(a), payloads(b));
        },
        DataType::Tuple(ts) => {
            assert forall|j: int| 0 <= j < ts.len() implies rows_fit(#[trigger] ts[j], fields_at(a, j))
                && rows_fit(ts[j], fields_at(b, j)) by {
                assert(fields_at(a + b, j) =~= fields_at(a, j) + fields_at(b, j));
                lemma_rows_fit_split(ts[j], fields_at(a, j), fields_at(b, j));
            }
        },
        _ => {},
    }
}

} // verus!
