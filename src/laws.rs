//! Properties of concatenation that relate several calls or hold of every
//! input, stated over the row model and proved from the functions' contracts.
use vstd::prelude::*;
use crate::chunk::{
    chunk_wf, column_rows, lemma_column_rows_len, total_num_rows, value_rows, Chunk,
};
use crate::column::{
    all_of_type, field_columns, flat_rows, flat_validity, row, row_count, rows, total_rows,
    tuple_field, ty, validity_bits, wf, Column, DataType, Datum,
};
use crate::lemmas::{lemma_flat_index, lemma_flat_len, lemma_nullable_rows, lemma_tuple_rows};
use crate::scalar::scalar_datum;

verus! {

/// The rows of a concatenation number the rows of its inputs together.
pub proof fn concat_length(xs: Seq<Column>, out: Column)
    requires
        rows(out) == flat_rows(xs),
    ensures
        row_count(out) == total_rows(xs),
{
    lemma_flat_len(xs);
}

/// Row `k` of input `i` is row `k` plus the row counts of the inputs before it
/// in the concatenation.
pub proof fn concat_row_preserved(xs: Seq<Column>, out: Column, i: int, k: int)
    requires
        rows(out) == flat_rows(xs),
        0 <= i < xs.len(),
        0 <= k < row_count(xs[i]),
    ensures
        total_rows(xs.take(i)) + k < row_count(out),
        row(out, total_rows(xs.take(i)) + k) == row(xs[i], k),
{
    lemma_flat_index(xs, i, k);
    lemma_flat_len(xs);
}

/// Adding a column after others adds its rows after theirs.
proof fn lemma_flat_push(xs: Seq<Column>, x: Column)
    ensures
        flat_rows(xs.push(x)) == flat_rows(xs) + rows(x),
{
    assert(xs.push(x).drop_last() =~= xs);
}

/// Concatenating `a, b, c` gives the rows of concatenating `a, b` and then
/// `c`, and of concatenating `a` with the concatenation of `b, c`.
pub proof fn concat_associative(a: Column, b: Column, c: Column, ab: Column, bc: Column)
    requires
        rows(ab) == flat_rows(seq![a, b]),
        rows(bc) == flat_rows(seq![b, c]),
    ensures
        flat_rows(seq![ab, c]) == flat_rows(seq![a, b, c]),
        flat_rows(seq![a, bc]) == flat_rows(seq![a, b, c]),
{
    let e = Seq::<Column>::empty();
    assert(flat_rows(e) == Seq::<Datum>::empty());
    lemma_flat_push(e, a);
    lemma_flat_push(e, b);
    lemma_flat_push(e, ab);
    lemma_flat_push(e.push(a), b);
    lemma_flat_push(e.push(a), bc);
    lemma_flat_push(e.push(b), c);
    lemma_flat_push(e.push(ab), c);
    lemma_flat_push(e.push(a).push(b), c);
    assert(seq![a, b] =~= e.push(a).push(b));
    assert(seq![b, c] =~= e.push(b).push(c));
    assert(seq![ab, c] =~= e.push(ab).push(c));
    assert(seq![a, bc] =~= e.push(a).push(bc));
    assert(seq![a, b, c] =~= e.push(a).push(b).push(c));
    assert(flat_rows(seq![a, bc]) =~= flat_rows(seq![a, b, c]));
    assert(flat_rows(seq![ab, c]) =~= flat_rows(seq![a, b, c]));
}

/// Adding a chunk after others adds its column `j` rows after theirs.
proof fn lemma_column_rows_push(chunks: Seq<Chunk>, x: Chunk, j: int)
    ensures
        column_rows(chunks.push(x), j) == column_rows(chunks, j) + value_rows(
            x.columns@[j],
            x.num_rows as nat,
        ),
{
    assert(chunks.push(x).drop_last() =~= chunks);
}

/// Concatenating chunks `a, b, c` gives in column `j` the rows of
/// concatenating `a, b` and then `c`, and of concatenating `a` with the
/// concatenation of `b, c`.
pub proof fn chunk_concat_associative(
    a: Chunk,
    b: Chunk,
    c: Chunk,
    ab: Chunk,
    bc: Chunk,
    j: int,
)
    requires
        value_rows(ab.columns@[j], ab.num_rows as nat) == column_rows(seq![a, b], j),
        value_rows(bc.columns@[j], bc.num_rows as nat) == column_rows(seq![b, c], j),
    ensures
        column_rows(seq![ab, c], j) == column_rows(seq![a, b, c], j),
        column_rows(seq![a, bc], j) == column_rows(seq![a, b, c], j),
{
    let e = Seq::<Chunk>::empty();
    assert(column_rows(e, j) == Seq::<Datum>::empty());
    lemma_column_rows_push(e, a, j);
    lemma_column_rows_push(e, b, j);
    lemma_column_rows_push(e, ab, j);
    lemma_column_rows_push(e.push(a), b, j);
    lemma_column_rows_push(e.push(a), bc, j);
    lemma_column_rows_push(e.push(b), c, j);
    lemma_column_rows_push(e.push(ab), c, j);
    lemma_column_rows_push(e.push(a).push(b), c, j);
    assert(seq![a, b] =~= e.push(a).push(b));
    assert(seq![b, c] =~= e.push(b).push(c));
    assert(seq![ab, c] =~= e.push(ab).push(c));
    assert(seq![a, bc] =~= e.push(a).push(bc));
    assert(seq![a, b, c] =~= e.push(a).push(b).push(c));
    assert(column_rows(seq![a, bc], j) =~= column_rows(seq![a, b, c], j));
    assert(column_rows(seq![ab, c], j) =~= column_rows(seq![a, b, c], j));
}

/// The concatenation of one column has that column's rows.
pub proof fn concat_singleton(a: Column)
    ensures
        flat_rows(seq![a]) == rows(a),
{
    let e = Seq::<Column>::empty();
    assert(flat_rows(e) == Seq::<Datum>::empty());
    lemma_flat_push(e, a);
    assert(seq![a] =~= e.push(a));
    assert(flat_rows(seq![a]) =~= rows(a));
}

/// A scalar slot of chunk `i` stands for its value in every row that chunk
/// contributes to the concatenated column.
pub proof fn broadcast_rows(chunks: Seq<Chunk>, j: int, i: int, k: int)
    requires
        forall|q: int|
            0 <= q < chunks.len() ==> chunk_wf(#[trigger] chunks[q]) && 0 <= j
                < chunks[q].columns@.len(),
        0 <= i < chunks.len(),
        chunks[i].columns@[j] is Scalar,
        0 <= k < chunks[i].num_rows,
    ensures
        column_rows(chunks, j)[total_num_rows(chunks.take(i)) + k] == scalar_datum(
            chunks[i].columns@[j]->Scalar_0,
        ),
    decreases chunks.len(),
{
    let init = chunks.drop_last();
    lemma_column_rows_len(init, j);
    if i == chunks.len() - 1 {
        assert(chunks.take(i) =~= init);
    } else {
        assert(init.take(i) =~= chunks.take(i));
        lemma_column_rows_len(init.take(i), j);
        lemma_num_rows_le(init, i);
        broadcast_rows(init, j, i, k);
    }
}

/// The rows of chunk `i` end within the rows of all chunks.
proof fn lemma_num_rows_le(chunks: Seq<Chunk>, i: int)
    requires
        0 <= i < chunks.len(),
    ensures
        total_num_rows(chunks.take(i)) + chunks[i].num_rows <= total_num_rows(chunks),
    decreases chunks.len(),
{
    let init = chunks.drop_last();
    if i == chunks.len() - 1 {
        assert(chunks.take(i) =~= init);
    } else {
        assert(init.take(i) =~= chunks.take(i));
        lemma_num_rows_le(init, i);
    }
}

/// The validity bits of a concatenation of nullable columns are those of its
/// inputs, one input after the other.
pub proof fn concat_keeps_validity(xs: Seq<Column>, it: DataType, out: Column)
    requires
        all_of_type(xs, DataType::Nullable(Box::new(it))),
        wf(out),
        ty(out) == DataType::Nullable(Box::new(it)),
        rows(out) == flat_rows(xs),
    ensures
        validity_bits(out) == flat_validity(xs),
{
    lemma_nullable_rows(xs, it);
    lemma_flat_len(xs);
    assert forall|r: int| 0 <= r < validity_bits(out).len() implies validity_bits(out)[r]
        == flat_validity(xs)[r] by {
        assert(rows(out)[r] == row(out, r));
    }
    assert(validity_bits(out) =~= flat_validity(xs));
}

/// Row `k` of string input `i` keeps its bytes in the concatenation.
pub proof fn concat_keeps_bytes(xs: Seq<Column>, out: Column, i: int, k: int)
    requires
        all_of_type(xs, DataType::String),
        wf(out),
        ty(out) == DataType::String,
        rows(out) == flat_rows(xs),
        0 <= i < xs.len(),
        0 <= k < row_count(xs[i]),
    ensures
        ({
            let o = out->String_0;
            let s = xs[i]->String_0;
            let r = total_rows(xs.take(i)) + k;
            o.data@.subrange(o.offsets@[r] as int, o.offsets@[r + 1] as int) == s.data@.subrange(
                s.offsets@[k] as int,
                s.offsets@[k + 1] as int,
            )
        }),
{
    assert(wf(xs[i]) && ty(xs[i]) == DataType::String);
    concat_row_preserved(xs, out, i, k);
}

/// Field `j` of a concatenation of tuple columns has the rows of the
/// concatenation of field `j` of the inputs.
pub proof fn concat_commutes_with_fields(xs: Seq<Column>, ts: Seq<DataType>, out: Column, j: int)
    requires
        all_of_type(xs, DataType::Tuple(ts)),
        wf(out),
        ty(out) == DataType::Tuple(ts),
        rows(out) == flat_rows(xs),
        0 <= j < ts.len(),
    ensures
        rows(tuple_field(out, j)) == flat_rows(field_columns(xs, j)),
{
    lemma_tuple_rows(xs, ts);
    lemma_flat_len(xs);
    lemma_flat_len(field_columns(xs, j));
    let f = tuple_field(out, j);
    assert(row_count(f) == row_count(out));
    assert forall|r: int| 0 <= r < rows(f).len() implies rows(f)[r] == flat_rows(
        field_columns(xs, j),
    )[r] by {
        assert(rows(out)[r] == row(out, r));
        assert(row(out, r)->Tuple_0[j] == row(f, r));
    }
    assert(rows(f) =~= flat_rows(field_columns(xs, j)));
}

} // verus!
