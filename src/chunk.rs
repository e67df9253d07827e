use vstd::prelude::*;
use crate::column::{
    all_of_type, flat_rows, offsets_wf, row, row_count, rows, rows_fit, ty, wf, Column, DataType, Datum,
    NumberColumn, StringColumn, ArrayColumn, NullableColumn,
};
use crate::lemmas::lemma_rows_fit_split;
use crate::scalar::{scalar_datum, scalar_ty, scalar_wf, Scalar};

verus! {

/// A column slot of a chunk: a scalar standing for as many rows as the chunk
/// has, or a dense column.
#[derive(Debug, PartialEq)]
pub enum Value {
    Scalar(Scalar),
    Column(Column),
}

/// A row-aligned bundle of columns with its row count.
#[derive(Debug, PartialEq)]
pub struct Chunk {
    pub columns: Vec<Value>,
    pub num_rows: usize,
}

/// The error that concatenation reports.
#[derive(Clone, Copy, Debug, PartialEq, Eq, Structural)]
pub enum ErrorCode {
    /// There was no chunk to concatenate.
    EmptyInput,
}

impl ErrorCode {
    /// A human-readable description of the error.
    pub fn message(&self) -> (r: &'static str)
        ensures
            r@ == "cannot concat an empty sequence of chunks"@,
    {
        proof {
            reveal_strlit("cannot concat an empty sequence of chunks");
        }
        match self {
            ErrorCode::EmptyInput => "cannot concat an empty sequence of chunks",
        }
    }
}

/// The value is well formed for a chunk of `n` rows.
pub open spec fn value_wf(v: Value, n: nat) -> bool {
    match v {
        Value::Scalar(s) => scalar_wf(s),
        Value::Column(c) => wf(c) && row_count(c) == n,
    }
}

/// The type of the rows a value stands for.
pub open spec fn value_ty(v: Value) -> DataType {
    match v {
        Value::Scalar(s) => scalar_ty(s),
        Value::Column(c) => ty(c),
    }
}

/// The rows a value stands for in a chunk of `n` rows.
pub open spec fn value_rows(v: Value, n: nat) -> Seq<Datum> {
    match v {
        Value::Scalar(s) => Seq::new(n, |i: int| scalar_datum(s)),
        Value::Column(c) => rows(c),
    }
}

/// Every column slot of the chunk is well formed for its row count.
pub open spec fn chunk_wf(c: Chunk) -> bool {
    forall|j: int| 0 <= j < c.columns@.len() ==> value_wf(#[trigger] c.columns@[j], c.num_rows as nat)
}

/// Number of rows of all chunks together.
pub open spec fn total_num_rows(chunks: Seq<Chunk>) -> nat
    decreases chunks.len(),
{
    if chunks.len() == 0 {
        0
    } else {
        total_num_rows(chunks.drop_last()) + chunks.last().num_rows as nat
    }
}

/// The rows of column `j` of all chunks, one chunk after the other.
pub open spec fn column_rows(chunks: Seq<Chunk>, j: int) -> Seq<Datum>
    decreases chunks.len(),
{
    if chunks.len() == 0 {
        Seq::empty()
    } else {
        column_rows(chunks.drop_last(), j) + value_rows(
            chunks.last().columns@[j],
            chunks.last().num_rows as nat,
        )
    }
}

/// The chunks are well formed and share the column count and column types of
/// the first one.
pub open spec fn chunks_compatible(chunks: Seq<Chunk>) -> bool {
    forall|i: int|
        0 <= i < chunks.len() ==> {
            &&& chunk_wf(#[trigger] chunks[i])
            &&& chunks[i].columns@.len() == chunks[0].columns@.len()
            &&& forall|j: int|
                0 <= j < chunks[0].columns@.len() ==> value_ty(#[trigger] chunks[i].columns@[j])
                    == value_ty(chunks[0].columns@[j])
        }
}

/// The concatenation of the chunks fits in memory.
pub open spec fn chunks_fit(chunks: Seq<Chunk>) -> bool {
    &&& total_num_rows(chunks) <= usize::MAX
    &&& forall|j: int|
        0 <= j < chunks[0].columns@.len() ==> rows_fit(
            value_ty(chunks[0].columns@[j]),
            #[trigger] column_rows(chunks, j),
        )
}

/// The rows of column `j` of each chunk fit when those of all chunks do.
proof fn lemma_fit_each(chunks: Seq<Chunk>, t: DataType, j: int, i: int)
    requires
        rows_fit(t, column_rows(chunks, j)),
        0 <= i < chunks.len(),
    ensures
        rows_fit(t, value_rows(chunks[i].columns@[j], chunks[i].num_rows as nat)),
    decreases chunks.len(),
{
    let init = chunks.drop_last();
    lemma_rows_fit_split(
        t,
        column_rows(init, j),
        value_rows(chunks.last().columns@[j], chunks.last().num_rows as nat),
    );
    if i < chunks.len() - 1 {
        lemma_fit_each(init, t, j, i);
    }
}

/// Column `j` of well-formed chunks has as many rows as the chunks.
pub proof fn lemma_column_rows_len(chunks: Seq<Chunk>, j: int)
    requires
        forall|i: int|
            0 <= i < chunks.len() ==> chunk_wf(#[trigger] chunks[i]) && 0 <= j
                < chunks[i].columns@.len(),
    ensures
        column_rows(chunks, j).len() == total_num_rows(chunks),
    decreases chunks.len(),
{
    if chunks.len() > 0 {
        let last = chunks.last();
        assert(chunk_wf(last) && 0 <= j < last.columns@.len());
        assert(value_wf(last.columns@[j], last.num_rows as nat));
        lemma_column_rows_len(chunks.drop_last(), j);
    }
}

/// The row count of a prefix of the chunks is at most that of all of them.
proof fn lemma_num_rows_prefix(chunks: Seq<Chunk>, i: int)
    requires
        0 <= i <= chunks.len(),
    ensures
        total_num_rows(chunks.take(i)) <= total_num_rows(chunks),
        i < chunks.len() ==> total_num_rows(chunks.take(i + 1)) == total_num_rows(chunks.take(i))
            + chunks[i].num_rows,
    decreases chunks.len() - i,
{
    if i < chunks.len() {
        assert(chunks.take(i + 1).drop_last() =~= chunks.take(i));
        lemma_num_rows_prefix(chunks, i + 1);
    } else {
        assert(chunks.take(i) =~= chunks);
    }
}

impl Column {
    /// A copy of the column, with fresh buffers holding the same contents.
    pub fn duplicate(&self) -> (r: Column)
        requires
            wf(*self),
        ensures
            wf(r),
            ty(r) == ty(*self),
            rows(r) == rows(*self),
        decreases *self,
    {
        match self {
            Column::Null { len } => Column::Null { len: *len },
            Column::EmptyArray { len } => Column::EmptyArray { len: *len },
            Column::Number(n) => {
                let r = Column::Number(
                    match n {
                        NumberColumn::UInt8(v) => {
                            let w = v.clone();
                            assert(w@ =~= v@);
                            NumberColumn::UInt8(w)
                        },
                        NumberColumn::UInt16(v) => {
                            let w = v.clone();
                            assert(w@ =~= v@);
                            NumberColumn::UInt16(w)
                        },
                        NumberColumn::UInt32(v) => {
                            let w = v.clone();
                            assert(w@ =~= v@);
                            NumberColumn::UInt32(w)
                        },
                        NumberColumn::UInt64(v) => {
                            let w = v.clone();
                            assert(w@ =~= v@);
                            NumberColumn::UInt64(w)
                        },
                        NumberColumn::Int8(v) => {
                            let w = v.clone();
                            assert(w@ =~= v@);
                            NumberColumn::Int8(w)
                        },
                        NumberColumn::Int16(v) => {
                            let w = v.clone();
                            assert(w@ =~= v@);
                            NumberColumn::Int16(w)
                        },
                        NumberColumn::Int32(v) => {
                            let w = v.clone();
                            assert(w@ =~= v@);
                            NumberColumn::Int32(w)
                        },
                        NumberColumn::Int64(v) => {
                            let w = v.clone();
                            assert(w@ =~= v@);
                            NumberColumn::Int64(w)
                        },
                    },
                );
                assert(rows(r) =~= rows(*self));
                r
            },
            Column::Boolean(b) => {
                let w = b.clone();
                assert(w@ =~= b@);
                let r = Column::Boolean(w);
                assert(rows(r) =~= rows(*self));
                r
            },
            Column::String(s) => {
                let data = s.data.clone();
                let offsets = s.offsets.clone();
                assert(data@ =~= s.data@);
                assert(offsets@ =~= s.offsets@);
                let r = Column::String(StringColumn { data, offsets });
                assert(rows(r) =~= rows(*self));
                r
            },
            Column::Array(a) => {
                let values = a.values.duplicate();
                let offsets = a.offsets.clone();
                assert(offsets@ =~= a.offsets@);
                let r = Column::Array(Box::new(ArrayColumn { values, offsets }));
                assert(offsets_wf(a.offsets@, row_count(a.values)));
                assert(rows(values).len() == rows(a.values).len());
                assert forall|q: int| 0 <= q < rows(r).len() implies rows(r)[q] == rows(*self)[q] by {
                    let lr = row(r, q)->List_0;
                    let ls = row(*self, q)->List_0;
                    assert(a.offsets@[q] <= a.offsets@[q + 1] <= a.offsets@[a.offsets@.len() - 1]);
                    assert forall|m: int| 0 <= m < lr.len() implies lr[m] == ls[m] by {
                        assert(rows(values)[a.offsets@[q] + m] == rows(a.values)[a.offsets@[q] + m]);
                    }
                    assert(lr =~= ls);
                }
                assert(rows(r) =~= rows(*self));
                r
            },
            Column::Nullable(nc) => {
                let column = nc.column.duplicate();
                let validity = nc.validity.clone();
                assert(validity@ =~= nc.validity@);
                let r = Column::Nullable(Box::new(NullableColumn { column, validity }));
                assert(row_count(nc.column) == nc.validity@.len());
                assert(rows(column).len() == rows(nc.column).len());
                assert forall|q: int| 0 <= q < rows(r).len() implies rows(r)[q] == rows(*self)[q] by {
                    assert(rows(column)[q] == rows(nc.column)[q]);
                }
                assert(rows(r) =~= rows(*self));
                r
            },
            Column::Tuple { fields, len } => {
                let mut out: Vec<Column> = Vec::with_capacity(fields.len());
                let mut j: usize = 0;
                while j < fields.len()
                    invariant
                        j <= fields@.len(),
                        out@.len() == j,
                        *self == (Column::Tuple { fields: *fields, len: *len }),
                        wf(*self),
                        forall|q: int|
                            0 <= q < j ==> wf(#[trigger] out@[q]) && ty(out@[q])
                                == ty(fields@[q]) && rows(out@[q]) == rows(fields@[q]),
                    decreases fields@.len() - j,
                {
                    assert(decreases_to!(*self => self->fields));
                    assert(decreases_to!(self->fields => self->fields@));
                    assert(decreases_to!(self->fields@ => self->fields@[j as int]));
                    out.push(fields[j].duplicate());
                    j = j + 1;
                }
                let r = Column::Tuple { fields: out, len: *len };
                assert(ty(r)->Tuple_0 =~= ty(*self)->Tuple_0);
                assert forall|q: int| 0 <= q < rows(r).len() implies rows(r)[q] == rows(*self)[q] by {
                    assert forall|f: int| 0 <= f < out@.len() implies row(#[trigger] out@[f], q) == row(
                        fields@[f],
                        q,
                    ) by {
                        assert(rows(out@[f])[q] == rows(fields@[f])[q]);
                    }
                    assert(rows(r)[q]->Tuple_0 =~= rows(*self)[q]->Tuple_0);
                }
                assert(rows(r) =~= rows(*self));
                assert forall|q: int| 0 <= q < out@.len() implies row_count(#[trigger] out@[q]) == *len by {
                    assert(rows(out@[q]).len() == rows(fields@[q]).len());
                }
                r
            },
        }
    }
}

impl Scalar {
    /// A copy of the scalar, with fresh buffers holding the same contents.
    pub fn duplicate(&self) -> (r: Scalar)
        requires
            scalar_wf(*self),
        ensures
            scalar_wf(r),
            scalar_ty(r) == scalar_ty(*self),
            scalar_datum(r) == scalar_datum(*self),
        decreases *self,
    {
        match self {
            Scalar::Null => Scalar::Null,
            Scalar::EmptyArray => Scalar::EmptyArray,
            Scalar::Number(x) => Scalar::Number(*x),
            Scalar::Boolean(b) => Scalar::Boolean(*b),
            Scalar::String(v) => {
                let w = v.clone();
                assert(w@ =~= v@);
                Scalar::String(w)
            },
            Scalar::Array(c) => Scalar::Array(c.duplicate()),
            Scalar::Tuple(fs) => {
                let mut out: Vec<Scalar> = Vec::with_capacity(fs.len());
                let mut j: usize = 0;
                while j < fs.len()
                    invariant
                        j <= fs@.len(),
                        out@.len() == j,
                        *self == Scalar::Tuple(*fs),
                        scalar_wf(*self),
                        forall|q: int|
                            0 <= q < j ==> scalar_wf(#[trigger] out@[q]) && scalar_ty(out@[q])
                                == scalar_ty(fs@[q]) && scalar_datum(out@[q]) == scalar_datum(fs@[q]),
                    decreases fs@.len() - j,
                {
                    proof {
                        lemma_tuple_scalar_wf(*self, j as int);
                    }
                    assert(decreases_to!(*self => self->Tuple_0));
                    assert(decreases_to!(self->Tuple_0 => self->Tuple_0@));
                    assert(decreases_to!(self->Tuple_0@ => self->Tuple_0@[j as int]));
                    out.push(fs[j].duplicate());
                    j = j + 1;
                }
                let r = Scalar::Tuple(out);
                assert(scalar_ty(r)->Tuple_0 =~= scalar_ty(*self)->Tuple_0);
                assert(scalar_datum(r)->Tuple_0 =~= scalar_datum(*self)->Tuple_0);
                r
            },
        }
    }
}

/// Each field of a well-formed tuple scalar is well formed.
proof fn lemma_tuple_scalar_wf(s: Scalar, j: int)
    requires
        scalar_wf(s),
        s is Tuple,
        0 <= j < s->Tuple_0@.len(),
    ensures
        scalar_wf(s->Tuple_0@[j]),
{
}

impl Value {
    /// A copy of the value.
    pub fn duplicate(&self, n: usize) -> (r: Value)
        requires
            value_wf(*self, n as nat),
        ensures
            value_wf(r, n as nat),
            value_ty(r) == value_ty(*self),
            value_rows(r, n as nat) == value_rows(*self, n as nat),
            (r is Scalar) == (*self is Scalar),
    {
        match self {
            Value::Scalar(s) => Value::Scalar(s.duplicate()),
            Value::Column(c) => {
                let d = c.duplicate();
                assert(row_count(d) == rows(d).len());
                Value::Column(d)
            },
        }
    }

    /// The value as a dense column of `n` rows.
    fn to_column(&self, n: usize) -> (r: Column)
        requires
            value_wf(*self, n as nat),
            rows_fit(value_ty(*self), value_rows(*self, n as nat)),
        ensures
            wf(r),
            ty(r) == value_ty(*self),
            rows(r) == value_rows(*self, n as nat),
    {
        match self {
            Value::Scalar(s) => s.repeat(n),
            Value::Column(c) => c.duplicate(),
        }
    }
}

impl Chunk {
    /// A chunk of `num_rows` rows with the given column slots.
    pub fn new(columns: Vec<Value>, num_rows: usize) -> (r: Chunk)
        ensures
            r.columns == columns,
            r.num_rows == num_rows,
    {
        Chunk { columns, num_rows }
    }

    /// Number of rows.
    pub fn num_rows(&self) -> (r: usize)
        ensures
            r == self.num_rows,
    {
        self.num_rows
    }

    /// Number of column slots.
    pub fn num_columns(&self) -> (r: usize)
        ensures
            r == self.columns@.len(),
    {
        self.columns.len()
    }

    /// The column slots.
    pub fn columns(&self) -> (r: &Vec<Value>)
        ensures
            r == self.columns,
    {
        &self.columns
    }

    /// A copy of the chunk that keeps each slot as it is, scalar or dense.
    fn duplicate(&self) -> (r: Chunk)
        requires
            chunk_wf(*self),
        ensures
            chunk_wf(r),
            r.num_rows == self.num_rows,
            r.columns@.len() == self.columns@.len(),
            forall|j: int|
                0 <= j < r.columns@.len() ==> value_ty(#[trigger] r.columns@[j]) == value_ty(
                    self.columns@[j],
                ) && value_rows(r.columns@[j], r.num_rows as nat) == value_rows(
                    self.columns@[j],
                    self.num_rows as nat,
                ) && (r.columns@[j] is Scalar) == (self.columns@[j] is Scalar),
    {
        let mut out: Vec<Value> = Vec::with_capacity(self.columns.len());
        let mut j: usize = 0;
        while j < self.columns.len()
            invariant
                j <= self.columns@.len(),
                out@.len() == j,
                chunk_wf(*self),
                forall|q: int|
                    0 <= q < j ==> value_wf(#[trigger] out@[q], self.num_rows as nat) && value_ty(
                        out@[q],
                    ) == value_ty(self.columns@[q]) && value_rows(out@[q], self.num_rows as nat)
                        == value_rows(self.columns@[q], self.num_rows as nat) && (out@[q] is Scalar)
                        == (self.columns@[q] is Scalar),
            decreases self.columns@.len() - j,
        {
            assert(value_wf(self.columns@[j as int], self.num_rows as nat));
            out.push(self.columns[j].duplicate(self.num_rows));
            j = j + 1;
        }
        Chunk { columns: out, num_rows: self.num_rows }
    }

    /// Concatenates chunks that share a schema into one chunk whose rows are
    /// the rows of the inputs, one chunk after the other.
    ///
    /// A single chunk comes back as a copy, scalars kept; otherwise every
    /// scalar is first broadcast to its chunk's row count and every column of
    /// the result is dense.
    pub fn concat(chunks: &[Chunk]) -> (r: Result<Chunk, ErrorCode>)
        requires
            chunks_compatible(chunks@),
            chunks_fit(chunks@),
        ensures
            chunks@.len() == 0 <==> r == Err::<Chunk, ErrorCode>(ErrorCode::EmptyInput),
            r is Ok ==> {
                let c = r->Ok_0;
                &&& chunk_wf(c)
                &&& c.num_rows == total_num_rows(chunks@)
                &&& c.columns@.len() == chunks@[0].columns@.len()
                &&& forall|j: int|
                    0 <= j < c.columns@.len() ==> value_ty(#[trigger] c.columns@[j]) == value_ty(
                        chunks@[0].columns@[j],
                    ) && value_rows(c.columns@[j], c.num_rows as nat) == column_rows(chunks@, j)
                &&& chunks@.len() == 1 ==> forall|j: int|
                    0 <= j < c.columns@.len() ==> (#[trigger] c.columns@[j] is Scalar) == (
                    chunks@[0].columns@[j] is Scalar)
                &&& chunks@.len() > 1 ==> forall|j: int|
                    0 <= j < c.columns@.len() ==> #[trigger] c.columns@[j] is Column
            },
    {
        if chunks.len() == 0 {
            return Err(ErrorCode::EmptyInput);
        }
        assert(chunk_wf(chunks@[0]));
        if chunks.len() == 1 {
            let c = chunks[0].duplicate();
            assert forall|j: int| 0 <= j < c.columns@.len() implies value_rows(
                #[trigger] c.columns@[j],
                c.num_rows as nat,
            ) == column_rows(chunks@, j) by {
                assert(chunks@.drop_last() =~= Seq::<Chunk>::empty());
                assert(column_rows(chunks@.drop_last(), j) == Seq::<Datum>::empty());
                assert(column_rows(chunks@, j) =~= value_rows(
                    chunks@[0].columns@[j],
                    chunks@[0].num_rows as nat,
                ));
            }
            assert(chunks@.drop_last() =~= Seq::<Chunk>::empty());
            assert(total_num_rows(chunks@.drop_last()) == 0);
            return Ok(c);
        }
        let mut num_rows: usize = 0;
        let mut i: usize = 0;
        while i < chunks.len()
            invariant
                i <= chunks@.len(),
                num_rows == total_num_rows(chunks@.take(i as int)),
                total_num_rows(chunks@) <= usize::MAX,
            decreases chunks@.len() - i,
        {
            proof {
                lemma_num_rows_prefix(chunks@, i as int);
                lemma_num_rows_prefix(chunks@, i + 1);
            }
            num_rows = num_rows + chunks[i].num_rows;
            i = i + 1;
        }
        assert(chunks@.take(i as int) =~= chunks@);
        let ncols = chunks[0].columns.len();
        let mut concat_columns: Vec<Value> = Vec::with_capacity(ncols);
        let mut j: usize = 0;
        while j < ncols
            invariant
                j <= ncols,
                ncols == chunks@[0].columns@.len(),
                chunks@.len() > 1,
                chunks_compatible(chunks@),
                chunks_fit(chunks@),
                num_rows == total_num_rows(chunks@),
                concat_columns@.len() == j,
                forall|q: int|
                    0 <= q < j ==> #[trigger] concat_columns@[q] is Column && value_wf(
                        concat_columns@[q],
                        num_rows as nat,
                    ) && value_ty(concat_columns@[q]) == value_ty(chunks@[0].columns@[q])
                        && value_rows(concat_columns@[q], num_rows as nat) == column_rows(chunks@, q),
            decreases ncols - j,
        {
            let ghost t = value_ty(chunks@[0].columns@[j as int]);
            assert(rows_fit(t, column_rows(chunks@, j as int)));
            let mut columns: Vec<Column> = Vec::with_capacity(chunks.len());
            let mut i: usize = 0;
            assert(flat_rows(columns@) =~= column_rows(chunks@.take(0), j as int));
            while i < chunks.len()
                invariant
                    i <= chunks@.len(),
                    j < ncols,
                    ncols == chunks@[0].columns@.len(),
                    chunks_compatible(chunks@),
                    t == value_ty(chunks@[0].columns@[j as int]),
                    rows_fit(t, column_rows(chunks@, j as int)),
                    columns@.len() == i,
                    all_of_type(columns@, t),
                    flat_rows(columns@) == column_rows(chunks@.take(i as int), j as int),
                decreases chunks@.len() - i,
            {
                let ghost ch = chunks@[i as int];
                assert(chunk_wf(ch) && ch.columns@.len() == ncols);
                assert(value_wf(ch.columns@[j as int], ch.num_rows as nat));
                assert(value_ty(ch.columns@[j as int]) == t);
                proof {
                    lemma_fit_each(chunks@, t, j as int, i as int);
                }
                let c = chunks[i].columns[j].to_column(chunks[i].num_rows);
                let ghost prev = columns@;
                columns.push(c);
                proof {
                    assert(columns@.drop_last() =~= prev);
                    assert(chunks@.take(i + 1).drop_last() =~= chunks@.take(i as int));
                }
                i = i + 1;
            }
            assert(chunks@.take(i as int) =~= chunks@);
            let merged = Column::concat(columns.as_slice());
            proof {
                crate::lemmas::lemma_flat_len(columns@);
                lemma_column_rows_len(chunks@, j as int);
            }
            concat_columns.push(Value::Column(merged));
            j = j + 1;
        }
        let r = Chunk::new(concat_columns, num_rows);
        assert forall|q: int| 0 <= q < r.columns@.len() implies value_wf(
            #[trigger] r.columns@[q],
            r.num_rows as nat,
        ) by {}
        Ok(r)
    }
}

} // verus!
