use vstd::prelude::*;
use crate::column::{
    byte_count, offsets_wf, row_count, rows, ty, wf, Column,
    StringColumn, Datum,
};

verus! {

/// Appends byte strings one row at a time, keeping the offsets in step.
pub struct StringColumnBuilder {
    pub data: Vec<u8>,
    pub offsets: Vec<usize>,
}

/// An append-only builder for the variants whose rows are copied one by one.
pub enum ColumnBuilder {
    Null { len: usize },
    EmptyArray { len: usize },
    Boolean(Vec<bool>),
    String(StringColumnBuilder),
}

/// The column that a builder holds so far.
pub open spec fn built(b: ColumnBuilder) -> Column {
    match b {
        ColumnBuilder::Null { len } => Column::Null { len },
        ColumnBuilder::EmptyArray { len } => Column::EmptyArray { len },
        ColumnBuilder::Boolean(v) => Column::Boolean(v),
        ColumnBuilder::String(s) => Column::String(StringColumn { data: s.data, offsets: s.offsets }),
    }
}

impl StringColumnBuilder {
    /// An empty builder with room for `len` rows and `data_capacity` bytes.
    pub fn with_capacity(len: usize, data_capacity: usize) -> (r: StringColumnBuilder)
        ensures
            r.data@ == Seq::<u8>::empty(),
            r.offsets@ == seq![0usize],
    {
        let mut offsets: Vec<usize> = Vec::with_capacity(
            if len < usize::MAX {
                len + 1
            } else {
                len
            },
        );
        offsets.push(0);
        StringColumnBuilder { data: Vec::with_capacity(data_capacity), offsets }
    }

    /// Appends one row holding the bytes `src[start..end]`.
    pub fn push_item(&mut self, src: &Vec<u8>, start: usize, end: usize)
        requires
            start <= end <= src@.len(),
            old(self).data@.len() + (end - start) <= usize::MAX,
        ensures
            final(self).data@ == old(self).data@ + src@.subrange(start as int, end as int),
            final(self).offsets@ == old(self).offsets@.push(final(self).data@.len() as usize),
    {
        let ghost d0 = self.data@;
        let mut k: usize = start;
        while k < end
            invariant
                start <= k <= end <= src@.len(),
                d0.len() + (end - start) <= usize::MAX,
                self.offsets@ == old(self).offsets@,
                self.data@ == d0 + src@.subrange(start as int, k as int),
            decreases end - k,
        {
            self.data.push(src[k]);
            k = k + 1;
            assert(self.data@ =~= d0 + src@.subrange(start as int, k as int));
        }
        let n = self.data.len();
        self.offsets.push(n);
    }
}

/// Pushing one row onto a well-formed string column keeps it well formed and
/// adds that row after the others.
pub proof fn lemma_string_push(s0: StringColumn, s1: StringColumn, bytes: Seq<u8>)
    requires
        offsets_wf(s0.offsets@, s0.data@.len()),
        s1.data@ == s0.data@ + bytes,
        s1.offsets@ == s0.offsets@.push(s1.data@.len() as usize),
        s1.data@.len() <= usize::MAX,
    ensures
        offsets_wf(s1.offsets@, s1.data@.len()),
        rows(Column::String(s1)) == rows(Column::String(s0)).push(Datum::Bytes(bytes)),
{
    let o0 = s0.offsets@;
    let o1 = s1.offsets@;
    let n = o0.len() - 1;
    assert forall|i: int, j: int| 0 <= i <= j < o1.len() implies #[trigger] o1[i] <= #[trigger] o1[j] by {
        if j < o0.len() {
            assert(o0[i] <= o0[j]);
        } else if i < o0.len() {
            assert(o0[i] <= o0[n]);
        }
    }
    let r0 = rows(Column::String(s0));
    let r1 = rows(Column::String(s1));
    assert forall|q: int| 0 <= q < r1.len() implies r1[q] == r0.push(Datum::Bytes(bytes))[q] by {
        if q < n {
            assert(o0[q] <= o0[q + 1] <= o0[n]);
            assert(s1.data@.subrange(o1[q] as int, o1[q + 1] as int) =~= s0.data@.subrange(
                o0[q] as int,
                o0[q + 1] as int,
            ));
        } else {
            assert(s1.data@.subrange(o1[q] as int, o1[q + 1] as int) =~= bytes);
        }
    }
    assert(r1 =~= r0.push(Datum::Bytes(bytes)));
}

impl ColumnBuilder {
    /// Finishes the builder into the column it holds.
    pub fn build(self) -> (r: Column)
        ensures
            r == built(self),
    {
        match self {
            ColumnBuilder::Null { len } => Column::Null { len },
            ColumnBuilder::EmptyArray { len } => Column::EmptyArray { len },
            ColumnBuilder::Boolean(v) => Column::Boolean(v),
            ColumnBuilder::String(s) => Column::String(StringColumn { data: s.data, offsets: s.offsets }),
        }
    }

    /// Appends every row of `col`, in order.
    pub fn append_column(&mut self, col: &Column)
        requires
            wf(built(*old(self))),
            wf(*col),
            ty(*col) == ty(built(*old(self))),
            row_count(built(*old(self))) + row_count(*col) <= usize::MAX,
            byte_count(built(*old(self))) + byte_count(*col) <= usize::MAX,
        ensures
            wf(built(*final(self))),
            ty(built(*final(self))) == ty(built(*old(self))),
            rows(built(*final(self))) == rows(built(*old(self))) + rows(*col),
            byte_count(built(*final(self))) == byte_count(built(*old(self))) + byte_count(*col),
    {
        let ghost rows0 = rows(built(*self));
        match self {
            ColumnBuilder::Null { len } => {
                if let Column::Null { len: n } = col {
                    *len = *len + *n;
                }
                assert(rows(built(*self)) =~= rows0 + rows(*col));
            },
            ColumnBuilder::EmptyArray { len } => {
                if let Column::EmptyArray { len: n } = col {
                    *len = *len + *n;
                }
                assert(rows(built(*self)) =~= rows0 + rows(*col));
            },
            ColumnBuilder::Boolean(v) => {
                if let Column::Boolean(src) = col {
                    let ghost v0 = v@;
                    let mut r: usize = 0;
                    while r < src.len()
                        invariant
                            r <= src@.len(),
                            v0.len() + src@.len() <= usize::MAX,
                            v@ == v0 + src@.take(r as int),
                        decreases src@.len() - r,
                    {
                        v.push(src[r]);
                        r = r + 1;
                        assert(v@ =~= v0 + src@.take(r as int));
                    }
                    assert(src@.take(r as int) =~= src@);
                }
                assert(rows(built(*self)) =~= rows0 + rows(*col));
            },
            ColumnBuilder::String(b) => {
                if let Column::String(s) = col {
                    let ghost d0 = b.data@;
                    let mut r: usize = 0;
                    assert(rows(*col).len() == s.offsets@.len() - 1);
                    while r < s.offsets.len() - 1
                        invariant
                            *col == Column::String(*s),
                            offsets_wf(s.offsets@, s.data@.len()),
                            r < s.offsets@.len(),
                            d0.len() + s.data@.len() <= usize::MAX,
                            offsets_wf(b.offsets@, b.data@.len()),
                            b.data@.len() == d0.len() + s.offsets@[r as int],
                            rows(Column::String(StringColumn { data: b.data, offsets: b.offsets }))
                                == rows0 + rows(*col).take(r as int),
                        decreases s.offsets@.len() - r,
                    {
                        let ghost s0 = StringColumn { data: b.data, offsets: b.offsets };
                        let start = s.offsets[r];
                        let end = s.offsets[r + 1];
                        assert(start <= end <= s.offsets@[s.offsets@.len() - 1]);
                        b.push_item(&s.data, start, end);
                        proof {
                            let s1 = StringColumn { data: b.data, offsets: b.offsets };
                            lemma_string_push(s0, s1, s.data@.subrange(start as int, end as int));
                            assert(rows(*col).take(r + 1) =~= rows(*col).take(r as int).push(
                                rows(*col)[r as int],
                            ));
                            assert(rows(Column::String(s1)) =~= rows0 + rows(*col).take(r + 1));
                        }
                        r = r + 1;
                    }
                    assert(rows(*col).take(r as int) =~= rows(*col));
                }
            },
        }
    }
}

} // verus!
