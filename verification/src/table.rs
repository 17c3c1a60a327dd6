//! Zero-copy view operations on tables: sub-range slices, column
//! projections, and mask-based row filtering, each producing a brand-new
//! table value (never a mutation of the input), plus the handle-based
//! `Table`/`Column`/`Row` views the host works with.

use vstd::prelude::*;
use crate::error::{CoreError, CoreResult, ErrorCode};
use crate::model::{
    BatchData, CellModel, CellRead, CellSlot, CellValue, ColumnData, FieldDef, SchemaData,
    TableData, spec_model_tag, rows_upto,
    spec_cell_in, spec_total_rows, lemma_cell_in_push, lemma_cell_in_skip,
    lemma_rows_upto_nonneg, lemma_rows_upto_push, spec_index_of_name,
};
use crate::text::fmt_usize;

verus! {

impl TableData {
    /// A new table holding exactly the rows `[offset, offset + length)` of
    /// this one, batch boundaries trimmed to the range.  Succeeds iff
    /// `length > 0`, `offset < rows` and `offset + length <= rows`; a
    /// zero-length request is rejected up front and any other violation is
    /// a bounds error naming the actual row count.  The input table is not
    /// touched.
    pub fn slice(&self, offset: usize, length: usize) -> (out: CoreResult<TableData>)
        requires
            self.wf(),
        ensures
            match out {
                Ok(t) => {
                    &&& length > 0
                    &&& offset < self.spec_row_count()
                    &&& offset + length <= self.spec_row_count()
                    &&& t.wf()
                    &&& t.spec_row_count() == length
                    &&& t.schema.models() == self.schema.models()
                    &&& t.spec_col_count() == self.spec_col_count()
                    &&& forall|c: int, j: int|
                        0 <= c < self.spec_col_count() && 0 <= j < length ==> #[trigger] t.spec_cell(
                            c,
                            j,
                        ) == self.spec_cell(c, offset + j)
                },
                Err(e) => {
                    &&& !(length > 0 && offset < self.spec_row_count() && offset + length
                        <= self.spec_row_count())
                    &&& (length == 0 ==> e.code == ErrorCode::Validation)
                    &&& (length > 0 ==> e.code == ErrorCode::OutOfBounds)
                },
            },
    {
        let rows = self.row_count();
        if length == 0 {
            return Err(CoreError::validation(
                String::from_str("Slice length must be greater than 0"),
            ));
        }
        if offset >= rows {
            let mut msg = String::from_str("Slice offset ");
            let l = fmt_usize(offset);
            msg.append(l.as_str());
            msg.append(" is out of bounds. Table has ");
            let t = fmt_usize(rows);
            msg.append(t.as_str());
            msg.append(" rows");
            return Err(CoreError::out_of_bounds(msg));
        }
        if length > rows - offset {
            let mut msg = String::from_str("Slice range exceeds table bounds. Table has ");
            let t = fmt_usize(rows);
            msg.append(t.as_str());
            msg.append(" rows");
            return Err(CoreError::out_of_bounds(msg));
        }
        let nb = self.batches.len();
        let ncols = self.schema.fields.len();
        let mut out_batches: Vec<BatchData> = Vec::new();
        let mut bi: usize = 0;
        let mut skip: usize = offset;
        let mut need: usize = length;
        while bi < nb && need > 0
            invariant
                self.wf(),
                length > 0,
                offset + length <= self.spec_row_count(),
                bi <= nb == self.batches@.len(),
                ncols == self.spec_col_count(),
                need <= length,
                need > 0 ==> skip + need <= length + offset,
                need > 0 ==> rows_upto(self.batches@, bi as int) == offset - skip + (length - need),
                need < length ==> skip == 0,
                spec_total_rows(out_batches@) == length - need,
                forall|k: int|
                    0 <= k < out_batches@.len() ==> (#[trigger] out_batches@[k]).wf()
                        && out_batches@[k].columns@.len() == ncols,
                forall|k: int, c: int|
                    0 <= k < out_batches@.len() && 0 <= c < ncols ==> (
                    #[trigger] out_batches@[k].columns@[c]).spec_tag() == self.spec_field_tag(c),
                forall|c: int, j: int|
                    0 <= c < ncols && 0 <= j < length - need ==> #[trigger] spec_cell_in(
                        out_batches@,
                        c,
                        j,
                    ) == self.spec_cell(c, offset + j),
            decreases nb - bi,
        {
            let b = &self.batches[bi];
            let rows_b = b.rows();
            if skip >= rows_b {
                skip = skip - rows_b;
            } else {
                let avail = rows_b - skip;
                let take = if need < avail {
                    need
                } else {
                    avail
                };
                let piece = b.slice_rows(skip, take);
                let ghost old_out = out_batches@;
                let ghost emitted = length - need;
                out_batches.push(piece);
                proof {
                    lemma_rows_upto_push(old_out, piece, old_out.len() as int);
                    assert forall|c: int, j: int|
                        0 <= c < ncols && 0 <= j < emitted + take implies #[trigger] spec_cell_in(
                        out_batches@,
                        c,
                        j,
                    ) == self.spec_cell(c, offset + j) by {
                        lemma_cell_in_push(old_out, piece, c, j);
                        if j >= emitted {
                            lemma_cell_in_skip(self.batches@, c, offset + j, bi as int);
                            let tail = self.batches@.skip(bi as int);
                            assert(tail[0] == self.batches@[bi as int]);
                            assert(piece.spec_cell(c, j - emitted) == b.spec_cell(
                                c,
                                skip + (j - emitted),
                            ));
                            assert(offset + j - rows_upto(self.batches@, bi as int) == skip + (j
                                - emitted));
                        }
                    }
                }
                need = need - take;
                skip = 0;
            }
            bi = bi + 1;
        }
        proof {
            if need > 0 {
                assert(bi == nb);
                lemma_rows_upto_nonneg(self.batches@, nb as int);
                assert(rows_upto(self.batches@, nb as int) == self.spec_row_count());
                assert(false);
            }
        }
        let out_schema = self.schema.duplicate();
        let meta = crate::model::clone_pairs(&self.metadata);
        let t = TableData { schema: out_schema, batches: out_batches, metadata: meta };
        proof {
            assert(t.spec_row_count() == length);
        }
        Ok(t)
    }

    /// Narrow and reorder the columns exactly to `names`, in the given
    /// order, sharing the cells of the source columns.  Row count, batch
    /// structure and every cell's null/value status are preserved; a name
    /// not present in the schema is rejected naming the missing column and
    /// listing the available ones, and selecting no columns at all is
    /// rejected.
    pub fn select(&self, names: &Vec<String>) -> (out: CoreResult<TableData>)
        requires
            self.wf(),
        ensures
            match out {
                Ok(t) => {
                    &&& names@.len() > 0
                    &&& forall|k: int|
                        0 <= k < names@.len() ==> spec_index_of_name(
                            self.schema.fields@,
                            #[trigger] names@[k]@,
                        ) is Some
                    &&& t.wf()
                    &&& t.spec_row_count() == self.spec_row_count()
                    &&& t.batches@.len() == self.batches@.len()
                    &&& t.spec_col_count() == names@.len()
                    &&& forall|k: int|
                        0 <= k < names@.len() ==> (#[trigger] t.schema.fields@[k]).model()
                            == self.schema.fields@[spec_sel(self.schema.fields@, names@[k]@)].model()
                    &&& forall|k: int, r: int|
                        0 <= k < names@.len() && 0 <= r ==> #[trigger] t.spec_cell(k, r)
                            == self.spec_cell(spec_sel(self.schema.fields@, names@[k]@), r)
                },
                Err(e) => {
                    &&& (names@.len() == 0 || exists|k: int|
                        0 <= k < names@.len() && spec_index_of_name(
                            self.schema.fields@,
                            #[trigger] names@[k]@,
                        ) is None)
                    &&& e.code == ErrorCode::Validation
                },
            },
    {
        let n = names.len();
        if n == 0 {
            return Err(CoreError::validation(
                String::from_str("At least one column must be selected"),
            ));
        }
        let mut idxs: Vec<usize> = Vec::new();
        let mut k: usize = 0;
        while k < n
            invariant
                self.wf(),
                k <= n == names@.len(),
                idxs@.len() == k,
                forall|t2: int| 0 <= t2 < k ==> (#[trigger] idxs@[t2]) < self.schema.fields@.len(),
                forall|t2: int|
                    0 <= t2 < k ==> spec_index_of_name(self.schema.fields@, #[trigger] names@[t2]@)
                        == Some(idxs@[t2] as int),
            decreases n - k,
        {
            let name: &String = &names[k];
            match self.schema.index_of(name.as_str()) {
                Some(i) => {
                    idxs.push(i);
                },
                None => {
                    let mut msg = String::from_str("Column '");
                    msg.append(name.as_str());
                    msg.append("' not found. Available columns: [");
                    let avail = join_field_names(&self.schema.fields);
                    msg.append(avail.as_str());
                    msg.append("]");
                    return Err(CoreError::validation(msg));
                },
            }
            k = k + 1;
        }
        let mut fields: Vec<FieldDef> = Vec::new();
        k = 0;
        while k < n
            invariant
                self.wf(),
                k <= n == names@.len(),
                idxs@.len() == n,
                forall|t2: int| 0 <= t2 < n ==> (#[trigger] idxs@[t2]) < self.schema.fields@.len(),
                forall|t2: int|
                    0 <= t2 < n ==> spec_index_of_name(self.schema.fields@, #[trigger] names@[t2]@)
                        == Some(idxs@[t2] as int),
                fields@.len() == k,
                forall|t2: int|
                    0 <= t2 < k ==> (#[trigger] fields@[t2]).model() == self.schema.fields@[idxs@[t2] as int].model()
                        && fields@[t2].data_type == self.schema.fields@[idxs@[t2] as int].data_type,
            decreases n - k,
        {
            let f = self.schema.fields[idxs[k]].duplicate();
            fields.push(f);
            k = k + 1;
        }
        let out_schema = SchemaData::new(fields);
        let nb = self.batches.len();
        let mut out_batches: Vec<BatchData> = Vec::new();
        let mut bi: usize = 0;
        while bi < nb
            invariant
                self.wf(),
                n == names@.len() > 0,
                bi <= nb == self.batches@.len(),
                idxs@.len() == n,
                forall|t2: int| 0 <= t2 < n ==> (#[trigger] idxs@[t2]) < self.schema.fields@.len(),
                forall|t2: int|
                    0 <= t2 < n ==> spec_index_of_name(self.schema.fields@, #[trigger] names@[t2]@)
                        == Some(idxs@[t2] as int),
                out_batches@.len() == bi,
                forall|b2: int|
                    0 <= b2 < bi ==> (#[trigger] out_batches@[b2]).wf()
                        && out_batches@[b2].columns@.len() == n && out_batches@[b2].spec_rows()
                        == self.batches@[b2].spec_rows(),
                forall|b2: int, t2: int|
                    0 <= b2 < bi && 0 <= t2 < n ==> (#[trigger] out_batches@[b2].columns@[t2]).spec_tag()
                        == self.spec_field_tag(idxs@[t2] as int),
                forall|b2: int, t2: int|
                    0 <= b2 < bi && 0 <= t2 < n ==> (#[trigger] out_batches@[b2].columns@[t2]).spec_cells()
                        == self.batches@[b2].columns@[idxs@[t2] as int].spec_cells(),
            decreases nb - bi,
        {
            let b = &self.batches[bi];
            let mut cols_out: Vec<ColumnData> = Vec::new();
            let mut k2: usize = 0;
            while k2 < n
                invariant
                    self.wf(),
                    bi < self.batches@.len(),
                    b == self.batches@[bi as int],
                    k2 <= n == names@.len(),
                    idxs@.len() == n,
                    forall|t2: int|
                        0 <= t2 < n ==> (#[trigger] idxs@[t2]) < self.schema.fields@.len(),
                    cols_out@.len() == k2,
                    forall|t2: int|
                        0 <= t2 < k2 ==> (#[trigger] cols_out@[t2]).spec_tag()
                            == b.columns@[idxs@[t2] as int].spec_tag(),
                    forall|t2: int|
                        0 <= t2 < k2 ==> (#[trigger] cols_out@[t2]).spec_cells()
                            == b.columns@[idxs@[t2] as int].spec_cells(),
                decreases n - k2,
            {
                let col = b.columns[idxs[k2]].duplicate();
                cols_out.push(col);
                k2 = k2 + 1;
            }
            let nb2 = BatchData { columns: cols_out };
            proof {
                assert(nb2.spec_rows() == b.spec_rows()) by {
                    assert(nb2.columns@[0].spec_cells() == b.columns@[idxs@[0] as int].spec_cells());
                }
                assert forall|c2: int| 0 <= c2 < n implies (#[trigger] nb2.columns@[c2]).spec_len()
                    == nb2.spec_rows() by {
                    assert(nb2.columns@[c2].spec_cells() == b.columns@[idxs@[c2] as int].spec_cells());
                }
            }
            out_batches.push(nb2);
            bi = bi + 1;
        }
        let t = TableData { schema: out_schema, batches: out_batches, metadata: Vec::new() };
        proof {
            lemma_rows_upto_pointwise(self.batches@, out_batches@, nb as int);
            assert forall|k3: int, r: int| 0 <= k3 < n && 0 <= r implies #[trigger] t.spec_cell(
                k3,
                r,
            ) == self.spec_cell(spec_sel(self.schema.fields@, names@[k3]@), r) by {
                let cx = spec_sel(self.schema.fields@, names@[k3]@);
                assert(cx == idxs@[k3] as int);
                assert forall|i: int, j: int|
                    0 <= i < self.batches@.len() && 0 <= j < self.batches@[i].spec_rows() implies
                    #[trigger] out_batches@[i].spec_cell(k3, j) == self.batches@[i].spec_cell(
                    cx,
                    j,
                ) by {
                    assert(out_batches@[i].columns@[k3].spec_cells() == self.batches@[i].columns@[cx].spec_cells());
                }
                lemma_cell_in_mapped(self.batches@, out_batches@, cx, k3, r);
            }
        }
        Ok(t)
    }
}

/// The cells of column `c`, in global row order.
pub open spec fn spec_col_seq(t: TableData, c: int) -> Seq<CellSlot> {
    Seq::new(t.spec_row_count() as nat, |r: int| t.spec_cell(c, r))
}

/// How many of the first `n` mask entries are set.
pub open spec fn spec_count_true(keep: Seq<bool>, n: int) -> int
    decreases n,
{
    if n <= 0 {
        0
    } else {
        spec_count_true(keep, n - 1) + if keep[n - 1] {
            1int
        } else {
            0int
        }
    }
}

/// The subsequence of the first `n` cells whose mask entry is set, in
/// order.
pub open spec fn spec_masked(cells: Seq<CellSlot>, keep: Seq<bool>, n: int) -> Seq<CellSlot>
    decreases n,
{
    if n <= 0 {
        Seq::empty()
    } else {
        spec_masked(cells, keep, n - 1) + if keep[n - 1] {
            seq![cells[n - 1]]
        } else {
            Seq::empty()
        }
    }
}

/// The masked subsequence holds exactly one cell per set mask entry.
pub proof fn lemma_masked_len(cells: Seq<CellSlot>, keep: Seq<bool>, n: int)
    requires
        0 <= n,
    ensures
        spec_masked(cells, keep, n).len() == spec_count_true(keep, n),
        0 <= spec_count_true(keep, n) <= n,
    decreases n,
{
    if n > 0 {
        lemma_masked_len(cells, keep, n - 1);
    }
}

/// A logical type this build can hold in a column.
pub open spec fn spec_supported_tag(tag: u32) -> bool {
    tag == crate::model::TYPE_BOOL || tag == crate::model::TYPE_INT32 || tag
        == crate::model::TYPE_INT64 || tag == crate::model::TYPE_UTF8
}

impl TableData {
    /// Keep exactly the rows whose mask entry is set, in order, gathered
    /// into a single batch.  The mask is the host predicate's answers,
    /// materialized row by row outside the registry lock; its length must
    /// equal the row count.  Columns of a logical type this build cannot
    /// hold cells of are rejected with a `TypeMismatch`.
    pub fn filter_rows(&self, keep: &Vec<bool>) -> (out: CoreResult<TableData>)
        requires
            self.wf(),
        ensures
            match out {
                Ok(t) => {
                    &&& keep@.len() == self.spec_row_count()
                    &&& t.wf()
                    &&& t.schema.models() == self.schema.models()
                    &&& t.spec_col_count() == self.spec_col_count()
                    &&& t.batches@.len() == 1
                    &&& (self.spec_col_count() > 0 ==> t.spec_row_count() == spec_count_true(
                        keep@,
                        keep@.len() as int,
                    ))
                    &&& (self.spec_col_count() == 0 ==> t.spec_row_count() == 0)
                    &&& forall|c: int|
                        0 <= c < self.spec_col_count() ==> #[trigger] spec_col_seq(t, c)
                            == spec_masked(spec_col_seq(*self, c), keep@, keep@.len() as int)
                },
                Err(e) => {
                    &&& (keep@.len() != self.spec_row_count() || exists|c: int|
                        0 <= c < self.spec_col_count() && !spec_supported_tag(
                            #[trigger] self.spec_field_tag(c),
                        ))
                    &&& (e.code == ErrorCode::Validation || e.code == ErrorCode::TypeMismatch)
                },
            },
    {
        let rows = self.row_count();
        if keep.len() != rows {
            return Err(CoreError::validation(
                String::from_str("Predicate mask length does not match the table's row count"),
            ));
        }
        let ncols = self.schema.fields.len();
        let mut cols_out: Vec<ColumnData> = Vec::new();
        let mut c: usize = 0;
        while c < ncols
            invariant
                self.wf(),
                rows == self.spec_row_count(),
                keep@.len() == rows,
                c <= ncols == self.spec_col_count(),
                cols_out@.len() == c,
                forall|k: int|
                    0 <= k < c ==> (#[trigger] cols_out@[k]).spec_tag() == self.spec_field_tag(k),
                forall|k: int|
                    0 <= k < c ==> (#[trigger] cols_out@[k]).spec_cells() == spec_masked(
                        spec_col_seq(*self, k),
                        keep@,
                        rows as int,
                    ),
            decreases ncols - c,
        {
            let ftag = self.schema.fields[c].data_type.type_id();
            let mut piece = match ColumnData::new_empty(ftag) {
                Some(p) => p,
                None => {
                    proof {
                        assert(!spec_supported_tag(self.spec_field_tag(c as int)));
                    }
                    return Err(CoreError::new(
                        ErrorCode::TypeMismatch,
                        String::from_str("Unsupported data type for filtering"),
                    ));
                },
            };
            let mut r: usize = 0;
            while r < rows
                invariant
                    self.wf(),
                    rows == self.spec_row_count(),
                    keep@.len() == rows,
                    c < ncols == self.spec_col_count(),
                    r <= rows,
                    piece.spec_tag() == ftag,
                    ftag == self.spec_field_tag(c as int),
                    piece.spec_cells() == spec_masked(spec_col_seq(*self, c as int), keep@, r as int),
                decreases rows - r,
            {
                if keep[r] {
                    let cell = self.cell_value(c, r);
                    piece.push_cell(cell);
                    proof {
                        assert(spec_col_seq(*self, c as int)[r as int] == self.spec_cell(
                            c as int,
                            r as int,
                        ));
                        assert(piece.spec_cells() =~= spec_masked(
                            spec_col_seq(*self, c as int),
                            keep@,
                            r as int + 1,
                        ));
                    }
                } else {
                    proof {
                        assert(spec_masked(spec_col_seq(*self, c as int), keep@, r as int + 1)
                            =~= spec_masked(spec_col_seq(*self, c as int), keep@, r as int));
                    }
                }
                r = r + 1;
            }
            cols_out.push(piece);
            c = c + 1;
        }
        let nb2 = BatchData { columns: cols_out };
        proof {
            assert forall|k: int| 0 <= k < ncols implies (#[trigger] nb2.columns@[k]).spec_len()
                == spec_count_true(keep@, rows as int) by {
                lemma_masked_len(spec_col_seq(*self, k), keep@, rows as int);
            }
            lemma_masked_len(spec_col_seq(*self, 0), keep@, rows as int);
        }
        let out_schema = self.schema.duplicate();
        let meta = crate::model::clone_pairs(&self.metadata);
        let mut bvec: Vec<BatchData> = Vec::new();
        bvec.push(nb2);
        let t = TableData { schema: out_schema, batches: bvec, metadata: meta };
        proof {
            let count = spec_count_true(keep@, rows as int);
            assert(rows_upto(t.batches@, 1) == rows_upto(t.batches@, 0) + t.batches@[0].spec_rows());
            assert(t.spec_row_count() == t.batches@[0].spec_rows());
            assert forall|c2: int| 0 <= c2 < ncols implies #[trigger] spec_col_seq(t, c2)
                == spec_masked(spec_col_seq(*self, c2), keep@, keep@.len() as int) by {
                lemma_masked_len(spec_col_seq(*self, c2), keep@, rows as int);
                assert forall|j: int| 0 <= j < count implies spec_col_seq(t, c2)[j] == spec_masked(
                    spec_col_seq(*self, c2),
                    keep@,
                    rows as int,
                )[j] by {
                    assert(t.spec_cell(c2, j) == t.batches@[0].spec_cell(c2, j));
                }
                assert(spec_col_seq(t, c2) =~= spec_masked(
                    spec_col_seq(*self, c2),
                    keep@,
                    rows as int,
                ));
            }
        }
        Ok(t)
    }
}

/// Registry of native-owned tables, one instance per process, handed to
/// every view operation explicitly.
pub type TableRegistry = crate::handles::HandleRegistry<TableData>;

/// A table registry in which every stored table satisfies the table
/// invariant.  Every operation of the view layer preserves this.
pub open spec fn spec_registry_wf(reg: TableRegistry) -> bool {
    &&& reg.wf()
    &&& forall|h: crate::handles::HandleId| reg@.contains_key(h) ==> (#[trigger] reg@[h]).wf()
}

/// Handle-carrying table view: stateless, re-validated against the
/// registry on every access; it never holds a reference to the data.
#[derive(Debug, Clone, Copy, PartialEq, Eq, Structural)]
pub struct Table {
    pub handle: crate::handles::HandleId,
}

impl Table {
    /// Rows of the referenced table; a stale handle reads as 0.
    pub fn num_rows(&self, reg: &TableRegistry) -> (r: usize)
        requires
            spec_registry_wf(*reg),
        ensures
            reg@.contains_key(self.handle) ==> r == reg@[self.handle].spec_row_count(),
            !reg@.contains_key(self.handle) ==> r == 0,
    {
        match reg.get(self.handle) {
            Some(t) => t.row_count(),
            None => 0,
        }
    }

    /// Columns of the referenced table; a stale handle reads as 0.
    pub fn num_columns(&self, reg: &TableRegistry) -> (r: usize)
        requires
            spec_registry_wf(*reg),
        ensures
            reg@.contains_key(self.handle) ==> r == reg@[self.handle].spec_col_count(),
            !reg@.contains_key(self.handle) ==> r == 0,
    {
        match reg.get(self.handle) {
            Some(t) => t.column_count(),
            None => 0,
        }
    }

    /// A copy of the referenced table's schema.
    pub fn schema(&self, reg: &TableRegistry) -> (r: Option<SchemaData>)
        requires
            spec_registry_wf(*reg),
        ensures
            match r {
                Some(s) => reg@.contains_key(self.handle) && s.models() == reg@[self.handle].schema.models(),
                None => !reg@.contains_key(self.handle),
            },
    {
        match reg.get(self.handle) {
            Some(t) => Some(t.schema.duplicate()),
            None => None,
        }
    }

    /// Look a column up by name; an unknown name is rejected listing the
    /// available columns, an empty name up front, and a stale handle with
    /// an `InvalidHandle` error.
    pub fn get_column(&self, reg: &TableRegistry, name: &str) -> (out: CoreResult<Column>)
        requires
            spec_registry_wf(*reg),
        ensures
            match out {
                Ok(col) => {
                    &&& name@.len() > 0
                    &&& reg@.contains_key(self.handle)
                    &&& col.table_handle == self.handle
                    &&& spec_index_of_name(reg@[self.handle].schema.fields@, name@) == Some(
                        col.column_index as int,
                    )
                },
                Err(e) => {
                    &&& (name@.len() == 0 || !reg@.contains_key(self.handle)
                        || spec_index_of_name(reg@[self.handle].schema.fields@, name@) is None)
                    &&& (e.code == ErrorCode::Validation || e.code == ErrorCode::InvalidHandle)
                },
            },
    {
        if name.unicode_len() == 0 {
            return Err(CoreError::validation(String::from_str("Column name cannot be empty")));
        }
        let t = match reg.get(self.handle) {
            Some(t) => t,
            None => {
                return Err(CoreError::invalid_handle(
                    String::from_str("Table has been disposed or is invalid"),
                ));
            },
        };
        match t.schema.index_of(name) {
            Some(i) => Ok(Column { table_handle: self.handle, column_index: i }),
            None => {
                let mut msg = String::from_str("Column '");
                msg.append(name);
                msg.append("' not found. Available columns: [");
                let avail = join_field_names(&t.schema.fields);
                msg.append(avail.as_str());
                msg.append("]");
                Err(CoreError::validation(msg))
            },
        }
    }

    /// Column view by position, if the handle resolves and the position
    /// exists.
    pub fn get_column_at(&self, reg: &TableRegistry, index: usize) -> (out: Option<Column>)
        requires
            spec_registry_wf(*reg),
        ensures
            match out {
                Some(col) => reg@.contains_key(self.handle) && index
                    < reg@[self.handle].spec_col_count() && col.table_handle == self.handle
                    && col.column_index == index,
                None => !reg@.contains_key(self.handle) || index
                    >= reg@[self.handle].spec_col_count(),
            },
    {
        match reg.get(self.handle) {
            Some(t) => {
                if index < t.column_count() {
                    Some(Column { table_handle: self.handle, column_index: index })
                } else {
                    None
                }
            },
            None => None,
        }
    }

    /// Sub-range view registered as a brand-new handle; the input handle
    /// and every other resource stay untouched and valid.
    pub fn slice(&self, reg: &mut TableRegistry, offset: usize, length: usize) -> (out: CoreResult<
        Table,
    >)
        requires
            spec_registry_wf(*old(reg)),
        ensures
            spec_registry_wf(*final(reg)),
            forall|h: crate::handles::HandleId|
                old(reg)@.contains_key(h) ==> final(reg)@.contains_key(h)
                    && #[trigger] final(reg)@[h] == old(reg)@[h],
            (old(reg)@.contains_key(self.handle) && length > 0 && offset < old(
                reg,
            )@[self.handle].spec_row_count() && offset + length <= old(
                reg,
            )@[self.handle].spec_row_count() && old(reg).next_handle()
                < crate::handles::HandleId::MAX) ==> out is Ok,
            match out {
                Ok(t2) => {
                    let src = old(reg)@[self.handle];
                    let dst = final(reg)@[t2.handle];
                    &&& old(reg)@.contains_key(self.handle)
                    &&& !old(reg)@.contains_key(t2.handle)
                    &&& final(reg)@.contains_key(t2.handle)
                    &&& final(reg)@ == old(reg)@.insert(t2.handle, final(reg)@[t2.handle])
                    &&& length > 0
                    &&& offset < src.spec_row_count()
                    &&& offset + length <= src.spec_row_count()
                    &&& dst.spec_row_count() == length
                    &&& dst.schema.models() == src.schema.models()
                    &&& forall|c: int, j: int|
                        0 <= c < src.spec_col_count() && 0 <= j < length ==> #[trigger] dst.spec_cell(
                            c,
                            j,
                        ) == src.spec_cell(c, offset + j)
                },
                Err(e) => {
                    &&& final(reg)@ == old(reg)@
                    &&& (e.code == ErrorCode::InvalidHandle ==> !old(reg)@.contains_key(
                        self.handle,
                    ))
                },
            },
    {
        let sliced = match reg.get(self.handle) {
            Some(t) => t.slice(offset, length),
            None => {
                return Err(CoreError::invalid_handle(
                    String::from_str("Table has been disposed or is invalid"),
                ));
            },
        };
        match sliced {
            Ok(data) => {
                if !reg.can_issue() {
                    return Err(CoreError::memory(
                        String::from_str("Handle space exhausted"),
                    ));
                }
                let h = reg.insert(data);
                Ok(Table { handle: h })
            },
            Err(e) => Err(e),
        }
    }

    /// Column projection registered as a brand-new handle.
    pub fn select(&self, reg: &mut TableRegistry, names: &Vec<String>) -> (out: CoreResult<Table>)
        requires
            spec_registry_wf(*old(reg)),
        ensures
            spec_registry_wf(*final(reg)),
            forall|h: crate::handles::HandleId|
                old(reg)@.contains_key(h) ==> final(reg)@.contains_key(h)
                    && #[trigger] final(reg)@[h] == old(reg)@[h],
            (old(reg)@.contains_key(self.handle) && names@.len() > 0 && (forall|k: int|
                0 <= k < names@.len() ==> spec_index_of_name(
                    old(reg)@[self.handle].schema.fields@,
                    #[trigger] names@[k]@,
                ) is Some) && old(reg).next_handle() < crate::handles::HandleId::MAX) ==> out is Ok,
            match out {
                Ok(t2) => {
                    let src = old(reg)@[self.handle];
                    let dst = final(reg)@[t2.handle];
                    &&& old(reg)@.contains_key(self.handle)
                    &&& !old(reg)@.contains_key(t2.handle)
                    &&& final(reg)@.contains_key(t2.handle)
                    &&& final(reg)@ == old(reg)@.insert(t2.handle, final(reg)@[t2.handle])
                    &&& names@.len() > 0
                    &&& dst.spec_row_count() == src.spec_row_count()
                    &&& dst.spec_col_count() == names@.len()
                    &&& forall|k: int|
                        0 <= k < names@.len() ==> spec_index_of_name(
                            src.schema.fields@,
                            #[trigger] names@[k]@,
                        ) is Some
                    &&& forall|k: int|
                        0 <= k < names@.len() ==> (#[trigger] dst.schema.fields@[k]).model()
                            == src.schema.fields@[spec_sel(src.schema.fields@, names@[k]@)].model()
                    &&& forall|k: int, r: int|
                        0 <= k < names@.len() && 0 <= r ==> #[trigger] dst.spec_cell(k, r)
                            == src.spec_cell(spec_sel(src.schema.fields@, names@[k]@), r)
                },
                Err(e) => {
                    &&& final(reg)@ == old(reg)@
                    &&& (e.code == ErrorCode::InvalidHandle ==> !old(reg)@.contains_key(
                        self.handle,
                    ))
                },
            },
    {
        let selected = match reg.get(self.handle) {
            Some(t) => t.select(names),
            None => {
                return Err(CoreError::invalid_handle(
                    String::from_str("Table has been disposed or is invalid"),
                ));
            },
        };
        match selected {
            Ok(data) => {
                if !reg.can_issue() {
                    return Err(CoreError::memory(
                        String::from_str("Handle space exhausted"),
                    ));
                }
                let h = reg.insert(data);
                Ok(Table { handle: h })
            },
            Err(e) => Err(e),
        }
    }

    /// Row filtering by a materialized predicate mask, registered as a
    /// brand-new handle; the mask is computed by the host outside the
    /// registry lock (see the concurrency note on [`TableData::filter_rows`]).
    pub fn filter(&self, reg: &mut TableRegistry, keep: &Vec<bool>) -> (out: CoreResult<Table>)
        requires
            spec_registry_wf(*old(reg)),
        ensures
            spec_registry_wf(*final(reg)),
            forall|h: crate::handles::HandleId|
                old(reg)@.contains_key(h) ==> final(reg)@.contains_key(h)
                    && #[trigger] final(reg)@[h] == old(reg)@[h],
            (old(reg)@.contains_key(self.handle) && keep@.len() == old(
                reg,
            )@[self.handle].spec_row_count() && (forall|c: int|
                0 <= c < old(reg)@[self.handle].spec_col_count() ==> spec_supported_tag(
                    #[trigger] old(reg)@[self.handle].spec_field_tag(c),
                )) && old(reg).next_handle() < crate::handles::HandleId::MAX) ==> out is Ok,
            match out {
                Ok(t2) => {
                    let src = old(reg)@[self.handle];
                    let dst = final(reg)@[t2.handle];
                    &&& old(reg)@.contains_key(self.handle)
                    &&& !old(reg)@.contains_key(t2.handle)
                    &&& final(reg)@.contains_key(t2.handle)
                    &&& final(reg)@ == old(reg)@.insert(t2.handle, final(reg)@[t2.handle])
                    &&& keep@.len() == src.spec_row_count()
                    &&& dst.schema.models() == src.schema.models()
                    &&& dst.spec_col_count() == src.spec_col_count()
                    &&& (src.spec_col_count() > 0 ==> dst.spec_row_count() == spec_count_true(
                        keep@,
                        keep@.len() as int,
                    ))
                    &&& forall|c: int|
                        0 <= c < src.spec_col_count() ==> #[trigger] spec_col_seq(dst, c)
                            == spec_masked(spec_col_seq(src, c), keep@, keep@.len() as int)
                },
                Err(e) => {
                    &&& final(reg)@ == old(reg)@
                    &&& (e.code == ErrorCode::InvalidHandle ==> !old(reg)@.contains_key(
                        self.handle,
                    ))
                },
            },
    {
        let filtered = match reg.get(self.handle) {
            Some(t) => t.filter_rows(keep),
            None => {
                return Err(CoreError::invalid_handle(
                    String::from_str("Table has been disposed or is invalid"),
                ));
            },
        };
        match filtered {
            Ok(data) => {
                if !reg.can_issue() {
                    return Err(CoreError::memory(
                        String::from_str("Handle space exhausted"),
                    ));
                }
                let h = reg.insert(data);
                Ok(Table { handle: h })
            },
            Err(e) => Err(e),
        }
    }

    /// The whole table as rows of slots, in row-major order, nulls as
    /// `None`; a stale handle reads as `None`.
    pub fn to_array(&self, reg: &TableRegistry) -> (out: Option<Vec<Vec<Option<CellValue>>>>)
        requires
            spec_registry_wf(*reg),
        ensures
            match out {
                Some(rows) => reg@.contains_key(self.handle) && ({
                    let t = reg@[self.handle];
                    &&& rows@.len() == t.spec_row_count()
                    &&& forall|r: int|
                        0 <= r < rows@.len() ==> (#[trigger] rows@[r])@.len()
                            == t.spec_col_count()
                    &&& forall|r: int, c: int|
                        0 <= r < rows@.len() && 0 <= c < t.spec_col_count() ==> (match
                        #[trigger] rows@[r]@[c] {
                            Some(v) => t.spec_cell(c, r) == Some(v@),
                            None => t.spec_cell(c, r) is None,
                        })
                }),
                None => !reg@.contains_key(self.handle),
            },
    {
        let t = match reg.get(self.handle) {
            Some(t) => t,
            None => {
                return None;
            },
        };
        let nrows = t.row_count();
        let ncols = t.column_count();
        let mut rows: Vec<Vec<Option<CellValue>>> = Vec::new();
        let mut r: usize = 0;
        while r < nrows
            invariant
                t.wf(),
                r <= nrows == t.spec_row_count(),
                ncols == t.spec_col_count(),
                rows@.len() == r,
                forall|j: int| 0 <= j < r ==> (#[trigger] rows@[j])@.len() == ncols,
                forall|j: int, c: int|
                    0 <= j < r && 0 <= c < ncols ==> (match #[trigger] rows@[j]@[c] {
                        Some(v) => t.spec_cell(c, j) == Some(v@),
                        None => t.spec_cell(c, j) is None,
                    }),
            decreases nrows - r,
        {
            let mut row: Vec<Option<CellValue>> = Vec::new();
            let mut c: usize = 0;
            while c < ncols
                invariant
                    t.wf(),
                    r < t.spec_row_count(),
                    c <= ncols == t.spec_col_count(),
                    row@.len() == c,
                    forall|k: int|
                        0 <= k < c ==> (match #[trigger] row@[k] {
                            Some(v) => t.spec_cell(k, r as int) == Some(v@),
                            None => t.spec_cell(k, r as int) is None,
                        }),
                decreases ncols - c,
            {
                row.push(t.cell_value(c, r));
                c = c + 1;
            }
            rows.push(row);
            r = r + 1;
        }
        Some(rows)
    }

    /// Free the referenced table; the handle never resolves again.
    pub fn dispose(&self, reg: &mut TableRegistry)
        requires
            spec_registry_wf(*old(reg)),
        ensures
            spec_registry_wf(*final(reg)),
            final(reg)@ == old(reg)@.remove(self.handle),
            final(reg).next_handle() == old(reg).next_handle(),
    {
        let _ = reg.remove(self.handle);
    }
}

/// Handle-carrying column view: a (table handle, column index) pair
/// resolved against the registry on each use.
#[derive(Debug, Clone, Copy, PartialEq, Eq, Structural)]
pub struct Column {
    pub table_handle: crate::handles::HandleId,
    pub column_index: usize,
}

impl Column {
    pub fn from_table_column(table_handle: crate::handles::HandleId, column_index: usize) -> (r:
        Column)
        ensures
            r.table_handle == table_handle,
            r.column_index == column_index,
    {
        Column { table_handle, column_index }
    }

    /// Whether this view currently resolves to a column.
    pub fn resolves(&self, reg: &TableRegistry) -> (r: bool)
        requires
            spec_registry_wf(*reg),
        ensures
            r == (reg@.contains_key(self.table_handle) && self.column_index
                < reg@[self.table_handle].spec_col_count()),
    {
        match reg.get(self.table_handle) {
            Some(t) => self.column_index < t.column_count(),
            None => false,
        }
    }

    /// The column's field name; a stale view reads as `unknown`.
    pub fn name(&self, reg: &TableRegistry) -> (r: String)
        requires
            spec_registry_wf(*reg),
        ensures
            (reg@.contains_key(self.table_handle) && self.column_index
                < reg@[self.table_handle].spec_col_count()) ==> r@
                == reg@[self.table_handle].schema.fields@[self.column_index as int].name@,
            !(reg@.contains_key(self.table_handle) && self.column_index
                < reg@[self.table_handle].spec_col_count()) ==> r@ == "unknown"@,
    {
        match reg.get(self.table_handle) {
            Some(t) => {
                if self.column_index < t.column_count() {
                    t.schema.fields[self.column_index].name.clone()
                } else {
                    String::from_str("unknown")
                }
            },
            None => String::from_str("unknown"),
        }
    }

    /// The column's logical type; a stale view reads as the null type.
    pub fn data_type(&self, reg: &TableRegistry) -> (r: crate::model::DataType)
        requires
            spec_registry_wf(*reg),
        ensures
            (reg@.contains_key(self.table_handle) && self.column_index
                < reg@[self.table_handle].spec_col_count()) ==> r
                == reg@[self.table_handle].schema.fields@[self.column_index as int].data_type,
            !(reg@.contains_key(self.table_handle) && self.column_index
                < reg@[self.table_handle].spec_col_count()) ==> r.spec_type_id()
                == crate::model::TYPE_NULL,
    {
        match reg.get(self.table_handle) {
            Some(t) => {
                if self.column_index < t.column_count() {
                    t.schema.fields[self.column_index].data_type
                } else {
                    crate::model::DataType::new_null()
                }
            },
            None => crate::model::DataType::new_null(),
        }
    }

    /// How many of the column's cells are explicitly null; a stale view
    /// reads as 0.
    pub fn null_count(&self, reg: &TableRegistry) -> (r: usize)
        requires
            spec_registry_wf(*reg),
        ensures
            (reg@.contains_key(self.table_handle) && self.column_index
                < reg@[self.table_handle].spec_col_count()) ==> ({
                let cells = spec_col_seq(reg@[self.table_handle], self.column_index as int);
                r == crate::model::spec_null_count(cells, cells.len() as int)
            }),
            !(reg@.contains_key(self.table_handle) && self.column_index
                < reg@[self.table_handle].spec_col_count()) ==> r == 0,
    {
        self.statistics(reg).null_count()
    }

    /// The column's length; a stale view reads as 0.
    pub fn length(&self, reg: &TableRegistry) -> (r: usize)
        requires
            spec_registry_wf(*reg),
        ensures
            (reg@.contains_key(self.table_handle) && self.column_index
                < reg@[self.table_handle].spec_col_count()) ==> r == reg@[self.table_handle].spec_row_count(),
            !(reg@.contains_key(self.table_handle) && self.column_index
                < reg@[self.table_handle].spec_col_count()) ==> r == 0,
    {
        match reg.get(self.table_handle) {
            Some(t) => {
                if self.column_index < t.column_count() {
                    t.row_count()
                } else {
                    0
                }
            },
            None => 0,
        }
    }

    /// Read one cell with the three-way outcome: an index at or past the
    /// length (or a stale view) is `Undefined`, a cell explicitly marked
    /// null is `Null`, and a valid cell is its typed value; the three are
    /// mutually exclusive.
    pub fn get(&self, reg: &TableRegistry, index: usize) -> (out: CellRead)
        requires
            spec_registry_wf(*reg),
        ensures
            !(reg@.contains_key(self.table_handle) && self.column_index
                < reg@[self.table_handle].spec_col_count()) ==> out is Undefined,
            (reg@.contains_key(self.table_handle) && self.column_index
                < reg@[self.table_handle].spec_col_count()) ==> {
                let t = reg@[self.table_handle];
                &&& (out is Undefined <==> index >= t.spec_row_count())
                &&& (out is Null <==> index < t.spec_row_count() && t.spec_cell(
                    self.column_index as int,
                    index as int,
                ) is None)
                &&& match out {
                    CellRead::Value(v) => t.spec_cell(self.column_index as int, index as int)
                        == Some(v@),
                    _ => true,
                }
            },
    {
        match reg.get(self.table_handle) {
            Some(t) => {
                if self.column_index >= t.column_count() {
                    CellRead::Undefined
                } else {
                    t.cell_read(self.column_index, index)
                }
            },
            None => CellRead::Undefined,
        }
    }

    /// Alias for [`Column::get`].
    pub fn get_value(&self, reg: &TableRegistry, index: usize) -> (out: CellRead)
        requires
            spec_registry_wf(*reg),
        ensures
            (reg@.contains_key(self.table_handle) && self.column_index
                < reg@[self.table_handle].spec_col_count() && index
                < reg@[self.table_handle].spec_row_count()) ==> !(out is Undefined),
    {
        self.get(reg, index)
    }

    /// Whether the cell at `index` is explicitly null; out-of-range and
    /// stale views read as not-null, matching the `Undefined`/`Null`
    /// distinction.
    pub fn is_null(&self, reg: &TableRegistry, index: usize) -> (r: bool)
        requires
            spec_registry_wf(*reg),
        ensures
            r == (reg@.contains_key(self.table_handle) && self.column_index
                < reg@[self.table_handle].spec_col_count() && index
                < reg@[self.table_handle].spec_row_count() && reg@[self.table_handle].spec_cell(
                self.column_index as int,
                index as int,
            ) is None),
    {
        match self.get(reg, index) {
            CellRead::Null => true,
            _ => false,
        }
    }

    /// Whether the cell at `index` is a valid (non-null) value.
    pub fn is_valid(&self, reg: &TableRegistry, index: usize) -> (r: bool)
        requires
            spec_registry_wf(*reg),
        ensures
            r == !(reg@.contains_key(self.table_handle) && self.column_index
                < reg@[self.table_handle].spec_col_count() && index
                < reg@[self.table_handle].spec_row_count() && reg@[self.table_handle].spec_cell(
                self.column_index as int,
                index as int,
            ) is None),
    {
        !self.is_null(reg, index)
    }

    /// Every cell of the column in row order, nulls as `None`; a stale
    /// view reads as the empty vector.
    pub fn to_array(&self, reg: &TableRegistry) -> (out: Vec<Option<CellValue>>)
        requires
            spec_registry_wf(*reg),
        ensures
            (reg@.contains_key(self.table_handle) && self.column_index
                < reg@[self.table_handle].spec_col_count()) ==> {
                let t = reg@[self.table_handle];
                &&& out@.len() == t.spec_row_count()
                &&& forall|r: int|
                    0 <= r < out@.len() ==> (match #[trigger] out@[r] {
                        Some(v) => t.spec_cell(self.column_index as int, r) == Some(v@),
                        None => t.spec_cell(self.column_index as int, r) is None,
                    })
            },
            !(reg@.contains_key(self.table_handle) && self.column_index
                < reg@[self.table_handle].spec_col_count()) ==> out@.len() == 0,
    {
        let mut out: Vec<Option<CellValue>> = Vec::new();
        let t = match reg.get(self.table_handle) {
            Some(t) => t,
            None => {
                return out;
            },
        };
        if self.column_index >= t.column_count() {
            return out;
        }
        let rows = t.row_count();
        let mut r: usize = 0;
        while r < rows
            invariant
                t.wf(),
                self.column_index < t.spec_col_count(),
                r <= rows == t.spec_row_count(),
                out@.len() == r,
                forall|j: int|
                    0 <= j < r ==> (match #[trigger] out@[j] {
                        Some(v) => t.spec_cell(self.column_index as int, j) == Some(v@),
                        None => t.spec_cell(self.column_index as int, j) is None,
                    }),
            decreases rows - r,
        {
            out.push(t.cell_value(self.column_index, r));
            r = r + 1;
        }
        out
    }
}

/// What a clamped column slice must deliver: a well-formed single-column
/// table holding exactly the clamped range `[offset, offset + take)` of
/// column `c` of the source, where `take` trims the requested length to
/// what is available (zero when the offset is at or past the end).
pub open spec fn spec_sliced_column_table(
    dst: TableData,
    src: TableData,
    c: int,
    offset: int,
    length: int,
) -> bool {
    let take = if offset >= src.spec_row_count() {
        0int
    } else if length < src.spec_row_count() - offset {
        length
    } else {
        src.spec_row_count() - offset
    };
    &&& dst.wf()
    &&& dst.spec_col_count() == 1
    &&& dst.spec_row_count() == take
    &&& forall|j: int|
        0 <= j < take ==> #[trigger] dst.spec_cell(0, j) == src.spec_cell(c, offset + j)
}

impl Column {
    /// A clamped sub-range of the column, registered as a brand-new
    /// single-column table: an offset at or past the length yields an
    /// empty column of the same type, and the length is trimmed to what
    /// is available.  A view that does not resolve, a column type this
    /// build cannot hold cells of, or an exhausted handle space yield the
    /// original view unchanged.
    pub fn slice(&self, reg: &mut TableRegistry, offset: usize, length: usize) -> (out: Column)
        requires
            spec_registry_wf(*old(reg)),
        ensures
            spec_registry_wf(*final(reg)),
            forall|h: crate::handles::HandleId|
                old(reg)@.contains_key(h) ==> final(reg)@.contains_key(h)
                    && #[trigger] final(reg)@[h] == old(reg)@[h],
            ({
                let resolved = old(reg)@.contains_key(self.table_handle) && self.column_index
                    < old(reg)@[self.table_handle].spec_col_count();
                let src = old(reg)@[self.table_handle];
                let c = self.column_index as int;
                &&& (!resolved ==> out == *self && final(reg)@ == old(reg)@)
                &&& ((resolved && (!spec_supported_tag(src.spec_field_tag(c))
                    || old(reg).next_handle() == crate::handles::HandleId::MAX))
                    ==> out == *self && final(reg)@ == old(reg)@)
                &&& ((resolved && spec_supported_tag(src.spec_field_tag(c))
                    && old(reg).next_handle() < crate::handles::HandleId::MAX)
                    ==> (final(reg)@.contains_key(out.table_handle)
                    && !old(reg)@.contains_key(out.table_handle)
                    && final(reg)@ == old(reg)@.insert(out.table_handle, final(reg)@[out.table_handle])
                    && out.column_index == 0 && spec_sliced_column_table(
                    final(reg)@[out.table_handle],
                    src,
                    c,
                    offset as int,
                    length as int,
                )))
            }),
    {
        let t = match reg.get(self.table_handle) {
            Some(t) => t,
            None => {
                return *self;
            },
        };
        if self.column_index >= t.column_count() {
            return *self;
        }
        let rows = t.row_count();
        let ftag = t.schema.fields[self.column_index].data_type.type_id();
        let mut piece = match ColumnData::new_empty(ftag) {
            Some(p) => p,
            None => {
                return *self;
            },
        };
        if !reg.can_issue() {
            return *self;
        }
        let start: usize = if offset >= rows {
            0
        } else {
            offset
        };
        let take: usize = if offset >= rows {
            0
        } else if length < rows - offset {
            length
        } else {
            rows - offset
        };
        let mut j: usize = 0;
        while j < take
            invariant
                t.wf(),
                self.column_index < t.spec_col_count(),
                start + take <= t.spec_row_count(),
                j <= take,
                piece.spec_tag() == t.spec_field_tag(self.column_index as int),
                piece.spec_len() == j,
                forall|k: int|
                    0 <= k < j ==> piece.spec_cells()[k] == t.spec_cell(
                        self.column_index as int,
                        start + k,
                    ),
            decreases take - j,
        {
            let cell = t.cell_value(self.column_index, start + j);
            piece.push_cell(cell);
            j = j + 1;
        }
        let field = t.schema.fields[self.column_index].duplicate();
        let ghost src = *t;
        let mut fields: Vec<FieldDef> = Vec::new();
        fields.push(field);
        let schema = SchemaData::new(fields);
        let mut columns: Vec<ColumnData> = Vec::new();
        columns.push(piece);
        let batch = BatchData { columns };
        let mut batches: Vec<BatchData> = Vec::new();
        batches.push(batch);
        let dst = TableData { schema, batches, metadata: Vec::new() };
        proof {
            assert(dst.spec_row_count() == dst.batches@[0].spec_rows()) by {
                assert(rows_upto(dst.batches@, 1) == rows_upto(dst.batches@, 0)
                    + dst.batches@[0].spec_rows());
            }
            assert forall|k: int| 0 <= k < take implies #[trigger] dst.spec_cell(0, k)
                == src.spec_cell(self.column_index as int, start + k) by {
                assert(dst.spec_cell(0, k) == dst.batches@[0].spec_cell(0, k));
            }
        }
        let h = reg.insert(dst);
        Column { table_handle: h, column_index: 0 }
    }
}

/// Lexicographic order on character sequences (code point by code
/// point), matching the byte order of their UTF-8 encodings.
pub open spec fn spec_lex_le(a: Seq<char>, b: Seq<char>) -> bool
    decreases a.len(),
{
    if a.len() == 0 {
        true
    } else if b.len() == 0 {
        false
    } else if (a[0] as u32) != (b[0] as u32) {
        (a[0] as u32) < (b[0] as u32)
    } else {
        spec_lex_le(a.drop_first(), b.drop_first())
    }
}

/// Lexicographic order is transitive.
pub proof fn lemma_lex_trans(a: Seq<char>, b: Seq<char>, c: Seq<char>)
    requires
        spec_lex_le(a, b),
        spec_lex_le(b, c),
    ensures
        spec_lex_le(a, c),
    decreases a.len(),
{
    if a.len() == 0 {
    } else {
        assert(b.len() > 0);
        assert(c.len() > 0);
        if (a[0] as u32) == (b[0] as u32) && (b[0] as u32) == (c[0] as u32) {
            lemma_lex_trans(a.drop_first(), b.drop_first(), c.drop_first());
        }
    }
}

/// Lexicographic order is total.
pub proof fn lemma_lex_total(a: Seq<char>, b: Seq<char>)
    ensures
        spec_lex_le(a, b) || spec_lex_le(b, a),
    decreases a.len(),
{
    if a.len() == 0 {
    } else if b.len() == 0 {
    } else if (a[0] as u32) == (b[0] as u32) {
        lemma_lex_total(a.drop_first(), b.drop_first());
    }
}

/// Whether `a` is at most `b` under the natural order of the cells'
/// common logical type: numeric order for integers, false before true
/// for booleans, lexicographic order for text.  Only cells of one type
/// are ever compared, since a column holds one type.
pub open spec fn spec_cell_le(a: CellModel, b: CellModel) -> bool {
    match (a, b) {
        (CellModel::Bool(x), CellModel::Bool(y)) => !x || y,
        (CellModel::Int32(x), CellModel::Int32(y)) => x <= y,
        (CellModel::Int64(x), CellModel::Int64(y)) => x <= y,
        (CellModel::Utf8(x), CellModel::Utf8(y)) => spec_lex_le(x, y),
        _ => true,
    }
}

/// The cell order is transitive among cells of one type.
pub proof fn lemma_cell_le_trans(a: CellModel, b: CellModel, c: CellModel)
    requires
        spec_model_tag(a) == spec_model_tag(b),
        spec_model_tag(b) == spec_model_tag(c),
        spec_cell_le(a, b),
        spec_cell_le(b, c),
    ensures
        spec_cell_le(a, c),
{
    match (a, b, c) {
        (CellModel::Utf8(x), CellModel::Utf8(y), CellModel::Utf8(z)) => {
            lemma_lex_trans(x, y, z);
        },
        _ => {},
    }
}

/// The cell order is total among cells of one type.
pub proof fn lemma_cell_le_total(a: CellModel, b: CellModel)
    requires
        spec_model_tag(a) == spec_model_tag(b),
    ensures
        spec_cell_le(a, b) || spec_cell_le(b, a),
{
    match (a, b) {
        (CellModel::Utf8(x), CellModel::Utf8(y)) => {
            lemma_lex_total(x, y);
        },
        _ => {},
    }
}

/// Character-by-character lexicographic comparison.
fn str_le(a: &str, b: &str) -> (r: bool)
    ensures
        r == spec_lex_le(a@, b@),
{
    let na = a.unicode_len();
    let nb = b.unicode_len();
    proof {
        assert(a@.skip(0) =~= a@);
        assert(b@.skip(0) =~= b@);
    }
    let mut i: usize = 0;
    loop
        invariant
            i <= na == a@.len(),
            i <= nb == b@.len(),
            spec_lex_le(a@, b@) == spec_lex_le(a@.skip(i as int), b@.skip(i as int)),
        decreases na - i,
    {
        if i >= na {
            proof {
                assert(a@.skip(i as int).len() == 0);
            }
            return true;
        }
        if i >= nb {
            proof {
                assert(b@.skip(i as int).len() == 0);
                assert(a@.skip(i as int).len() > 0);
            }
            return false;
        }
        let ca = a.get_char(i);
        let cb = b.get_char(i);
        proof {
            assert(a@.skip(i as int)[0] == a@[i as int]);
            assert(b@.skip(i as int)[0] == b@[i as int]);
        }
        if (ca as u32) != (cb as u32) {
            return (ca as u32) < (cb as u32);
        }
        proof {
            assert(a@.skip(i as int).drop_first() =~= a@.skip(i as int + 1));
            assert(b@.skip(i as int).drop_first() =~= b@.skip(i as int + 1));
        }
        i = i + 1;
    }
}

/// Compare two cells of one logical type under the natural order.
fn cell_le_exec(a: &CellValue, b: &CellValue) -> (r: bool)
    requires
        a.spec_tag() == b.spec_tag(),
    ensures
        r == spec_cell_le(a@, b@),
{
    match (a, b) {
        (CellValue::Bool(x), CellValue::Bool(y)) => !*x || *y,
        (CellValue::Int32(x), CellValue::Int32(y)) => *x <= *y,
        (CellValue::Int64(x), CellValue::Int64(y)) => *x <= *y,
        (CellValue::Utf8(x), CellValue::Utf8(y)) => str_le(x.as_str(), y.as_str()),
        _ => {
            proof {
                assert(false);
            }
            true
        },
    }
}

/// The display rendering of a cell: decimal for integers, `true`/`false`
/// for booleans, the text itself for text.
pub open spec fn spec_render(m: CellModel) -> Seq<char> {
    match m {
        CellModel::Bool(b) => if b {
            "true"@
        } else {
            "false"@
        },
        CellModel::Int32(x) => crate::text::spec_decimal_int(x as int),
        CellModel::Int64(x) => crate::text::spec_decimal_int(x as int),
        CellModel::Utf8(s) => s,
    }
}

fn render_cell(m: &CellValue) -> (r: String)
    ensures
        r@ == spec_render(m@),
{
    match m {
        CellValue::Bool(b) => {
            if *b {
                String::from_str("true")
            } else {
                String::from_str("false")
            }
        },
        CellValue::Int32(x) => crate::text::fmt_i64(*x as i64),
        CellValue::Int64(x) => crate::text::fmt_i64(*x),
        CellValue::Utf8(s) => s.clone(),
    }
}

/// Column statistics: the null count, and the rendered extremes of the
/// non-null cells.
#[derive(Debug, Clone)]
pub struct ColumnStatistics {
    null_count: usize,
    min_value: Option<String>,
    max_value: Option<String>,
    distinct_count: Option<usize>,
}

impl ColumnStatistics {
    pub closed spec fn spec_null_count(&self) -> int {
        self.null_count as int
    }

    pub closed spec fn spec_min(&self) -> Option<Seq<char>> {
        match self.min_value {
            Some(s) => Some(s@),
            None => None,
        }
    }

    pub closed spec fn spec_max(&self) -> Option<Seq<char>> {
        match self.max_value {
            Some(s) => Some(s@),
            None => None,
        }
    }

    pub fn null_count(&self) -> (r: usize)
        ensures
            r == self.spec_null_count(),
    {
        self.null_count
    }

    pub fn min(&self) -> (r: Option<String>)
        ensures
            r is Some <==> self.spec_min() is Some,
            r matches Some(s) ==> self.spec_min() == Some(s@),
    {
        match &self.min_value {
            Some(s) => Some(s.clone()),
            None => None,
        }
    }

    pub fn max(&self) -> (r: Option<String>)
        ensures
            r is Some <==> self.spec_max() is Some,
            r matches Some(s) ==> self.spec_max() == Some(s@),
    {
        match &self.max_value {
            Some(s) => Some(s.clone()),
            None => None,
        }
    }

    pub closed spec fn spec_distinct(&self) -> Option<usize> {
        self.distinct_count
    }

    /// Distinct counts are not computed by this build.
    pub fn distinct_count(&self) -> (r: Option<usize>)
        ensures
            r == self.spec_distinct(),
    {
        self.distinct_count
    }
}

impl Column {
    /// Statistics over the column's cells: the exact null count, and the
    /// smallest and largest non-null cell under the type's natural order,
    /// rendered as text.  The extremes exist exactly when a non-null cell
    /// exists; a stale view reads as an empty column.  Distinct counts
    /// are not computed.
    pub fn statistics(&self, reg: &TableRegistry) -> (r: ColumnStatistics)
        requires
            spec_registry_wf(*reg),
        ensures
            (reg@.contains_key(self.table_handle) && self.column_index
                < reg@[self.table_handle].spec_col_count()) ==> ({
                let t = reg@[self.table_handle];
                let cells = spec_col_seq(t, self.column_index as int);
                &&& r.spec_null_count() == crate::model::spec_null_count(
                    cells,
                    cells.len() as int,
                )
                &&& (r.spec_min() is Some <==> exists|j: int|
                    0 <= j < cells.len() && (#[trigger] cells[j]) is Some)
                &&& (r.spec_max() is Some <==> exists|j: int|
                    0 <= j < cells.len() && (#[trigger] cells[j]) is Some)
                &&& (r.spec_min() matches Some(s) ==> exists|j: int|
                    0 <= j < cells.len() && ((#[trigger] cells[j]) matches Some(m) && (s
                        == spec_render(m) && (forall|k: int|
                        0 <= k < cells.len() ==> ((#[trigger] cells[k]) matches Some(v)
                            ==> spec_cell_le(m, v))))))
                &&& (r.spec_max() matches Some(s) ==> exists|j: int|
                    0 <= j < cells.len() && ((#[trigger] cells[j]) matches Some(m) && (s
                        == spec_render(m) && (forall|k: int|
                        0 <= k < cells.len() ==> ((#[trigger] cells[k]) matches Some(v)
                            ==> spec_cell_le(v, m))))))
            }),
            !(reg@.contains_key(self.table_handle) && self.column_index
                < reg@[self.table_handle].spec_col_count()) ==> r.spec_null_count() == 0
                && r.spec_min() is None && r.spec_max() is None,
            r.spec_distinct() is None,
    {
        let empty = ColumnStatistics {
            null_count: 0,
            min_value: None,
            max_value: None,
            distinct_count: None,
        };
        let t = match reg.get(self.table_handle) {
            Some(t) => t,
            None => {
                return empty;
            },
        };
        if self.column_index >= t.column_count() {
            return empty;
        }
        let rows = t.row_count();
        let c = self.column_index;
        let ghost cells = spec_col_seq(*t, c as int);
        let mut nulls: usize = 0;
        let mut cur_min: Option<CellValue> = None;
        let mut cur_max: Option<CellValue> = None;
        let mut i: usize = 0;
        while i < rows
            invariant
                spec_registry_wf(*reg),
                t.wf(),
                c < t.spec_col_count(),
                i <= rows == t.spec_row_count(),
                cells == spec_col_seq(*t, c as int),
                nulls == crate::model::spec_null_count(cells, i as int),
                nulls <= i,
                (cur_min is Some <==> exists|j: int| 0 <= j < i && (#[trigger] cells[j]) is Some),
                (cur_min is Some <==> cur_max is Some),
                cur_min matches Some(m) ==> m.spec_tag() == t.spec_field_tag(c as int) && (
                exists|j: int| 0 <= j < i && #[trigger] cells[j] == Some(m@)) && (forall|k: int|
                    0 <= k < i ==> ((#[trigger] cells[k]) matches Some(v) ==> spec_cell_le(
                        m@,
                        v,
                    ))),
                cur_max matches Some(m) ==> m.spec_tag() == t.spec_field_tag(c as int) && (
                exists|j: int| 0 <= j < i && #[trigger] cells[j] == Some(m@)) && (forall|k: int|
                    0 <= k < i ==> ((#[trigger] cells[k]) matches Some(v) ==> spec_cell_le(
                        v,
                        m@,
                    ))),
            decreases rows - i,
        {
            proof {
                assert(cells[i as int] == t.spec_cell(c as int, i as int));
            }
            match t.cell_value(c, i) {
                None => {
                    nulls = nulls + 1;
                },
                Some(v) => {
                    let ghost vm = v@;
                    proof {
                        crate::model::lemma_value_model_tag(v);
                        lemma_cell_le_total(vm, vm);
                    }
                    let new_min = match &cur_min {
                        None => v.duplicate(),
                        Some(m) => {
                            proof {
                                crate::model::lemma_value_model_tag(*m);
                            }
                            if cell_le_exec(&v, m) {
                                proof {
                                    let ghost mm = m@;
                                    assert forall|k: int|
                                        0 <= k < i + 1 implies ((#[trigger] cells[k]) matches Some(
                                        w,
                                    ) ==> spec_cell_le(vm, w)) by {
                                        if k < i {
                                            match cells[k] {
                                                Some(w) => {
                                                    assert(cells[k] == t.spec_cell(c as int, k));
                                                    t.lemma_cell_tag(c as int, k);
                                                    assert(spec_cell_le(mm, w));
                                                    lemma_cell_le_trans(vm, mm, w);
                                                },
                                                None => {},
                                            }
                                        }
                                    }
                                }
                                v.duplicate()
                            } else {
                                proof {
                                    lemma_cell_le_total(m@, v@);
                                }
                                m.duplicate()
                            }
                        },
                    };
                    let new_max = match &cur_max {
                        None => v.duplicate(),
                        Some(m) => {
                            proof {
                                crate::model::lemma_value_model_tag(*m);
                            }
                            if cell_le_exec(m, &v) {
                                proof {
                                    let ghost mm = m@;
                                    assert forall|k: int|
                                        0 <= k < i + 1 implies ((#[trigger] cells[k]) matches Some(
                                        w,
                                    ) ==> spec_cell_le(w, vm)) by {
                                        if k < i {
                                            match cells[k] {
                                                Some(w) => {
                                                    assert(cells[k] == t.spec_cell(c as int, k));
                                                    t.lemma_cell_tag(c as int, k);
                                                    assert(spec_cell_le(w, mm));
                                                    lemma_cell_le_trans(w, mm, vm);
                                                },
                                                None => {},
                                            }
                                        }
                                    }
                                }
                                v.duplicate()
                            } else {
                                proof {
                                    lemma_cell_le_total(m@, v@);
                                }
                                m.duplicate()
                            }
                        },
                    };
                    cur_min = Some(new_min);
                    cur_max = Some(new_max);
                },
            }
            i = i + 1;
        }
        let min_value = match &cur_min {
            Some(m) => Some(render_cell(m)),
            None => None,
        };
        let max_value = match &cur_max {
            Some(m) => Some(render_cell(m)),
            None => None,
        };
        ColumnStatistics { null_count: nulls, min_value, max_value, distinct_count: None }
    }
}

/// Handle-carrying row view: a (table handle, row index) pair resolved
/// against the registry on each use.
#[derive(Debug, Clone, Copy, PartialEq, Eq, Structural)]
pub struct Row {
    pub table_handle: crate::handles::HandleId,
    pub row_index: usize,
}

impl Row {
    /// Read the cell under the first column carrying `column`; an unknown
    /// name or stale view reads as `Null`, matching the host's loose
    /// by-name access.
    pub fn get(&self, reg: &TableRegistry, column: &str) -> (out: CellRead)
        requires
            spec_registry_wf(*reg),
        ensures
            (reg@.contains_key(self.table_handle) && spec_index_of_name(
                reg@[self.table_handle].schema.fields@,
                column@,
            ) is Some) ==> {
                let t = reg@[self.table_handle];
                let c = spec_sel(t.schema.fields@, column@);
                &&& (out is Undefined <==> self.row_index >= t.spec_row_count())
                &&& (out is Null <==> self.row_index < t.spec_row_count() && t.spec_cell(
                    c,
                    self.row_index as int,
                ) is None)
                &&& match out {
                    CellRead::Value(v) => t.spec_cell(c, self.row_index as int) == Some(v@),
                    _ => true,
                }
            },
            !(reg@.contains_key(self.table_handle) && spec_index_of_name(
                reg@[self.table_handle].schema.fields@,
                column@,
            ) is Some) ==> out is Null,
    {
        let t = match reg.get(self.table_handle) {
            Some(t) => t,
            None => {
                return CellRead::Null;
            },
        };
        match t.schema.index_of(column) {
            Some(c) => t.cell_read(c, self.row_index),
            None => CellRead::Null,
        }
    }

    /// Read the cell at column position `index` with the three-way
    /// outcome of [`TableData::cell_read`].
    pub fn get_at(&self, reg: &TableRegistry, index: usize) -> (out: CellRead)
        requires
            spec_registry_wf(*reg),
        ensures
            reg@.contains_key(self.table_handle) ==> {
                let t = reg@[self.table_handle];
                &&& (out is Undefined <==> index >= t.spec_col_count() || self.row_index
                    >= t.spec_row_count())
                &&& (out is Null <==> index < t.spec_col_count() && self.row_index
                    < t.spec_row_count() && t.spec_cell(index as int, self.row_index as int) is None)
                &&& match out {
                    CellRead::Value(v) => t.spec_cell(index as int, self.row_index as int) == Some(
                        v@,
                    ),
                    _ => true,
                }
            },
            !reg@.contains_key(self.table_handle) ==> out is Undefined,
    {
        match reg.get(self.table_handle) {
            Some(t) => t.cell_read(index, self.row_index),
            None => CellRead::Undefined,
        }
    }

    /// The whole row as (column name, slot) pairs; `None` when the view
    /// or the row index does not resolve.
    pub fn to_object(&self, reg: &TableRegistry) -> (out: Option<Vec<(String, Option<CellValue>)>>)
        requires
            spec_registry_wf(*reg),
        ensures
            match out {
                Some(pairs) => reg@.contains_key(self.table_handle) && {
                    let t = reg@[self.table_handle];
                    &&& self.row_index < t.spec_row_count()
                    &&& pairs@.len() == t.spec_col_count()
                    &&& forall|c: int|
                        0 <= c < pairs@.len() ==> (#[trigger] pairs@[c]).0@
                            == t.schema.fields@[c].name@ && (match pairs@[c].1 {
                            Some(v) => t.spec_cell(c, self.row_index as int) == Some(v@),
                            None => t.spec_cell(c, self.row_index as int) is None,
                        })
                },
                None => !reg@.contains_key(self.table_handle) || self.row_index
                    >= reg@[self.table_handle].spec_row_count(),
            },
    {
        let t = match reg.get(self.table_handle) {
            Some(t) => t,
            None => {
                return None;
            },
        };
        if self.row_index >= t.row_count() {
            return None;
        }
        let ncols = t.column_count();
        let mut pairs: Vec<(String, Option<CellValue>)> = Vec::new();
        let mut c: usize = 0;
        while c < ncols
            invariant
                t.wf(),
                self.row_index < t.spec_row_count(),
                c <= ncols == t.spec_col_count(),
                pairs@.len() == c,
                forall|j: int|
                    0 <= j < c ==> (#[trigger] pairs@[j]).0@ == t.schema.fields@[j].name@ && (match
                    pairs@[j].1 {
                        Some(v) => t.spec_cell(j, self.row_index as int) == Some(v@),
                        None => t.spec_cell(j, self.row_index as int) is None,
                    }),
            decreases ncols - c,
        {
            let name = t.schema.fields[c].name.clone();
            let slot = t.cell_value(c, self.row_index);
            pairs.push((name, slot));
            c = c + 1;
        }
        Some(pairs)
    }
}

/// The index that a name selects: the first field carrying it.
pub open spec fn spec_sel(fields: Seq<FieldDef>, name: Seq<char>) -> int {
    match spec_index_of_name(fields, name) {
        Some(i) => i,
        None => 0,
    }
}

/// The available column names, comma-separated, for error messages.
fn join_field_names(fields: &Vec<FieldDef>) -> String {
    let n = fields.len();
    let mut s = String::new();
    let mut i: usize = 0;
    while i < n
        invariant
            i <= n == fields@.len(),
        decreases n - i,
    {
        if i > 0 {
            s.append(", ");
        }
        s.append(fields[i].name.as_str());
        i = i + 1;
    }
    s
}

/// Prefix row counts agree for batch lists whose batches have the same
/// row counts.
pub proof fn lemma_rows_upto_pointwise(xs: Seq<BatchData>, ys: Seq<BatchData>, k: int)
    requires
        k <= xs.len(),
        k <= ys.len(),
        forall|i: int| 0 <= i < k ==> (#[trigger] ys[i]).spec_rows() == xs[i].spec_rows(),
    ensures
        rows_upto(ys, k) == rows_upto(xs, k),
    decreases k,
{
    if k > 0 {
        lemma_rows_upto_pointwise(xs, ys, k - 1);
    }
}

/// Global cell lookup agrees for batch lists whose batches have the same
/// row counts and agree cell-for-cell between column `cx` of one and
/// column `cy` of the other.
pub proof fn lemma_cell_in_mapped(xs: Seq<BatchData>, ys: Seq<BatchData>, cx: int, cy: int, r: int)
    requires
        ys.len() == xs.len(),
        0 <= r,
        forall|i: int| 0 <= i < xs.len() ==> (#[trigger] ys[i]).spec_rows() == xs[i].spec_rows(),
        forall|i: int, j: int|
            0 <= i < xs.len() && 0 <= j < xs[i].spec_rows() ==> #[trigger] ys[i].spec_cell(cy, j)
                == xs[i].spec_cell(cx, j),
    ensures
        spec_cell_in(ys, cy, r) == spec_cell_in(xs, cx, r),
    decreases xs.len(),
{
    if xs.len() > 0 {
        assert(ys[0].spec_rows() == xs[0].spec_rows());
        if r < xs[0].spec_rows() {
            assert(ys[0].spec_cell(cy, r) == xs[0].spec_cell(cx, r));
        } else {
            let xt = xs.drop_first();
            let yt = ys.drop_first();
            assert forall|i: int| 0 <= i < xt.len() implies (#[trigger] yt[i]).spec_rows()
                == xt[i].spec_rows() by {
                assert(yt[i] == ys[i + 1]);
                assert(xt[i] == xs[i + 1]);
            }
            assert forall|i: int, j: int|
                0 <= i < xt.len() && 0 <= j < xt[i].spec_rows() implies #[trigger] yt[i].spec_cell(
                cy,
                j,
            ) == xt[i].spec_cell(cx, j) by {
                assert(yt[i] == ys[i + 1]);
                assert(xt[i] == xs[i + 1]);
            }
            lemma_cell_in_mapped(xt, yt, cx, cy, r - xs[0].spec_rows());
        }
    }
}

} // verus!
