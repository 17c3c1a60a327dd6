//! Plain-value model of columnar data: typed cells, columns with explicit
//! null slots, row-batches, schemas, and tables as ordered lists of batches
//! sharing one schema.  Every view operation of the core is verified
//! against the cell semantics defined here.

use vstd::prelude::*;
use crate::error::{CoreError, CoreResult, ErrorCode};

verus! {

/// Simple logical type representation, carried as a small tag.
#[derive(Debug, Clone, Copy, PartialEq, Eq, Structural)]
pub struct DataType {
    type_id: u32,
}

/// Tag values of the logical types.
pub const TYPE_NULL: u32 = 0;

pub const TYPE_BOOL: u32 = 1;

pub const TYPE_INT32: u32 = 2;

pub const TYPE_INT64: u32 = 3;

pub const TYPE_FLOAT32: u32 = 4;

pub const TYPE_FLOAT64: u32 = 5;

pub const TYPE_UTF8: u32 = 6;

pub const TYPE_LARGE_BINARY: u32 = 7;

impl DataType {
    pub closed spec fn spec_type_id(&self) -> u32 {
        self.type_id
    }

    pub fn new_null() -> (r: DataType)
        ensures
            r.spec_type_id() == TYPE_NULL,
    {
        DataType { type_id: TYPE_NULL }
    }

    pub fn new_bool() -> (r: DataType)
        ensures
            r.spec_type_id() == TYPE_BOOL,
    {
        DataType { type_id: TYPE_BOOL }
    }

    pub fn new_int32() -> (r: DataType)
        ensures
            r.spec_type_id() == TYPE_INT32,
    {
        DataType { type_id: TYPE_INT32 }
    }

    pub fn new_int64() -> (r: DataType)
        ensures
            r.spec_type_id() == TYPE_INT64,
    {
        DataType { type_id: TYPE_INT64 }
    }

    pub fn new_float32() -> (r: DataType)
        ensures
            r.spec_type_id() == TYPE_FLOAT32,
    {
        DataType { type_id: TYPE_FLOAT32 }
    }

    pub fn new_float64() -> (r: DataType)
        ensures
            r.spec_type_id() == TYPE_FLOAT64,
    {
        DataType { type_id: TYPE_FLOAT64 }
    }

    pub fn new_utf8() -> (r: DataType)
        ensures
            r.spec_type_id() == TYPE_UTF8,
    {
        DataType { type_id: TYPE_UTF8 }
    }

    pub fn new_large_binary() -> (r: DataType)
        ensures
            r.spec_type_id() == TYPE_LARGE_BINARY,
    {
        DataType { type_id: TYPE_LARGE_BINARY }
    }

    pub fn from_id(type_id: u32) -> (r: DataType)
        ensures
            r.spec_type_id() == type_id,
    {
        DataType { type_id }
    }

    pub fn type_id(&self) -> (r: u32)
        ensures
            r == self.spec_type_id(),
    {
        self.type_id
    }
}

/// One typed, non-null cell value.
#[derive(Debug, Clone)]
pub enum CellValue {
    Bool(bool),
    Int32(i32),
    Int64(i64),
    Utf8(String),
}

/// Mathematical model of a cell value; text is its character sequence.
pub enum CellModel {
    Bool(bool),
    Int32(i32),
    Int64(i64),
    Utf8(Seq<char>),
}

impl View for CellValue {
    type V = CellModel;

    open spec fn view(&self) -> CellModel {
        match self {
            CellValue::Bool(b) => CellModel::Bool(*b),
            CellValue::Int32(x) => CellModel::Int32(*x),
            CellValue::Int64(x) => CellModel::Int64(*x),
            CellValue::Utf8(s) => CellModel::Utf8(s@),
        }
    }
}

impl CellValue {
    /// Tag of the cell's logical type.
    pub open spec fn spec_tag(&self) -> u32 {
        match self {
            CellValue::Bool(_) => TYPE_BOOL,
            CellValue::Int32(_) => TYPE_INT32,
            CellValue::Int64(_) => TYPE_INT64,
            CellValue::Utf8(_) => TYPE_UTF8,
        }
    }

    pub fn tag(&self) -> (r: u32)
        ensures
            r == self.spec_tag(),
    {
        match self {
            CellValue::Bool(_) => TYPE_BOOL,
            CellValue::Int32(_) => TYPE_INT32,
            CellValue::Int64(_) => TYPE_INT64,
            CellValue::Utf8(_) => TYPE_UTF8,
        }
    }

    /// Deep copy with the same model.
    pub fn duplicate(&self) -> (r: CellValue)
        ensures
            r@ == self@,
            r.spec_tag() == self.spec_tag(),
    {
        match self {
            CellValue::Bool(b) => CellValue::Bool(*b),
            CellValue::Int32(x) => CellValue::Int32(*x),
            CellValue::Int64(x) => CellValue::Int64(*x),
            CellValue::Utf8(s) => CellValue::Utf8(s.clone()),
        }
    }
}

/// The model of a cell slot: `None` is an explicitly null cell.
pub type CellSlot = Option<CellModel>;

/// One column of one row-batch: a vector of slots, all of one logical
/// type, with `None` marking the cells that are explicitly null.
#[derive(Debug, Clone)]
pub enum ColumnData {
    Bool(Vec<Option<bool>>),
    Int32(Vec<Option<i32>>),
    Int64(Vec<Option<i64>>),
    Utf8(Vec<Option<String>>),
}

impl ColumnData {
    /// Tag of the column's logical type.
    pub open spec fn spec_tag(&self) -> u32 {
        match self {
            ColumnData::Bool(_) => TYPE_BOOL,
            ColumnData::Int32(_) => TYPE_INT32,
            ColumnData::Int64(_) => TYPE_INT64,
            ColumnData::Utf8(_) => TYPE_UTF8,
        }
    }

    /// The column's cells as a sequence of slots.
    pub open spec fn spec_cells(&self) -> Seq<CellSlot> {
        match self {
            ColumnData::Bool(v) => Seq::new(
                v@.len(),
                |i: int|
                    match v@[i] {
                        Some(b) => Some(CellModel::Bool(b)),
                        None => None,
                    },
            ),
            ColumnData::Int32(v) => Seq::new(
                v@.len(),
                |i: int|
                    match v@[i] {
                        Some(x) => Some(CellModel::Int32(x)),
                        None => None,
                    },
            ),
            ColumnData::Int64(v) => Seq::new(
                v@.len(),
                |i: int|
                    match v@[i] {
                        Some(x) => Some(CellModel::Int64(x)),
                        None => None,
                    },
            ),
            ColumnData::Utf8(v) => Seq::new(
                v@.len(),
                |i: int|
                    match v@[i] {
                        Some(s) => Some(CellModel::Utf8(s@)),
                        None => None,
                    },
            ),
        }
    }

    pub open spec fn spec_len(&self) -> int {
        self.spec_cells().len() as int
    }

    /// An empty column of the given logical type; only the four cell
    /// types this build can hold are accepted.
    pub fn new_empty(tag: u32) -> (r: Option<ColumnData>)
        ensures
            match r {
                Some(c) => c.spec_tag() == tag && c.spec_cells() =~= Seq::<CellSlot>::empty(),
                None => !(tag == TYPE_BOOL || tag == TYPE_INT32 || tag == TYPE_INT64 || tag
                    == TYPE_UTF8),
            },
    {
        if tag == TYPE_BOOL {
            Some(ColumnData::Bool(Vec::new()))
        } else if tag == TYPE_INT32 {
            Some(ColumnData::Int32(Vec::new()))
        } else if tag == TYPE_INT64 {
            Some(ColumnData::Int64(Vec::new()))
        } else if tag == TYPE_UTF8 {
            Some(ColumnData::Utf8(Vec::new()))
        } else {
            None
        }
    }

    pub fn len(&self) -> (r: usize)
        ensures
            r == self.spec_len(),
    {
        match self {
            ColumnData::Bool(v) => v.len(),
            ColumnData::Int32(v) => v.len(),
            ColumnData::Int64(v) => v.len(),
            ColumnData::Utf8(v) => v.len(),
        }
    }

    pub fn tag(&self) -> (r: u32)
        ensures
            r == self.spec_tag(),
    {
        match self {
            ColumnData::Bool(_) => TYPE_BOOL,
            ColumnData::Int32(_) => TYPE_INT32,
            ColumnData::Int64(_) => TYPE_INT64,
            ColumnData::Utf8(_) => TYPE_UTF8,
        }
    }

    /// Read one cell slot.
    pub fn cell(&self, i: usize) -> (r: Option<CellValue>)
        requires
            i < self.spec_len(),
        ensures
            match r {
                Some(c) => self.spec_cells()[i as int] == Some(c@) && c.spec_tag()
                    == self.spec_tag(),
                None => self.spec_cells()[i as int] is None,
            },
    {
        match self {
            ColumnData::Bool(v) => match &v[i] {
                Some(b) => Some(CellValue::Bool(*b)),
                None => None,
            },
            ColumnData::Int32(v) => match &v[i] {
                Some(x) => Some(CellValue::Int32(*x)),
                None => None,
            },
            ColumnData::Int64(v) => match &v[i] {
                Some(x) => Some(CellValue::Int64(*x)),
                None => None,
            },
            ColumnData::Utf8(v) => match &v[i] {
                Some(s) => Some(CellValue::Utf8(s.clone())),
                None => None,
            },
        }
    }

    /// Whether the cell at `i` is explicitly null.
    pub fn is_null_at(&self, i: usize) -> (r: bool)
        requires
            i < self.spec_len(),
        ensures
            r == (self.spec_cells()[i as int] is None),
    {
        match self {
            ColumnData::Bool(v) => v[i].is_none(),
            ColumnData::Int32(v) => v[i].is_none(),
            ColumnData::Int64(v) => v[i].is_none(),
            ColumnData::Utf8(v) => v[i].is_none(),
        }
    }

    /// Append one slot; a value must carry the column's own type.
    pub fn push_cell(&mut self, cell: Option<CellValue>)
        requires
            match cell {
                Some(c) => c.spec_tag() == old(self).spec_tag(),
                None => true,
            },
        ensures
            final(self).spec_tag() == old(self).spec_tag(),
            final(self).spec_cells() =~= old(self).spec_cells().push(
                match cell {
                    Some(c) => Some(c@),
                    None => None,
                },
            ),
    {
        match self {
            ColumnData::Bool(v) => match cell {
                Some(CellValue::Bool(b)) => v.push(Some(b)),
                _ => v.push(None),
            },
            ColumnData::Int32(v) => match cell {
                Some(CellValue::Int32(x)) => v.push(Some(x)),
                _ => v.push(None),
            },
            ColumnData::Int64(v) => match cell {
                Some(CellValue::Int64(x)) => v.push(Some(x)),
                _ => v.push(None),
            },
            ColumnData::Utf8(v) => match cell {
                Some(CellValue::Utf8(s)) => v.push(Some(s)),
                _ => v.push(None),
            },
        }
    }

    /// Deep copy with the same cells.
    pub fn duplicate(&self) -> (r: ColumnData)
        ensures
            r.spec_tag() == self.spec_tag(),
            r.spec_cells() == self.spec_cells(),
    {
        let n = self.len();
        let t = self.tag();
        let mut out = match ColumnData::new_empty(t) {
            Some(p) => p,
            None => ColumnData::Bool(Vec::new()),
        };
        let mut i: usize = 0;
        while i < n
            invariant
                i <= n == self.spec_len(),
                out.spec_tag() == self.spec_tag(),
                out.spec_len() == i,
                forall|k: int| 0 <= k < i ==> out.spec_cells()[k] == self.spec_cells()[k],
            decreases n - i,
        {
            out.push_cell(self.cell(i));
            i = i + 1;
        }
        proof {
            assert(out.spec_cells() =~= self.spec_cells());
        }
        out
    }

    /// How many cells are explicitly null.
    pub fn null_count(&self) -> (r: usize)
        ensures
            r == spec_null_count(self.spec_cells(), self.spec_len()),
            r <= self.spec_len(),
    {
        let n = self.len();
        let mut i: usize = 0;
        let mut cnt: usize = 0;
        while i < n
            invariant
                i <= n == self.spec_len(),
                cnt == spec_null_count(self.spec_cells(), i as int),
                cnt <= i,
            decreases n - i,
        {
            if self.is_null_at(i) {
                cnt = cnt + 1;
            }
            i = i + 1;
        }
        cnt
    }
}

/// How many of the first `n` slots are null.
pub open spec fn spec_null_count(cells: Seq<CellSlot>, n: int) -> int
    decreases n,
{
    if n <= 0 {
        0
    } else {
        spec_null_count(cells, n - 1) + if cells[n - 1] is None {
            1int
        } else {
            0int
        }
    }
}

/// One field of a schema: name, logical type, nullable flag, and
/// string-keyed metadata.  FieldDef names need not be unique; position is the
/// canonical identity used by column indices.
#[derive(Debug, Clone)]
pub struct FieldDef {
    pub name: String,
    pub data_type: DataType,
    pub nullable: bool,
    pub metadata: Vec<(String, String)>,
}

impl FieldDef {
    pub fn new(name: String, data_type: DataType, nullable: bool) -> (r: FieldDef)
        ensures
            r.name@ == name@,
            r.data_type == data_type,
            r.nullable == nullable,
            r.metadata@.len() == 0,
    {
        FieldDef { name, data_type, nullable, metadata: Vec::new() }
    }
}

/// Ordered list of fields plus schema-level metadata.
#[derive(Debug, Clone)]
pub struct SchemaData {
    pub fields: Vec<FieldDef>,
    pub metadata: Vec<(String, String)>,
}

/// First index whose field carries `name`, if any.
pub open spec fn spec_index_of_name(fields: Seq<FieldDef>, name: Seq<char>) -> Option<int>
    decreases fields.len(),
{
    if fields.len() == 0 {
        None
    } else if fields[0].name@ == name {
        Some(0int)
    } else {
        match spec_index_of_name(fields.drop_first(), name) {
            Some(i) => Some(i + 1),
            None => None,
        }
    }
}

impl SchemaData {
    pub fn new(fields: Vec<FieldDef>) -> (r: SchemaData)
        ensures
            r.fields@ == fields@,
            r.metadata@.len() == 0,
    {
        SchemaData { fields, metadata: Vec::new() }
    }

    /// Position of the first field named `name`.
    pub fn index_of(&self, name: &str) -> (r: Option<usize>)
        ensures
            match r {
                Some(i) => spec_index_of_name(self.fields@, name@) == Some(i as int) && i
                    < self.fields@.len() && self.fields@[i as int].name@ == name@,
                None => spec_index_of_name(self.fields@, name@) is None,
            },
    {
        let n = self.fields.len();
        proof {
            assert(self.fields@.skip(0) =~= self.fields@);
        }
        let mut i: usize = 0;
        while i < n
            invariant
                i <= n == self.fields@.len(),
                forall|j: int| 0 <= j < i ==> self.fields@[j].name@ != name@,
                spec_index_of_name(self.fields@, name@) == (match spec_index_of_name(
                    self.fields@.skip(i as int),
                    name@,
                ) {
                    Some(k) => Some(k + i),
                    None => None::<int>,
                }),
            decreases n - i,
        {
            let fname: &String = &self.fields[i].name;
            if str_eq(fname.as_str(), name) {
                proof {
                    assert(self.fields@.skip(i as int)[0] == self.fields@[i as int]);
                    reveal_with_fuel(spec_index_of_name, 2);
                }
                return Some(i);
            }
            proof {
                lemma_index_of_name_step(self.fields@, name@, i as int);
            }
            i = i + 1;
        }
        proof {
            assert(self.fields@.skip(n as int).len() == 0);
        }
        None
    }
}

/// Stepping lemma: if the field at `i` does not carry the name, searching
/// from `i` equals searching from `i + 1`, shifted by one.
proof fn lemma_index_of_name_step(fields: Seq<FieldDef>, name: Seq<char>, i: int)
    requires
        0 <= i < fields.len(),
        fields[i].name@ != name,
    ensures
        spec_index_of_name(fields.skip(i), name) == (match spec_index_of_name(
            fields.skip(i + 1),
            name,
        ) {
            Some(k) => Some(k + 1),
            None => None::<int>,
        }),
{
    assert(fields.skip(i).len() > 0);
    assert(fields.skip(i)[0] == fields[i]);
    assert(fields.skip(i).drop_first() =~= fields.skip(i + 1));
}

/// Character-for-character string equality.
pub fn str_eq(a: &str, b: &str) -> (r: bool)
    ensures
        r == (a@ == b@),
{
    let sa = a.to_owned();
    let sb = b.to_owned();
    sa == sb
}

/// One row-batch: columns of equal length, in schema order.
#[derive(Debug, Clone)]
pub struct BatchData {
    pub columns: Vec<ColumnData>,
}

impl BatchData {
    /// Rows of the batch: the common length of its columns.
    pub open spec fn spec_rows(&self) -> int {
        if self.columns@.len() == 0 {
            0
        } else {
            self.columns@[0].spec_len()
        }
    }

    /// All columns have the same length.
    pub open spec fn wf(&self) -> bool {
        forall|c: int|
            0 <= c < self.columns@.len() ==> (#[trigger] self.columns@[c]).spec_len()
                == self.spec_rows()
    }

    /// The slot of column `c` at row `r`.
    pub open spec fn spec_cell(&self, c: int, r: int) -> CellSlot {
        self.columns@[c].spec_cells()[r]
    }

    pub fn rows(&self) -> (r: usize)
        ensures
            r == self.spec_rows(),
    {
        if self.columns.len() == 0 {
            0
        } else {
            self.columns[0].len()
        }
    }

    /// The contiguous sub-batch of rows `[start, start + len)`, every cell
    /// kept with its value and null status.
    pub fn slice_rows(&self, start: usize, len: usize) -> (r: BatchData)
        requires
            self.wf(),
            start + len <= self.spec_rows(),
        ensures
            r.wf(),
            r.spec_rows() == len,
            r.columns@.len() == self.columns@.len(),
            forall|c: int|
                0 <= c < self.columns@.len() ==> (#[trigger] r.columns@[c]).spec_tag()
                    == self.columns@[c].spec_tag(),
            forall|c: int, j: int|
                0 <= c < self.columns@.len() && 0 <= j < len ==> #[trigger] r.spec_cell(c, j)
                    == self.spec_cell(c, start + j),
    {
        let ncols = self.columns.len();
        let mut out: Vec<ColumnData> = Vec::new();
        let mut c: usize = 0;
        while c < ncols
            invariant
                c <= ncols == self.columns@.len(),
                self.wf(),
                start + len <= self.spec_rows(),
                out@.len() == c,
                forall|k: int|
                    0 <= k < c ==> (#[trigger] out@[k]).spec_tag() == self.columns@[k].spec_tag(),
                forall|k: int| 0 <= k < c ==> (#[trigger] out@[k]).spec_len() == len,
                forall|k: int, j: int|
                    0 <= k < c && 0 <= j < len ==> #[trigger] out@[k].spec_cells()[j]
                        == self.columns@[k].spec_cells()[start + j],
            decreases ncols - c,
        {
            let col = &self.columns[c];
            let col_n = col.len();
            let mut piece = match ColumnData::new_empty(col.tag()) {
                Some(p) => p,
                None => ColumnData::Bool(Vec::new()),
            };
            let mut j: usize = 0;
            while j < len
                invariant
                    j <= len,
                    c < self.columns@.len(),
                    col == self.columns@[c as int],
                    col_n == col.spec_len(),
                    start + len <= col_n,
                    piece.spec_tag() == col.spec_tag(),
                    piece.spec_len() == j,
                    forall|t: int|
                        0 <= t < j ==> piece.spec_cells()[t] == col.spec_cells()[start + t],
                decreases len - j,
            {
                piece.push_cell(col.cell(start + j));
                j = j + 1;
            }
            out.push(piece);
            c = c + 1;
        }
        BatchData { columns: out }
    }
}

/// Rows held by the first `k` batches together.
pub open spec fn rows_upto(bs: Seq<BatchData>, k: int) -> int
    decreases k,
{
    if k <= 0 {
        0
    } else {
        rows_upto(bs, k - 1) + bs[k - 1].spec_rows()
    }
}

/// Total rows over a list of batches.
pub open spec fn spec_total_rows(bs: Seq<BatchData>) -> int {
    rows_upto(bs, bs.len() as int)
}

/// The slot of column `c` at global row `r` over a list of batches, rows
/// numbered across batch boundaries in order.
pub open spec fn spec_cell_in(bs: Seq<BatchData>, c: int, r: int) -> CellSlot
    decreases bs.len(),
{
    if bs.len() == 0 {
        None
    } else if r < bs[0].spec_rows() {
        bs[0].spec_cell(c, r)
    } else {
        spec_cell_in(bs.drop_first(), c, r - bs[0].spec_rows())
    }
}

/// Row prefixes only grow.
pub proof fn lemma_rows_upto_mono(bs: Seq<BatchData>, i: int, j: int)
    requires
        0 <= i <= j,
    ensures
        rows_upto(bs, i) <= rows_upto(bs, j),
    decreases j - i,
{
    if i < j {
        lemma_rows_upto_mono(bs, i, j - 1);
        assert(bs[j - 1].spec_rows() >= 0);
    }
}

/// Prefix row counts are never negative.
pub proof fn lemma_rows_upto_nonneg(bs: Seq<BatchData>, k: int)
    ensures
        rows_upto(bs, k) >= 0,
    decreases k,
{
    if k > 0 {
        lemma_rows_upto_nonneg(bs, k - 1);
    }
}

/// Appending a batch appends its rows.
pub proof fn lemma_rows_upto_push(bs: Seq<BatchData>, b: BatchData, k: int)
    requires
        0 <= k <= bs.len(),
    ensures
        rows_upto(bs.push(b), k) == rows_upto(bs, k),
        spec_total_rows(bs.push(b)) == spec_total_rows(bs) + b.spec_rows(),
    decreases bs.len() + 1 - k,
{
    if k < bs.len() {
        lemma_rows_upto_push(bs, b, k + 1);
    } else {
        assert(rows_upto(bs.push(b), k) == rows_upto(bs, k)) by {
            lemma_rows_upto_same_prefix(bs.push(b), bs, k);
        }
        assert(bs.push(b)[bs.len() as int] == b);
    }
}

/// Two lists equal below `k` have the same prefix row count.
pub proof fn lemma_rows_upto_same_prefix(xs: Seq<BatchData>, ys: Seq<BatchData>, k: int)
    requires
        k <= xs.len(),
        k <= ys.len(),
        forall|i: int| 0 <= i < k ==> xs[i] == ys[i],
    ensures
        rows_upto(xs, k) == rows_upto(ys, k),
    decreases k,
{
    if k > 0 {
        lemma_rows_upto_same_prefix(xs, ys, k - 1);
    }
}

/// A cell of an appended batch list: rows below the old total read from the
/// old list, rows above it read from the new batch.
pub proof fn lemma_cell_in_push(bs: Seq<BatchData>, b: BatchData, c: int, r: int)
    requires
        0 <= r,
    ensures
        r < spec_total_rows(bs) ==> spec_cell_in(bs.push(b), c, r) == spec_cell_in(bs, c, r),
        spec_total_rows(bs) <= r < spec_total_rows(bs) + b.spec_rows() ==> spec_cell_in(
            bs.push(b),
            c,
            r,
        ) == b.spec_cell(c, r - spec_total_rows(bs)),
    decreases bs.len(),
{
    lemma_rows_upto_nonneg(bs, bs.len() as int);
    if bs.len() == 0 {
        assert(bs.push(b).len() == 1);
        assert(bs.push(b)[0] == b);
        if r < b.spec_rows() {
        } else {
            assert(bs.push(b).drop_first() =~= Seq::<BatchData>::empty());
        }
    } else {
        assert(bs.push(b)[0] == bs[0]);
        if r < bs[0].spec_rows() {
            lemma_total_rows_drop_first(bs);
            lemma_rows_upto_nonneg(bs.drop_first(), bs.drop_first().len() as int);
        } else {
            assert(bs.push(b).drop_first() =~= bs.drop_first().push(b));
            lemma_cell_in_push(bs.drop_first(), b, c, r - bs[0].spec_rows());
            lemma_total_rows_drop_first(bs);
        }
    }
}

/// Total rows split as first batch plus the rest.
pub proof fn lemma_total_rows_drop_first(bs: Seq<BatchData>)
    requires
        bs.len() > 0,
    ensures
        spec_total_rows(bs) == bs[0].spec_rows() + spec_total_rows(bs.drop_first()),
    decreases bs.len(),
{
    lemma_rows_upto_shift(bs, bs.len() as int);
}

/// Prefix counts of a list and of its tail line up.
pub proof fn lemma_rows_upto_shift(bs: Seq<BatchData>, k: int)
    requires
        1 <= k <= bs.len(),
    ensures
        rows_upto(bs, k) == bs[0].spec_rows() + rows_upto(bs.drop_first(), k - 1),
    decreases k,
{
    if k == 1 {
        assert(rows_upto(bs, 1) == rows_upto(bs, 0) + bs[0].spec_rows());
        assert(rows_upto(bs.drop_first(), 0) == 0);
    } else {
        lemma_rows_upto_shift(bs, k - 1);
        assert(bs.drop_first()[k - 2] == bs[k - 1]);
        assert(rows_upto(bs, k) == rows_upto(bs, k - 1) + bs[k - 1].spec_rows());
        assert(rows_upto(bs.drop_first(), k - 1) == rows_upto(bs.drop_first(), k - 2)
            + bs.drop_first()[k - 2].spec_rows());
    }
}

/// Mathematical model of one field: its name, type tag and nullability.
pub struct FieldModel {
    pub name: Seq<char>,
    pub type_id: u32,
    pub nullable: bool,
}

impl FieldDef {
    pub open spec fn model(&self) -> FieldModel {
        FieldModel {
            name: self.name@,
            type_id: self.data_type.spec_type_id(),
            nullable: self.nullable,
        }
    }

    /// Deep copy with the same model (metadata copied pairwise).
    pub fn duplicate(&self) -> (r: FieldDef)
        ensures
            r.model() == self.model(),
            r.data_type == self.data_type,
    {
        FieldDef {
            name: self.name.clone(),
            data_type: self.data_type,
            nullable: self.nullable,
            metadata: clone_pairs(&self.metadata),
        }
    }
}

impl SchemaData {
    /// The schema as a sequence of field models.
    pub open spec fn models(&self) -> Seq<FieldModel> {
        self.fields@.map_values(|f: FieldDef| f.model())
    }

    /// Deep copy with the same field models.
    pub fn duplicate(&self) -> (r: SchemaData)
        ensures
            r.models() =~= self.models(),
            r.fields@.len() == self.fields@.len(),
            forall|i: int|
                0 <= i < self.fields@.len() ==> (#[trigger] r.fields@[i]).data_type
                    == self.fields@[i].data_type,
    {
        let n = self.fields.len();
        let mut fields: Vec<FieldDef> = Vec::new();
        let mut i: usize = 0;
        while i < n
            invariant
                i <= n == self.fields@.len(),
                fields@.len() == i,
                forall|k: int|
                    0 <= k < i ==> (#[trigger] fields@[k]).model() == self.fields@[k].model()
                        && fields@[k].data_type == self.fields@[k].data_type,
            decreases n - i,
        {
            let f = self.fields[i].duplicate();
            fields.push(f);
            i = i + 1;
        }
        SchemaData { fields, metadata: clone_pairs(&self.metadata) }
    }
}

/// Copy a list of string pairs, preserving every pair's text.
pub fn clone_pairs(v: &Vec<(String, String)>) -> (r: Vec<(String, String)>)
    ensures
        r@.len() == v@.len(),
        forall|i: int|
            0 <= i < v@.len() ==> (#[trigger] r@[i]).0@ == v@[i].0@ && r@[i].1@ == v@[i].1@,
{
    let n = v.len();
    let mut out: Vec<(String, String)> = Vec::new();
    let mut i: usize = 0;
    while i < n
        invariant
            i <= n == v@.len(),
            out@.len() == i,
            forall|k: int|
                0 <= k < i ==> (#[trigger] out@[k]).0@ == v@[k].0@ && out@[k].1@ == v@[k].1@,
        decreases n - i,
    {
        let key = v[i].0.clone();
        let val = v[i].1.clone();
        out.push((key, val));
        i = i + 1;
    }
    out
}

/// Skipping `i` whole batches shifts the global row index by their rows.
pub proof fn lemma_cell_in_skip(bs: Seq<BatchData>, c: int, r: int, i: int)
    requires
        0 <= i <= bs.len(),
        r >= rows_upto(bs, i),
    ensures
        spec_cell_in(bs, c, r) == spec_cell_in(bs.skip(i), c, r - rows_upto(bs, i)),
    decreases i,
{
    if i == 0 {
        assert(bs.skip(0) =~= bs);
    } else {
        lemma_rows_upto_nonneg(bs, i - 1);
        lemma_rows_upto_mono(bs, i - 1, i);
        lemma_cell_in_skip(bs, c, r, i - 1);
        let tail = bs.skip(i - 1);
        assert(tail.len() > 0);
        assert(tail[0] == bs[i - 1]);
        assert(tail.drop_first() =~= bs.skip(i));
        assert(r - rows_upto(bs, i - 1) >= tail[0].spec_rows());
    }
}

/// Tag of a cell model's logical type.
pub open spec fn spec_model_tag(m: CellModel) -> u32 {
    match m {
        CellModel::Bool(_) => TYPE_BOOL,
        CellModel::Int32(_) => TYPE_INT32,
        CellModel::Int64(_) => TYPE_INT64,
        CellModel::Utf8(_) => TYPE_UTF8,
    }
}

/// A cell value's model carries the value's own type tag.
pub proof fn lemma_value_model_tag(v: CellValue)
    ensures
        spec_model_tag(v@) == v.spec_tag(),
{
    match v {
        CellValue::Bool(_) => {},
        CellValue::Int32(_) => {},
        CellValue::Int64(_) => {},
        CellValue::Utf8(_) => {},
    }
}

/// Any value-bearing slot of a column carries the column's own type.
pub proof fn lemma_column_cell_tag(col: ColumnData, i: int)
    requires
        0 <= i < col.spec_len(),
    ensures
        (col.spec_cells()[i] matches Some(m) ==> spec_model_tag(m) == col.spec_tag()),
{
    match col {
        ColumnData::Bool(_) => {},
        ColumnData::Int32(_) => {},
        ColumnData::Int64(_) => {},
        ColumnData::Utf8(_) => {},
    }
}

/// Any value-bearing cell of a consistent batch list carries its field's
/// logical type.
pub proof fn lemma_cell_in_model_tag(schema: SchemaData, bs: Seq<BatchData>, c: int, r: int)
    requires
        spec_consistent(schema, bs),
        0 <= c < schema.fields@.len(),
        0 <= r,
    ensures
        (spec_cell_in(bs, c, r) matches Some(m) ==> spec_model_tag(m)
            == schema.fields@[c].data_type.spec_type_id()),
    decreases bs.len(),
{
    if bs.len() > 0 {
        if r < bs[0].spec_rows() {
            lemma_column_cell_tag(bs[0].columns@[c], r);
        } else {
            let tail = bs.drop_first();
            assert forall|k: int| 0 <= k < tail.len() implies (#[trigger] tail[k]).wf()
                && tail[k].columns@.len() == schema.fields@.len() by {
                assert(tail[k] == bs[k + 1]);
            }
            assert forall|k: int, c2: int|
                0 <= k < tail.len() && 0 <= c2 < schema.fields@.len() implies (
            #[trigger] tail[k].columns@[c2]).spec_tag()
                == schema.fields@[c2].data_type.spec_type_id() by {
                assert(tail[k] == bs[k + 1]);
            }
            lemma_cell_in_model_tag(schema, tail, c, r - bs[0].spec_rows());
        }
    }
}

impl TableData {
    /// Any value-bearing cell of a well-formed table carries its field's
    /// logical type.
    pub proof fn lemma_cell_tag(&self, c: int, r: int)
        requires
            self.wf(),
            0 <= c < self.spec_col_count(),
            0 <= r,
        ensures
            (self.spec_cell(c, r) matches Some(m) ==> spec_model_tag(m) == self.spec_field_tag(
                c,
            )),
    {
        lemma_cell_in_model_tag(self.schema, self.batches@, c, r);
    }
}

/// Batches fit a schema: every batch is rectangular, has one column per
/// field, and each column carries its field's logical type.
pub open spec fn spec_consistent(schema: SchemaData, bs: Seq<BatchData>) -> bool {
    &&& forall|k: int|
        0 <= k < bs.len() ==> (#[trigger] bs[k]).wf() && bs[k].columns@.len()
            == schema.fields@.len()
    &&& forall|k: int, c: int|
        0 <= k < bs.len() && 0 <= c < schema.fields@.len() ==> (#[trigger] bs[k].columns@[c]).spec_tag()
            == schema.fields@[c].data_type.spec_type_id()
}

/// Table: an ordered list of row-batches sharing one schema, plus
/// table-level metadata.
#[derive(Debug)]
pub struct TableData {
    pub schema: SchemaData,
    pub batches: Vec<BatchData>,
    pub metadata: Vec<(String, String)>,
}

/// The three-way outcome of reading a cell through a view: an index out of
/// range is `Undefined`, a cell explicitly marked null is `Null`, and
/// everything else is its typed value.  The three are mutually exclusive.
#[derive(Debug)]
pub enum CellRead {
    Undefined,
    Null,
    Value(CellValue),
}

impl TableData {
    pub open spec fn spec_row_count(&self) -> int {
        spec_total_rows(self.batches@)
    }

    pub open spec fn spec_col_count(&self) -> int {
        self.schema.fields@.len() as int
    }

    /// The slot of column `c` at global row `r`.
    pub open spec fn spec_cell(&self, c: int, r: int) -> CellSlot {
        spec_cell_in(self.batches@, c, r)
    }

    /// Type tag of column `c`.
    pub open spec fn spec_field_tag(&self, c: int) -> u32 {
        self.schema.fields@[c].data_type.spec_type_id()
    }

    /// Table invariant: batches fit the schema and the total row count is
    /// a machine-representable size.
    pub open spec fn wf(&self) -> bool {
        &&& spec_consistent(self.schema, self.batches@)
        &&& self.spec_row_count() <= usize::MAX
    }

    /// Build a table from a schema and batches, establishing the table
    /// invariant.  An empty batch list is rejected as invalid input,
    /// batches that do not fit the schema with a `SchemaMismatch`, and a
    /// total row count beyond the machine's size limit with a `Memory`
    /// error; the call succeeds in exactly the remaining cases.
    pub fn new(schema: SchemaData, batches: Vec<BatchData>) -> (out: CoreResult<TableData>)
        ensures
            out is Ok <==> (batches@.len() > 0 && spec_consistent(schema, batches@)
                && spec_total_rows(batches@) <= usize::MAX),
            match out {
                Ok(t) => {
                    &&& t.wf()
                    &&& t.schema == schema
                    &&& t.batches@ == batches@
                    &&& t.metadata@.len() == 0
                    &&& spec_consistent(schema, batches@)
                },
                Err(e) => e.code == ErrorCode::Validation || e.code == ErrorCode::SchemaMismatch
                    || e.code == ErrorCode::Memory,
            },
    {
        if batches.len() == 0 {
            return Err(CoreError::validation(String::from_str("Empty batch list")));
        }
        let ncols = schema.fields.len();
        let nb = batches.len();
        let mut total: usize = 0;
        let mut k: usize = 0;
        while k < nb
            invariant
                k <= nb == batches@.len(),
                ncols == schema.fields@.len(),
                total == rows_upto(batches@, k as int),
                forall|i: int|
                    0 <= i < k ==> (#[trigger] batches@[i]).wf() && batches@[i].columns@.len()
                        == schema.fields@.len(),
                forall|i: int, c: int|
                    0 <= i < k && 0 <= c < schema.fields@.len() ==> (
                    #[trigger] batches@[i].columns@[c]).spec_tag()
                        == schema.fields@[c].data_type.spec_type_id(),
            decreases nb - k,
        {
            let b = &batches[k];
            if b.columns.len() != ncols {
                return Err(CoreError::new(
                    ErrorCode::SchemaMismatch,
                    String::from_str("Batch column count does not match the schema"),
                ));
            }
            let rows_b = b.rows();
            let mut c: usize = 0;
            while c < ncols
                invariant
                    c <= ncols == schema.fields@.len(),
                    k < batches@.len(),
                    b == batches@[k as int],
                    b.columns@.len() == ncols,
                    rows_b == b.spec_rows(),
                    forall|j: int|
                        0 <= j < c ==> (#[trigger] b.columns@[j]).spec_len() == b.spec_rows(),
                    forall|j: int|
                        0 <= j < c ==> (#[trigger] b.columns@[j]).spec_tag()
                            == schema.fields@[j].data_type.spec_type_id(),
                decreases ncols - c,
            {
                let col = &b.columns[c];
                if col.len() != rows_b {
                    return Err(CoreError::new(
                        ErrorCode::SchemaMismatch,
                        String::from_str("Columns of one batch differ in length"),
                    ));
                }
                if col.tag() != schema.fields[c].data_type.type_id() {
                    return Err(CoreError::new(
                        ErrorCode::SchemaMismatch,
                        String::from_str("Column type does not match its schema field"),
                    ));
                }
                c = c + 1;
            }
            if total > usize::MAX - rows_b {
                proof {
                    lemma_rows_upto_mono(batches@, k as int + 1, nb as int);
                }
                return Err(CoreError::memory(
                    String::from_str("Total row count exceeds the machine size limit"),
                ));
            }
            total = total + rows_b;
            k = k + 1;
        }
        Ok(TableData { schema, batches, metadata: Vec::new() })
    }

    pub fn row_count(&self) -> (r: usize)
        requires
            self.wf(),
        ensures
            r == self.spec_row_count(),
    {
        let nb = self.batches.len();
        let mut total: usize = 0;
        let mut k: usize = 0;
        while k < nb
            invariant
                self.wf(),
                k <= nb == self.batches@.len(),
                total == rows_upto(self.batches@, k as int),
            decreases nb - k,
        {
            let rows_b = self.batches[k].rows();
            proof {
                lemma_rows_upto_mono(self.batches@, k as int + 1, nb as int);
                lemma_rows_upto_nonneg(self.batches@, k as int);
            }
            total = total + rows_b;
            k = k + 1;
        }
        total
    }

    pub fn column_count(&self) -> (r: usize)
        ensures
            r == self.spec_col_count(),
    {
        self.schema.fields.len()
    }

    pub fn batch_count(&self) -> (r: usize)
        ensures
            r == self.batches@.len(),
    {
        self.batches.len()
    }

    /// Read the slot of column `c` at global row `r`, locating the batch
    /// that holds the row.
    pub fn cell_value(&self, c: usize, r: usize) -> (out: Option<CellValue>)
        requires
            self.wf(),
            c < self.spec_col_count(),
            r < self.spec_row_count(),
        ensures
            match out {
                Some(v) => self.spec_cell(c as int, r as int) == Some(v@) && v.spec_tag()
                    == self.spec_field_tag(c as int),
                None => self.spec_cell(c as int, r as int) is None,
            },
    {
        let nb = self.batches.len();
        let mut bi: usize = 0;
        let mut rr: usize = r;
        while bi < nb
            invariant
                self.wf(),
                c < self.spec_col_count(),
                r < self.spec_row_count(),
                bi <= nb == self.batches@.len(),
                rr == r - rows_upto(self.batches@, bi as int),
                r >= rows_upto(self.batches@, bi as int),
            decreases nb - bi,
        {
            let b = &self.batches[bi];
            let rows_b = b.rows();
            if rr < rows_b {
                proof {
                    lemma_cell_in_skip(self.batches@, c as int, r as int, bi as int);
                    let tail = self.batches@.skip(bi as int);
                    assert(tail[0] == self.batches@[bi as int]);
                }
                let col = &b.columns[c];
                return col.cell(rr);
            }
            rr = rr - rows_b;
            bi = bi + 1;
        }
        proof {
            lemma_rows_upto_nonneg(self.batches@, nb as int);
            assert(r >= rows_upto(self.batches@, nb as int));
            assert(false);
        }
        None
    }

    /// Read a cell through a view with the three-way outcome required at
    /// the boundary: out-of-range is `Undefined`, an explicitly null cell
    /// is `Null`, everything else its typed value.
    pub fn cell_read(&self, c: usize, r: usize) -> (out: CellRead)
        requires
            self.wf(),
        ensures
            (out is Undefined) <==> (c >= self.spec_col_count() || r >= self.spec_row_count()),
            (out is Null) <==> (c < self.spec_col_count() && r < self.spec_row_count()
                && self.spec_cell(c as int, r as int) is None),
            match out {
                CellRead::Value(v) => self.spec_cell(c as int, r as int) == Some(v@),
                _ => true,
            },
    {
        if c >= self.column_count() || r >= self.row_count() {
            return CellRead::Undefined;
        }
        match self.cell_value(c, r) {
            Some(v) => CellRead::Value(v),
            None => CellRead::Null,
        }
    }
}

} // verus!
