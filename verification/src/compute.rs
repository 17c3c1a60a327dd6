//! Compute kernels on the plain cell model: `take` gathers the cells of
//! a column by an explicit index list, and `cast` converts a column to
//! another logical type cell by cell.  Each produces a brand-new
//! single-column table; the input is never mutated.

use vstd::prelude::*;
use crate::error::{CoreError, CoreResult, ErrorCode};
use crate::handles::HandleId;
use crate::model::{
    BatchData, CellModel, CellSlot, CellValue, ColumnData, DataType, FieldDef, SchemaData,
    TableData, TYPE_BOOL, TYPE_INT32, TYPE_INT64, TYPE_UTF8,
};
use crate::table::{Column, TableRegistry, spec_registry_wf, spec_supported_tag};
use crate::text::{fmt_i64, spec_decimal_int};

verus! {

/// Whether a cast between two logical types is defined: identity,
/// 32-bit integers widening to 64-bit, and booleans and integers
/// rendered as text.
pub open spec fn spec_cast_ok(src: u32, dst: u32) -> bool {
    ||| src == dst && spec_supported_tag(src)
    ||| (src == TYPE_INT32 && dst == TYPE_INT64)
    ||| ((src == TYPE_BOOL || src == TYPE_INT32 || src == TYPE_INT64) && dst == TYPE_UTF8)
}

/// The cast of one cell value to a target type, for the defined casts.
pub open spec fn spec_cast_cell(m: CellModel, dst: u32) -> Option<CellModel> {
    match m {
        CellModel::Bool(b) => if dst == TYPE_BOOL {
            Some(m)
        } else if dst == TYPE_UTF8 {
            Some(CellModel::Utf8(
                if b {
                    "true"@
                } else {
                    "false"@
                },
            ))
        } else {
            None
        },
        CellModel::Int32(x) => if dst == TYPE_INT32 {
            Some(m)
        } else if dst == TYPE_INT64 {
            Some(CellModel::Int64(x as i64))
        } else if dst == TYPE_UTF8 {
            Some(CellModel::Utf8(spec_decimal_int(x as int)))
        } else {
            None
        },
        CellModel::Int64(x) => if dst == TYPE_INT64 {
            Some(m)
        } else if dst == TYPE_UTF8 {
            Some(CellModel::Utf8(spec_decimal_int(x as int)))
        } else {
            None
        },
        CellModel::Utf8(_) => if dst == TYPE_UTF8 {
            Some(m)
        } else {
            None
        },
    }
}

/// The cast of one cell slot: a null stays null, a value is cast.
pub open spec fn spec_cast_slot(s: CellSlot, dst: u32) -> CellSlot {
    match s {
        None => None,
        Some(m) => spec_cast_cell(m, dst),
    }
}

fn cast_value(v: &CellValue, dst: u32) -> (out: Option<CellValue>)
    requires
        spec_cast_ok(v.spec_tag(), dst),
    ensures
        out matches Some(w) ==> (Some(w@) == spec_cast_cell(v@, dst) && w.spec_tag() == dst),
        out is Some,
{
    match v {
        CellValue::Bool(b) => {
            if dst == TYPE_BOOL {
                Some(CellValue::Bool(*b))
            } else {
                if *b {
                    Some(CellValue::Utf8(String::from_str("true")))
                } else {
                    Some(CellValue::Utf8(String::from_str("false")))
                }
            }
        },
        CellValue::Int32(x) => {
            if dst == TYPE_INT32 {
                Some(CellValue::Int32(*x))
            } else if dst == TYPE_INT64 {
                Some(CellValue::Int64(*x as i64))
            } else {
                Some(CellValue::Utf8(fmt_i64(*x as i64)))
            }
        },
        CellValue::Int64(x) => {
            if dst == TYPE_INT64 {
                Some(CellValue::Int64(*x))
            } else {
                Some(CellValue::Utf8(fmt_i64(*x)))
            }
        },
        CellValue::Utf8(s) => Some(CellValue::Utf8(s.clone())),
    }
}

/// Cast a column to a target logical type, cell by cell, into a
/// brand-new single-column table.  Succeeds exactly when the view
/// resolves to a column of a type this build can hold, the cast between
/// the two types is defined, and the handle space has room; nulls stay
/// null, values are converted per [`spec_cast_cell`], and every other
/// registry entry stays untouched.
pub fn cast(reg: &mut TableRegistry, column: &Column, target_type: DataType) -> (out: CoreResult<
    Column,
>)
    requires
        spec_registry_wf(*old(reg)),
    ensures
        spec_registry_wf(*final(reg)),
        forall|h: HandleId|
            old(reg)@.contains_key(h) ==> final(reg)@.contains_key(h)
                && #[trigger] final(reg)@[h] == old(reg)@[h],
        ({
            let resolved = old(reg)@.contains_key(column.table_handle) && column.column_index
                < old(reg)@[column.table_handle].spec_col_count();
            let src = old(reg)@[column.table_handle];
            let c = column.column_index as int;
            &&& (out is Ok <==> (resolved && spec_cast_ok(
                src.spec_field_tag(c),
                target_type.spec_type_id(),
            ) && old(reg).next_handle() < crate::handles::HandleId::MAX))
            &&& (out matches Ok(col2) ==> {
                let dst = final(reg)@[col2.table_handle];
                &&& final(reg)@.contains_key(col2.table_handle)
                &&& !old(reg)@.contains_key(col2.table_handle)
                &&& final(reg)@ == old(reg)@.insert(col2.table_handle, dst)
                &&& col2.column_index == 0
                &&& dst.wf()
                &&& dst.spec_col_count() == 1
                &&& dst.schema.fields@[0].data_type == target_type
                &&& dst.spec_row_count() == src.spec_row_count()
                &&& forall|j: int|
                    0 <= j < src.spec_row_count() ==> #[trigger] dst.spec_cell(0, j)
                        == spec_cast_slot(src.spec_cell(c, j), target_type.spec_type_id())
            })
            &&& (out matches Err(e) ==> final(reg)@ == old(reg)@ && (e.code
                == ErrorCode::InvalidHandle || e.code == ErrorCode::TypeMismatch || e.code
                == ErrorCode::Memory))
        }),
{
    let t = match reg.get(column.table_handle) {
        Some(t) => t,
        None => {
            return Err(CoreError::invalid_handle(
                String::from_str("Table has been disposed or is invalid"),
            ));
        },
    };
    if column.column_index >= t.column_count() {
        return Err(CoreError::invalid_handle(
            String::from_str("Column index does not resolve"),
        ));
    }
    let stag = t.schema.fields[column.column_index].data_type.type_id();
    let dtag = target_type.type_id();
    let cast_defined = (stag == dtag && (stag == TYPE_BOOL || stag == TYPE_INT32 || stag
        == TYPE_INT64 || stag == TYPE_UTF8)) || (stag == TYPE_INT32 && dtag == TYPE_INT64) || ((
    stag == TYPE_BOOL || stag == TYPE_INT32 || stag == TYPE_INT64) && dtag == TYPE_UTF8);
    if !cast_defined {
        return Err(CoreError::new(
            ErrorCode::TypeMismatch,
            String::from_str("Cast between these data types is not supported"),
        ));
    }
    let rows = t.row_count();
    let mut piece = match ColumnData::new_empty(dtag) {
        Some(p) => p,
        None => ColumnData::Bool(Vec::new()),
    };
    let mut j: usize = 0;
    while j < rows
        invariant
            *reg == *old(reg),
            spec_registry_wf(*reg),
            old(reg)@.contains_key(column.table_handle),
            *t == old(reg)@[column.table_handle],
            t.wf(),
            column.column_index < t.spec_col_count(),
            rows == t.spec_row_count(),
            j <= rows,
            spec_cast_ok(t.spec_field_tag(column.column_index as int), dtag),
            dtag == target_type.spec_type_id(),
            piece.spec_tag() == dtag,
            piece.spec_len() == j,
            forall|k: int|
                0 <= k < j ==> piece.spec_cells()[k] == spec_cast_slot(
                    t.spec_cell(column.column_index as int, k),
                    dtag,
                ),
        decreases rows - j,
    {
        match t.cell_value(column.column_index, j) {
            None => {
                piece.push_cell(None);
            },
            Some(v) => {
                let w = match cast_value(&v, dtag) {
                    Some(w) => w,
                    None => {
                        proof {
                            assert(false);
                        }
                        return Err(CoreError::memory(String::from_str("Handle space exhausted")));
                    },
                };
                piece.push_cell(Some(w));
            },
        }
        j = j + 1;
    }
    if !reg.can_issue() {
        return Err(CoreError::memory(String::from_str("Handle space exhausted")));
    }
    let src_field = &t.schema.fields[column.column_index];
    let field = FieldDef::new(src_field.name.clone(), target_type, src_field.nullable);
    let ghost srct = *t;
    let mut fields: Vec<FieldDef> = Vec::new();
    fields.push(field);
    let schema = SchemaData::new(fields);
    let mut columns: Vec<ColumnData> = Vec::new();
    columns.push(piece);
    let batch = BatchData { columns };
    let mut batches: Vec<BatchData> = Vec::new();
    batches.push(batch);
    let dst = TableData { schema, batches, metadata: Vec::new() };
    proof {
        assert(dst.spec_row_count() == dst.batches@[0].spec_rows()) by {
            assert(crate::model::rows_upto(dst.batches@, 1) == crate::model::rows_upto(
                dst.batches@,
                0,
            ) + dst.batches@[0].spec_rows());
        }
        assert forall|k: int| 0 <= k < srct.spec_row_count() implies #[trigger] dst.spec_cell(0, k)
            == spec_cast_slot(srct.spec_cell(column.column_index as int, k), dtag) by {
            assert(dst.spec_cell(0, k) == dst.batches@[0].spec_cell(0, k));
        }
    }
    let h = reg.insert(dst);
    Ok(Column { table_handle: h, column_index: 0 })
}

/// Gather the cells of a column at the given row indices, in the given
/// order, into a brand-new single-column table.  Succeeds exactly when
/// the view resolves to a column of a type this build can hold, every
/// index is within the column, and the handle space has room; every
/// other registry entry stays untouched.
pub fn take(reg: &mut TableRegistry, column: &Column, indices: &Vec<usize>) -> (out: CoreResult<
    Column,
>)
    requires
        spec_registry_wf(*old(reg)),
    ensures
        spec_registry_wf(*final(reg)),
        forall|h: HandleId|
            old(reg)@.contains_key(h) ==> final(reg)@.contains_key(h)
                && #[trigger] final(reg)@[h] == old(reg)@[h],
        ({
            let resolved = old(reg)@.contains_key(column.table_handle) && column.column_index
                < old(reg)@[column.table_handle].spec_col_count();
            let src = old(reg)@[column.table_handle];
            let c = column.column_index as int;
            &&& (out is Ok <==> (resolved && spec_supported_tag(src.spec_field_tag(c)) && (forall|
                j: int,
            |
                0 <= j < indices@.len() ==> (#[trigger] indices@[j]) < src.spec_row_count())
                && old(reg).next_handle() < crate::handles::HandleId::MAX))
            &&& (out matches Ok(col2) ==> {
                let dst = final(reg)@[col2.table_handle];
                &&& final(reg)@.contains_key(col2.table_handle)
                &&& !old(reg)@.contains_key(col2.table_handle)
                &&& final(reg)@ == old(reg)@.insert(col2.table_handle, dst)
                &&& col2.column_index == 0
                &&& dst.wf()
                &&& dst.spec_col_count() == 1
                &&& dst.spec_row_count() == indices@.len()
                &&& forall|j: int|
                    0 <= j < indices@.len() ==> #[trigger] dst.spec_cell(0, j) == src.spec_cell(
                        c,
                        indices@[j] as int,
                    )
            })
            &&& (out matches Err(e) ==> final(reg)@ == old(reg)@ && (e.code
                == ErrorCode::InvalidHandle || e.code == ErrorCode::TypeMismatch || e.code
                == ErrorCode::OutOfBounds || e.code == ErrorCode::Memory))
        }),
{
    let t = match reg.get(column.table_handle) {
        Some(t) => t,
        None => {
            return Err(CoreError::invalid_handle(
                String::from_str("Table has been disposed or is invalid"),
            ));
        },
    };
    if column.column_index >= t.column_count() {
        return Err(CoreError::invalid_handle(
            String::from_str("Column index does not resolve"),
        ));
    }
    let rows = t.row_count();
    let ftag = t.schema.fields[column.column_index].data_type.type_id();
    let mut piece = match ColumnData::new_empty(ftag) {
        Some(p) => p,
        None => {
            return Err(CoreError::new(
                ErrorCode::TypeMismatch,
                String::from_str("Unsupported data type for taking rows"),
            ));
        },
    };
    let n = indices.len();
    let mut j: usize = 0;
    while j < n
        invariant
            *reg == *old(reg),
            spec_registry_wf(*reg),
            old(reg)@.contains_key(column.table_handle),
            *t == old(reg)@[column.table_handle],
            t.wf(),
            column.column_index < t.spec_col_count(),
            rows == t.spec_row_count(),
            j <= n == indices@.len(),
            forall|k: int| 0 <= k < j ==> (#[trigger] indices@[k]) < rows,
            piece.spec_tag() == t.spec_field_tag(column.column_index as int),
            piece.spec_len() == j,
            forall|k: int|
                0 <= k < j ==> piece.spec_cells()[k] == t.spec_cell(
                    column.column_index as int,
                    indices@[k] as int,
                ),
        decreases n - j,
    {
        let idx = indices[j];
        if idx >= rows {
            let mut msg = String::from_str("Take index ");
            let l = crate::text::fmt_usize(idx);
            msg.append(l.as_str());
            msg.append(" is out of bounds. Column has ");
            let r = crate::text::fmt_usize(rows);
            msg.append(r.as_str());
            msg.append(" rows");
            return Err(CoreError::out_of_bounds(msg));
        }
        let cell = t.cell_value(column.column_index, idx);
        piece.push_cell(cell);
        j = j + 1;
    }
    if !reg.can_issue() {
        return Err(CoreError::memory(String::from_str("Handle space exhausted")));
    }
    let field = t.schema.fields[column.column_index].duplicate();
    let ghost src = *t;
    let mut fields: Vec<FieldDef> = Vec::new();
    fields.push(field);
    let schema = SchemaData::new(fields);
    let mut columns: Vec<ColumnData> = Vec::new();
    columns.push(piece);
    let batch = BatchData { columns };
    let mut batches: Vec<BatchData> = Vec::new();
    batches.push(batch);
    let dst = TableData { schema, batches, metadata: Vec::new() };
    proof {
        assert(dst.spec_row_count() == dst.batches@[0].spec_rows()) by {
            assert(crate::model::rows_upto(dst.batches@, 1) == crate::model::rows_upto(
                dst.batches@,
                0,
            ) + dst.batches@[0].spec_rows());
        }
        assert forall|k: int| 0 <= k < indices@.len() implies #[trigger] dst.spec_cell(0, k)
            == src.spec_cell(column.column_index as int, indices@[k] as int) by {
            assert(dst.spec_cell(0, k) == dst.batches@[0].spec_cell(0, k));
        }
    }
    let h = reg.insert(dst);
    Ok(Column { table_handle: h, column_index: 0 })
}

} // verus!
