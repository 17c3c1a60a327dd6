//! Array builders: columns assembled cell by cell and then registered as
//! single-column tables, so the host can construct data across the
//! boundary without sharing pointers.

use vstd::prelude::*;
use crate::error::{CoreError, CoreResult, ErrorCode};
use crate::handles::HandleId;
use crate::model::{
    BatchData, CellSlot, CellValue, ColumnData, DataType, FieldDef, SchemaData, TableData,
};
use crate::table::{Column, TableRegistry, spec_col_seq, spec_registry_wf, spec_supported_tag};

verus! {

/// Builder for one column of one logical type.
#[derive(Debug)]
pub struct ArrayBuilder {
    data_type: DataType,
    col: ColumnData,
}

impl ArrayBuilder {
    /// The cells appended so far carry the builder's own type.
    pub closed spec fn wf(&self) -> bool {
        self.col.spec_tag() == self.data_type.spec_type_id()
    }

    pub closed spec fn spec_cells(&self) -> Seq<CellSlot> {
        self.col.spec_cells()
    }

    pub closed spec fn spec_data_type(&self) -> DataType {
        self.data_type
    }

    /// A fresh builder; logical types this build cannot hold cells of
    /// are rejected.  The capacity hint only pre-sizes storage.
    pub fn new(data_type: DataType, capacity: Option<usize>) -> (out: CoreResult<ArrayBuilder>)
        ensures
            match out {
                Ok(b) => {
                    &&& b.wf()
                    &&& b.spec_data_type() == data_type
                    &&& b.spec_cells() == Seq::<CellSlot>::empty()
                },
                Err(e) => !spec_supported_tag(data_type.spec_type_id()) && e.code
                    == ErrorCode::NotImplemented,
            },
    {
        let _ = capacity;
        match ColumnData::new_empty(data_type.type_id()) {
            Some(col) => Ok(ArrayBuilder { data_type, col }),
            None => Err(CoreError::not_implemented(
                String::from_str("Unsupported data type for building"),
            )),
        }
    }

    pub fn data_type(&self) -> (r: DataType)
        ensures
            r == self.spec_data_type(),
    {
        self.data_type
    }

    /// Cells appended so far.
    pub fn len(&self) -> (r: usize)
        ensures
            r == self.spec_cells().len(),
    {
        self.col.len()
    }

    /// Append one slot; a value of another logical type is rejected and
    /// changes nothing.
    pub fn append(&mut self, value: Option<CellValue>) -> (out: CoreResult<()>)
        requires
            old(self).wf(),
        ensures
            final(self).wf(),
            final(self).spec_data_type() == old(self).spec_data_type(),
            match value {
                Some(c) => {
                    if c.spec_tag() == old(self).spec_data_type().spec_type_id() {
                        out is Ok && final(self).spec_cells() == old(self).spec_cells().push(
                            Some(c@),
                        )
                    } else {
                        out is Err && final(self).spec_cells() == old(self).spec_cells()
                    }
                },
                None => out is Ok && final(self).spec_cells() == old(self).spec_cells().push(None),
            },
    {
        match value {
            Some(c) => {
                if c.tag() == self.data_type.type_id() {
                    self.col.push_cell(Some(c));
                    Ok(())
                } else {
                    Err(CoreError::new(
                        ErrorCode::TypeMismatch,
                        String::from_str("Value does not carry the builder's data type"),
                    ))
                }
            },
            None => {
                self.col.push_cell(None);
                Ok(())
            },
        }
    }

    /// Append an explicitly null cell.
    pub fn append_null(&mut self)
        requires
            old(self).wf(),
        ensures
            final(self).wf(),
            final(self).spec_data_type() == old(self).spec_data_type(),
            final(self).spec_cells() == old(self).spec_cells().push(None),
    {
        self.col.push_cell(None);
    }

    /// Append several slots in order; the first value of another logical
    /// type stops the run with an error, keeping what was appended before
    /// it.
    pub fn append_values(&mut self, values: Vec<Option<CellValue>>) -> (out: CoreResult<()>)
        requires
            old(self).wf(),
        ensures
            final(self).wf(),
            final(self).spec_data_type() == old(self).spec_data_type(),
            out is Ok ==> final(self).spec_cells().len() == old(self).spec_cells().len()
                + values@.len(),
    {
        let n = values.len();
        let mut values = values;
        let mut i: usize = 0;
        while i < n
            invariant
                i <= n,
                values@.len() == n - i,
                self.wf(),
                self.spec_data_type() == old(self).spec_data_type(),
                self.spec_cells().len() == old(self).spec_cells().len() + i,
            decreases n - i,
        {
            let v = values.remove(0);
            match self.append(v) {
                Ok(_) => {},
                Err(e) => {
                    return Err(e);
                },
            }
            i = i + 1;
        }
        Ok(())
    }

    /// Finish the column: register it as a single-column, single-batch
    /// table holding exactly the appended cells, hand back a column view
    /// of it, and reset the builder.  Fails only when the handle space is
    /// exhausted.
    pub fn finish(&mut self, reg: &mut TableRegistry) -> (out: CoreResult<Column>)
        requires
            old(self).wf(),
            spec_registry_wf(*old(reg)),
        ensures
            final(self).wf(),
            final(self).spec_data_type() == old(self).spec_data_type(),
            spec_registry_wf(*final(reg)),
            forall|h: HandleId|
                old(reg)@.contains_key(h) ==> final(reg)@.contains_key(h)
                    && #[trigger] final(reg)@[h] == old(reg)@[h],
            old(reg).next_handle() < crate::handles::HandleId::MAX ==> out is Ok,
            match out {
                Ok(col) => {
                    let dst = final(reg)@[col.table_handle];
                    &&& final(reg)@.contains_key(col.table_handle)
                    &&& !old(reg)@.contains_key(col.table_handle)
                    &&& final(reg)@ == old(reg)@.insert(col.table_handle, dst)
                    &&& col.column_index == 0
                    &&& dst.wf()
                    &&& dst.spec_col_count() == 1
                    &&& dst.schema.fields@[0].name@ == "built_column"@
                    &&& dst.schema.fields@[0].nullable
                    &&& dst.schema.fields@[0].data_type == old(self).spec_data_type()
                    &&& dst.spec_row_count() == old(self).spec_cells().len()
                    &&& spec_col_seq(dst, 0) == old(self).spec_cells()
                    &&& final(self).spec_cells() == Seq::<CellSlot>::empty()
                },
                Err(e) => final(reg)@ == old(reg)@ && e.code == ErrorCode::Memory,
            },
    {
        if !reg.can_issue() {
            return Err(CoreError::memory(String::from_str("Handle space exhausted")));
        }
        let fresh = match ColumnData::new_empty(self.data_type.type_id()) {
            Some(c) => c,
            None => ColumnData::Bool(Vec::new()),
        };
        let mut col = fresh;
        std::mem::swap(&mut col, &mut self.col);
        let n = col.len();
        let field = FieldDef::new(String::from_str("built_column"), self.data_type, true);
        let mut fields: Vec<FieldDef> = Vec::new();
        fields.push(field);
        let schema = SchemaData::new(fields);
        let mut columns: Vec<ColumnData> = Vec::new();
        columns.push(col);
        let batch = BatchData { columns };
        let mut batches: Vec<BatchData> = Vec::new();
        batches.push(batch);
        let ghost cells = old(self).spec_cells();
        proof {
            // The single batch fits the single-field schema exactly, so
            // the table constructor cannot reject it.
            assert(batches@[0].wf());
            assert(crate::model::spec_consistent(schema, batches@));
            assert(crate::model::spec_total_rows(batches@) == batches@[0].spec_rows()) by {
                assert(crate::model::rows_upto(batches@, 1) == crate::model::rows_upto(batches@, 0)
                    + batches@[0].spec_rows());
            }
        }
        let table = match TableData::new(schema, batches) {
            Ok(t) => t,
            Err(_) => {
                proof {
                    assert(false);
                }
                return Err(CoreError::memory(
                    String::from_str("Handle space exhausted"),
                ));
            },
        };
        proof {
            assert(table.spec_row_count() == table.batches@[0].spec_rows()) by {
                assert(crate::model::rows_upto(table.batches@, 1) == crate::model::rows_upto(
                    table.batches@,
                    0,
                ) + table.batches@[0].spec_rows());
            }
            assert forall|j: int| 0 <= j < cells.len() implies spec_col_seq(table, 0)[j]
                == cells[j] by {
                assert(table.spec_cell(0, j) == table.batches@[0].spec_cell(0, j));
            }
            assert(spec_col_seq(table, 0) =~= cells);
        }
        let h = reg.insert(table);
        Ok(Column { table_handle: h, column_index: 0 })
    }

    /// Drop every appended cell, keeping the builder's type.
    pub fn clear(&mut self)
        requires
            old(self).wf(),
        ensures
            final(self).wf(),
            final(self).spec_data_type() == old(self).spec_data_type(),
            final(self).spec_cells() == Seq::<CellSlot>::empty(),
    {
        let fresh = match ColumnData::new_empty(self.data_type.type_id()) {
            Some(c) => c,
            None => ColumnData::Bool(Vec::new()),
        };
        self.col = fresh;
        proof {
            assert(self.spec_cells() =~= Seq::<CellSlot>::empty());
        }
    }
}

/// Create an array builder for the given data type.
pub fn create_builder(data_type: DataType, capacity: Option<usize>) -> (out: CoreResult<
    ArrayBuilder,
>)
    ensures
        match out {
            Ok(b) => b.wf() && b.spec_data_type() == data_type && b.spec_cells() == Seq::<
                CellSlot,
            >::empty(),
            Err(e) => !spec_supported_tag(data_type.spec_type_id()),
        },
{
    ArrayBuilder::new(data_type, capacity)
}

} // verus!
