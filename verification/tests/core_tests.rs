//! Registry, view and builder behavior on the plain-value table model.

use columnar::builder::ArrayBuilder;
use columnar::error::ErrorCode;
use columnar::handles::HandleRegistry;
use columnar::mem::{
    free_table, get_column_names, get_table, new_table_registry, store_table, table_column_count,
    table_exists, table_row_count,
};
use columnar::model::{
    BatchData, CellRead, CellValue, ColumnData, DataType, FieldDef, SchemaData, TableData,
};
use columnar::table::{Column, Row, Table};

fn test_table() -> TableData {
    let fields = vec![
        FieldDef::new("id".to_string(), DataType::new_int32(), false),
        FieldDef::new("name".to_string(), DataType::new_utf8(), true),
    ];
    let schema = SchemaData::new(fields);
    let batch = BatchData {
        columns: vec![
            ColumnData::Int32(vec![Some(1), Some(2), Some(3)]),
            ColumnData::Utf8(vec![
                Some("Alice".to_string()),
                Some("Bob".to_string()),
                None,
            ]),
        ],
    };
    TableData::new(schema, vec![batch]).unwrap()
}

fn two_batch_table() -> TableData {
    let fields = vec![FieldDef::new("v".to_string(), DataType::new_int64(), false)];
    let schema = SchemaData::new(fields);
    let b1 = BatchData { columns: vec![ColumnData::Int64(vec![Some(10), Some(20)])] };
    let b2 = BatchData { columns: vec![ColumnData::Int64(vec![Some(30), Some(40), Some(50)])] };
    TableData::new(schema, vec![b1, b2]).unwrap()
}

#[test]
fn test_registry_insert_get_remove() {
    let mut reg: HandleRegistry<u64> = HandleRegistry::new();
    let h = reg.insert(42);
    assert_ne!(h, 0);
    assert_eq!(reg.get(h), Some(&42));
    assert_eq!(reg.len(), 1);
    assert_eq!(reg.remove(h), Some(42));
    assert!(reg.get(h).is_none());
    assert_eq!(reg.len(), 0);
}

#[test]
fn test_handles_never_reused() {
    let mut reg: HandleRegistry<u64> = HandleRegistry::new();
    let a = reg.insert(1);
    reg.remove(a);
    let b = reg.insert(2);
    assert_ne!(a, b);
    assert!(reg.get(a).is_none());
    assert_eq!(reg.get(b), Some(&2));
}

#[test]
fn test_store_resolve_free() {
    let mut reg = new_table_registry();
    let h = store_table(&mut reg, test_table()).unwrap();
    assert!(table_exists(&reg, h));
    assert_eq!(table_row_count(&reg, h).unwrap(), 3);
    assert_eq!(table_column_count(&reg, h).unwrap(), 2);
    assert_eq!(get_column_names(&reg, h).unwrap(), vec!["id", "name"]);
    free_table(&mut reg, h).unwrap();
    assert!(!table_exists(&reg, h));
    let err = get_table(&reg, h).unwrap_err();
    assert_eq!(err.code, ErrorCode::InvalidHandle);
}

#[test]
fn test_slice_bounds_and_result() {
    let mut reg = new_table_registry();
    let h = store_table(&mut reg, test_table()).unwrap();
    let t = Table { handle: h };

    // Success: a 2-row window starting at row 1.
    let sliced = t.slice(&mut reg, 1, 2).unwrap();
    assert_eq!(sliced.num_rows(&reg), 2);
    // The original handle is unaffected and valid.
    assert_eq!(t.num_rows(&reg), 3);
    let col = sliced.get_column(&reg, "id").unwrap();
    assert!(matches!(col.get(&reg, 0), CellRead::Value(CellValue::Int32(2))));
    assert!(matches!(col.get(&reg, 1), CellRead::Value(CellValue::Int32(3))));

    // A zero-length slice is rejected up front.
    let err = t.slice(&mut reg, 0, 0).unwrap_err();
    assert_eq!(err.code, ErrorCode::Validation);
    // An offset past the end is a bounds error naming the row count.
    let err = t.slice(&mut reg, 5, 1).unwrap_err();
    assert_eq!(err.code, ErrorCode::OutOfBounds);
    assert!(err.message.contains("3"));
    // A range crossing the end is a bounds error.
    let err = t.slice(&mut reg, 1, 3).unwrap_err();
    assert_eq!(err.code, ErrorCode::OutOfBounds);
}

#[test]
fn test_slice_across_batches() {
    let mut reg = new_table_registry();
    let h = store_table(&mut reg, two_batch_table()).unwrap();
    let t = Table { handle: h };
    let sliced = t.slice(&mut reg, 1, 3).unwrap();
    assert_eq!(sliced.num_rows(&reg), 3);
    let col = sliced.get_column(&reg, "v").unwrap();
    assert!(matches!(col.get(&reg, 0), CellRead::Value(CellValue::Int64(20))));
    assert!(matches!(col.get(&reg, 1), CellRead::Value(CellValue::Int64(30))));
    assert!(matches!(col.get(&reg, 2), CellRead::Value(CellValue::Int64(40))));
}

#[test]
fn test_select_narrows_and_reorders() {
    let mut reg = new_table_registry();
    let h = store_table(&mut reg, test_table()).unwrap();
    let t = Table { handle: h };

    let selected = t.select(&mut reg, &vec!["name".to_string(), "id".to_string()]).unwrap();
    assert_eq!(selected.num_rows(&reg), 3);
    assert_eq!(selected.num_columns(&reg), 2);
    assert_eq!(
        get_column_names(&reg, selected.handle).unwrap(),
        vec!["name", "id"]
    );
    // Per-cell null/value status is preserved.
    let name_col = selected.get_column_at(&reg, 0).unwrap();
    assert!(matches!(name_col.get(&reg, 2), CellRead::Null));
    let id_col = selected.get_column_at(&reg, 1).unwrap();
    assert!(matches!(id_col.get(&reg, 0), CellRead::Value(CellValue::Int32(1))));

    // A missing name is rejected listing the available columns.
    let err = t.select(&mut reg, &vec!["missing".to_string()]).unwrap_err();
    assert_eq!(err.code, ErrorCode::Validation);
    assert!(err.message.contains("Available columns"));
    assert!(err.message.contains("id"));
}

#[test]
fn test_column_get_three_way() {
    let mut reg = new_table_registry();
    let h = store_table(&mut reg, test_table()).unwrap();
    let t = Table { handle: h };
    let col = t.get_column(&reg, "name").unwrap();

    // Index == length reads as the undefined sentinel.
    assert!(matches!(col.get(&reg, 3), CellRead::Undefined));
    // A cell explicitly marked null reads as the null sentinel.
    assert!(matches!(col.get(&reg, 2), CellRead::Null));
    // A valid cell reads as its typed value.
    match col.get(&reg, 0) {
        CellRead::Value(CellValue::Utf8(s)) => assert_eq!(s, "Alice"),
        other => panic!("unexpected read: {:?}", other),
    }
    // Null status helpers agree.
    assert!(col.is_null(&reg, 2));
    assert!(col.is_valid(&reg, 0));
    assert!(!col.is_null(&reg, 3));
    assert_eq!(col.length(&reg), 3);
}

#[test]
fn test_column_to_array() {
    let mut reg = new_table_registry();
    let h = store_table(&mut reg, test_table()).unwrap();
    let t = Table { handle: h };
    let col = t.get_column(&reg, "id").unwrap();
    let values = col.to_array(&reg);
    assert_eq!(values.len(), 3);
    assert!(matches!(values[0], Some(CellValue::Int32(1))));
    assert!(matches!(values[2], Some(CellValue::Int32(3))));
}

#[test]
fn test_row_access() {
    let mut reg = new_table_registry();
    let h = store_table(&mut reg, test_table()).unwrap();
    let row = Row { table_handle: h, row_index: 1 };
    assert!(matches!(row.get_at(&reg, 0), CellRead::Value(CellValue::Int32(2))));
    assert!(matches!(row.get(&reg, "name"), CellRead::Value(CellValue::Utf8(_))));
    assert!(matches!(row.get_at(&reg, 9), CellRead::Undefined));
    let pairs = row.to_object(&reg).unwrap();
    assert_eq!(pairs.len(), 2);
    assert_eq!(pairs[0].0, "id");
    assert_eq!(pairs[1].0, "name");
    let missing = Row { table_handle: h, row_index: 7 };
    assert!(missing.to_object(&reg).is_none());
}

#[test]
fn test_filter_by_mask() {
    let mut reg = new_table_registry();
    let h = store_table(&mut reg, test_table()).unwrap();
    let t = Table { handle: h };
    let filtered = t.filter(&mut reg, &vec![true, false, true]).unwrap();
    assert_eq!(filtered.num_rows(&reg), 2);
    let col = filtered.get_column(&reg, "id").unwrap();
    assert!(matches!(col.get(&reg, 0), CellRead::Value(CellValue::Int32(1))));
    assert!(matches!(col.get(&reg, 1), CellRead::Value(CellValue::Int32(3))));
    // The null cell of a kept row stays null.
    let names = filtered.get_column(&reg, "name").unwrap();
    assert!(matches!(names.get(&reg, 1), CellRead::Null));

    // A mask of the wrong length is rejected.
    let err = t.filter(&mut reg, &vec![true]).unwrap_err();
    assert_eq!(err.code, ErrorCode::Validation);
}

#[test]
fn test_column_slice_clamps() {
    let mut reg = new_table_registry();
    let h = store_table(&mut reg, test_table()).unwrap();
    let t = Table { handle: h };
    let col = t.get_column(&reg, "id").unwrap();

    // The requested length is trimmed to what is available.
    let sliced = col.slice(&mut reg, 1, 10);
    assert_eq!(sliced.length(&reg), 2);
    assert!(matches!(sliced.get(&reg, 0), CellRead::Value(CellValue::Int32(2))));

    // An offset past the end yields an empty column of the same type.
    let empty = col.slice(&mut reg, 5, 2);
    assert_eq!(empty.length(&reg), 0);
}

#[test]
fn test_builder_roundtrip() {
    let mut reg = new_table_registry();
    let mut b = ArrayBuilder::new(DataType::new_int32(), Some(8)).unwrap();
    b.append(Some(CellValue::Int32(7))).unwrap();
    b.append_null();
    b.append_values(vec![Some(CellValue::Int32(9)), None]).unwrap();
    assert_eq!(b.len(), 4);
    let col = b.finish(&mut reg).unwrap();
    assert_eq!(col.length(&reg), 4);
    assert!(matches!(col.get(&reg, 0), CellRead::Value(CellValue::Int32(7))));
    assert!(matches!(col.get(&reg, 1), CellRead::Null));
    assert!(matches!(col.get(&reg, 2), CellRead::Value(CellValue::Int32(9))));
    assert!(matches!(col.get(&reg, 3), CellRead::Null));
    // The builder was reset by finish.
    assert_eq!(b.len(), 0);
}

#[test]
fn test_builder_type_mismatch() {
    let mut b = ArrayBuilder::new(DataType::new_int32(), None).unwrap();
    let err = b.append(Some(CellValue::Utf8("x".to_string()))).unwrap_err();
    assert_eq!(err.code, ErrorCode::TypeMismatch);
    assert_eq!(b.len(), 0);
}

#[test]
fn test_builder_unsupported_type() {
    let err = ArrayBuilder::new(DataType::new_float64(), None).unwrap_err();
    assert_eq!(err.code, ErrorCode::NotImplemented);
}

#[test]
fn test_table_invariant_enforced() {
    // A batch whose column count does not match the schema is rejected.
    let fields = vec![FieldDef::new("a".to_string(), DataType::new_int32(), false)];
    let schema = SchemaData::new(fields);
    let batch = BatchData {
        columns: vec![
            ColumnData::Int32(vec![Some(1)]),
            ColumnData::Int32(vec![Some(2)]),
        ],
    };
    let err = TableData::new(schema, vec![batch]).unwrap_err();
    assert_eq!(err.code, ErrorCode::SchemaMismatch);

    // A column whose type does not match its field is rejected.
    let fields = vec![FieldDef::new("a".to_string(), DataType::new_int32(), false)];
    let schema = SchemaData::new(fields);
    let batch = BatchData { columns: vec![ColumnData::Utf8(vec![None])] };
    let err = TableData::new(schema, vec![batch]).unwrap_err();
    assert_eq!(err.code, ErrorCode::SchemaMismatch);
}

#[test]
fn test_dispose_makes_views_undefined() {
    let mut reg = new_table_registry();
    let h = store_table(&mut reg, test_table()).unwrap();
    let t = Table { handle: h };
    let col = t.get_column(&reg, "id").unwrap();
    t.dispose(&mut reg);
    assert!(matches!(col.get(&reg, 0), CellRead::Undefined));
    assert_eq!(t.num_rows(&reg), 0);
    assert!(t.get_column(&reg, "id").is_err());
    let _ = Column { table_handle: h, column_index: 0 };
}

#[test]
fn test_column_statistics() {
    let mut reg = new_table_registry();
    let h = store_table(&mut reg, test_table()).unwrap();
    let t = Table { handle: h };

    let ids = t.get_column(&reg, "id").unwrap().statistics(&reg);
    assert_eq!(ids.null_count(), 0);
    assert_eq!(ids.min(), Some("1".to_string()));
    assert_eq!(ids.max(), Some("3".to_string()));
    assert!(ids.distinct_count().is_none());

    let names = t.get_column(&reg, "name").unwrap().statistics(&reg);
    assert_eq!(names.null_count(), 1);
    assert_eq!(names.min(), Some("Alice".to_string()));
    assert_eq!(names.max(), Some("Bob".to_string()));
}

#[test]
fn test_statistics_negative_and_empty() {
    let mut reg = new_table_registry();
    let fields = vec![
        FieldDef::new("n".to_string(), DataType::new_int64(), true),
        FieldDef::new("b".to_string(), DataType::new_bool(), true),
    ];
    let schema = SchemaData::new(fields);
    let batch = BatchData {
        columns: vec![
            ColumnData::Int64(vec![Some(-5), None, Some(12)]),
            ColumnData::Bool(vec![None, None, None]),
        ],
    };
    let table = TableData::new(schema, vec![batch]).unwrap();
    let h = store_table(&mut reg, table).unwrap();
    let t = Table { handle: h };

    let n = t.get_column(&reg, "n").unwrap().statistics(&reg);
    assert_eq!(n.null_count(), 1);
    assert_eq!(n.min(), Some("-5".to_string()));
    assert_eq!(n.max(), Some("12".to_string()));

    // A column whose cells are all null has no extremes.
    let b = t.get_column(&reg, "b").unwrap().statistics(&reg);
    assert_eq!(b.null_count(), 3);
    assert!(b.min().is_none());
    assert!(b.max().is_none());
}

#[test]
fn test_table_to_array() {
    let mut reg = new_table_registry();
    let h = store_table(&mut reg, test_table()).unwrap();
    let t = Table { handle: h };
    let rows = t.to_array(&reg).unwrap();
    assert_eq!(rows.len(), 3);
    assert_eq!(rows[0].len(), 2);
    assert!(matches!(rows[1][0], Some(CellValue::Int32(2))));
    assert!(rows[2][1].is_none());
    t.dispose(&mut reg);
    assert!(t.to_array(&reg).is_none());
}

#[test]
fn test_column_metadata_accessors() {
    let mut reg = new_table_registry();
    let h = store_table(&mut reg, test_table()).unwrap();
    let t = Table { handle: h };
    let col = t.get_column(&reg, "name").unwrap();
    assert_eq!(col.name(&reg), "name");
    assert_eq!(col.data_type(&reg).type_id(), DataType::new_utf8().type_id());
    assert_eq!(col.null_count(&reg), 1);
    // A stale view falls back to the neutral readings.
    t.dispose(&mut reg);
    assert_eq!(col.name(&reg), "unknown");
    assert_eq!(col.data_type(&reg).type_id(), DataType::new_null().type_id());
    assert_eq!(col.null_count(&reg), 0);
}

#[test]
fn test_empty_batch_list_rejected() {
    let fields = vec![FieldDef::new("a".to_string(), DataType::new_int32(), false)];
    let schema = SchemaData::new(fields);
    let err = TableData::new(schema, vec![]).unwrap_err();
    assert_eq!(err.code, ErrorCode::Validation);
}

#[test]
fn test_take_gathers_rows() {
    let mut reg = new_table_registry();
    let h = store_table(&mut reg, test_table()).unwrap();
    let t = Table { handle: h };
    let col = t.get_column(&reg, "id").unwrap();

    // Gather with repetition and reordering.
    let taken = columnar::compute::take(&mut reg, &col, &vec![2, 0, 0]).unwrap();
    assert_eq!(taken.length(&reg), 3);
    assert!(matches!(taken.get(&reg, 0), CellRead::Value(CellValue::Int32(3))));
    assert!(matches!(taken.get(&reg, 1), CellRead::Value(CellValue::Int32(1))));
    assert!(matches!(taken.get(&reg, 2), CellRead::Value(CellValue::Int32(1))));
    // The source is untouched.
    assert_eq!(col.length(&reg), 3);

    // Null status is preserved.
    let names = t.get_column(&reg, "name").unwrap();
    let picked = columnar::compute::take(&mut reg, &names, &vec![2]).unwrap();
    assert!(matches!(picked.get(&reg, 0), CellRead::Null));

    // An out-of-bounds index is rejected naming the row count.
    let err = columnar::compute::take(&mut reg, &col, &vec![0, 9]).unwrap_err();
    assert_eq!(err.code, ErrorCode::OutOfBounds);
    assert!(err.message.contains("3"));
}

#[test]
fn test_cast_between_types() {
    let mut reg = new_table_registry();
    let h = store_table(&mut reg, test_table()).unwrap();
    let t = Table { handle: h };
    let ids = t.get_column(&reg, "id").unwrap();

    // Widening cast to 64-bit integers.
    let wide = columnar::compute::cast(&mut reg, &ids, DataType::new_int64()).unwrap();
    assert!(matches!(wide.get(&reg, 0), CellRead::Value(CellValue::Int64(1))));
    assert!(matches!(wide.get(&reg, 2), CellRead::Value(CellValue::Int64(3))));
    assert_eq!(wide.data_type(&reg).type_id(), DataType::new_int64().type_id());

    // Rendering cast to text; nulls stay null.
    let names = t.get_column(&reg, "name").unwrap();
    let texts = columnar::compute::cast(&mut reg, &ids, DataType::new_utf8()).unwrap();
    match texts.get(&reg, 1) {
        CellRead::Value(CellValue::Utf8(s)) => assert_eq!(s, "2"),
        other => panic!("unexpected read: {:?}", other),
    }
    let name_copy = columnar::compute::cast(&mut reg, &names, DataType::new_utf8()).unwrap();
    assert!(matches!(name_copy.get(&reg, 2), CellRead::Null));

    // An undefined cast is rejected.
    let err = columnar::compute::cast(&mut reg, &names, DataType::new_int32()).unwrap_err();
    assert_eq!(err.code, ErrorCode::TypeMismatch);
}
