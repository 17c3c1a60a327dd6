//! Round trips through the real engine codecs: encode a table, decode the
//! bytes, and compare what comes back.

use columnar::compression::{default_uncompressed_ipc_options, is_lz4_supported};
use columnar::mem::{
    clear_all_tables, free_table, get_table, get_table_format_info, new_table_registry,
    read_table_from_bytes, store_table, table_column_count, table_row_count, validate_arrow_data,
    write_table_to_ipc_bytes, write_table_to_ipc_stream, write_table_with_compression,
};
use columnar::model::{
    BatchData, CellRead, CellValue, ColumnData, DataType, FieldDef, SchemaData, TableData,
};
use columnar::table::{Table, TableRegistry};
use arrow_array::{Int8Array, RecordBatch, UInt32Array};
use arrow_schema::{DataType as EngineType, Field as EngineField, Schema as EngineSchema};
use std::sync::Arc;

fn create_test_table(reg: &mut TableRegistry) -> u32 {
    let fields = vec![
        FieldDef::new("id".to_string(), DataType::new_int32(), false),
        FieldDef::new("name".to_string(), DataType::new_utf8(), true),
    ];
    let schema = SchemaData::new(fields);
    let batch = BatchData {
        columns: vec![
            ColumnData::Int32(vec![Some(1), Some(2), Some(3)]),
            ColumnData::Utf8(vec![
                Some("Alice".to_string()),
                Some("Bob".to_string()),
                None,
            ]),
        ],
    };
    let table = TableData::new(schema, vec![batch]).unwrap();
    store_table(reg, table).unwrap()
}

#[test]
fn test_ipc_round_trip() {
    let mut reg = new_table_registry();
    clear_all_tables(&mut reg);

    let original_handle = create_test_table(&mut reg);

    let options = default_uncompressed_ipc_options();
    let ipc_bytes = write_table_to_ipc_bytes(&reg, original_handle, &options).unwrap();

    let restored_handle = read_table_from_bytes(&mut reg, &ipc_bytes).unwrap();

    let original_rows = table_row_count(&reg, original_handle).unwrap();
    let restored_rows = table_row_count(&reg, restored_handle).unwrap();
    assert_eq!(original_rows, restored_rows);
    let original_cols = table_column_count(&reg, original_handle).unwrap();
    let restored_cols = table_column_count(&reg, restored_handle).unwrap();
    assert_eq!(original_cols, restored_cols);
    let original_batches = get_table(&reg, original_handle).unwrap().batches.len();
    let restored_batches = get_table(&reg, restored_handle).unwrap().batches.len();
    assert_eq!(original_batches, restored_batches);

    free_table(&mut reg, original_handle).unwrap();
    free_table(&mut reg, restored_handle).unwrap();
}

#[test]
fn test_stream_round_trip() {
    let mut reg = new_table_registry();
    clear_all_tables(&mut reg);

    let original_handle = create_test_table(&mut reg);

    let stream_bytes = write_table_to_ipc_stream(&reg, original_handle).unwrap();
    let restored_handle = read_table_from_bytes(&mut reg, &stream_bytes).unwrap();

    assert_eq!(
        table_row_count(&reg, original_handle).unwrap(),
        table_row_count(&reg, restored_handle).unwrap()
    );
    assert_eq!(
        table_column_count(&reg, original_handle).unwrap(),
        table_column_count(&reg, restored_handle).unwrap()
    );

    free_table(&mut reg, original_handle).unwrap();
    free_table(&mut reg, restored_handle).unwrap();
}

#[test]
fn test_round_trip_preserves_cells() {
    let mut reg = new_table_registry();
    let h = create_test_table(&mut reg);
    let bytes = write_table_to_ipc_bytes(&reg, h, &default_uncompressed_ipc_options()).unwrap();
    let h2 = read_table_from_bytes(&mut reg, &bytes).unwrap();
    let t2 = Table { handle: h2 };
    let ids = t2.get_column(&reg, "id").unwrap();
    assert!(matches!(ids.get(&reg, 0), CellRead::Value(CellValue::Int32(1))));
    assert!(matches!(ids.get(&reg, 2), CellRead::Value(CellValue::Int32(3))));
    let names = t2.get_column(&reg, "name").unwrap();
    match names.get(&reg, 1) {
        CellRead::Value(CellValue::Utf8(s)) => assert_eq!(s, "Bob"),
        other => panic!("unexpected read: {:?}", other),
    }
    assert!(matches!(names.get(&reg, 2), CellRead::Null));
}

#[test]
fn test_table_format_info() {
    let mut reg = new_table_registry();
    clear_all_tables(&mut reg);

    let handle = create_test_table(&mut reg);
    let info = get_table_format_info(&reg, handle).unwrap();

    assert!(info.contains("2 fields"));
    assert!(info.contains("1 batches"));
    assert!(info.contains("3 total rows"));

    free_table(&mut reg, handle).unwrap();
}

#[test]
fn test_write_with_compression_options() {
    let mut reg = new_table_registry();
    clear_all_tables(&mut reg);

    let handle = create_test_table(&mut reg);

    let uncompressed_data = write_table_with_compression(&reg, handle, false).unwrap();
    assert!(!uncompressed_data.is_empty());

    if is_lz4_supported() {
        let compressed_data = write_table_with_compression(&reg, handle, true).unwrap();
        assert!(!compressed_data.is_empty());
        println!("Uncompressed size: {}", uncompressed_data.len());
        println!("Compressed size: {}", compressed_data.len());
    }

    free_table(&mut reg, handle).unwrap();
}

#[test]
fn test_roundtrip_with_compression() {
    let mut reg = new_table_registry();
    clear_all_tables(&mut reg);

    let original_handle = create_test_table(&mut reg);

    let compressed_data = write_table_with_compression(&reg, original_handle, true).unwrap();
    let restored_handle = read_table_from_bytes(&mut reg, &compressed_data).unwrap();

    assert_eq!(
        table_row_count(&reg, original_handle).unwrap(),
        table_row_count(&reg, restored_handle).unwrap()
    );
    assert_eq!(
        table_column_count(&reg, original_handle).unwrap(),
        table_column_count(&reg, restored_handle).unwrap()
    );
    let original_batches = get_table(&reg, original_handle).unwrap().batches.len();
    let restored_batches = get_table(&reg, restored_handle).unwrap().batches.len();
    assert_eq!(original_batches, restored_batches);

    free_table(&mut reg, original_handle).unwrap();
    free_table(&mut reg, restored_handle).unwrap();
}

#[test]
fn test_validate_arrow_data() {
    let mut reg = new_table_registry();
    let handle = create_test_table(&mut reg);
    let bytes = write_table_to_ipc_bytes(&reg, handle, &default_uncompressed_ipc_options())
        .unwrap();
    assert_eq!(validate_arrow_data(&bytes).unwrap(), true);
    assert_eq!(validate_arrow_data(b"ABC").unwrap(), false);
}

#[test]
fn test_unreadable_bytes_fail_with_io_error() {
    let mut reg = new_table_registry();
    // A buffer the sniffer speculatively classifies as headerless Arrow
    // data, which the engine then refuses to decode.
    let mut data = vec![16u8, 0, 0, 0];
    data.extend_from_slice(&[7u8; 28]);
    let err = read_table_from_bytes(&mut reg, &data).unwrap_err();
    assert_eq!(err.code, columnar::error::ErrorCode::Io);
}

#[test]
fn test_multi_batch_round_trip() {
    let mut reg = new_table_registry();
    let fields = vec![FieldDef::new("v".to_string(), DataType::new_int64(), false)];
    let schema = SchemaData::new(fields);
    let b1 = BatchData { columns: vec![ColumnData::Int64(vec![Some(10), Some(20)])] };
    let b2 = BatchData { columns: vec![ColumnData::Int64(vec![Some(30)])] };
    let table = TableData::new(schema, vec![b1, b2]).unwrap();
    let h = store_table(&mut reg, table).unwrap();
    let bytes = write_table_to_ipc_bytes(&reg, h, &default_uncompressed_ipc_options()).unwrap();
    let h2 = read_table_from_bytes(&mut reg, &bytes).unwrap();
    assert_eq!(table_row_count(&reg, h2).unwrap(), 3);
    assert_eq!(get_table(&reg, h2).unwrap().batches.len(), 2);
}

#[test]
fn test_narrow_integer_columns_widen() {
    // Narrow and unsigned integer columns decode as the library type
    // they widen into losslessly.
    let schema = Arc::new(EngineSchema::new(vec![
        EngineField::new("small", EngineType::Int8, true),
        EngineField::new("unsigned", EngineType::UInt32, false),
    ]));
    let batch = RecordBatch::try_new(
        schema.clone(),
        vec![
            Arc::new(Int8Array::from(vec![Some(-5i8), None])),
            Arc::new(UInt32Array::from(vec![3_000_000_000u32, 7])),
        ],
    )
    .unwrap();
    let mut buf = Vec::new();
    {
        let mut w = arrow_ipc::writer::FileWriter::try_new(&mut buf, &schema).unwrap();
        w.write(&batch).unwrap();
        w.finish().unwrap();
    }
    let mut reg = new_table_registry();
    let h = read_table_from_bytes(&mut reg, &buf).unwrap();
    let t = Table { handle: h };
    let small = t.get_column(&reg, "small").unwrap();
    assert!(matches!(small.get(&reg, 0), CellRead::Value(CellValue::Int32(-5))));
    assert!(matches!(small.get(&reg, 1), CellRead::Null));
    let unsigned = t.get_column(&reg, "unsigned").unwrap();
    assert!(matches!(
        unsigned.get(&reg, 0),
        CellRead::Value(CellValue::Int64(3_000_000_000))
    ));
    assert!(matches!(unsigned.get(&reg, 1), CellRead::Value(CellValue::Int64(7))));
}
