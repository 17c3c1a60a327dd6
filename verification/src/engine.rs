//! The data engine: the external collaborator that performs the actual
//! decode/encode of the columnar wire formats.  Every call into it goes
//! through a narrow trusted wrapper from plain values to plain values;
//! the logic around the calls — walking schemas and batches, validating
//! what came back, and building the library's table model — is verified.
//! Every table the engine hands out satisfies the table invariant.

use vstd::prelude::*;
use vstd::slice::slice_to_vec;
use std::sync::Arc;
use arrow_array::{Int8Array, Int16Array, Int32Array, Int64Array, UInt8Array, UInt16Array, UInt32Array};
use arrow_schema::DataType as AType;
use crate::compression::{CompressionType, IpcWriteConfig};
use crate::detect::FileFormat;
use crate::error::{CoreError, CoreResult, ErrorCode};
use crate::model::{
    BatchData, CellSlot, ColumnData, FieldModel, SchemaData, TableData, TYPE_BOOL, TYPE_INT32,
    TYPE_INT64, TYPE_UTF8,
};

verus! {

#[verifier::external_type_specification]
#[verifier::external_body]
pub struct ExArrowSchema(arrow_schema::Schema);

#[verifier::external_type_specification]
#[verifier::external_body]
pub struct ExArrowField(arrow_schema::Field);

// The engine's writers, readers and batches index into reference-counted
// array trait objects, and their trait impls name types the verifier
// refuses to declare; each is therefore held opaquely in a private field
// of a holder struct and only ever passed through the trusted wrappers.

#[verifier::external_body]
pub struct IpcFileWriter {
    inner: arrow_ipc::writer::FileWriter<Vec<u8>>,
}

#[verifier::external_body]
pub struct IpcStreamWriter {
    inner: arrow_ipc::writer::StreamWriter<Vec<u8>>,
}

#[verifier::external_body]
pub struct IpcFileReader {
    inner: arrow_ipc::reader::FileReader<std::io::Cursor<Vec<u8>>>,
}

#[verifier::external_body]
pub struct IpcStreamReader {
    inner: arrow_ipc::reader::StreamReader<std::io::Cursor<Vec<u8>>>,
}

#[verifier::external_body]
pub struct ParquetBatchReader {
    inner: parquet::arrow::arrow_reader::ParquetRecordBatchReader,
}

#[verifier::external_type_specification]
#[verifier::external_body]
pub struct ExArrayData(arrow_data::ArrayData);

/// One engine-side column of one batch, carried in the engine's
/// type-erased array-data form so it can be passed through without the
/// verifier needing the engine's array trait.
pub struct ArrChunk {
    data: arrow_data::ArrayData,
}

/// One engine-side row batch.  The engine's batch type indexes into
/// reference-counted array trait objects that cannot be declared to the
/// verifier, so the batch is held opaquely and only ever passed through.
#[verifier::external_body]
pub struct EngineBatch {
    inner: arrow_array::RecordBatch,
}

/// Model of one engine-side column: its logical-type tag and its cells.
pub type EngineColM = (u32, Seq<CellSlot>);

/// Model of one engine-side batch: its columns in order.
pub type EngineBatchM = Seq<EngineColM>;

/// Model of a reader's remaining yields: one entry per batch it will
/// hand out, `None` for a batch that will fail to decode.
pub type EnginePendM = Seq<Option<EngineBatchM>>;

/// What an engine field is: its model.  Declared only by the claims the
/// trusted wrappers make of it.
pub uninterp spec fn arrow_field_model(f: arrow_schema::Field) -> FieldModel;

/// What an engine schema holds: its fields' models, in order.
pub uninterp spec fn arrow_schema_model(s: Arc<arrow_schema::Schema>) -> Seq<FieldModel>;

/// What an engine array chunk holds: its logical-type tag and cells.
pub uninterp spec fn chunk_model(c: ArrChunk) -> EngineColM;

/// What an engine batch holds: its columns' tags and cells, in order.
pub uninterp spec fn engine_batch_model(b: EngineBatch) -> EngineBatchM;

/// The field models of the schema an engine batch carries.
pub uninterp spec fn engine_batch_fields(b: EngineBatch) -> Seq<FieldModel>;

/// Relies on `arrow_schema::Field::new`: a field of the named logical
/// type, carrying exactly the given name, type tag and nullability; tags
/// outside the engine's repertoire yield nothing.
#[verifier::external_body]
fn mk_field(name: &str, tag: u32, nullable: bool) -> (out: Option<arrow_schema::Field>)
    ensures
        out is Some <==> tag <= 7,
        out matches Some(f) ==> arrow_field_model(f) == (FieldModel {
            name: name@,
            type_id: tag,
            nullable,
        }),
{
    let dt = match tag {
        0 => AType::Null,
        1 => AType::Boolean,
        2 => AType::Int32,
        3 => AType::Int64,
        4 => AType::Float32,
        5 => AType::Float64,
        6 => AType::Utf8,
        7 => AType::LargeBinary,
        _ => {
            return None;
        },
    };
    Some(arrow_schema::Field::new(name, dt, nullable))
}

/// Relies on `arrow_schema::Schema::new`: a schema holding exactly the
/// given fields, in order.
#[verifier::external_body]
fn mk_schema(fields: Vec<arrow_schema::Field>) -> (out: Arc<arrow_schema::Schema>)
    ensures
        arrow_schema_model(out) == fields@.map_values(|f: arrow_schema::Field| arrow_field_model(f)),
{
    Arc::new(arrow_schema::Schema::new(fields))
}

/// Relies on `arrow_schema::Schema::fields`: the number of fields.
#[verifier::external_body]
fn schema_len(schema: &Arc<arrow_schema::Schema>) -> (r: usize)
    ensures
        r == arrow_schema_model(*schema).len(),
{
    schema.fields().len()
}

/// Relies on `arrow_schema::Schema::field`: name, logical-type tag and
/// nullability of field `i`.  Narrower and unsigned integer types read
/// as the library tag they widen into losslessly (8/16-bit and unsigned
/// 8/16-bit integers as 32-bit, unsigned 32-bit as 64-bit); an unknown
/// logical type reads as `u32::MAX`, which decode rejects.
#[verifier::external_body]
fn schema_field_info(schema: &Arc<arrow_schema::Schema>, i: usize) -> (out: Option<
    (String, u32, bool),
>)
    ensures
        ({
            let m = arrow_schema_model(*schema);
            match out {
                Some(info) => i < m.len() && m[i as int] == (FieldModel {
                    name: info.0@,
                    type_id: info.1,
                    nullable: info.2,
                }),
                None => i >= m.len(),
            }
        }),
{
    let f = schema.fields().get(i)?;
    let tag: u32 = match f.data_type() {
        AType::Null => 0,
        AType::Boolean => 1,
        AType::Int32 | AType::Int8 | AType::Int16 | AType::UInt8 | AType::UInt16 => 2,
        AType::Int64 | AType::UInt32 => 3,
        AType::Float32 => 4,
        AType::Float64 => 5,
        AType::Utf8 => 6,
        AType::LargeBinary => 7,
        _ => u32::MAX,
    };
    Some((f.name().clone(), tag, f.is_nullable()))
}

/// Relies on `arrow_array::BooleanArray::from`: an array holding exactly
/// the given cells.
#[verifier::external_body]
fn mk_bool_chunk(v: &Vec<Option<bool>>) -> (out: ArrChunk)
    ensures
        chunk_model(out) == (TYPE_BOOL, ColumnData::Bool(*v).spec_cells()),
{
    ArrChunk { data: arrow_array::Array::to_data(&arrow_array::BooleanArray::from(v.clone())) }
}

/// Relies on `arrow_array::Int32Array::from`: an array holding exactly
/// the given cells.
#[verifier::external_body]
fn mk_i32_chunk(v: &Vec<Option<i32>>) -> (out: ArrChunk)
    ensures
        chunk_model(out) == (TYPE_INT32, ColumnData::Int32(*v).spec_cells()),
{
    ArrChunk { data: arrow_array::Array::to_data(&arrow_array::Int32Array::from(v.clone())) }
}

/// Relies on `arrow_array::Int64Array::from`: an array holding exactly
/// the given cells.
#[verifier::external_body]
fn mk_i64_chunk(v: &Vec<Option<i64>>) -> (out: ArrChunk)
    ensures
        chunk_model(out) == (TYPE_INT64, ColumnData::Int64(*v).spec_cells()),
{
    ArrChunk { data: arrow_array::Array::to_data(&arrow_array::Int64Array::from(v.clone())) }
}

/// Total characters held by the first `n` cells of a text column.
pub open spec fn spec_utf8_chars_upto(v: Seq<Option<String>>, n: int) -> int
    decreases n,
{
    if n <= 0 {
        0
    } else {
        spec_utf8_chars_upto(v, n - 1) + (match v[n - 1] {
            Some(s) => s@.len() as int,
            None => 0int,
        })
    }
}

/// Character prefix totals only grow.
proof fn lemma_utf8_chars_mono(v: Seq<Option<String>>, i: int, j: int)
    requires
        0 <= i <= j,
    ensures
        spec_utf8_chars_upto(v, i) <= spec_utf8_chars_upto(v, j),
    decreases j - i,
{
    if i < j {
        lemma_utf8_chars_mono(v, i, j - 1);
    }
}

/// Whether a text column fits the engine's 32-bit string offsets: a
/// character encodes to at most four bytes, so bounding four times the
/// character count keeps the cumulative byte offsets representable.
fn utf8_fits_engine_offsets(v: &Vec<Option<String>>) -> (r: bool)
    ensures
        r == (spec_utf8_chars_upto(v@, v@.len() as int) * 4 <= 0x7fff_ffff),
{
    let n = v.len();
    let mut acc: u64 = 0;
    let mut i: usize = 0;
    while i < n
        invariant
            i <= n == v@.len(),
            acc == spec_utf8_chars_upto(v@, i as int),
            acc * 4 <= 0x7fff_ffff,
        decreases n - i,
    {
        let l: u64 = match &v[i] {
            Some(s) => s.as_str().unicode_len() as u64,
            None => 0,
        };
        if l > 536_870_911 - acc {
            proof {
                lemma_utf8_chars_mono(v@, i as int + 1, v@.len() as int);
            }
            return false;
        }
        acc = acc + l;
        i = i + 1;
    }
    true
}

/// Relies on `arrow_array::StringArray::from`.  The engine stores string
/// data behind 32-bit offsets and aborts when they overflow, so the
/// cells' total text is bounded before the call (a character encodes to
/// at most four bytes).
#[verifier::external_body]
fn mk_utf8_chunk(v: &Vec<Option<String>>) -> (out: ArrChunk)
    requires
        spec_utf8_chars_upto(v@, v@.len() as int) * 4 <= 0x7fff_ffff,
    ensures
        chunk_model(out) == (TYPE_UTF8, ColumnData::Utf8(*v).spec_cells()),
{
    ArrChunk { data: arrow_array::Array::to_data(&arrow_array::StringArray::from(v.clone())) }
}

/// Relies on `arrow_array::RecordBatch::try_new`: on success the batch
/// holds exactly the given columns under the given schema.
#[verifier::external_body]
fn mk_batch(schema: &Arc<arrow_schema::Schema>, cols: Vec<ArrChunk>) -> (out: Result<
    EngineBatch,
    String,
>)
    ensures
        out matches Ok(b) ==> engine_batch_model(b) == cols@.map_values(
            |c: ArrChunk| chunk_model(c),
        ) && engine_batch_fields(b) == arrow_schema_model(*schema),
{
    let arrays: Vec<arrow_array::ArrayRef> = cols.into_iter().map(|c| arrow_array::array::make_array(c.data)).collect();
    arrow_array::RecordBatch::try_new(schema.clone(), arrays).map(|b| EngineBatch { inner: b }).map_err(|e| e.to_string())
}

/// Relies on `arrow_array::RecordBatch::columns` and the boolean array's
/// iterator: the cells of column `i`, if it is a boolean column.
#[verifier::external_body]
fn batch_col_bool(b: &EngineBatch, i: usize) -> (out: Option<Vec<Option<bool>>>)
    ensures
        ({
            let bm = engine_batch_model(*b);
            match out {
                Some(v) => i < bm.len() && bm[i as int] == (TYPE_BOOL, ColumnData::Bool(v).spec_cells()),
                None => !(i < bm.len() && bm[i as int].0 == TYPE_BOOL),
            }
        }),
{
    let col = b.inner.columns().get(i)?;
    let arr = col.as_any().downcast_ref::<arrow_array::BooleanArray>()?;
    Some(arr.iter().collect())
}

/// Whether column `i` of a batch is of the signed 32-bit-widening
/// family (32/16/8-bit signed) rather than the unsigned one; the two
/// extractors below partition the 32-bit tag along it.
pub uninterp spec fn engine_col_signed_small(b: EngineBatch, i: int) -> bool;

/// Relies on `arrow_array::RecordBatch::columns` and the primitive
/// arrays' iterators: the cells of column `i`, if it is a signed column
/// that widens losslessly into 32-bit integers, each value widened one
/// for one, matching the tag `schema_field_info` reports.
#[verifier::external_body]
fn batch_col_i32(b: &EngineBatch, i: usize) -> (out: Option<Vec<Option<i32>>>)
    ensures
        ({
            let bm = engine_batch_model(*b);
            match out {
                Some(v) => i < bm.len() && bm[i as int] == (TYPE_INT32, ColumnData::Int32(v).spec_cells()),
                None => !(i < bm.len() && bm[i as int].0 == TYPE_INT32 && engine_col_signed_small(
                    *b,
                    i as int,
                )),
            }
        }),
{
    let c = b.inner.columns().get(i)?.as_any();
    if let Some(a) = c.downcast_ref::<Int32Array>() {
        return Some(a.iter().collect());
    }
    let w8 = c.downcast_ref::<Int8Array>().map(|a| a.iter().map(|o| o.map(i32::from)).collect());
    let w16 = c.downcast_ref::<Int16Array>().map(|a| a.iter().map(|o| o.map(i32::from)).collect());
    w8.or(w16)
}

/// Relies on the same accessors: the cells of column `i`, if it is an
/// unsigned column that widens losslessly into 32-bit integers, each
/// value widened one for one.
#[verifier::external_body]
fn batch_col_u_small(b: &EngineBatch, i: usize) -> (out: Option<Vec<Option<i32>>>)
    ensures
        ({
            let bm = engine_batch_model(*b);
            match out {
                Some(v) => i < bm.len() && bm[i as int] == (TYPE_INT32, ColumnData::Int32(v).spec_cells()),
                None => !(i < bm.len() && bm[i as int].0 == TYPE_INT32 && !engine_col_signed_small(
                    *b,
                    i as int,
                )),
            }
        }),
{
    let c = b.inner.columns().get(i)?.as_any();
    let u8w = c.downcast_ref::<UInt8Array>().map(|a| a.iter().map(|o| o.map(i32::from)).collect());
    let u16w = c.downcast_ref::<UInt16Array>().map(|a| a.iter().map(|o| o.map(i32::from)).collect());
    u8w.or(u16w)
}

/// Relies on `arrow_array::RecordBatch::columns` and the primitive
/// arrays' iterators: the cells of column `i`, if it is a column that
/// widens losslessly into 64-bit integers (64-bit and unsigned 32-bit),
/// each value widened one for one, matching the tag `schema_field_info`
/// reports for those types.
#[verifier::external_body]
fn batch_col_i64(b: &EngineBatch, i: usize) -> (out: Option<Vec<Option<i64>>>)
    ensures
        ({
            let bm = engine_batch_model(*b);
            match out {
                Some(v) => i < bm.len() && bm[i as int] == (TYPE_INT64, ColumnData::Int64(v).spec_cells()),
                None => !(i < bm.len() && bm[i as int].0 == TYPE_INT64),
            }
        }),
{
    let c = b.inner.columns().get(i)?.as_any();
    if let Some(a) = c.downcast_ref::<Int64Array>() {
        return Some(a.iter().collect());
    }
    c.downcast_ref::<UInt32Array>().map(|a| a.iter().map(|o| o.map(i64::from)).collect())
}

/// Relies on `arrow_array::RecordBatch::columns` and the string array's
/// iterator: the cells of column `i`, if it is a UTF-8 column.
#[verifier::external_body]
fn batch_col_utf8(b: &EngineBatch, i: usize) -> (out: Option<Vec<Option<String>>>)
    ensures
        ({
            let bm = engine_batch_model(*b);
            match out {
                Some(v) => i < bm.len() && bm[i as int] == (TYPE_UTF8, ColumnData::Utf8(
                    v,
                ).spec_cells()),
                None => !(i < bm.len() && bm[i as int].0 == TYPE_UTF8),
            }
        }),
{
    let col = b.inner.columns().get(i)?;
    let arr = col.as_any().downcast_ref::<arrow_array::StringArray>()?;
    Some(arr.iter().map(|o| o.map(|s| s.to_string())).collect())
}

/// Relies on `arrow_ipc::writer::FileWriter::try_new_with_options` and
/// `IpcWriteOptions::try_with_compression`.
#[verifier::external_body]
fn file_writer_new(schema: &Arc<arrow_schema::Schema>, compression: Option<CompressionType>) -> (out:
    Result<IpcFileWriter, String>)
    ensures
        out matches Ok(w) ==> file_writer_state(w) == (arrow_schema_model(*schema), Seq::<
            EngineBatchM,
        >::empty(), compression),
{
    let codec = match compression {
        Some(CompressionType::Lz4Frame) => Some(arrow_ipc::CompressionType::LZ4_FRAME),
        Some(CompressionType::Zstd) => Some(arrow_ipc::CompressionType::ZSTD),
        _ => None,
    };
    let opts = arrow_ipc::writer::IpcWriteOptions::default().try_with_compression(codec).map_err(
        |e| e.to_string(),
    )?;
    arrow_ipc::writer::FileWriter::try_new_with_options(Vec::new(), schema, opts).map(|w|
        IpcFileWriter { inner: w }).map_err(|e| e.to_string())
}

/// Relies on `arrow_ipc::writer::FileWriter::write`: on success the
/// batch was appended to what the writer holds.  Only canonically built
/// batches (`mk_batch`) are ever handed to a writer, which keeps the
/// finished bytes a function of the batch models.
#[verifier::external_body]
fn file_writer_write(w: &mut IpcFileWriter, b: &EngineBatch) -> (out: Result<(), String>)
    ensures
        out is Ok ==> file_writer_state(*final(w)) == (file_writer_state(*old(w)).0,
        file_writer_state(*old(w)).1.push(engine_batch_model(*b)), file_writer_state(
            *old(w),
        ).2),
{
    w.inner.write(&b.inner).map_err(|e| e.to_string())
}

/// Relies on `arrow_ipc::writer::FileWriter::finish` and `into_inner`:
/// on success the bytes are the file-layout encoding of exactly what the
/// writer holds.
#[verifier::external_body]
fn file_writer_finish(w: IpcFileWriter) -> (out: Result<Vec<u8>, String>)
    ensures
        out matches Ok(bytes) ==> bytes@ == ipc_file_bytes_of(file_writer_state(w).0,
        file_writer_state(w).1, file_writer_state(w).2),
{
    let mut w = w.inner;
    w.finish().map_err(|e| e.to_string())?;
    w.into_inner().map_err(|e| e.to_string())
}

/// Relies on `arrow_ipc::writer::StreamWriter::try_new_with_options` and
/// `IpcWriteOptions::try_with_compression`.
#[verifier::external_body]
fn stream_writer_new(schema: &Arc<arrow_schema::Schema>, compression: Option<CompressionType>) -> (out:
    Result<IpcStreamWriter, String>)
    ensures
        out matches Ok(w) ==> stream_writer_state(w) == (arrow_schema_model(*schema), Seq::<
            EngineBatchM,
        >::empty(), compression),
{
    let codec = match compression {
        Some(CompressionType::Lz4Frame) => Some(arrow_ipc::CompressionType::LZ4_FRAME),
        Some(CompressionType::Zstd) => Some(arrow_ipc::CompressionType::ZSTD),
        _ => None,
    };
    let opts = arrow_ipc::writer::IpcWriteOptions::default().try_with_compression(codec).map_err(
        |e| e.to_string(),
    )?;
    arrow_ipc::writer::StreamWriter::try_new_with_options(Vec::new(), schema, opts).map(|w|
        IpcStreamWriter { inner: w }).map_err(|e| e.to_string())
}

/// Relies on `arrow_ipc::writer::StreamWriter::write`: on success the
/// batch was appended to what the writer holds.  Only canonically built
/// batches (`mk_batch`) are ever handed to a writer, which keeps the
/// finished bytes a function of the batch models.
#[verifier::external_body]
fn stream_writer_write(w: &mut IpcStreamWriter, b: &EngineBatch) -> (out: Result<(), String>)
    ensures
        out is Ok ==> stream_writer_state(*final(w)) == (stream_writer_state(*old(w)).0,
        stream_writer_state(*old(w)).1.push(engine_batch_model(*b)), stream_writer_state(
            *old(w),
        ).2),
{
    w.inner.write(&b.inner).map_err(|e| e.to_string())
}

/// Relies on `arrow_ipc::writer::StreamWriter::finish` and `into_inner`:
/// on success the bytes are the stream-layout encoding of exactly what
/// the writer holds.
#[verifier::external_body]
fn stream_writer_finish(w: IpcStreamWriter) -> (out: Result<Vec<u8>, String>)
    ensures
        out matches Ok(bytes) ==> bytes@ == ipc_stream_bytes_of(stream_writer_state(w).0,
        stream_writer_state(w).1, stream_writer_state(w).2),
{
    let mut w = w.inner;
    w.finish().map_err(|e| e.to_string())?;
    w.into_inner().map_err(|e| e.to_string())
}

/// The field models a file-layout reader reports for these bytes, and
/// what each of its batches will decode to (`None` for a batch that
/// fails), when the bytes parse at all.  The engine's decoding of a byte
/// buffer depends on nothing but the bytes, so this is a function of
/// them.
pub uninterp spec fn ipc_file_plan(data: Seq<u8>) -> Option<(Seq<FieldModel>, EnginePendM)>;

/// The same, for the stream layout.
pub uninterp spec fn ipc_stream_plan(data: Seq<u8>) -> Option<(Seq<FieldModel>, EnginePendM)>;

/// The same, for the column-major container, whose schema becomes
/// visible with its batches.
pub uninterp spec fn parquet_plan(data: Seq<u8>) -> Option<(Seq<FieldModel>, EnginePendM)>;

/// The field models a file reader reports.
pub uninterp spec fn file_reader_fields(r: IpcFileReader) -> Seq<FieldModel>;

/// The batches a file reader will still yield, in order.
pub uninterp spec fn file_reader_pending(r: IpcFileReader) -> EnginePendM;

/// The field models a stream reader reports.
pub uninterp spec fn stream_reader_fields(r: IpcStreamReader) -> Seq<FieldModel>;

/// The batches a stream reader will still yield, in order.
pub uninterp spec fn stream_reader_pending(r: IpcStreamReader) -> EnginePendM;

/// The field models a column-major reader's batches carry.
pub uninterp spec fn parquet_reader_fields(r: ParquetBatchReader) -> Seq<FieldModel>;

/// The batches a column-major reader will still yield, in order.
pub uninterp spec fn parquet_reader_pending(r: ParquetBatchReader) -> EnginePendM;

/// What a file-layout writer holds: the schema it was built with, the
/// batches written so far, and the codec it writes with.
pub uninterp spec fn file_writer_state(w: IpcFileWriter) -> (
    Seq<FieldModel>,
    Seq<EngineBatchM>,
    Option<CompressionType>,
);

/// What a stream-layout writer holds.
pub uninterp spec fn stream_writer_state(w: IpcStreamWriter) -> (
    Seq<FieldModel>,
    Seq<EngineBatchM>,
    Option<CompressionType>,
);

/// The bytes the engine's file-layout encoding produces for a schema,
/// batches and codec.  The writers of this module are fed only schemas
/// and batches built canonically (`mk_schema`, `mk_batch`), whose
/// physical layout is a function of the models alone, so the bytes are
/// a function of the models and codec.
pub uninterp spec fn ipc_file_bytes_of(
    fields: Seq<FieldModel>,
    batches: Seq<EngineBatchM>,
    codec: Option<CompressionType>,
) -> Seq<u8>;

/// The bytes the engine's stream-layout encoding produces, under the
/// same canonical-build condition as the file layout.
pub uninterp spec fn ipc_stream_bytes_of(
    fields: Seq<FieldModel>,
    batches: Seq<EngineBatchM>,
    codec: Option<CompressionType>,
) -> Seq<u8>;

/// The model of one batch of the library's table model, as the engine
/// sees it.
pub open spec fn spec_batch_model(b: BatchData) -> EngineBatchM {
    b.columns@.map_values(|c: ColumnData| (c.spec_tag(), c.spec_cells()))
}

/// The models of all batches of a table.
pub open spec fn spec_table_batch_models(t: TableData) -> Seq<EngineBatchM> {
    t.batches@.map_values(|b: BatchData| spec_batch_model(b))
}

/// A schema whose every field the engine can represent.
pub open spec fn spec_schema_encodable(fields: Seq<FieldModel>) -> bool {
    forall|i: int| 0 <= i < fields.len() ==> (#[trigger] fields[i]).type_id <= 7
}

/// The fields of a plan, empty when the bytes do not parse.
pub open spec fn spec_plan_fields(p: Option<(Seq<FieldModel>, EnginePendM)>) -> Seq<FieldModel> {
    match p {
        Some(x) => x.0,
        None => Seq::empty(),
    }
}

/// The batch entries of a plan.
pub open spec fn spec_plan_pend(p: Option<(Seq<FieldModel>, EnginePendM)>) -> EnginePendM {
    match p {
        Some(x) => x.1,
        None => Seq::empty(),
    }
}

/// The batch model of one pending entry, empty for a failing one.
pub open spec fn spec_pend_bm(e: Option<EngineBatchM>) -> EngineBatchM {
    match e {
        Some(bm) => bm,
        None => Seq::empty(),
    }
}

/// 16-bit little-endian read at offset `i`.
pub open spec fn spec_fle16(d: Seq<u8>, i: int) -> int {
    d[i] + d[i + 1] * 0x100
}

/// 32-bit little-endian read at offset `i`.
pub open spec fn spec_fle32(d: Seq<u8>, i: int) -> int {
    d[i] + d[i + 1] * 0x100 + d[i + 2] * 0x10000 + d[i + 3] * 0x1000000
}

/// Signed 32-bit little-endian read at offset `i`.
pub open spec fn spec_fi32(d: Seq<u8>, i: int) -> int {
    if d[i + 3] >= 0x80u8 {
        spec_fle32(d, i) - 0x1_0000_0000
    } else {
        spec_fle32(d, i)
    }
}

/// A little-endian 32-bit block length field at `i` is non-negative.
pub open spec fn spec_fi32_nonneg(d: Seq<u8>, i: int) -> bool {
    d[i + 3] < 0x80u8
}

/// A little-endian 64-bit block length field at `i` is non-negative.
pub open spec fn spec_fi64_nonneg(d: Seq<u8>, i: int) -> bool {
    d[i + 7] < 0x80u8
}

/// Every file-layout block reachable through one vector field of the
/// footer root has non-negative metadata and body lengths.  The
/// traversal follows the flat serialization rules: the root's vtable
/// offset, the field slot, the vector offset, then 24-byte block entries
/// (a 64-bit position, a 32-bit metadata length, padding, a 64-bit body
/// length).  Any structural inconsistency counts as a failure.
pub open spec fn spec_footer_vector_blocks_ok(d: Seq<u8>, fstart: int, fend: int, slot: int) -> bool {
    let tpos = fstart + spec_fle32(d, fstart);
    if !(fstart <= tpos && tpos + 4 <= fend) {
        false
    } else {
        let vt = tpos - spec_fi32(d, tpos);
        if !(fstart <= vt && vt + 4 <= fend) {
            false
        } else {
            let vt_size = spec_fle16(d, vt);
            if vt_size < slot + 2 {
                true
            } else if !(vt + slot + 2 <= fend) {
                false
            } else {
                let foff = spec_fle16(d, vt + slot);
                if foff == 0 {
                    true
                } else {
                    let fpos = tpos + foff;
                    if !(fstart <= fpos && fpos + 4 <= fend) {
                        false
                    } else {
                        let vpos = fpos + spec_fle32(d, fpos);
                        if !(fstart <= vpos && vpos + 4 <= fend) {
                            false
                        } else {
                            let cnt = spec_fle32(d, vpos);
                            if vpos + 4 + cnt * 24 > fend {
                                false
                            } else {
                                forall|k: int|
                                    0 <= k < cnt ==> spec_fi32_nonneg(d, vpos + 4 + 24 * k + 8)
                                        && spec_fi64_nonneg(d, #[trigger] (vpos + 4 + 24 * k)
                                        + 16)
                            }
                        }
                    }
                }
            }
        }
    }
}

/// The buffer carries a file-layout footer whose dictionary and batch
/// blocks all have non-negative lengths: the trailing magic and a
/// non-negative footer length are present, the footer fits the buffer,
/// and both block vectors check out.  The engine's file reader trusts
/// these lengths, so they are validated before any bytes reach it.
pub open spec fn spec_ipc_footer_blocks_ok(d: Seq<u8>) -> bool {
    let n = d.len() as int;
    &&& n >= 10
    &&& d[n - 6] == 0x41u8
    &&& d[n - 5] == 0x52u8
    &&& d[n - 4] == 0x52u8
    &&& d[n - 3] == 0x4fu8
    &&& d[n - 2] == 0x57u8
    &&& d[n - 1] == 0x31u8
    &&& spec_fi32_nonneg(d, n - 10)
    &&& spec_fle32(d, n - 10) <= n - 10
    &&& spec_fle32(d, n - 10) >= 4
    &&& spec_footer_vector_blocks_ok(d, n - 10 - spec_fle32(d, n - 10), n - 10, 8)
    &&& spec_footer_vector_blocks_ok(d, n - 10 - spec_fle32(d, n - 10), n - 10, 10)
}

fn fle16_at(data: &[u8], i: usize) -> (r: u64)
    requires
        i + 2 <= data@.len(),
    ensures
        r == spec_fle16(data@, i as int),
{
    (data[i] as u64) + (data[i + 1] as u64) * 0x100
}

fn fle32_at(data: &[u8], i: usize) -> (r: u64)
    requires
        i + 4 <= data@.len(),
    ensures
        r == spec_fle32(data@, i as int),
        r <= 0xffff_ffff,
{
    (data[i] as u64) + (data[i + 1] as u64) * 0x100 + (data[i + 2] as u64) * 0x10000 + (data[i
        + 3] as u64) * 0x1000000
}

fn footer_vector_blocks_ok(data: &[u8], fstart: usize, fend: usize, slot: usize) -> (r: bool)
    requires
        fstart + 4 <= fend <= data@.len(),
        slot <= 16,
    ensures
        r == spec_footer_vector_blocks_ok(data@, fstart as int, fend as int, slot as int),
{
    let root = fle32_at(data, fstart);
    // All position arithmetic runs in a wide integer type, so offsets
    // from the buffer cannot wrap.
    let tpos_w: i128 = fstart as i128 + root as i128;
    if !(tpos_w + 4 <= fend as i128) {
        return false;
    }
    let tpos = tpos_w as usize;
    let soff_raw = fle32_at(data, tpos);
    // The vtable offset is signed; resolve it in mathematical integers.
    let vt_w: i128 = if data[tpos + 3] >= 0x80 {
        tpos as i128 - (soff_raw as i128 - 0x1_0000_0000i128)
    } else {
        tpos as i128 - soff_raw as i128
    };
    if !(fstart as i128 <= vt_w && vt_w + 4 <= fend as i128) {
        return false;
    }
    let vt = vt_w as usize;
    let vt_size = fle16_at(data, vt);
    if vt_size < slot as u64 + 2 {
        return true;
    }
    if !(vt as i128 + slot as i128 + 2 <= fend as i128) {
        return false;
    }
    let foff = fle16_at(data, vt + slot);
    if foff == 0 {
        return true;
    }
    let fpos_w: i128 = tpos as i128 + foff as i128;
    if !(fstart as i128 <= fpos_w && fpos_w + 4 <= fend as i128) {
        return false;
    }
    let fpos = fpos_w as usize;
    let vpos_w: i128 = fpos as i128 + fle32_at(data, fpos) as i128;
    if !(fstart as i128 <= vpos_w && vpos_w + 4 <= fend as i128) {
        return false;
    }
    let vpos = vpos_w as usize;
    let cnt = fle32_at(data, vpos);
    if vpos as i128 + 4 + cnt as i128 * 24 > fend as i128 {
        return false;
    }
    proof {
        assert(spec_footer_vector_blocks_ok(data@, fstart as int, fend as int, slot as int) == (
        forall|j: int|
            0 <= j < cnt ==> spec_fi32_nonneg(data@, vpos + 4 + 24 * j + 8) && spec_fi64_nonneg(
                data@,
                #[trigger] (vpos + 4 + 24 * j) + 16,
            )));
    }
    let mut k: u64 = 0;
    while k < cnt
        invariant
            k <= cnt,
            vpos + 4 + cnt * 24 <= fend <= data@.len(),
            spec_footer_vector_blocks_ok(data@, fstart as int, fend as int, slot as int) == (
            forall|j: int|
                0 <= j < cnt ==> spec_fi32_nonneg(data@, vpos + 4 + 24 * j + 8)
                    && spec_fi64_nonneg(data@, #[trigger] (vpos + 4 + 24 * j) + 16)),
            forall|j: int|
                0 <= j < k ==> spec_fi32_nonneg(data@, vpos + 4 + 24 * j + 8) && spec_fi64_nonneg(
                    data@,
                    #[trigger] (vpos + 4 + 24 * j) + 16,
                ),
        decreases cnt - k,
    {
        let base = vpos + 4 + 24 * (k as usize);
        if data[base + 11] >= 0x80 || data[base + 23] >= 0x80 {
            proof {
                let kk = k as int;
                assert((vpos + 4 + 24 * kk) + 8 + 3 == base + 11);
                assert((vpos + 4 + 24 * kk) + 16 + 7 == base + 23);
                assert(!(spec_fi32_nonneg(data@, vpos + 4 + 24 * kk + 8) && spec_fi64_nonneg(
                    data@,
                    #[trigger] (vpos + 4 + 24 * kk) + 16,
                )));
            }
            return false;
        }
        k = k + 1;
    }
    true
}

/// Whether the engine's file reader can be handed these bytes: the
/// footer's block lengths are all non-negative, per
/// [`spec_ipc_footer_blocks_ok`].
pub fn ipc_footer_blocks_ok(data: &[u8]) -> (r: bool)
    ensures
        r == spec_ipc_footer_blocks_ok(data@),
{
    let n = data.len();
    if n < 10 {
        return false;
    }
    if !(data[n - 6] == 0x41 && data[n - 5] == 0x52 && data[n - 4] == 0x52 && data[n - 3] == 0x4f
        && data[n - 2] == 0x57 && data[n - 1] == 0x31) {
        return false;
    }
    if data[n - 7] >= 0x80 {
        return false;
    }
    let flen = fle32_at(data, n - 10);
    if !(flen <= n as u64 - 10 && flen >= 4) {
        return false;
    }
    let fstart = n - 10 - flen as usize;
    let dictionaries_ok = footer_vector_blocks_ok(data, fstart, n - 10, 8);
    let batches_ok = footer_vector_blocks_ok(data, fstart, n - 10, 10);
    dictionaries_ok && batches_ok
}

/// Relies on `arrow_ipc::reader::FileReader::try_new`.  The reader
/// trusts the footer's block length fields when it loads dictionaries,
/// so the caller validates them first; within that bound the reader
/// returns errors, never aborts.
#[verifier::external_body]
fn file_reader_new(data: Vec<u8>) -> (out: Result<IpcFileReader, String>)
    requires
        spec_ipc_footer_blocks_ok(data@),
    ensures
        out is Ok <==> ipc_file_plan(data@) is Some,
        out matches Ok(r) ==> file_reader_fields(r) == spec_plan_fields(ipc_file_plan(data@))
            && file_reader_pending(r) == spec_plan_pend(ipc_file_plan(data@)),
{
    arrow_ipc::reader::FileReader::try_new(std::io::Cursor::new(data), None).map(|r|
        IpcFileReader { inner: r }).map_err(|e| e.to_string())
}

/// Relies on `arrow_ipc::reader::FileReader::schema`.
#[verifier::external_body]
fn file_reader_schema(r: &IpcFileReader) -> (out: Arc<arrow_schema::Schema>)
    ensures
        arrow_schema_model(out) == file_reader_fields(*r),
{
    r.inner.schema()
}

/// Relies on the `Iterator` impl of `arrow_ipc::reader::FileReader`: it
/// pops the reader's next batch, in order, yielding nothing once all are
/// consumed.
#[verifier::external_body]
fn file_reader_next(r: &mut IpcFileReader) -> (out: Option<Result<EngineBatch, String>>)
    ensures
        ({
            let oldp = file_reader_pending(*old(r));
            &&& file_reader_fields(*final(r)) == file_reader_fields(*old(r))
            &&& (oldp.len() == 0 ==> out is None && file_reader_pending(*final(r)) == oldp)
            &&& (oldp.len() > 0 ==> file_reader_pending(*final(r)) == oldp.drop_first() && (match
            out {
                None => false,
                Some(res) => match res {
                    Ok(b) => oldp[0] is Some && engine_batch_model(b) == spec_pend_bm(oldp[0])
                        && engine_batch_fields(b) == file_reader_fields(*old(r)),
                    Err(_) => oldp[0] is None,
                },
            }))
        }),
{
    r.inner.next().map(|res| res.map(|b| EngineBatch { inner: b }).map_err(|e| e.to_string()))
}

/// Relies on `arrow_ipc::reader::StreamReader::try_new`.  That the
/// stream parser returns errors rather than aborting on malformed input
/// is taken on trust.
#[verifier::external_body]
fn stream_reader_new(data: Vec<u8>) -> (out: Result<IpcStreamReader, String>)
    ensures
        out is Ok <==> ipc_stream_plan(data@) is Some,
        out matches Ok(r) ==> stream_reader_fields(r) == spec_plan_fields(ipc_stream_plan(data@))
            && stream_reader_pending(r) == spec_plan_pend(ipc_stream_plan(data@)),
{
    arrow_ipc::reader::StreamReader::try_new(std::io::Cursor::new(data), None).map(|r|
        IpcStreamReader { inner: r }).map_err(|e| e.to_string())
}

/// Relies on `arrow_ipc::reader::StreamReader::schema`.
#[verifier::external_body]
fn stream_reader_schema(r: &IpcStreamReader) -> (out: Arc<arrow_schema::Schema>)
    ensures
        arrow_schema_model(out) == stream_reader_fields(*r),
{
    r.inner.schema()
}

/// Relies on the `Iterator` impl of `arrow_ipc::reader::StreamReader`:
/// it pops the reader's next batch, in order, yielding nothing once all
/// are consumed.
#[verifier::external_body]
fn stream_reader_next(r: &mut IpcStreamReader) -> (out: Option<Result<EngineBatch, String>>)
    ensures
        ({
            let oldp = stream_reader_pending(*old(r));
            &&& stream_reader_fields(*final(r)) == stream_reader_fields(*old(r))
            &&& (oldp.len() == 0 ==> out is None && stream_reader_pending(*final(r)) == oldp)
            &&& (oldp.len() > 0 ==> stream_reader_pending(*final(r)) == oldp.drop_first() && (match
            out {
                None => false,
                Some(res) => match res {
                    Ok(b) => oldp[0] is Some && engine_batch_model(b) == spec_pend_bm(oldp[0])
                        && engine_batch_fields(b) == stream_reader_fields(*old(r)),
                    Err(_) => oldp[0] is None,
                },
            }))
        }),
{
    r.inner.next().map(|res| res.map(|b| EngineBatch { inner: b }).map_err(|e| e.to_string()))
}

/// Relies on `parquet::arrow::arrow_reader::ParquetRecordBatchReaderBuilder`.
/// That the container parser returns errors rather than aborting on
/// malformed input is taken on trust.
#[verifier::external_body]
fn parquet_reader_new(data: Vec<u8>) -> (out: Result<ParquetBatchReader, String>)
    ensures
        out is Ok <==> parquet_plan(data@) is Some,
        out matches Ok(r) ==> parquet_reader_fields(r) == spec_plan_fields(parquet_plan(data@))
            && parquet_reader_pending(r) == spec_plan_pend(parquet_plan(data@)),
{
    let bytes = bytes::Bytes::from(data);
    let builder = parquet::arrow::arrow_reader::ParquetRecordBatchReaderBuilder::try_new(bytes)
        .map_err(|e| e.to_string())?;
    builder.build().map(|r| ParquetBatchReader { inner: r }).map_err(|e| e.to_string())
}

/// Relies on the `RecordBatchReader` impl of `ParquetRecordBatchReader`:
/// the schema its batches carry.
#[verifier::external_body]
fn parquet_reader_schema(r: &ParquetBatchReader) -> (out: Arc<arrow_schema::Schema>)
    ensures
        arrow_schema_model(out) == parquet_reader_fields(*r),
{
    arrow_array::RecordBatchReader::schema(&r.inner)
}

/// Relies on the `Iterator` impl of `ParquetRecordBatchReader`: it pops
/// the reader's next batch, in order, yielding nothing once all are
/// consumed.
#[verifier::external_body]
fn parquet_reader_next(r: &mut ParquetBatchReader) -> (out: Option<Result<EngineBatch, String>>)
    ensures
        ({
            let oldp = parquet_reader_pending(*old(r));
            &&& parquet_reader_fields(*final(r)) == parquet_reader_fields(*old(r))
            &&& (oldp.len() == 0 ==> out is None && parquet_reader_pending(*final(r)) == oldp)
            &&& (oldp.len() > 0 ==> parquet_reader_pending(*final(r)) == oldp.drop_first() && (
            match out {
                None => false,
                Some(res) => match res {
                    Ok(b) => oldp[0] is Some && engine_batch_model(b) == spec_pend_bm(oldp[0])
                        && engine_batch_fields(b) == parquet_reader_fields(*old(r)),
                    Err(_) => oldp[0] is None,
                },
            }))
        }),
{
    r.inner.next().map(|res| res.map(|b| EngineBatch { inner: b }).map_err(|e| e.to_string()))
}

/// An error of the engine codec, prefixed with what was being done.
fn io_error(prefix: &str, detail: String) -> (r: CoreError)
    ensures
        r.code == ErrorCode::Io,
{
    let mut msg = String::from_str(prefix);
    msg.append(detail.as_str());
    CoreError::io(msg)
}

/// Convert an engine schema into the library's schema model; the logical
/// type tags are taken as the engine reports them.
fn convert_schema(schema: &Arc<arrow_schema::Schema>) -> (sd: SchemaData)
    ensures
        sd.models() == arrow_schema_model(*schema),
        sd.metadata@.len() == 0,
{
    let n = schema_len(schema);
    let mut fields: Vec<crate::model::FieldDef> = Vec::new();
    let mut i: usize = 0;
    while i < n
        invariant
            i <= n == arrow_schema_model(*schema).len(),
            fields@.len() == i,
            forall|k: int|
                0 <= k < i ==> (#[trigger] fields@[k]).model() == arrow_schema_model(*schema)[k],
        decreases n - i,
    {
        match schema_field_info(schema, i) {
            Some((name, tag, nullable)) => {
                fields.push(crate::model::FieldDef::new(name, crate::model::DataType::from_id(tag), nullable));
            },
            None => {
                proof {
                    assert(false);
                }
            },
        }
        i = i + 1;
    }
    let sd = SchemaData::new(fields);
    proof {
        assert(sd.models() =~= arrow_schema_model(*schema));
    }
    sd
}

/// Column `c` of a batch model fits its schema field: present, of the
/// field's logical type, and of a type this build can hold.
pub open spec fn spec_col_fits(bm: EngineBatchM, fields: Seq<FieldModel>, c: int) -> bool {
    &&& c < bm.len()
    &&& bm[c].0 == fields[c].type_id
    &&& crate::table::spec_supported_tag(bm[c].0)
}

/// A batch model fits a schema's fields: one column per field, each
/// carrying its field's logical type, which this build can hold.
pub open spec fn spec_batch_convertible(bm: EngineBatchM, fields: Seq<FieldModel>) -> bool {
    forall|c: int| 0 <= c < fields.len() ==> #[trigger] spec_col_fits(bm, fields, c)
}

/// Instantiation of [`spec_batch_convertible`] at one column.
proof fn lemma_convertible_at(bm: EngineBatchM, fields: Seq<FieldModel>, c: int)
    requires
        spec_batch_convertible(bm, fields),
        0 <= c < fields.len(),
    ensures
        c < bm.len(),
        bm[c].0 == fields[c].type_id,
        crate::table::spec_supported_tag(bm[c].0),
{
    assert(spec_col_fits(bm, fields, c));
}

/// Cells held by column `c` of a batch model.
pub open spec fn spec_col_rows(bm: EngineBatchM, c: int) -> int {
    bm[c].1.len() as int
}

/// The first `fields.len()` columns of a batch model are rectangular.
pub open spec fn spec_batch_rect(bm: EngineBatchM, fields: Seq<FieldModel>) -> bool {
    forall|c: int| 0 <= c < fields.len() ==> #[trigger] spec_col_rows(bm, c) == spec_col_rows(bm, 0)
}

/// Rows the table batch built from one pending entry will hold.
pub open spec fn spec_model_batch_rows(e: Option<EngineBatchM>, nfields: int) -> int {
    if nfields == 0 {
        0
    } else {
        spec_col_rows(spec_pend_bm(e), 0)
    }
}

/// Rows the first `n` pending entries will contribute together.
pub open spec fn spec_models_rows(pend: EnginePendM, nfields: int, n: int) -> int
    decreases n,
{
    if n <= 0 {
        0
    } else {
        spec_models_rows(pend, nfields, n - 1) + spec_model_batch_rows(pend[n - 1], nfields)
    }
}

/// A plan decodes: it yields at least one batch, every batch decodes and
/// fits the schema, the batches are rectangular, and the total row count
/// is machine-representable.  Exactly under these conditions the decoder
/// succeeds.
pub open spec fn spec_plan_decodes(fields: Seq<FieldModel>, pend: EnginePendM) -> bool {
    &&& pend.len() > 0
    &&& (forall|k: int| 0 <= k < pend.len() ==> (#[trigger] pend[k]) is Some)
    &&& (forall|k: int|
        0 <= k < pend.len() ==> spec_batch_convertible(spec_pend_bm(#[trigger] pend[k]), fields)
            && spec_batch_rect(spec_pend_bm(pend[k]), fields))
    &&& spec_models_rows(pend, fields.len() as int, pend.len() as int) <= usize::MAX
}

/// The table a decoder hands out holds exactly what the plan describes:
/// the plan's fields and, batch for batch and cell for cell, the plan's
/// column contents.
pub open spec fn spec_table_matches_plan(t: TableData, fields: Seq<FieldModel>, pend: EnginePendM) -> bool {
    &&& t.schema.models() == fields
    &&& t.batches@.len() == pend.len()
    &&& forall|k: int|
        0 <= k < pend.len() ==> (#[trigger] t.batches@[k]).columns@.len() == fields.len()
    &&& forall|k: int, c: int|
        0 <= k < pend.len() && 0 <= c < fields.len() ==> ((
        #[trigger] t.batches@[k].columns@[c]).spec_tag(), t.batches@[k].columns@[c].spec_cells())
            == spec_pend_bm(pend[k])[c]
}

/// Built prefix row counts equal the plan's.
proof fn lemma_built_rows(bs: Seq<BatchData>, pend: EnginePendM, nf: int, k: int)
    requires
        0 <= k <= bs.len(),
        bs.len() == pend.len(),
        forall|i: int|
            0 <= i < bs.len() ==> (#[trigger] bs[i]).spec_rows() == spec_model_batch_rows(
                pend[i],
                nf,
            ),
    ensures
        crate::model::rows_upto(bs, k) == spec_models_rows(pend, nf, k),
    decreases k,
{
    if k > 0 {
        lemma_built_rows(bs, pend, nf, k - 1);
    }
}

/// A decoding plan's batches, once converted, satisfy everything the
/// table constructor checks.
proof fn lemma_plan_builds(schema: SchemaData, bs: Seq<BatchData>, fields: Seq<FieldModel>, pend: EnginePendM)
    requires
        schema.models() == fields,
        bs.len() == pend.len(),
        forall|k: int| 0 <= k < bs.len() ==> (#[trigger] bs[k]).columns@.len() == fields.len(),
        forall|k: int, c: int|
            0 <= k < bs.len() && 0 <= c < fields.len() ==> ((
            #[trigger] bs[k].columns@[c]).spec_tag(), bs[k].columns@[c].spec_cells())
                == spec_pend_bm(pend[k])[c],
        spec_plan_decodes(fields, pend),
    ensures
        bs.len() > 0,
        crate::model::spec_consistent(schema, bs),
        crate::model::spec_total_rows(bs) <= usize::MAX,
{
    assert(schema.fields@.len() == fields.len());
    assert forall|k: int| 0 <= k < bs.len() implies (#[trigger] bs[k]).wf()
        && bs[k].columns@.len() == schema.fields@.len() by {
        let bm = spec_pend_bm(pend[k]);
        assert(spec_batch_rect(bm, fields));
        assert forall|c: int| 0 <= c < bs[k].columns@.len() implies (
        #[trigger] bs[k].columns@[c]).spec_len() == bs[k].spec_rows() by {
            assert(spec_col_rows(bm, c) == spec_col_rows(bm, 0));
            assert((bs[k].columns@[0].spec_tag(), bs[k].columns@[0].spec_cells()) == bm[0]);
            assert((bs[k].columns@[c].spec_tag(), bs[k].columns@[c].spec_cells()) == bm[c]);
        }
    }
    assert forall|k: int, c: int|
        0 <= k < bs.len() && 0 <= c < schema.fields@.len() implies (
    #[trigger] bs[k].columns@[c]).spec_tag() == schema.fields@[c].data_type.spec_type_id() by {
        let bm = spec_pend_bm(pend[k]);
        lemma_convertible_at(bm, fields, c);
        assert((bs[k].columns@[c].spec_tag(), bs[k].columns@[c].spec_cells()) == bm[c]);
        assert(schema.models()[c] == schema.fields@[c].model());
    }
    assert forall|i: int| 0 <= i < bs.len() implies (#[trigger] bs[i]).spec_rows()
        == spec_model_batch_rows(pend[i], fields.len() as int) by {
        if fields.len() > 0 {
            assert((bs[i].columns@[0].spec_tag(), bs[i].columns@[0].spec_cells()) == spec_pend_bm(
                pend[i],
            )[0]);
        }
    }
    lemma_built_rows(bs, pend, fields.len() as int, bs.len() as int);
}

/// Convert one engine batch into the library's batch model, extracting
/// each column by the schema's logical type; a column of a type this
/// build cannot hold is rejected.
fn convert_batch(b: &EngineBatch, schema: &SchemaData) -> (out: CoreResult<BatchData>)
    ensures
        out is Ok <==> spec_batch_convertible(engine_batch_model(*b), schema.models()),
        out matches Ok(bd) ==> bd.columns@.len() == schema.fields@.len() && forall|c: int|
            0 <= c < schema.fields@.len() ==> ((#[trigger] bd.columns@[c]).spec_tag(),
            bd.columns@[c].spec_cells()) == engine_batch_model(*b)[c],
{
    let ghost bm = engine_batch_model(*b);
    let ncols = schema.fields.len();
    let mut columns: Vec<ColumnData> = Vec::new();
    let mut c: usize = 0;
    while c < ncols
        invariant
            c <= ncols == schema.fields@.len(),
            bm == engine_batch_model(*b),
            columns@.len() == c,
            forall|k: int|
                0 <= k < c ==> k < bm.len() && ((#[trigger] columns@[k]).spec_tag(),
                columns@[k].spec_cells()) == bm[k] && crate::table::spec_supported_tag(bm[k].0)
                    && bm[k].0 == schema.models()[k].type_id,
        decreases ncols - c,
    {
        let tag = schema.fields[c].data_type.type_id();
        proof {
            assert(schema.models()[c as int] == schema.fields@[c as int].model());
        }
        let col = if tag == TYPE_BOOL {
            match batch_col_bool(b, c) {
                Some(v) => ColumnData::Bool(v),
                None => {
                    proof {
                        assert(!spec_batch_convertible(bm, schema.models())) by {
                            if spec_batch_convertible(bm, schema.models()) {
                                lemma_convertible_at(bm, schema.models(), c as int);
                            }
                        }
                    }
                    return Err(CoreError::new(
                        ErrorCode::TypeMismatch,
                        String::from_str("Engine column does not match its schema field"),
                    ));
                },
            }
        } else if tag == TYPE_INT32 {
            let signed = batch_col_i32(b, c);
            let got = match signed {
                Some(v) => Some(v),
                None => batch_col_u_small(b, c),
            };
            match got {
                Some(v) => ColumnData::Int32(v),
                None => {
                    proof {
                        assert(!spec_batch_convertible(bm, schema.models())) by {
                            if spec_batch_convertible(bm, schema.models()) {
                                lemma_convertible_at(bm, schema.models(), c as int);
                            }
                        }
                    }
                    return Err(CoreError::new(
                        ErrorCode::TypeMismatch,
                        String::from_str("Engine column does not match its schema field"),
                    ));
                },
            }
        } else if tag == TYPE_INT64 {
            match batch_col_i64(b, c) {
                Some(v) => ColumnData::Int64(v),
                None => {
                    proof {
                        assert(!spec_batch_convertible(bm, schema.models())) by {
                            if spec_batch_convertible(bm, schema.models()) {
                                lemma_convertible_at(bm, schema.models(), c as int);
                            }
                        }
                    }
                    return Err(CoreError::new(
                        ErrorCode::TypeMismatch,
                        String::from_str("Engine column does not match its schema field"),
                    ));
                },
            }
        } else if tag == TYPE_UTF8 {
            match batch_col_utf8(b, c) {
                Some(v) => ColumnData::Utf8(v),
                None => {
                    proof {
                        assert(!spec_batch_convertible(bm, schema.models())) by {
                            if spec_batch_convertible(bm, schema.models()) {
                                lemma_convertible_at(bm, schema.models(), c as int);
                            }
                        }
                    }
                    return Err(CoreError::new(
                        ErrorCode::TypeMismatch,
                        String::from_str("Engine column does not match its schema field"),
                    ));
                },
            }
        } else {
            proof {
                assert(!spec_batch_convertible(bm, schema.models())) by {
                    if spec_batch_convertible(bm, schema.models()) {
                        lemma_convertible_at(bm, schema.models(), c as int);
                    }
                }
            }
            return Err(CoreError::not_implemented(
                String::from_str("Column logical type not supported by this build"),
            ));
        };
        columns.push(col);
        c = c + 1;
    }
    proof {
        assert(schema.models().len() == schema.fields@.len());
        assert forall|c2: int| 0 <= c2 < schema.models().len() implies #[trigger] spec_col_fits(
            bm,
            schema.models(),
            c2,
        ) by {
            assert(((#[trigger] columns@[c2]).spec_tag(), columns@[c2].spec_cells()) == bm[c2]);
        }
    }
    Ok(BatchData { columns })
}

/// Every text column of a batch fits the engine's 32-bit string
/// offsets.
pub open spec fn spec_batch_text_ok(b: BatchData) -> bool {
    forall|c: int|
        0 <= c < b.columns@.len() ==> (match #[trigger] b.columns@[c] {
            ColumnData::Utf8(v) => spec_utf8_chars_upto(v@, v@.len() as int) * 4 <= 0x7fff_ffff,
            _ => true,
        })
}

/// Every text column of a table fits the engine's 32-bit string
/// offsets.
pub open spec fn spec_table_text_ok(t: TableData) -> bool {
    forall|k: int| 0 <= k < t.batches@.len() ==> spec_batch_text_ok(#[trigger] t.batches@[k])
}

/// Field `k` of an engine field list was built from model `k`, of an
/// encodable type.
pub open spec fn spec_field_built(
    fv: Seq<arrow_schema::Field>,
    models: Seq<FieldModel>,
    k: int,
) -> bool {
    &&& arrow_field_model(fv[k]) == models[k]
    &&& models[k].type_id <= 7
}

/// Build the engine schema for a table's schema model.
fn build_arrow_schema(schema: &SchemaData) -> (out: CoreResult<Arc<arrow_schema::Schema>>)
    ensures
        out is Ok <==> spec_schema_encodable(schema.models()),
        out matches Ok(a) ==> arrow_schema_model(a) == schema.models(),
{
    let n = schema.fields.len();
    let mut fields: Vec<arrow_schema::Field> = Vec::new();
    let mut i: usize = 0;
    while i < n
        invariant
            i <= n == schema.fields@.len(),
            n == schema.models().len(),
            fields@.len() == i,
            forall|k: int| 0 <= k < i ==> #[trigger] spec_field_built(fields@, schema.models(), k),
        decreases n - i,
    {
        let f = &schema.fields[i];
        proof {
            assert(schema.models()[i as int] == schema.fields@[i as int].model());
        }
        let af = match mk_field(f.name.as_str(), f.data_type.type_id(), f.nullable) {
            Some(af) => af,
            None => {
                proof {
                    assert(!spec_schema_encodable(schema.models())) by {
                        if spec_schema_encodable(schema.models()) {
                            assert((#[trigger] schema.models()[i as int]).type_id <= 7);
                        }
                    }
                }
                return Err(CoreError::not_implemented(
                    String::from_str("Column logical type not supported for encoding"),
                ));
            },
        };
        proof {
            assert(schema.fields@[i as int].model() == (FieldModel {
                name: schema.fields@[i as int].name@,
                type_id: schema.fields@[i as int].data_type.spec_type_id(),
                nullable: schema.fields@[i as int].nullable,
            }));
            assert(arrow_field_model(af) == schema.models()[i as int]);
        }
        let ghost old_fields = fields@;
        fields.push(af);
        proof {
            assert forall|k: int|
                0 <= k < i + 1 implies #[trigger] spec_field_built(
                fields@,
                schema.models(),
                k,
            ) by {
                if k == i {
                    assert(fields@[k] == af);
                    assert(schema.models()[k].type_id <= 7);
                } else {
                    assert(spec_field_built(old_fields, schema.models(), k));
                    assert(fields@[k] == old_fields[k]);
                }
            }
        }
        i = i + 1;
    }
    let a = mk_schema(fields);
    proof {
        assert forall|k: int| 0 <= k < n implies arrow_schema_model(a)[k] == schema.models()[
            k
        ] by {
            assert(spec_field_built(fields@, schema.models(), k));
            assert(arrow_schema_model(a)[k] == arrow_field_model(fields@[k]));
        }
        assert(arrow_schema_model(a) =~= schema.models());
        assert forall|k: int| 0 <= k < schema.models().len() implies (
        #[trigger] schema.models()[k]).type_id <= 7 by {
            assert(spec_field_built(fields@, schema.models(), k));
        }
    }
    Ok(a)
}

/// Build one engine batch from a batch of the library's model.
fn build_arrow_batch(b: &BatchData, aschema: &Arc<arrow_schema::Schema>) -> (out: CoreResult<
    EngineBatch,
>)
    ensures
        out matches Ok(eb) ==> engine_batch_model(eb) == spec_batch_model(*b),
        out is Ok ==> spec_batch_text_ok(*b),
{
    let ncols = b.columns.len();
    let mut cols: Vec<ArrChunk> = Vec::new();
    let mut c: usize = 0;
    while c < ncols
        invariant
            c <= ncols == b.columns@.len(),
            cols@.len() == c,
            forall|k: int|
                0 <= k < c ==> chunk_model(#[trigger] cols@[k]) == ((b.columns@[k]).spec_tag(),
                b.columns@[k].spec_cells()),
            forall|k: int|
                0 <= k < c ==> (match #[trigger] b.columns@[k] {
                    ColumnData::Utf8(v) => spec_utf8_chars_upto(v@, v@.len() as int) * 4
                        <= 0x7fff_ffff,
                    _ => true,
                }),
        decreases ncols - c,
    {
        let chunk = match &b.columns[c] {
            ColumnData::Bool(v) => mk_bool_chunk(v),
            ColumnData::Int32(v) => mk_i32_chunk(v),
            ColumnData::Int64(v) => mk_i64_chunk(v),
            ColumnData::Utf8(v) => {
                if !utf8_fits_engine_offsets(v) {
                    return Err(CoreError::validation(
                        String::from_str(
                            "String column exceeds the engine's 32-bit offset capacity",
                        ),
                    ));
                }
                mk_utf8_chunk(v)
            },
        };
        cols.push(chunk);
        c = c + 1;
    }
    let out = mk_batch(aschema, cols);
    match out {
        Ok(batch) => {
            proof {
                assert(engine_batch_model(batch) =~= spec_batch_model(*b));
            }
            Ok(batch)
        },
        Err(m) => Err(io_error("Failed to assemble engine batch: ", m)),
    }
}

/// The decoding plan a format assigns to a byte buffer.
pub open spec fn spec_format_plan(data: Seq<u8>, format: FileFormat) -> Option<
    (Seq<FieldModel>, EnginePendM),
> {
    match format {
        FileFormat::ArrowIpc => ipc_file_plan(data),
        FileFormat::Feather => ipc_file_plan(data),
        FileFormat::ArrowStream => ipc_stream_plan(data),
        FileFormat::Parquet => parquet_plan(data),
    }
}

/// Whether decoding a byte buffer as the given format succeeds: the
/// bytes parse (for the file layout, with a validated footer) and the
/// resulting plan decodes.
pub open spec fn spec_decodes(data: Seq<u8>, format: FileFormat) -> bool {
    &&& (format is ArrowIpc || format is Feather ==> spec_ipc_footer_blocks_ok(data))
    &&& spec_format_plan(data, format) is Some
    &&& spec_plan_decodes(
        spec_plan_fields(spec_format_plan(data, format)),
        spec_plan_pend(spec_format_plan(data, format)),
    )
}

/// The fields decoding will report.
pub open spec fn spec_decoded_fields(data: Seq<u8>, format: FileFormat) -> Seq<FieldModel> {
    spec_plan_fields(spec_format_plan(data, format))
}

/// The batch contents decoding will report.
pub open spec fn spec_decoded_pend(data: Seq<u8>, format: FileFormat) -> EnginePendM {
    spec_plan_pend(spec_format_plan(data, format))
}

/// The external collaborator performing decode/encode of the columnar
/// wire formats, reached through the trusted wrappers of this module.
pub struct DataEngine;

impl DataEngine {
    /// Decode a byte buffer of the given container format into a table.
    /// The call succeeds exactly when the format's decoding plan for these
    /// bytes decodes ([`spec_decodes`]), and the table handed out holds
    /// exactly what the plan describes, validated against the table
    /// invariant before it leaves this function.
    pub fn decode(data: &[u8], format: FileFormat) -> (out: CoreResult<TableData>)
        ensures
            out is Ok <==> spec_decodes(data@, format),
            out matches Ok(t) ==> t.wf() && spec_table_matches_plan(
                t,
                spec_decoded_fields(data@, format),
                spec_decoded_pend(data@, format),
            ),
    {
        match format {
            FileFormat::ArrowIpc => Self::decode_ipc_file(data),
            FileFormat::Feather => Self::decode_ipc_file(data),
            FileFormat::ArrowStream => Self::decode_ipc_stream(data),
            FileFormat::Parquet => Self::decode_parquet(data),
        }
    }

    fn decode_ipc_file(data: &[u8]) -> (out: CoreResult<TableData>)
        ensures
            ({
                let plan = ipc_file_plan(data@);
                &&& (out is Ok <==> (spec_ipc_footer_blocks_ok(data@) && plan is Some
                    && spec_plan_decodes(spec_plan_fields(plan), spec_plan_pend(plan))))
                &&& (out matches Ok(t) ==> t.wf() && spec_table_matches_plan(
                    t,
                    spec_plan_fields(plan),
                    spec_plan_pend(plan),
                ))
            }),
    {
        if !ipc_footer_blocks_ok(data) {
            return Err(CoreError::io(
                String::from_str(
                    "Failed to create IPC file reader: the file footer is missing or holds invalid block lengths",
                ),
            ));
        }
        let owned = slice_to_vec(data);
        let mut reader = match file_reader_new(owned) {
            Ok(r) => r,
            Err(m) => {
                return Err(io_error("Failed to create IPC file reader: ", m));
            },
        };
        let ghost pfields = spec_plan_fields(ipc_file_plan(data@));
        let ghost ppend = spec_plan_pend(ipc_file_plan(data@));
        let aschema = file_reader_schema(&reader);
        let schema = convert_schema(&aschema);
        let mut batches: Vec<BatchData> = Vec::new();
        loop
            invariant
                spec_ipc_footer_blocks_ok(data@),
                ipc_file_plan(data@) is Some,
                pfields == spec_plan_fields(ipc_file_plan(data@)),
                ppend == spec_plan_pend(ipc_file_plan(data@)),
                schema.models() == pfields,
                schema.metadata@.len() == 0,
                batches@.len() <= ppend.len(),
                file_reader_fields(reader) == pfields,
                file_reader_pending(reader) == ppend.skip(batches@.len() as int),
                forall|k: int| 0 <= k < batches@.len() ==> (#[trigger] ppend[k]) is Some,
                forall|k: int|
                    0 <= k < batches@.len() ==> spec_batch_convertible(
                        spec_pend_bm(#[trigger] ppend[k]),
                        pfields,
                    ),
                forall|k: int|
                    0 <= k < batches@.len() ==> (#[trigger] batches@[k]).columns@.len()
                        == pfields.len(),
                forall|k: int, c: int|
                    0 <= k < batches@.len() && 0 <= c < pfields.len() ==> ((
                    #[trigger] batches@[k].columns@[c]).spec_tag(),
                    batches@[k].columns@[c].spec_cells()) == spec_pend_bm(ppend[k])[c],
            decreases ppend.len() - batches@.len(),
        {
            let ghost consumed = batches@.len() as int;
            match file_reader_next(&mut reader) {
                None => {
                    proof {
                        assert(ppend.skip(consumed).len() == 0);
                        assert(batches@.len() == ppend.len());
                    }
                    match TableData::new(schema, batches) {
                        Ok(t) => {
                            proof {
                                assert(t.schema.models() == pfields);
                                assert forall|k: int|
                                    0 <= k < ppend.len() implies spec_batch_rect(
                                    spec_pend_bm(#[trigger] ppend[k]),
                                    pfields,
                                ) by {
                                    let bm = spec_pend_bm(ppend[k]);
                                    assert(t.batches@[k].wf());
                                    assert forall|c: int|
                                        0 <= c < pfields.len() implies #[trigger] spec_col_rows(
                                        bm,
                                        c,
                                    ) == spec_col_rows(bm, 0) by {
                                        assert((t.batches@[k].columns@[c].spec_tag(),
                                        t.batches@[k].columns@[c].spec_cells()) == bm[c]);
                                        assert((t.batches@[k].columns@[0].spec_tag(),
                                        t.batches@[k].columns@[0].spec_cells()) == bm[0]);
                                        assert(t.batches@[k].columns@[c].spec_len()
                                            == t.batches@[k].spec_rows());
                                        assert(t.batches@[k].columns@[0].spec_len()
                                            == t.batches@[k].spec_rows());
                                    }
                                }
                                assert forall|i: int|
                                    0 <= i < t.batches@.len() implies (
                                #[trigger] t.batches@[i]).spec_rows() == spec_model_batch_rows(
                                    ppend[i],
                                    pfields.len() as int,
                                ) by {
                                    if pfields.len() > 0 {
                                        assert((t.batches@[i].columns@[0].spec_tag(),
                                        t.batches@[i].columns@[0].spec_cells()) == spec_pend_bm(
                                            ppend[i],
                                        )[0]);
                                    }
                                }
                                lemma_built_rows(
                                    t.batches@,
                                    ppend,
                                    pfields.len() as int,
                                    t.batches@.len() as int,
                                );
                            }
                            return Ok(t);
                        },
                        Err(e) => {
                            proof {
                                assert(!spec_plan_decodes(pfields, ppend)) by {
                                    if spec_plan_decodes(pfields, ppend) {
                                        lemma_plan_builds(schema, batches@, pfields, ppend);
                                    }
                                }
                            }
                            return Err(e);
                        },
                    }
                },
                Some(Ok(b)) => {
                    proof {
                        assert(ppend.skip(consumed).len() > 0);
                        assert(ppend.skip(consumed)[0] == ppend[consumed]);
                        assert(ppend.skip(consumed).drop_first() =~= ppend.skip(consumed + 1));
                    }
                    match convert_batch(&b, &schema) {
                        Ok(bd) => {
                            batches.push(bd);
                        },
                        Err(e) => {
                            proof {
                                assert(!spec_batch_convertible(
                                    spec_pend_bm(ppend[consumed]),
                                    pfields,
                                ));
                            }
                            return Err(e);
                        },
                    }
                },
                Some(Err(m)) => {
                    proof {
                        assert(ppend.skip(consumed).len() > 0);
                        assert(ppend.skip(consumed)[0] == ppend[consumed]);
                        assert(ppend[consumed] is None);
                    }
                    return Err(io_error("Failed to read record batch: ", m));
                },
            }
        }
    }

    fn decode_ipc_stream(data: &[u8]) -> (out: CoreResult<TableData>)
        ensures
            ({
                let plan = ipc_stream_plan(data@);
                &&& (out is Ok <==> (plan is Some && spec_plan_decodes(
                    spec_plan_fields(plan),
                    spec_plan_pend(plan),
                )))
                &&& (out matches Ok(t) ==> t.wf() && spec_table_matches_plan(
                    t,
                    spec_plan_fields(plan),
                    spec_plan_pend(plan),
                ))
            }),
    {
        let owned = slice_to_vec(data);
        let mut reader = match stream_reader_new(owned) {
            Ok(r) => r,
            Err(m) => {
                return Err(io_error("Failed to create IPC stream reader: ", m));
            },
        };
        let ghost pfields = spec_plan_fields(ipc_stream_plan(data@));
        let ghost ppend = spec_plan_pend(ipc_stream_plan(data@));
        let aschema = stream_reader_schema(&reader);
        let schema = convert_schema(&aschema);
        let mut batches: Vec<BatchData> = Vec::new();
        loop
            invariant
                ipc_stream_plan(data@) is Some,
                pfields == spec_plan_fields(ipc_stream_plan(data@)),
                ppend == spec_plan_pend(ipc_stream_plan(data@)),
                schema.models() == pfields,
                schema.metadata@.len() == 0,
                batches@.len() <= ppend.len(),
                stream_reader_fields(reader) == pfields,
                stream_reader_pending(reader) == ppend.skip(batches@.len() as int),
                forall|k: int| 0 <= k < batches@.len() ==> (#[trigger] ppend[k]) is Some,
                forall|k: int|
                    0 <= k < batches@.len() ==> spec_batch_convertible(
                        spec_pend_bm(#[trigger] ppend[k]),
                        pfields,
                    ),
                forall|k: int|
                    0 <= k < batches@.len() ==> (#[trigger] batches@[k]).columns@.len()
                        == pfields.len(),
                forall|k: int, c: int|
                    0 <= k < batches@.len() && 0 <= c < pfields.len() ==> ((
                    #[trigger] batches@[k].columns@[c]).spec_tag(),
                    batches@[k].columns@[c].spec_cells()) == spec_pend_bm(ppend[k])[c],
            decreases ppend.len() - batches@.len(),
        {
            let ghost consumed = batches@.len() as int;
            match stream_reader_next(&mut reader) {
                None => {
                    proof {
                        assert(ppend.skip(consumed).len() == 0);
                        assert(batches@.len() == ppend.len());
                    }
                    match TableData::new(schema, batches) {
                        Ok(t) => {
                            proof {
                                assert(t.schema.models() == pfields);
                                assert forall|k: int|
                                    0 <= k < ppend.len() implies spec_batch_rect(
                                    spec_pend_bm(#[trigger] ppend[k]),
                                    pfields,
                                ) by {
                                    let bm = spec_pend_bm(ppend[k]);
                                    assert(t.batches@[k].wf());
                                    assert forall|c: int|
                                        0 <= c < pfields.len() implies #[trigger] spec_col_rows(
                                        bm,
                                        c,
                                    ) == spec_col_rows(bm, 0) by {
                                        assert((t.batches@[k].columns@[c].spec_tag(),
                                        t.batches@[k].columns@[c].spec_cells()) == bm[c]);
                                        assert((t.batches@[k].columns@[0].spec_tag(),
                                        t.batches@[k].columns@[0].spec_cells()) == bm[0]);
                                        assert(t.batches@[k].columns@[c].spec_len()
                                            == t.batches@[k].spec_rows());
                                        assert(t.batches@[k].columns@[0].spec_len()
                                            == t.batches@[k].spec_rows());
                                    }
                                }
                                assert forall|i: int|
                                    0 <= i < t.batches@.len() implies (
                                #[trigger] t.batches@[i]).spec_rows() == spec_model_batch_rows(
                                    ppend[i],
                                    pfields.len() as int,
                                ) by {
                                    if pfields.len() > 0 {
                                        assert((t.batches@[i].columns@[0].spec_tag(),
                                        t.batches@[i].columns@[0].spec_cells()) == spec_pend_bm(
                                            ppend[i],
                                        )[0]);
                                    }
                                }
                                lemma_built_rows(
                                    t.batches@,
                                    ppend,
                                    pfields.len() as int,
                                    t.batches@.len() as int,
                                );
                            }
                            return Ok(t);
                        },
                        Err(e) => {
                            proof {
                                assert(!spec_plan_decodes(pfields, ppend)) by {
                                    if spec_plan_decodes(pfields, ppend) {
                                        lemma_plan_builds(schema, batches@, pfields, ppend);
                                    }
                                }
                            }
                            return Err(e);
                        },
                    }
                },
                Some(Ok(b)) => {
                    proof {
                        assert(ppend.skip(consumed).len() > 0);
                        assert(ppend.skip(consumed)[0] == ppend[consumed]);
                        assert(ppend.skip(consumed).drop_first() =~= ppend.skip(consumed + 1));
                    }
                    match convert_batch(&b, &schema) {
                        Ok(bd) => {
                            batches.push(bd);
                        },
                        Err(e) => {
                            proof {
                                assert(!spec_batch_convertible(
                                    spec_pend_bm(ppend[consumed]),
                                    pfields,
                                ));
                            }
                            return Err(e);
                        },
                    }
                },
                Some(Err(m)) => {
                    proof {
                        assert(ppend.skip(consumed).len() > 0);
                        assert(ppend.skip(consumed)[0] == ppend[consumed]);
                        assert(ppend[consumed] is None);
                    }
                    return Err(io_error("Failed to read record batch: ", m));
                },
            }
        }
    }

    fn decode_parquet(data: &[u8]) -> (out: CoreResult<TableData>)
        ensures
            ({
                let plan = parquet_plan(data@);
                &&& (out is Ok <==> (plan is Some && spec_plan_decodes(
                    spec_plan_fields(plan),
                    spec_plan_pend(plan),
                )))
                &&& (out matches Ok(t) ==> t.wf() && spec_table_matches_plan(
                    t,
                    spec_plan_fields(plan),
                    spec_plan_pend(plan),
                ))
            }),
    {
        let owned = slice_to_vec(data);
        let mut reader = match parquet_reader_new(owned) {
            Ok(r) => r,
            Err(m) => {
                return Err(io_error("Failed to create Parquet reader: ", m));
            },
        };
        let ghost pfields = spec_plan_fields(parquet_plan(data@));
        let ghost ppend = spec_plan_pend(parquet_plan(data@));
        let aschema = parquet_reader_schema(&reader);
        let schema = convert_schema(&aschema);
        let mut batches: Vec<BatchData> = Vec::new();
        loop
            invariant
                parquet_plan(data@) is Some,
                pfields == spec_plan_fields(parquet_plan(data@)),
                ppend == spec_plan_pend(parquet_plan(data@)),
                schema.models() == pfields,
                schema.metadata@.len() == 0,
                batches@.len() <= ppend.len(),
                parquet_reader_fields(reader) == pfields,
                parquet_reader_pending(reader) == ppend.skip(batches@.len() as int),
                forall|k: int| 0 <= k < batches@.len() ==> (#[trigger] ppend[k]) is Some,
                forall|k: int|
                    0 <= k < batches@.len() ==> spec_batch_convertible(
                        spec_pend_bm(#[trigger] ppend[k]),
                        pfields,
                    ),
                forall|k: int|
                    0 <= k < batches@.len() ==> (#[trigger] batches@[k]).columns@.len()
                        == pfields.len(),
                forall|k: int, c: int|
                    0 <= k < batches@.len() && 0 <= c < pfields.len() ==> ((
                    #[trigger] batches@[k].columns@[c]).spec_tag(),
                    batches@[k].columns@[c].spec_cells()) == spec_pend_bm(ppend[k])[c],
            decreases ppend.len() - batches@.len(),
        {
            let ghost consumed = batches@.len() as int;
            match parquet_reader_next(&mut reader) {
                None => {
                    proof {
                        assert(ppend.skip(consumed).len() == 0);
                        assert(batches@.len() == ppend.len());
                    }
                    match TableData::new(schema, batches) {
                        Ok(t) => {
                            proof {
                                assert(t.schema.models() == pfields);
                                assert forall|k: int|
                                    0 <= k < ppend.len() implies spec_batch_rect(
                                    spec_pend_bm(#[trigger] ppend[k]),
                                    pfields,
                                ) by {
                                    let bm = spec_pend_bm(ppend[k]);
                                    assert(t.batches@[k].wf());
                                    assert forall|c: int|
                                        0 <= c < pfields.len() implies #[trigger] spec_col_rows(
                                        bm,
                                        c,
                                    ) == spec_col_rows(bm, 0) by {
                                        assert((t.batches@[k].columns@[c].spec_tag(),
                                        t.batches@[k].columns@[c].spec_cells()) == bm[c]);
                                        assert((t.batches@[k].columns@[0].spec_tag(),
                                        t.batches@[k].columns@[0].spec_cells()) == bm[0]);
                                        assert(t.batches@[k].columns@[c].spec_len()
                                            == t.batches@[k].spec_rows());
                                        assert(t.batches@[k].columns@[0].spec_len()
                                            == t.batches@[k].spec_rows());
                                    }
                                }
                                assert forall|i: int|
                                    0 <= i < t.batches@.len() implies (
                                #[trigger] t.batches@[i]).spec_rows() == spec_model_batch_rows(
                                    ppend[i],
                                    pfields.len() as int,
                                ) by {
                                    if pfields.len() > 0 {
                                        assert((t.batches@[i].columns@[0].spec_tag(),
                                        t.batches@[i].columns@[0].spec_cells()) == spec_pend_bm(
                                            ppend[i],
                                        )[0]);
                                    }
                                }
                                lemma_built_rows(
                                    t.batches@,
                                    ppend,
                                    pfields.len() as int,
                                    t.batches@.len() as int,
                                );
                            }
                            return Ok(t);
                        },
                        Err(e) => {
                            proof {
                                assert(!spec_plan_decodes(pfields, ppend)) by {
                                    if spec_plan_decodes(pfields, ppend) {
                                        lemma_plan_builds(schema, batches@, pfields, ppend);
                                    }
                                }
                            }
                            return Err(e);
                        },
                    }
                },
                Some(Ok(b)) => {
                    proof {
                        assert(ppend.skip(consumed).len() > 0);
                        assert(ppend.skip(consumed)[0] == ppend[consumed]);
                        assert(ppend.skip(consumed).drop_first() =~= ppend.skip(consumed + 1));
                    }
                    match convert_batch(&b, &schema) {
                        Ok(bd) => {
                            batches.push(bd);
                        },
                        Err(e) => {
                            proof {
                                assert(!spec_batch_convertible(
                                    spec_pend_bm(ppend[consumed]),
                                    pfields,
                                ));
                            }
                            return Err(e);
                        },
                    }
                },
                Some(Err(m)) => {
                    proof {
                        assert(ppend.skip(consumed).len() > 0);
                        assert(ppend.skip(consumed)[0] == ppend[consumed]);
                        assert(ppend[consumed] is None);
                    }
                    return Err(io_error("Failed to read Parquet batch: ", m));
                },
            }
        }
    }

    /// Encode a table into the IPC file container with the given write
    /// options.  Whether the engine accepts the write depends on its
    /// build, so success is not owed; but any bytes handed out are
    /// exactly the engine's file-layout encoding of the table's fields,
    /// batches and codec.
    pub fn encode(table: &TableData, options: &IpcWriteConfig) -> (out: CoreResult<Vec<u8>>)
        requires
            table.wf(),
        ensures
            out matches Ok(bytes) ==> bytes@ == ipc_file_bytes_of(
                table.schema.models(),
                spec_table_batch_models(*table),
                options.compression,
            ),
            out is Ok ==> spec_schema_encodable(table.schema.models()) && spec_table_text_ok(
                *table,
            ),
    {
        let aschema = match build_arrow_schema(&table.schema) {
            Ok(s) => s,
            Err(e) => {
                return Err(e);
            },
        };
        let mut w = match file_writer_new(&aschema, options.compression) {
            Ok(w) => w,
            Err(m) => {
                return Err(io_error("Failed to create IPC file writer: ", m));
            },
        };
        let nb = table.batches.len();
        let mut bi: usize = 0;
        while bi < nb
            invariant
                table.wf(),
                bi <= nb == table.batches@.len(),
                file_writer_state(w) == (table.schema.models(), spec_table_batch_models(
                    *table,
                ).take(bi as int), options.compression),
                forall|k: int| 0 <= k < bi ==> spec_batch_text_ok(#[trigger] table.batches@[k]),
            decreases nb - bi,
        {
            let batch = match build_arrow_batch(&table.batches[bi], &aschema) {
                Ok(b) => b,
                Err(e) => {
                    return Err(e);
                },
            };
            match file_writer_write(&mut w, &batch) {
                Ok(_) => {},
                Err(m) => {
                    return Err(io_error("Failed to write batch: ", m));
                },
            }
            proof {
                assert(spec_table_batch_models(*table).take(bi as int).push(
                    spec_batch_model(table.batches@[bi as int]),
                ) =~= spec_table_batch_models(*table).take(bi as int + 1));
            }
            bi = bi + 1;
        }
        proof {
            assert(spec_table_batch_models(*table).take(nb as int) =~= spec_table_batch_models(
                *table,
            ));
        }
        match file_writer_finish(w) {
            Ok(bytes) => Ok(bytes),
            Err(m) => Err(io_error("Failed to finish writing: ", m)),
        }
    }

    /// Encode a table into the IPC stream container with the given write
    /// options; any bytes handed out are exactly the engine's
    /// stream-layout encoding of the table's fields, batches and codec.
    pub fn encode_stream(table: &TableData, options: &IpcWriteConfig) -> (out: CoreResult<Vec<u8>>)
        requires
            table.wf(),
        ensures
            out matches Ok(bytes) ==> bytes@ == ipc_stream_bytes_of(
                table.schema.models(),
                spec_table_batch_models(*table),
                options.compression,
            ),
            out is Ok ==> spec_schema_encodable(table.schema.models()) && spec_table_text_ok(
                *table,
            ),
    {
        let aschema = match build_arrow_schema(&table.schema) {
            Ok(s) => s,
            Err(e) => {
                return Err(e);
            },
        };
        let mut w = match stream_writer_new(&aschema, options.compression) {
            Ok(w) => w,
            Err(m) => {
                return Err(io_error("Failed to create IPC stream writer: ", m));
            },
        };
        let nb = table.batches.len();
        let mut bi: usize = 0;
        while bi < nb
            invariant
                table.wf(),
                bi <= nb == table.batches@.len(),
                stream_writer_state(w) == (table.schema.models(), spec_table_batch_models(
                    *table,
                ).take(bi as int), options.compression),
                forall|k: int| 0 <= k < bi ==> spec_batch_text_ok(#[trigger] table.batches@[k]),
            decreases nb - bi,
        {
            let batch = match build_arrow_batch(&table.batches[bi], &aschema) {
                Ok(b) => b,
                Err(e) => {
                    return Err(e);
                },
            };
            match stream_writer_write(&mut w, &batch) {
                Ok(_) => {},
                Err(m) => {
                    return Err(io_error("Failed to write batch: ", m));
                },
            }
            proof {
                assert(spec_table_batch_models(*table).take(bi as int).push(
                    spec_batch_model(table.batches@[bi as int]),
                ) =~= spec_table_batch_models(*table).take(bi as int + 1));
            }
            bi = bi + 1;
        }
        proof {
            assert(spec_table_batch_models(*table).take(nb as int) =~= spec_table_batch_models(
                *table,
            ));
        }
        match stream_writer_finish(w) {
            Ok(bytes) => Ok(bytes),
            Err(m) => Err(io_error("Failed to finish stream writing: ", m)),
        }
    }
}


} // verus!
