//! Table lifecycle across the boundary: native-owned tables are stored in
//! an explicitly constructed registry, referenced by opaque handles, and
//! freed only by an explicit call — never by implicit collection, since
//! the host cannot observe native memory.  The byte-level entry points
//! tie the sniffer, the engine and the registry together: raw bytes are
//! classified, decoded, stored, and further calls use handle + index
//! pairs.

use vstd::prelude::*;
use crate::compression::IpcWriteConfig;
use crate::detect::FileFormat;
use crate::engine::DataEngine;
use crate::error::{CoreError, CoreResult, ErrorCode};
use crate::handles::HandleId;
use crate::model::{BatchData, SchemaData, TableData};
use crate::table::{TableRegistry, spec_registry_wf};

verus! {

/// A fresh, empty table registry.
pub fn new_table_registry() -> (r: TableRegistry)
    ensures
        spec_registry_wf(r),
        r@ == Map::<HandleId, TableData>::empty(),
{
    TableRegistry::new()
}

/// Store a table and hand out its handle; fails with a `Memory` error
/// only when the handle space is exhausted.
pub fn store_table(reg: &mut TableRegistry, table: TableData) -> (out: CoreResult<HandleId>)
    requires
        spec_registry_wf(*old(reg)),
        table.wf(),
    ensures
        spec_registry_wf(*final(reg)),
        out is Ok <==> old(reg).next_handle() < crate::handles::HandleId::MAX,
        forall|h: HandleId|
            old(reg)@.contains_key(h) ==> final(reg)@.contains_key(h)
                && #[trigger] final(reg)@[h] == old(reg)@[h],
        match out {
            Ok(h) => {
                &&& h != crate::handles::INVALID_HANDLE
                &&& !old(reg)@.contains_key(h)
                &&& final(reg)@ == old(reg)@.insert(h, table)
            },
            Err(e) => final(reg)@ == old(reg)@ && e.code == ErrorCode::Memory,
        },
{
    if !reg.can_issue() {
        return Err(CoreError::memory(String::from_str("Handle space exhausted")));
    }
    let h = reg.insert(table);
    Ok(h)
}

/// Resolve a handle; an unknown or freed handle yields an
/// `InvalidHandle` error, never a panic.
pub fn get_table<'a>(reg: &'a TableRegistry, handle: HandleId) -> (out: CoreResult<&'a TableData>)
    requires
        spec_registry_wf(*reg),
    ensures
        match out {
            Ok(t) => reg@.contains_key(handle) && *t == reg@[handle] && t.wf(),
            Err(e) => !reg@.contains_key(handle) && e.code == ErrorCode::InvalidHandle,
        },
{
    match reg.get(handle) {
        Some(t) => Ok(t),
        None => {
            let mut msg = String::from_str("Invalid table handle: ");
            let h = crate::text::fmt_u64(handle as u64);
            msg.append(h.as_str());
            Err(CoreError::invalid_handle(msg))
        },
    }
}

/// Remove a table; the freed handle never resolves again.
pub fn remove_table(reg: &mut TableRegistry, handle: HandleId) -> (out: CoreResult<()>)
    requires
        spec_registry_wf(*old(reg)),
    ensures
        spec_registry_wf(*final(reg)),
        final(reg)@ == old(reg)@.remove(handle),
        final(reg).next_handle() == old(reg).next_handle(),
        out is Ok <==> old(reg)@.contains_key(handle),
        out is Err ==> (out matches Err(e) && e.code == ErrorCode::InvalidHandle),
{
    match reg.remove(handle) {
        Some(_) => Ok(()),
        None => {
            let mut msg = String::from_str("Invalid table handle: ");
            let h = crate::text::fmt_u64(handle as u64);
            msg.append(h.as_str());
            Err(CoreError::invalid_handle(msg))
        },
    }
}

/// Explicit free call from the host.
pub fn free_table(reg: &mut TableRegistry, handle: HandleId) -> (out: CoreResult<()>)
    requires
        spec_registry_wf(*old(reg)),
    ensures
        spec_registry_wf(*final(reg)),
        final(reg)@ == old(reg)@.remove(handle),
        final(reg).next_handle() == old(reg).next_handle(),
        out is Ok <==> old(reg)@.contains_key(handle),
{
    remove_table(reg, handle)
}

/// Whether a handle currently resolves.
pub fn table_exists(reg: &TableRegistry, handle: HandleId) -> (r: bool)
    requires
        spec_registry_wf(*reg),
    ensures
        r == reg@.contains_key(handle),
{
    reg.contains(handle)
}

/// Number of live tables.
pub fn get_table_count(reg: &TableRegistry) -> (r: usize)
    requires
        spec_registry_wf(*reg),
    ensures
        r == reg@.len(),
{
    reg.len()
}

/// Drop every table; used by tests for explicit teardown.  Freed handles
/// are still never reissued.
pub fn clear_all_tables(reg: &mut TableRegistry)
    requires
        spec_registry_wf(*old(reg)),
    ensures
        spec_registry_wf(*final(reg)),
        final(reg)@ == Map::<HandleId, TableData>::empty(),
        final(reg).next_handle() == old(reg).next_handle(),
{
    reg.clear()
}

/// Rows of the referenced table.
pub fn table_row_count(reg: &TableRegistry, handle: HandleId) -> (out: CoreResult<usize>)
    requires
        spec_registry_wf(*reg),
    ensures
        match out {
            Ok(n) => reg@.contains_key(handle) && n == reg@[handle].spec_row_count(),
            Err(e) => !reg@.contains_key(handle) && e.code == ErrorCode::InvalidHandle,
        },
{
    match get_table(reg, handle) {
        Ok(t) => Ok(t.row_count()),
        Err(e) => Err(e),
    }
}

/// Columns of the referenced table.
pub fn table_column_count(reg: &TableRegistry, handle: HandleId) -> (out: CoreResult<usize>)
    requires
        spec_registry_wf(*reg),
    ensures
        match out {
            Ok(n) => reg@.contains_key(handle) && n == reg@[handle].spec_col_count(),
            Err(e) => !reg@.contains_key(handle) && e.code == ErrorCode::InvalidHandle,
        },
{
    match get_table(reg, handle) {
        Ok(t) => Ok(t.column_count()),
        Err(e) => Err(e),
    }
}

/// The referenced table's column names, in schema order.
pub fn get_column_names(reg: &TableRegistry, handle: HandleId) -> (out: CoreResult<Vec<String>>)
    requires
        spec_registry_wf(*reg),
    ensures
        match out {
            Ok(names) => reg@.contains_key(handle) && names@.len()
                == reg@[handle].spec_col_count() && forall|i: int|
                0 <= i < names@.len() ==> (#[trigger] names@[i])@
                    == reg@[handle].schema.fields@[i].name@,
            Err(e) => !reg@.contains_key(handle) && e.code == ErrorCode::InvalidHandle,
        },
{
    let t = match get_table(reg, handle) {
        Ok(t) => t,
        Err(e) => {
            return Err(e);
        },
    };
    let n = t.schema.fields.len();
    let mut names: Vec<String> = Vec::new();
    let mut i: usize = 0;
    while i < n
        invariant
            i <= n == t.schema.fields@.len(),
            names@.len() == i,
            forall|j: int|
                0 <= j < i ==> (#[trigger] names@[j])@ == t.schema.fields@[j].name@,
        decreases n - i,
    {
        names.push(t.schema.fields[i].name.clone());
        i = i + 1;
    }
    Ok(names)
}

/// Build a table from a schema and batches and store it: the call
/// succeeds exactly when the table constructor accepts the batches and
/// the handle space has room, and the stored table is exactly the one
/// built.
pub fn create_table_from_batches(
    reg: &mut TableRegistry,
    schema: SchemaData,
    batches: Vec<BatchData>,
) -> (out: CoreResult<HandleId>)
    requires
        spec_registry_wf(*old(reg)),
    ensures
        spec_registry_wf(*final(reg)),
        out is Ok <==> (batches@.len() > 0 && crate::model::spec_consistent(schema, batches@)
            && crate::model::spec_total_rows(batches@) <= usize::MAX && old(reg).next_handle()
            < crate::handles::HandleId::MAX),
        match out {
            Ok(h) => {
                &&& final(reg)@.contains_key(h)
                &&& !old(reg)@.contains_key(h)
                &&& final(reg)@ == old(reg)@.insert(h, final(reg)@[h])
                &&& final(reg)@[h].wf()
                &&& final(reg)@[h].schema == schema
                &&& final(reg)@[h].batches@ == batches@
            },
            Err(_) => final(reg)@ == old(reg)@,
        },
{
    let table = match TableData::new(schema, batches) {
        Ok(t) => t,
        Err(e) => {
            return Err(e);
        },
    };
    store_table(reg, table)
}

/// Read a classified byte buffer into a stored table: the sniffer
/// classifies, the engine decodes, the registry stores.  Every handle
/// handed out references a table satisfying the table invariant.
pub fn read_table_from_bytes(reg: &mut TableRegistry, data: &[u8]) -> (out: CoreResult<HandleId>)
    requires
        spec_registry_wf(*old(reg)),
    ensures
        spec_registry_wf(*final(reg)),
        forall|h: HandleId|
            old(reg)@.contains_key(h) ==> final(reg)@.contains_key(h)
                && #[trigger] final(reg)@[h] == old(reg)@[h],
        crate::detect::spec_classify(data@) is None ==> out is Err,
        (crate::detect::spec_classify(data@) matches Some(f) ==> (out is Ok <==> (
        crate::engine::spec_decodes(data@, f) && old(reg).next_handle()
            < crate::handles::HandleId::MAX))),
        match out {
            Ok(h) => {
                &&& final(reg)@.contains_key(h)
                &&& !old(reg)@.contains_key(h)
                &&& final(reg)@ == old(reg)@.insert(h, final(reg)@[h])
                &&& final(reg)@[h].wf()
                &&& (crate::detect::spec_classify(data@) matches Some(f)
                    && crate::engine::spec_table_matches_plan(
                    final(reg)@[h],
                    crate::engine::spec_decoded_fields(data@, f),
                    crate::engine::spec_decoded_pend(data@, f),
                ))
            },
            Err(_) => final(reg)@ == old(reg)@,
        },
{
    let format = match FileFormat::detect_format(data) {
        Ok(f) => f,
        Err(e) => {
            return Err(e);
        },
    };
    let table = match DataEngine::decode(data, format) {
        Ok(t) => t,
        Err(e) => {
            return Err(e);
        },
    };
    store_table(reg, table)
}

/// Alias of [`read_table_from_bytes`] for hosts that hand over raw
/// buffers.
pub fn create_table_from_raw_bytes(reg: &mut TableRegistry, data: &[u8]) -> (out: CoreResult<
    HandleId,
>)
    requires
        spec_registry_wf(*old(reg)),
    ensures
        spec_registry_wf(*final(reg)),
        (crate::detect::spec_classify(data@) matches Some(f) ==> (out is Ok <==> (
        crate::engine::spec_decodes(data@, f) && old(reg).next_handle()
            < crate::handles::HandleId::MAX))),
        crate::detect::spec_classify(data@) is None ==> out is Err,
        match out {
            Ok(h) => final(reg)@.contains_key(h) && final(reg)@[h].wf(),
            Err(_) => final(reg)@ == old(reg)@,
        },
{
    read_table_from_bytes(reg, data)
}

/// Encode a stored table into the IPC file container: a stale handle is
/// an `InvalidHandle` error, and any bytes handed out are exactly the
/// engine's file-layout encoding of the referenced table under the given
/// options.
pub fn write_table_to_ipc_bytes(
    reg: &TableRegistry,
    handle: HandleId,
    options: &IpcWriteConfig,
) -> (out: CoreResult<Vec<u8>>)
    requires
        spec_registry_wf(*reg),
    ensures
        !reg@.contains_key(handle) ==> out is Err,
        out matches Ok(bytes) ==> reg@.contains_key(handle) && bytes@
            == crate::engine::ipc_file_bytes_of(
            reg@[handle].schema.models(),
            crate::engine::spec_table_batch_models(reg@[handle]),
            options.compression,
        ),
        out is Ok ==> crate::engine::spec_schema_encodable(reg@[handle].schema.models())
            && crate::engine::spec_table_text_ok(reg@[handle]),
{
    let t = match get_table(reg, handle) {
        Ok(t) => t,
        Err(e) => {
            return Err(e);
        },
    };
    DataEngine::encode(t, options)
}

/// Encode a stored table into the IPC stream container, uncompressed.
pub fn write_table_to_ipc_stream(reg: &TableRegistry, handle: HandleId) -> (out: CoreResult<
    Vec<u8>,
>)
    requires
        spec_registry_wf(*reg),
    ensures
        !reg@.contains_key(handle) ==> out is Err,
        out matches Ok(bytes) ==> reg@.contains_key(handle) && bytes@
            == crate::engine::ipc_stream_bytes_of(
            reg@[handle].schema.models(),
            crate::engine::spec_table_batch_models(reg@[handle]),
            None,
        ),
        out is Ok ==> crate::engine::spec_schema_encodable(reg@[handle].schema.models())
            && crate::engine::spec_table_text_ok(reg@[handle]),
{
    let t = match get_table(reg, handle) {
        Ok(t) => t,
        Err(e) => {
            return Err(e);
        },
    };
    let options = crate::compression::default_uncompressed_ipc_options();
    DataEngine::encode_stream(t, &options)
}

/// Encode a stored table into the Feather container (v2, byte-identical
/// to the IPC file container), uncompressed.
pub fn write_table_to_feather(reg: &TableRegistry, handle: HandleId) -> (out: CoreResult<Vec<u8>>)
    requires
        spec_registry_wf(*reg),
    ensures
        !reg@.contains_key(handle) ==> out is Err,
        out matches Ok(bytes) ==> reg@.contains_key(handle) && bytes@
            == crate::engine::ipc_file_bytes_of(
            reg@[handle].schema.models(),
            crate::engine::spec_table_batch_models(reg@[handle]),
            None,
        ),
        out is Ok ==> crate::engine::spec_schema_encodable(reg@[handle].schema.models())
            && crate::engine::spec_table_text_ok(reg@[handle]),
{
    let options = crate::compression::default_uncompressed_ipc_options();
    write_table_to_ipc_bytes(reg, handle, &options)
}

/// Encode a stored table with a simple LZ4 on/off switch; whether the
/// compressed form is used when asked for depends on the engine build.
pub fn write_table_with_compression(
    reg: &TableRegistry,
    handle: HandleId,
    enable_lz4: bool,
) -> (out: CoreResult<Vec<u8>>)
    requires
        spec_registry_wf(*reg),
    ensures
        !reg@.contains_key(handle) ==> out is Err,
        out matches Ok(bytes) ==> reg@.contains_key(handle) && (bytes@
            == crate::engine::ipc_file_bytes_of(
            reg@[handle].schema.models(),
            crate::engine::spec_table_batch_models(reg@[handle]),
            None,
        ) || (enable_lz4 && bytes@ == crate::engine::ipc_file_bytes_of(
            reg@[handle].schema.models(),
            crate::engine::spec_table_batch_models(reg@[handle]),
            Some(crate::compression::CompressionType::Lz4Frame),
        ))),
        out is Ok ==> crate::engine::spec_schema_encodable(reg@[handle].schema.models())
            && crate::engine::spec_table_text_ok(reg@[handle]),
{
    let options = crate::compression::create_ipc_options(enable_lz4);
    write_table_to_ipc_bytes(reg, handle, &options)
}

/// Decode IPC data, relying on the engine's automatic decompression.
pub fn read_ipc_data(reg: &mut TableRegistry, data: &[u8]) -> (out: CoreResult<HandleId>)
    requires
        spec_registry_wf(*old(reg)),
    ensures
        spec_registry_wf(*final(reg)),
        (crate::detect::spec_classify(data@) matches Some(f) ==> (out is Ok <==> (
        crate::engine::spec_decodes(data@, f) && old(reg).next_handle()
            < crate::handles::HandleId::MAX))),
        crate::detect::spec_classify(data@) is None ==> out is Err,
        match out {
            Ok(h) => final(reg)@.contains_key(h) && final(reg)@[h].wf(),
            Err(_) => final(reg)@ == old(reg)@,
        },
{
    read_table_from_bytes(reg, data)
}

/// Whether a byte buffer decodes as a supported columnar container; the
/// check itself never fails, and nothing is stored.
pub fn validate_arrow_data(data: &[u8]) -> (out: CoreResult<bool>)
    ensures
        out is Ok,
        out matches Ok(v) ==> (v <==> (crate::detect::spec_classify(data@) matches Some(f)
            && crate::engine::spec_decodes(data@, f))),
    {
    let format = match FileFormat::detect_format(data) {
        Ok(f) => f,
        Err(_) => {
            return Ok(false);
        },
    };
    match DataEngine::decode(data, format) {
        Ok(_) => Ok(true),
        Err(_) => Ok(false),
    }
}

/// One-line description of a stored table: field, batch and row counts.
pub fn get_table_format_info(reg: &TableRegistry, handle: HandleId) -> (out: CoreResult<String>)
    requires
        spec_registry_wf(*reg),
    ensures
        match out {
            Ok(info) => reg@.contains_key(handle) && {
                let t = reg@[handle];
                info@ == "Schema: "@ + crate::text::spec_decimal(t.spec_col_count()) + " fields, "@
                    + crate::text::spec_decimal(t.batches@.len() as int) + " batches, "@
                    + crate::text::spec_decimal(t.spec_row_count()) + " total rows"@
            },
            Err(e) => !reg@.contains_key(handle) && e.code == ErrorCode::InvalidHandle,
        },
{
    let t = match get_table(reg, handle) {
        Ok(t) => t,
        Err(e) => {
            return Err(e);
        },
    };
    let mut info = String::from_str("Schema: ");
    let f = crate::text::fmt_usize(t.column_count());
    info.append(f.as_str());
    info.append(" fields, ");
    let b = crate::text::fmt_usize(t.batch_count());
    info.append(b.as_str());
    info.append(" batches, ");
    let r = crate::text::fmt_usize(t.row_count());
    info.append(r.as_str());
    info.append(" total rows");
    Ok(info)
}

} // verus!
