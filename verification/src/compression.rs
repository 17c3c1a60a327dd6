//! Compression configuration: a user-facing selection converted into
//! engine write options.  Whether an algorithm is available depends on the
//! engine build, so availability is queried through the engine at call
//! time, never assumed; an unavailable selection fails with a validation
//! error enumerating the supported algorithm names.

use vstd::prelude::*;
use crate::error::{CoreError, CoreResult, ErrorCode};
use crate::model::{BatchData, ColumnData, DataType, FieldDef, SchemaData, TableData, str_eq};

verus! {

/// Compression algorithms the engine may offer for the columnar wire
/// format.
#[derive(Debug, Clone, Copy, PartialEq, Eq, Structural)]
pub enum CompressionType {
    Uncompressed,
    Lz4Frame,
    Zstd,
}

/// Plain-value stand-in for the engine's write options: the negotiated
/// compression (if any) and the dictionary-preservation flag.
#[derive(Debug, Clone, Copy, PartialEq, Eq, Structural)]
pub struct IpcWriteConfig {
    pub compression: Option<CompressionType>,
    pub preserve_dict_id: bool,
}

/// Whether the engine build can write batches with the given codec,
/// answered by attempting a one-row encode with it: the codec features
/// are checked at write time, so only a real write settles the
/// question.  The answer depends on the engine build, so nothing is
/// promised of it.
fn codec_accepted(kind: CompressionType) -> bool {
    let compression = match kind {
        CompressionType::Uncompressed => None,
        other => Some(other),
    };
    let mut fields: Vec<FieldDef> = Vec::new();
    fields.push(FieldDef::new(String::from_str("probe"), DataType::new_int32(), false));
    let schema = SchemaData::new(fields);
    let mut col: Vec<Option<i32>> = Vec::new();
    col.push(Some(0));
    let mut columns: Vec<ColumnData> = Vec::new();
    columns.push(ColumnData::Int32(col));
    let mut batches: Vec<BatchData> = Vec::new();
    batches.push(BatchData { columns });
    match TableData::new(schema, batches) {
        Ok(t) => {
            let options = IpcWriteConfig { compression, preserve_dict_id: true };
            crate::engine::DataEngine::encode(&t, &options).is_ok()
        },
        Err(_) => false,
    }
}

/// Whether the engine build can write LZ4-frame-compressed batches.
pub fn is_lz4_supported() -> bool {
    codec_accepted(CompressionType::Lz4Frame)
}

/// The offered compression names for the given engine answers:
/// uncompressed always first, and each codec listed exactly when its
/// flag is set, once.
pub fn supported_types_list(lz4: bool, zstd: bool) -> (out: Vec<String>)
    ensures
        out@.len() >= 1,
        out@[0]@ == "None"@,
        (exists|i: int| 0 <= i < out@.len() && (#[trigger] out@[i])@ == "LZ4_FRAME"@) <==> lz4,
        (exists|i: int| 0 <= i < out@.len() && (#[trigger] out@[i])@ == "ZSTD"@) <==> zstd,
        forall|i: int|
            0 <= i < out@.len() ==> (#[trigger] out@[i])@ == "None"@ || out@[i]@ == "LZ4_FRAME"@
                || out@[i]@ == "ZSTD"@,
        forall|i: int, j: int|
            0 <= i < j < out@.len() ==> (#[trigger] out@[i])@ != (#[trigger] out@[j])@,
{
    let mut types: Vec<String> = Vec::new();
    types.push(String::from_str("None"));
    if lz4 {
        types.push(String::from_str("LZ4_FRAME"));
    }
    if zstd {
        types.push(String::from_str("ZSTD"));
    }
    proof {
        reveal_strlit("None");
        reveal_strlit("LZ4_FRAME");
        reveal_strlit("ZSTD");
        assert("None"@.len() == 4 && "LZ4_FRAME"@.len() == 9 && "ZSTD"@.len() == 4);
        assert("None"@[0] == 'N' && "ZSTD"@[0] == 'Z');
        if lz4 {
            assert(types@[1]@ == "LZ4_FRAME"@);
        }
        if zstd {
            assert(types@[types@.len() - 1]@ == "ZSTD"@);
        }
    }
    types
}

/// The names of the compression selections the engine currently accepts;
/// uncompressed writing is always offered first, each name once.
pub fn get_supported_compression_types() -> (out: Vec<String>)
    ensures
        out@.len() >= 1,
        out@[0]@ == "None"@,
        forall|i: int|
            0 <= i < out@.len() ==> (#[trigger] out@[i])@ == "None"@ || out@[i]@ == "LZ4_FRAME"@
                || out@[i]@ == "ZSTD"@,
        forall|i: int, j: int|
            0 <= i < j < out@.len() ==> (#[trigger] out@[i])@ != (#[trigger] out@[j])@,
{
    let lz4 = codec_accepted(CompressionType::Lz4Frame);
    let zstd = codec_accepted(CompressionType::Zstd);
    supported_types_list(lz4, zstd)
}

fn supported_types_message() -> (r: String) {
    let types = get_supported_compression_types();
    let n = types.len();
    let mut msg = String::from_str("Supported compression types: ");
    let mut i: usize = 0;
    while i < n
        invariant
            i <= n == types@.len(),
        decreases n - i,
    {
        if i > 0 {
            msg.append(", ");
        }
        msg.append(types[i].as_str());
        i = i + 1;
    }
    msg
}

/// Engine write options without compression.
pub fn default_uncompressed_ipc_options() -> (r: IpcWriteConfig)
    ensures
        r.compression is None,
{
    IpcWriteConfig { compression: None, preserve_dict_id: true }
}

/// Engine write options with LZ4 compression if the engine accepts it,
/// falling back to no compression otherwise.
pub fn default_lz4_ipc_options() -> (r: IpcWriteConfig)
    ensures
        r.compression is Some ==> r.compression == Some(CompressionType::Lz4Frame),
{
    if codec_accepted(CompressionType::Lz4Frame) {
        IpcWriteConfig { compression: Some(CompressionType::Lz4Frame), preserve_dict_id: true }
    } else {
        IpcWriteConfig { compression: None, preserve_dict_id: true }
    }
}

/// Engine write options with configurable LZ4 compression.
pub fn create_ipc_options(enable_lz4: bool) -> (r: IpcWriteConfig)
    ensures
        !enable_lz4 ==> r.compression is None,
        r.compression is Some ==> enable_lz4 && r.compression == Some(CompressionType::Lz4Frame),
{
    if enable_lz4 {
        default_lz4_ipc_options()
    } else {
        default_uncompressed_ipc_options()
    }
}

/// Enable or disable LZ4 compression on existing write options; enabling
/// fails when the engine build does not accept the codec, leaving the
/// options untouched.
pub fn enable_lz4_on_options(opts: &mut IpcWriteConfig, lz4: bool) -> (out: CoreResult<()>)
    ensures
        !lz4 ==> out is Ok && final(opts).compression is None,
        lz4 ==> match out {
            Ok(_) => final(opts).compression == Some(CompressionType::Lz4Frame),
            Err(e) => *final(opts) == *old(opts) && e.code == ErrorCode::Validation,
        },
        final(opts).preserve_dict_id == old(opts).preserve_dict_id,
{
    if lz4 {
        if !codec_accepted(CompressionType::Lz4Frame) {
            let mut msg = String::from_str("LZ4 compression is not available in this build. ");
            let rest = supported_types_message();
            msg.append(rest.as_str());
            return Err(CoreError::validation(msg));
        }
        opts.compression = Some(CompressionType::Lz4Frame);
    } else {
        opts.compression = None;
    }
    Ok(())
}

/// Build engine write options from an explicit compression choice; a
/// codec the engine build does not accept is rejected, enumerating the
/// supported names.
pub fn create_custom_ipc_options(
    compression: Option<CompressionType>,
    preserve_dict_id: bool,
    _alignment: Option<usize>,
) -> (out: CoreResult<IpcWriteConfig>)
    ensures
        compression is None ==> out is Ok,
        match out {
            Ok(o) => o.compression == compression && o.preserve_dict_id == preserve_dict_id,
            Err(e) => compression is Some && e.code == ErrorCode::Validation,
        },
{
    match compression {
        Some(kind) => {
            if !codec_accepted(kind) {
                let mut msg = String::from_str(
                    "Requested compression is not available in this build. ",
                );
                let rest = supported_types_message();
                msg.append(rest.as_str());
                return Err(CoreError::validation(msg));
            }
            Ok(IpcWriteConfig { compression: Some(kind), preserve_dict_id })
        },
        None => Ok(IpcWriteConfig { compression: None, preserve_dict_id }),
    }
}

/// User-facing compression configuration: an enabled flag, the named
/// algorithm (`None`, `LZ4_FRAME` or `ZSTD`), and dictionary
/// preservation.
#[derive(Debug, Clone)]
pub struct CompressionConfig {
    pub enabled: bool,
    pub compression_type: String,
    pub preserve_dict_id: bool,
}

impl Default for CompressionConfig {
    /// Disabled, named `None`, preserving dictionaries.
    fn default() -> (r: CompressionConfig)
        ensures
            !r.enabled,
            r.compression_type@ == "None"@,
            r.preserve_dict_id,
    {
        CompressionConfig {
            enabled: false,
            compression_type: String::from_str("None"),
            preserve_dict_id: true,
        }
    }
}

impl CompressionConfig {
    /// A configuration with LZ4-frame compression enabled.
    pub fn with_lz4() -> (r: CompressionConfig)
        ensures
            r.enabled,
            r.compression_type@ == "LZ4_FRAME"@,
            r.preserve_dict_id,
    {
        CompressionConfig {
            enabled: true,
            compression_type: String::from_str("LZ4_FRAME"),
            preserve_dict_id: true,
        }
    }

    /// A configuration with ZSTD compression enabled.
    pub fn with_zstd() -> (r: CompressionConfig)
        ensures
            r.enabled,
            r.compression_type@ == "ZSTD"@,
            r.preserve_dict_id,
    {
        CompressionConfig {
            enabled: true,
            compression_type: String::from_str("ZSTD"),
            preserve_dict_id: true,
        }
    }

    /// Convert the selection into engine write options.  A disabled
    /// configuration or the name `None` yields uncompressed options; an
    /// unknown name is rejected up front; a known name the engine build
    /// does not accept is rejected enumerating the supported names.
    pub fn to_ipc_options(&self) -> (out: CoreResult<IpcWriteConfig>)
        ensures
            !self.enabled ==> out is Ok && (out matches Ok(o) && o.compression is None),
            self.enabled && self.compression_type@ == "None"@ ==> out is Ok && (out matches Ok(o)
                && o.compression is None),
            self.enabled && !(self.compression_type@ == "None"@ || self.compression_type@
                == "LZ4_FRAME"@ || self.compression_type@ == "ZSTD"@) ==> out is Err,
            match out {
                Ok(o) => {
                    &&& o.preserve_dict_id == self.preserve_dict_id
                    &&& (o.compression == Some(CompressionType::Lz4Frame) <==> self.enabled
                        && self.compression_type@ == "LZ4_FRAME"@)
                    &&& (o.compression == Some(CompressionType::Zstd) <==> self.enabled
                        && self.compression_type@ == "ZSTD"@)
                },
                Err(e) => self.enabled && self.compression_type@ != "None"@ && e.code
                    == ErrorCode::Validation,
            },
    {
        if !self.enabled {
            return Ok(IpcWriteConfig { compression: None, preserve_dict_id: self.preserve_dict_id });
        }
        let ct = self.compression_type.as_str();
        let compression = if str_eq(ct, "LZ4_FRAME") {
            Some(CompressionType::Lz4Frame)
        } else if str_eq(ct, "ZSTD") {
            Some(CompressionType::Zstd)
        } else if str_eq(ct, "None") {
            None
        } else {
            let mut msg = String::from_str("Unsupported compression type: ");
            msg.append(ct);
            return Err(CoreError::validation(msg));
        };
        proof {
            reveal_strlit("None");
            reveal_strlit("LZ4_FRAME");
            reveal_strlit("ZSTD");
            assert("None"@.len() == 4 && "LZ4_FRAME"@.len() == 9 && "ZSTD"@.len() == 4);
            assert("None"@[0] == 'N' && "ZSTD"@[0] == 'Z');
        }
        create_custom_ipc_options(compression, self.preserve_dict_id, None)
    }
}

/// The LZ4 frame magic word, little-endian, as it appears in a byte
/// stream.
pub open spec fn spec_lz4_magic_at(d: Seq<u8>, i: int) -> bool {
    d[i] == 0x04u8 && d[i + 1] == 0x22u8 && d[i + 2] == 0x4du8 && d[i + 3] == 0x18u8
}

/// The ZSTD magic word, little-endian, as it appears in a byte stream.
pub open spec fn spec_zstd_magic_at(d: Seq<u8>, i: int) -> bool {
    d[i] == 0x28u8 && d[i + 1] == 0xb5u8 && d[i + 2] == 0x2fu8 && d[i + 3] == 0xfdu8
}

/// Scan for a compression magic word from position `i` on, first match
/// wins: 1 for LZ4, 2 for ZSTD, 0 for none.
pub open spec fn spec_magic_scan(d: Seq<u8>, i: int) -> int
    decreases d.len() - i,
{
    if i >= d.len() - 4 {
        0
    } else if spec_lz4_magic_at(d, i) {
        1
    } else if spec_zstd_magic_at(d, i) {
        2
    } else {
        spec_magic_scan(d, i + 1)
    }
}

/// How many of the first `n` bytes are zero.
pub open spec fn spec_zero_count(d: Seq<u8>, n: int) -> int
    decreases n,
{
    if n <= 0 {
        0
    } else {
        spec_zero_count(d, n - 1) + if d[n - 1] == 0u8 {
            1int
        } else {
            0int
        }
    }
}

/// Classify the compression of a columnar byte stream by its binary
/// structure alone: too little data is inconclusive; a compression magic
/// word anywhere (earliest match first, LZ4 before ZSTD at equal
/// position) names the codec; otherwise a high share of zero bytes in the
/// leading sample suggests uncompressed data and a low share is
/// inconclusive.
pub fn detect_ipc_compression_from_data(data: &[u8]) -> (r: String)
    ensures
        data@.len() < 16 ==> r@ == "Unknown (insufficient data)"@,
        data@.len() >= 16 ==> {
            let scan = spec_magic_scan(data@, 0);
            let sample = if data@.len() < 1024 {
                data@.len() as int
            } else {
                1024
            };
            &&& scan == 1 ==> r@ == "LZ4_FRAME detected"@
            &&& scan == 2 ==> r@ == "ZSTD detected"@
            &&& (scan == 0 && spec_zero_count(data@, sample) * 10 > sample) ==> r@ == "None (likely uncompressed)"@
            &&& (scan == 0 && spec_zero_count(data@, sample) * 10 <= sample) ==> r@ == "Unknown (possibly compressed)"@
        },
{
    let n = data.len();
    if n < 16 {
        return String::from_str("Unknown (insufficient data)");
    }
    let mut i: usize = 0;
    while i + 4 < n
        invariant
            n == data@.len(),
            16 <= n,
            i + 4 <= n,
            spec_magic_scan(data@, 0) == spec_magic_scan(data@, i as int),
        decreases n - i,
    {
        if data[i] == 0x04 && data[i + 1] == 0x22 && data[i + 2] == 0x4d && data[i + 3] == 0x18 {
            return String::from_str("LZ4_FRAME detected");
        }
        if data[i] == 0x28 && data[i + 1] == 0xb5 && data[i + 2] == 0x2f && data[i + 3] == 0xfd {
            return String::from_str("ZSTD detected");
        }
        i = i + 1;
    }
    let sample = if n < 1024 {
        n
    } else {
        1024
    };
    let mut j: usize = 0;
    let mut zeros: usize = 0;
    while j < sample
        invariant
            j <= sample <= n == data@.len(),
            zeros == spec_zero_count(data@, j as int),
            zeros <= j,
        decreases sample - j,
    {
        if data[j] == 0 {
            zeros = zeros + 1;
        }
        j = j + 1;
    }
    if zeros * 10 > sample {
        String::from_str("None (likely uncompressed)")
    } else {
        String::from_str("Unknown (possibly compressed)")
    }
}

} // verus!
