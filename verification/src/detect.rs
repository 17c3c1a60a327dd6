//! Byte-stream format sniffer: classifies a buffer of unknown origin as one
//! of the known columnar container formats, or returns a typed diagnostic.
//! The precedence order of the rules is load-bearing: a later rule must
//! never shadow an earlier, more specific match, and the whole cascade is
//! captured by [`spec_classify`].

use vstd::prelude::*;
use crate::error::{CoreError, CoreResult, ErrorCode};

verus! {

/// Supported container formats for decode.
#[derive(Debug, Clone, Copy, PartialEq, Eq, Structural)]
pub enum FileFormat {
    /// Arrow IPC file format (random access, magic at the start).
    ArrowIpc,
    /// Arrow IPC stream format (continuation marker at the start).
    ArrowStream,
    /// Feather format; v2 is byte-identical to the Arrow IPC file format.
    Feather,
    /// Parquet format (magic at the end).
    Parquet,
}

/// Little-endian 32-bit read at offset `i`.
pub open spec fn spec_le32(d: Seq<u8>, i: int) -> int {
    d[i] + d[i + 1] * 0x100 + d[i + 2] * 0x10000 + d[i + 3] * 0x1000000
}

/// The buffer ends with the Parquet footer magic `PAR1`.
pub open spec fn spec_parquet_tail(d: Seq<u8>) -> bool {
    let n = d.len() as int;
    &&& n >= 4
    &&& d[n - 4] == 0x50u8
    &&& d[n - 3] == 0x41u8
    &&& d[n - 2] == 0x52u8
    &&& d[n - 1] == 0x31u8
}

/// The buffer starts with the 8-byte Arrow IPC file magic `ARROW1\0\0`.
pub open spec fn spec_arrow_file_magic(d: Seq<u8>) -> bool {
    &&& d.len() >= 8
    &&& d[0] == 0x41u8
    &&& d[1] == 0x52u8
    &&& d[2] == 0x52u8
    &&& d[3] == 0x4fu8
    &&& d[4] == 0x57u8
    &&& d[5] == 0x31u8
    &&& d[6] == 0x00u8
    &&& d[7] == 0x00u8
}

/// The buffer starts with the IPC stream continuation marker followed by a
/// plausible little-endian message length.  The length is only bounded by
/// an absolute cap, not by the buffer, so that the head of a stream still
/// being received classifies correctly.
pub open spec fn spec_stream_sig(d: Seq<u8>) -> bool {
    &&& d.len() >= 8
    &&& d[0] == 0xffu8
    &&& d[1] == 0xffu8
    &&& d[2] == 0xffu8
    &&& d[3] == 0xffu8
    &&& spec_le32(d, 4) > 0
    &&& spec_le32(d, 4) < 100_000_000
}

/// The buffer starts with the Feather v1 magic `FEA1`.
pub open spec fn spec_feather_sig(d: Seq<u8>) -> bool {
    &&& d.len() >= 4
    &&& d[0] == 0x46u8
    &&& d[1] == 0x45u8
    &&& d[2] == 0x41u8
    &&& d[3] == 0x31u8
}

/// The buffer starts with the magic of another well-known container
/// (archive, document or image format, JSON, or XML/HTML), recognized only
/// to produce a specific "unsupported format" diagnostic.
pub open spec fn spec_other_magic(d: Seq<u8>) -> bool {
    &&& d.len() >= 4
    &&& {
        ||| (d[0] == 0x50u8 && d[1] == 0x4bu8 && d[2] == 0x03u8 && d[3] == 0x04u8)
        ||| (d[0] == 0x1fu8 && d[1] == 0x8bu8 && d[2] == 0x08u8)
        ||| (d[0] == 0x42u8 && d[1] == 0x5au8 && d[2] == 0x68u8)
        ||| (d[0] == 0x25u8 && d[1] == 0x50u8 && d[2] == 0x44u8 && d[3] == 0x46u8)
        ||| (d[0] == 0xffu8 && d[1] == 0xd8u8 && d[2] == 0xffu8)
        ||| (d[0] == 0x89u8 && d[1] == 0x50u8 && d[2] == 0x4eu8 && d[3] == 0x47u8)
        ||| d[0] == 0x7bu8
        ||| (d[0] == 0x3cu8 && (spec_starts_xml(d) || spec_starts_html(d)))
    }
}

/// The buffer starts with `<?xml`.
pub open spec fn spec_starts_xml(d: Seq<u8>) -> bool {
    &&& d.len() >= 5
    &&& d[0] == 0x3cu8
    &&& d[1] == 0x3fu8
    &&& d[2] == 0x78u8
    &&& d[3] == 0x6du8
    &&& d[4] == 0x6cu8
}

/// The buffer starts with `<html`.
pub open spec fn spec_starts_html(d: Seq<u8>) -> bool {
    &&& d.len() >= 5
    &&& d[0] == 0x3cu8
    &&& d[1] == 0x68u8
    &&& d[2] == 0x74u8
    &&& d[3] == 0x6du8
    &&& d[4] == 0x6cu8
}

/// Every byte below `n` is ASCII.
pub open spec fn spec_all_ascii(d: Seq<u8>, n: int) -> bool {
    forall|j: int| 0 <= j < n ==> d[j] < 0x80u8
}

/// Some byte below `n` equals `b`.
pub open spec fn spec_has_byte(d: Seq<u8>, n: int, b: u8) -> bool {
    exists|j: int| 0 <= j < n && d[j] == b
}

/// Heuristic delimited-text detection: the first 64 bytes are all ASCII
/// and hold a comma or tab together with a newline.
pub open spec fn spec_csv_like(d: Seq<u8>) -> bool {
    &&& d.len() >= 64
    &&& spec_all_ascii(d, 64)
    &&& (spec_has_byte(d, 64, 0x2cu8) || spec_has_byte(d, 64, 0x09u8))
    &&& (spec_has_byte(d, 64, 0x0au8) || spec_has_byte(d, 64, 0x0du8))
}

/// Speculative headerless-Arrow detection: the leading little-endian u32 is
/// a plausible flatbuffer length that fits the remaining buffer.
pub open spec fn spec_headerless_arrow(d: Seq<u8>) -> bool {
    &&& d.len() >= 12
    &&& spec_le32(d, 0) > 0
    &&& spec_le32(d, 0) < d.len()
    &&& spec_le32(d, 0) >= 8
    &&& spec_le32(d, 0) < 10_000_000
    &&& d.len() >= spec_le32(d, 0) + 8
}

/// The whole classification cascade, first match wins; `None` stands for a
/// typed diagnostic instead of a classified format.
pub open spec fn spec_classify(d: Seq<u8>) -> Option<FileFormat> {
    if d.len() < 4 {
        None
    } else if spec_parquet_tail(d) {
        Some(FileFormat::Parquet)
    } else if spec_arrow_file_magic(d) {
        Some(FileFormat::ArrowIpc)
    } else if spec_stream_sig(d) {
        Some(FileFormat::ArrowStream)
    } else if spec_feather_sig(d) {
        Some(FileFormat::Feather)
    } else if spec_other_magic(d) {
        None
    } else if spec_csv_like(d) {
        None
    } else if spec_headerless_arrow(d) {
        Some(FileFormat::ArrowIpc)
    } else {
        None
    }
}

fn le32(data: &[u8], i: usize) -> (r: u64)
    requires
        i + 4 <= data@.len(),
    ensures
        r == spec_le32(data@, i as int),
        r <= 0xffff_ffff,
{
    (data[i] as u64) + (data[i + 1] as u64) * 0x100 + (data[i + 2] as u64) * 0x10000 + (data[i
        + 3] as u64) * 0x1000000
}

fn all_ascii_prefix(data: &[u8], n: usize) -> (r: bool)
    requires
        n <= data@.len(),
    ensures
        r == spec_all_ascii(data@, n as int),
{
    let mut i: usize = 0;
    while i < n
        invariant
            i <= n <= data@.len(),
            forall|j: int| 0 <= j < i ==> data@[j] < 0x80u8,
        decreases n - i,
    {
        if data[i] >= 0x80 {
            return false;
        }
        i = i + 1;
    }
    true
}

fn has_byte_prefix(data: &[u8], n: usize, b: u8) -> (r: bool)
    requires
        n <= data@.len(),
    ensures
        r == spec_has_byte(data@, n as int, b),
{
    let mut i: usize = 0;
    while i < n
        invariant
            i <= n <= data@.len(),
            forall|j: int| 0 <= j < i ==> data@[j] != b,
        decreases n - i,
    {
        if data[i] == b {
            return true;
        }
        i = i + 1;
    }
    false
}

/// A byte that is neither ASCII-graphic nor ASCII whitespace.
pub open spec fn spec_is_noise(b: u8) -> bool {
    !(0x21 <= b <= 0x7e) && b != 0x20 && b != 0x09 && b != 0x0a && b != 0x0c && b != 0x0d
}

/// How many of the first `n` bytes are noise bytes.
pub open spec fn spec_noise_count(d: Seq<u8>, n: int) -> int
    decreases n,
{
    if n <= 0 {
        0
    } else {
        spec_noise_count(d, n - 1) + if spec_is_noise(d[n - 1]) {
            1int
        } else {
            0int
        }
    }
}

fn noise_count_prefix(data: &[u8], n: usize) -> (r: usize)
    requires
        n <= data@.len(),
    ensures
        r == spec_noise_count(data@, n as int),
        r <= n,
{
    let mut i: usize = 0;
    let mut cnt: usize = 0;
    while i < n
        invariant
            i <= n <= data@.len(),
            cnt == spec_noise_count(data@, i as int),
            cnt <= i,
        decreases n - i,
    {
        let b = data[i];
        if !(0x21 <= b && b <= 0x7e) && b != 0x20 && b != 0x09 && b != 0x0a && b != 0x0c && b
            != 0x0d {
            cnt = cnt + 1;
        }
        i = i + 1;
    }
    cnt
}

impl FileFormat {
    /// Detect the container format from magic bytes and structure analysis.
    /// The result is exactly what the rule cascade [`spec_classify`] gives:
    /// a buffer shorter than 4 bytes, a recognized-but-unsupported magic, a
    /// delimited-text lookalike, or unclassifiable data produce a
    /// `FormatDetection` diagnostic; everything classified is returned as
    /// its format.
    pub fn detect_format(data: &[u8]) -> (r: CoreResult<FileFormat>)
        ensures
            match r {
                Ok(f) => spec_classify(data@) == Some(f),
                Err(e) => spec_classify(data@) is None && e.code == ErrorCode::FormatDetection,
            },
    {
        let n = data.len();
        if n < 4 {
            return Err(CoreError::format_detection(
                String::from_str("Data too short to determine format (minimum 4 bytes required)"),
            ));
        }
        // Parquet magic at the end is the most definitive signature.
        if data[n - 4] == 0x50 && data[n - 3] == 0x41 && data[n - 2] == 0x52 && data[n - 1]
            == 0x31 {
            return Ok(FileFormat::Parquet);
        }
        if n >= 8 {
            if data[0] == 0x41 && data[1] == 0x52 && data[2] == 0x52 && data[3] == 0x4f && data[4]
                == 0x57 && data[5] == 0x31 && data[6] == 0x00 && data[7] == 0x00 {
                return Ok(FileFormat::ArrowIpc);
            }
            if data[0] == 0xff && data[1] == 0xff && data[2] == 0xff && data[3] == 0xff {
                let message_length = le32(data, 4);
                if message_length > 0 && message_length < 100_000_000 {
                    return Ok(FileFormat::ArrowStream);
                }
            }
        }
        if data[0] == 0x46 && data[1] == 0x45 && data[2] == 0x41 && data[3] == 0x31 {
            return Ok(FileFormat::Feather);
        }
        // Other well-known magics, recognized only for a better diagnostic.
        if data[0] == 0x50 && data[1] == 0x4b && data[2] == 0x03 && data[3] == 0x04 {
            return Err(CoreError::format_detection(
                String::from_str("Detected ZIP archive format - not supported"),
            ));
        }
        if data[0] == 0x1f && data[1] == 0x8b && data[2] == 0x08 {
            return Err(CoreError::format_detection(
                String::from_str("Detected GZIP format - not supported"),
            ));
        }
        if data[0] == 0x42 && data[1] == 0x5a && data[2] == 0x68 {
            return Err(CoreError::format_detection(
                String::from_str("Detected BZIP2 format - not supported"),
            ));
        }
        if data[0] == 0x25 && data[1] == 0x50 && data[2] == 0x44 && data[3] == 0x46 {
            return Err(CoreError::format_detection(
                String::from_str("Detected PDF format - not supported"),
            ));
        }
        if data[0] == 0xff && data[1] == 0xd8 && data[2] == 0xff {
            return Err(CoreError::format_detection(
                String::from_str("Detected JPEG image format - not supported"),
            ));
        }
        if data[0] == 0x89 && data[1] == 0x50 && data[2] == 0x4e && data[3] == 0x47 {
            return Err(CoreError::format_detection(
                String::from_str("Detected PNG image format - not supported"),
            ));
        }
        if data[0] == 0x7b {
            return Err(CoreError::format_detection(
                String::from_str("Detected JSON format - not supported"),
            ));
        }
        if data[0] == 0x3c {
            let xml = n >= 5 && data[1] == 0x3f && data[2] == 0x78 && data[3] == 0x6d && data[4]
                == 0x6c;
            let html = n >= 5 && data[1] == 0x68 && data[2] == 0x74 && data[3] == 0x6d && data[4]
                == 0x6c;
            if xml || html {
                return Err(CoreError::format_detection(
                    String::from_str("Detected XML/HTML format - not supported"),
                ));
            }
        }
        // Delimited-text heuristic over the first 64 bytes.
        if n >= 64 {
            let ascii = all_ascii_prefix(data, 64);
            let has_comma = has_byte_prefix(data, 64, 0x2c);
            let has_tab = has_byte_prefix(data, 64, 0x09);
            let has_nl = has_byte_prefix(data, 64, 0x0a);
            let has_cr = has_byte_prefix(data, 64, 0x0d);
            if ascii && (has_comma || has_tab) && (has_nl || has_cr) {
                if has_comma {
                    return Err(CoreError::format_detection(
                        String::from_str(
                            "Detected CSV-like format - not supported. Please convert to Arrow IPC or Parquet format",
                        ),
                    ));
                } else {
                    return Err(CoreError::format_detection(
                        String::from_str(
                            "Detected TSV-like format - not supported. Please convert to Arrow IPC or Parquet format",
                        ),
                    ));
                }
            }
        }
        // Speculative headerless-Arrow detection.
        if n >= 12 {
            let potential_length = le32(data, 0);
            if potential_length > 0 && potential_length < n as u64 && potential_length >= 8
                && potential_length < 10_000_000 && n as u64 >= potential_length + 8 {
                return Ok(FileFormat::ArrowIpc);
            }
        }
        // Binary-noise heuristic over the first 16 bytes.
        if n >= 16 {
            let noisy = noise_count_prefix(data, 16);
            if noisy >= 8 {
                return Err(CoreError::format_detection(
                    String::from_str(
                        "Detected binary format that may be corrupted or unsupported data. Supported formats: Arrow IPC, Parquet, Feather",
                    ),
                ));
            }
        }
        // Fallback diagnostic, stating whether the sampled prefix looks like
        // text or binary and listing the supported formats.
        let sample = if n < 32 {
            n
        } else {
            32
        };
        let looks_text = all_ascii_prefix(data, sample);
        let mut msg = String::from_str(
            "Unable to detect supported file format. Supported formats: Arrow IPC (file or stream), Apache Parquet, Feather (v1 and v2). Data appears to be: ",
        );
        if looks_text {
            msg.append("ASCII text (possibly CSV, JSON, or other text format)");
        } else {
            msg.append("Binary data of unknown format");
        }
        Err(CoreError::format_detection(msg))
    }
}

} // verus!
