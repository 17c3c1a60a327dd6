//! Format sniffer and compression configuration behavior.

use columnar::detect::FileFormat;
use columnar::compression::{
    CompressionConfig, CompressionType, create_ipc_options, default_lz4_ipc_options,
    default_uncompressed_ipc_options, detect_ipc_compression_from_data,
    get_supported_compression_types, is_lz4_supported,
};
use columnar::error::ErrorCode;

#[test]
fn test_format_detection() {
    // Arrow IPC file magic
    let ipc_data = b"ARROW1\0\0some_data_here";
    assert!(matches!(
        FileFormat::detect_format(ipc_data).unwrap(),
        FileFormat::ArrowIpc
    ));

    // Arrow IPC stream magic
    let stream_data: Vec<u8> = vec![0xFF, 0xFF, 0xFF, 0xFF, 0x10, 0x00, 0x00, 0x00];
    assert!(matches!(
        FileFormat::detect_format(&stream_data).unwrap(),
        FileFormat::ArrowStream
    ));

    // Invalid data
    let short_data = b"ABC";
    assert!(FileFormat::detect_format(short_data).is_err());
}

#[test]
fn test_parquet_tail_classifies() {
    let mut data = vec![0u8; 64];
    data.extend_from_slice(b"PAR1");
    assert!(matches!(
        FileFormat::detect_format(&data).unwrap(),
        FileFormat::Parquet
    ));
}

#[test]
fn test_feather_magic_classifies() {
    let mut data = b"FEA1".to_vec();
    data.extend_from_slice(&[0u8; 12]);
    assert!(matches!(
        FileFormat::detect_format(&data).unwrap(),
        FileFormat::Feather
    ));
}

#[test]
fn test_csv_like_diagnostic() {
    let line = b"col_a,col_b,col_c\ncol_a,col_b,col_c\ncol_a,col_b,col_c\ncol_a,col_b,col_c\n";
    assert!(line.len() >= 64);
    let err = FileFormat::detect_format(line).unwrap_err();
    assert_eq!(err.code, ErrorCode::FormatDetection);
    assert!(err.message.contains("CSV"));
}

#[test]
fn test_known_magic_diagnostics() {
    let zip = [0x50u8, 0x4B, 0x03, 0x04];
    let err = FileFormat::detect_format(&zip).unwrap_err();
    assert!(err.message.contains("ZIP"));

    let png = [0x89u8, 0x50, 0x4E, 0x47];
    let err = FileFormat::detect_format(&png).unwrap_err();
    assert!(err.message.contains("PNG"));

    let json = b"{\"a\": 1}";
    let err = FileFormat::detect_format(json).unwrap_err();
    assert!(err.message.contains("JSON"));
}

#[test]
fn test_parquet_wins_over_leading_arrow_magic() {
    // The Parquet footer magic is the most definitive signature and is
    // checked first, even when the buffer also starts with the Arrow
    // file magic.
    let mut data = b"ARROW1\0\0".to_vec();
    data.extend_from_slice(&[0u8; 8]);
    data.extend_from_slice(b"PAR1");
    assert!(matches!(
        FileFormat::detect_format(&data).unwrap(),
        FileFormat::Parquet
    ));
}

#[test]
fn test_compression_config() {
    let config = CompressionConfig::default();
    assert!(!config.enabled);
    assert_eq!(config.compression_type, "None");

    let lz4_config = CompressionConfig::with_lz4();
    assert!(lz4_config.enabled);
    assert_eq!(lz4_config.compression_type, "LZ4_FRAME");

    let zstd_config = CompressionConfig::with_zstd();
    assert!(zstd_config.enabled);
    assert_eq!(zstd_config.compression_type, "ZSTD");
}

#[test]
fn test_ipc_options_creation() {
    let uncompressed = default_uncompressed_ipc_options();
    let _options = uncompressed;

    let lz4_options = default_lz4_ipc_options();
    let _options = lz4_options;

    let custom_config = CompressionConfig::with_lz4();
    let _custom_options = custom_config.to_ipc_options().unwrap();
}

#[test]
fn test_compression_support_detection() {
    let supported_types = get_supported_compression_types();
    assert!(supported_types.contains(&"None".to_string()));

    let lz4_supported = is_lz4_supported();
    println!("LZ4 supported: {}", lz4_supported);
}

#[test]
fn test_unknown_compression_type_rejected() {
    let config = CompressionConfig {
        enabled: true,
        compression_type: "SNAPPY".to_string(),
        preserve_dict_id: true,
    };
    let err = config.to_ipc_options().unwrap_err();
    assert_eq!(err.code, ErrorCode::Validation);
}

#[test]
fn test_disabled_config_is_uncompressed() {
    let config = CompressionConfig {
        enabled: false,
        compression_type: "LZ4_FRAME".to_string(),
        preserve_dict_id: false,
    };
    let opts = config.to_ipc_options().unwrap();
    assert!(opts.compression.is_none());
    assert!(!opts.preserve_dict_id);
    let _ = create_ipc_options(false);
}

#[test]
fn test_detect_ipc_compression_signatures() {
    // LZ4 frame magic inside the stream
    let mut data = vec![1u8; 20];
    data[5] = 0x04;
    data[6] = 0x22;
    data[7] = 0x4D;
    data[8] = 0x18;
    assert_eq!(detect_ipc_compression_from_data(&data), "LZ4_FRAME detected");

    // ZSTD magic inside the stream
    let mut data = vec![1u8; 20];
    data[3] = 0x28;
    data[4] = 0xB5;
    data[5] = 0x2F;
    data[6] = 0xFD;
    assert_eq!(detect_ipc_compression_from_data(&data), "ZSTD detected");

    // Too little data
    let short = [0u8; 8];
    assert_eq!(
        detect_ipc_compression_from_data(&short),
        "Unknown (insufficient data)"
    );

    // Many zero bytes suggest uncompressed data
    let zeros = vec![0u8; 64];
    assert_eq!(
        detect_ipc_compression_from_data(&zeros),
        "None (likely uncompressed)"
    );

    // High-entropy-looking data without magics is inconclusive
    let noise: Vec<u8> = (0..64u8).map(|i| i.wrapping_mul(37).wrapping_add(11) | 1).collect();
    assert_eq!(
        detect_ipc_compression_from_data(&noise),
        "Unknown (possibly compressed)"
    );

    let _ = CompressionType::Lz4Frame;
}

#[test]
fn test_feather_magic_four_bytes() {
    // The Feather magic is classified from the first four bytes alone.
    let data = b"FEA1";
    assert!(matches!(
        FileFormat::detect_format(data).unwrap(),
        FileFormat::Feather
    ));
}
