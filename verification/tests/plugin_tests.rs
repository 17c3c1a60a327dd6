//! Plugin registration, validation and geometry parsing behavior.

use columnar::error::ErrorCode;
use columnar::model::{DataType, FieldDef};
use columnar::plugin::{
    GeometryPlugin, PluginRegistry, clear_all_plugins, discover_available_plugins,
    extract_plugin_type, get_available_plugin_types, get_plugin_info, get_plugin_metadata,
    register_geometry_plugin, register_plugin, validate_field_with_plugins, validate_plugin,
    validate_plugin_id_format,
};

#[test]
fn test_plugin_registration() {
    let mut reg = PluginRegistry::new();
    clear_all_plugins(&mut reg);

    // Registering a plugin by a requested ID
    let result = register_plugin(&mut reg, "io.test.plugin.v1");
    assert!(result.is_ok());

    // Validation against the canonical instance ID
    let validation = validate_plugin(&reg, "io.arrow.plugin.dummy.v1");
    assert!(validation.is_ok());

    // An unregistered plugin
    let invalid = validate_plugin(&reg, "nonexistent.plugin");
    assert!(invalid.is_err());
}

#[test]
fn test_plugin_info() {
    let mut reg = PluginRegistry::new();
    clear_all_plugins(&mut reg);

    register_plugin(&mut reg, "io.test.plugin1.v1").unwrap();
    register_plugin(&mut reg, "io.test.plugin2.v1").unwrap();

    let info = get_plugin_info(&reg).unwrap();
    assert_eq!(info.len(), 2);

    let metadata = get_plugin_metadata(&reg, "io.arrow.plugin.dummy.v1");
    assert!(metadata.is_ok());
}

#[test]
fn test_field_validation() {
    let mut reg = PluginRegistry::new();
    clear_all_plugins(&mut reg);

    register_plugin(&mut reg, "io.test.plugin.v1").unwrap();

    let field = FieldDef::new("test".to_string(), DataType::new_int32(), false);
    let result = validate_field_with_plugins(&reg, &field);
    assert!(result.is_ok());
}

#[test]
fn test_invalid_plugin_id() {
    let mut reg = PluginRegistry::new();
    let result = register_plugin(&mut reg, "");
    assert!(result.is_err());

    let result = register_plugin(&mut reg, "invalid_plugin_id");
    assert!(result.is_err());
}

#[test]
fn test_extract_plugin_type_shapes() {
    assert_eq!(extract_plugin_type("geo.v1").unwrap(), "geo");
    assert_eq!(extract_plugin_type("plugin.geo.v1").unwrap(), "geo");
    assert_eq!(extract_plugin_type("io.arrow.geo.v1").unwrap(), "geo");
    assert_eq!(extract_plugin_type("io.arrow.plugin.geo.v1").unwrap(), "geo");
    let err = extract_plugin_type("no_dots_here").unwrap_err();
    assert_eq!(err.code, ErrorCode::Validation);
    assert!(extract_plugin_type("a.b.c.d.e.f").is_err());
}

#[test]
fn test_validate_plugin_id_format_known_types() {
    assert_eq!(validate_plugin_id_format("io.arrow.plugin.geo.v1").unwrap(), "geo");
    assert_eq!(validate_plugin_id_format("demo.v1").unwrap(), "demo");
    let err = validate_plugin_id_format("io.arrow.plugin.sound.v1").unwrap_err();
    assert_eq!(err.code, ErrorCode::Validation);
}

#[test]
fn test_available_types_and_discovery() {
    let types = get_available_plugin_types().unwrap();
    assert_eq!(types, vec!["geo", "geometry", "demo", "dummy"]);

    let plugins = discover_available_plugins().unwrap();
    assert!(plugins.contains(&"io.arrow.plugin.geo.v1".to_string()));
    assert!(plugins.contains(&"demo".to_string()));
}

#[test]
fn test_geometry_plugin_registration() {
    let mut reg = PluginRegistry::new();
    register_geometry_plugin(&mut reg).unwrap();
    assert!(validate_plugin(&reg, "io.arrow.plugin.geo.v1").is_ok());

    // Registering it twice is rejected.
    assert!(register_geometry_plugin(&mut reg).is_err());
}

#[test]
fn test_validate_wkb_point() {
    // Little-endian point: byte order 1, type code 1, two coordinates.
    let mut wkb = vec![1u8];
    wkb.extend_from_slice(&1u32.to_le_bytes());
    wkb.extend_from_slice(&[0u8; 16]);
    let info = GeometryPlugin::validate_wkb_data(&wkb).unwrap();
    assert_eq!(info.geometry_type, "Point");
    assert_eq!(info.dimension, 2);
    assert!(info.srid.is_none());
}

#[test]
fn test_validate_wkb_big_endian_polygon_3d() {
    // Big-endian polygon with the 3-dimensional flag set.
    let mut wkb = vec![0u8];
    wkb.extend_from_slice(&(3u32 | 0x8000_0000).to_be_bytes());
    wkb.extend_from_slice(&[0u8; 16]);
    let info = GeometryPlugin::validate_wkb_data(&wkb).unwrap();
    assert_eq!(info.geometry_type, "Polygon");
    assert_eq!(info.dimension, 3);
}

#[test]
fn test_validate_wkb_rejects_bad_input() {
    // Too short
    assert!(GeometryPlugin::validate_wkb_data(&[1, 2, 3]).is_err());
    // Bad byte-order byte
    let mut wkb = vec![7u8];
    wkb.extend_from_slice(&[0u8; 12]);
    let err = GeometryPlugin::validate_wkb_data(&wkb).unwrap_err();
    assert_eq!(err.code, ErrorCode::Validation);
}

#[test]
fn test_geometry_field_validation() {
    let plugin = GeometryPlugin::new();
    let mut field = FieldDef::new("location".to_string(), DataType::new_large_binary(), true);
    field.metadata.push((
        "ARROW:extension:name".to_string(),
        "geo.point".to_string(),
    ));
    assert!(plugin.validate_field(&field).is_ok());

    let plain = FieldDef::new("x".to_string(), DataType::new_int32(), false);
    assert!(plugin.validate_field(&plain).is_err());
}
