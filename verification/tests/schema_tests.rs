//! Schema registry and schema view behavior.

use columnar::model::{DataType, FieldDef};
use columnar::schema::{SchemaHandle, create_schema, new_schema_registry};

fn sample_fields() -> Vec<FieldDef> {
    vec![
        FieldDef::new("id".to_string(), DataType::new_int32(), false),
        FieldDef::new("name".to_string(), DataType::new_utf8(), true),
    ]
}

#[test]
fn test_schema_field_lookup() {
    let mut reg = new_schema_registry();
    let s = create_schema(&mut reg, sample_fields()).unwrap();
    assert_eq!(s.field_count(&reg), 2);
    assert_eq!(s.get_field_index(&reg, "name"), Some(1));
    assert_eq!(s.get_field_index(&reg, "missing"), None);
    let f = s.get_field(&reg, "id").unwrap();
    assert_eq!(f.name, "id");
    assert!(!f.nullable);
    let all = s.fields(&reg).unwrap();
    assert_eq!(all.len(), 2);
    assert_eq!(all[1].name, "name");
}

#[test]
fn test_schema_equality_and_dispose() {
    let mut reg = new_schema_registry();
    let a = create_schema(&mut reg, sample_fields()).unwrap();
    let b = create_schema(&mut reg, sample_fields()).unwrap();
    let mut other = sample_fields();
    other[1] = FieldDef::new("name".to_string(), DataType::new_utf8(), false);
    let c = create_schema(&mut reg, other).unwrap();

    assert!(a.equals(&reg, &b));
    assert!(b.equals(&reg, &a));
    assert!(!a.equals(&reg, &c));

    // A disposed handle resolves to nothing and compares unequal.
    b.dispose(&mut reg);
    assert!(!a.equals(&reg, &b));
    assert_eq!(b.field_count(&reg), 0);
    let _ = SchemaHandle { handle: a.handle };
}
