use crl_registry::metadata::{
    check_upgrade, validate_metadata, MetadataEntry, MetadataError, MetadataFieldRule,
    MetadataFieldType, MetadataSchemaRecord, MetadataSchemaVersion,
};

fn bv(s: &str) -> Vec<u8> {
    s.as_bytes().to_vec()
}

fn create_test_schema() -> MetadataSchemaRecord {
    let fields = vec![
        MetadataFieldRule {
            name: bv("title"),
            field_type: MetadataFieldType::Text,
            required: true,
            min_length: 1,
            max_length: 200,
        },
        MetadataFieldRule {
            name: bv("courseName"),
            field_type: MetadataFieldType::Text,
            required: true,
            min_length: 1,
            max_length: 500,
        },
        MetadataFieldRule {
            name: bv("grade"),
            field_type: MetadataFieldType::Text,
            required: false,
            min_length: 0,
            max_length: 10,
        },
        MetadataFieldRule {
            name: bv("hours"),
            field_type: MetadataFieldType::Number,
            required: false,
            min_length: 0,
            max_length: 0,
        },
    ];

    let required_fields = vec![bv("title"), bv("courseName")];

    MetadataSchemaRecord {
        id: bv("schema-001"),
        name: bv("course-certificate"),
        version: MetadataSchemaVersion { major: 1, minor: 0, patch: 0 },
        fields,
        required_fields,
        allow_custom_fields: true,
        created_by: bv("creator-1"),
        created_at: 1000,
        is_active: true,
        previous_version_id: None,
    }
}

fn entry(key: &str, value: &str, value_type: MetadataFieldType) -> MetadataEntry {
    MetadataEntry { key: bv(key), value: bv(value), value_type }
}

#[test]
fn test_validate_valid_metadata() {
    let schema = create_test_schema();

    let entries = vec![
        entry("title", "Web Development Certificate", MetadataFieldType::Text),
        entry("courseName", "Full Stack Web Development", MetadataFieldType::Text),
        entry("grade", "A+", MetadataFieldType::Text),
    ];

    let result = validate_metadata(Some(&schema), &bv("schema-001"), &entries);

    assert!(result.valid);
    assert_eq!(result.errors.len(), 0);
}

#[test]
fn test_validate_missing_required_fields() {
    let schema = create_test_schema();

    let entries = vec![entry("grade", "B+", MetadataFieldType::Text)];

    let result = validate_metadata(Some(&schema), &bv("schema-001"), &entries);

    assert!(!result.valid);
    assert_eq!(result.errors.len(), 2);
}

#[test]
fn test_validate_type_mismatch() {
    let schema = create_test_schema();

    let entries = vec![
        entry("title", "Test Cert", MetadataFieldType::Text),
        entry("courseName", "Course", MetadataFieldType::Text),
        entry("hours", "forty", MetadataFieldType::Text),
    ];

    let result = validate_metadata(Some(&schema), &bv("schema-001"), &entries);

    assert!(!result.valid);
    let type_error = result.errors.iter().find(|e| e.constraint == bv("type"));
    assert!(type_error.is_some());
}

#[test]
fn test_validate_string_length_constraints() {
    let schema = create_test_schema();

    let entries = vec![
        entry("title", "OK Title", MetadataFieldType::Text),
        entry("courseName", "Course", MetadataFieldType::Text),
        entry("grade", "ABCDEFGHIJK", MetadataFieldType::Text),
    ];

    let result = validate_metadata(Some(&schema), &bv("schema-001"), &entries);

    assert!(!result.valid);
    let length_error = result.errors.iter().find(|e| e.constraint == bv("maxLength"));
    assert!(length_error.is_some());
}

#[test]
fn test_validate_min_length_constraint() {
    let schema = create_test_schema();

    let entries = vec![
        entry("title", "", MetadataFieldType::Text),
        entry("courseName", "Course", MetadataFieldType::Text),
    ];

    let result = validate_metadata(Some(&schema), &bv("schema-001"), &entries);

    assert!(!result.valid);
    assert_eq!(result.errors.len(), 1);
    assert_eq!(result.errors[0].field, bv("title"));
    assert_eq!(result.errors[0].constraint, bv("minLength"));
    assert_eq!(result.errors[0].message, bv("Value too short"));
}

#[test]
fn test_validate_custom_fields_allowed() {
    let schema = create_test_schema();

    let entries = vec![
        entry("title", "Title", MetadataFieldType::Text),
        entry("courseName", "Course", MetadataFieldType::Text),
        entry("customField", "custom value", MetadataFieldType::Text),
    ];

    let result = validate_metadata(Some(&schema), &bv("schema-001"), &entries);

    assert!(result.valid);
}

#[test]
fn test_validate_custom_fields_disallowed() {
    let mut schema = create_test_schema();
    schema.id = bv("schema-strict");
    schema.allow_custom_fields = false;

    let entries = vec![
        entry("title", "Title", MetadataFieldType::Text),
        entry("courseName", "Course", MetadataFieldType::Text),
        entry("unauthorized", "nope", MetadataFieldType::Text),
    ];

    let result = validate_metadata(Some(&schema), &bv("schema-strict"), &entries);

    assert!(!result.valid);
    let custom_error = result.errors.iter().find(|e| e.constraint == bv("noCustomFields"));
    assert!(custom_error.is_some());
}

#[test]
fn test_validate_nonexistent_schema() {
    let entries: Vec<MetadataEntry> = vec![];
    let result = validate_metadata(None, &bv("nonexistent"), &entries);

    assert!(!result.valid);
    assert_eq!(result.errors.len(), 1);
    assert_eq!(result.errors[0].field, bv("_schema"));
    assert_eq!(result.errors[0].constraint, bv("exists"));
    assert_eq!(result.schema_version, MetadataSchemaVersion { major: 0, minor: 0, patch: 0 });
}

#[test]
fn test_validate_inactive_schema() {
    let mut schema = create_test_schema();
    schema.id = bv("schema-inactive");
    schema.is_active = false;

    let entries: Vec<MetadataEntry> = vec![];
    let result = validate_metadata(Some(&schema), &bv("schema-inactive"), &entries);

    assert!(!result.valid);
    assert_eq!(result.errors.len(), 1);
    assert_eq!(result.errors[0].constraint, bv("active"));
}

#[test]
fn test_version_comparison() {
    let v1 = MetadataSchemaVersion { major: 1, minor: 0, patch: 0 };
    let v2 = MetadataSchemaVersion { major: 2, minor: 0, patch: 0 };
    let v1_1 = MetadataSchemaVersion { major: 1, minor: 1, patch: 0 };
    let v1_copy = MetadataSchemaVersion { major: 1, minor: 0, patch: 0 };

    assert!(v2.is_greater_than(&v1));
    assert!(!v1.is_greater_than(&v2));
    assert!(v1_1.is_greater_than(&v1));
    assert!(v1.is_equal(&v1_copy));
    assert!(!v1.is_equal(&v2));
}

#[test]
fn test_check_upgrade() {
    let old = create_test_schema();

    let newer = MetadataSchemaVersion { major: 1, minor: 1, patch: 0 };
    assert_eq!(check_upgrade(&old, &newer), Ok(()));

    let same = MetadataSchemaVersion { major: 1, minor: 0, patch: 0 };
    assert_eq!(check_upgrade(&old, &same), Err(MetadataError::InvalidVersion));

    let older = MetadataSchemaVersion { major: 0, minor: 9, patch: 9 };
    assert_eq!(check_upgrade(&old, &older), Err(MetadataError::InvalidVersion));

    let mut inactive = create_test_schema();
    inactive.is_active = false;
    assert_eq!(check_upgrade(&inactive, &newer), Err(MetadataError::SchemaInactive));
}
