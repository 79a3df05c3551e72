//! Metadata-schema versioning and the pure core of metadata validation.
//!
//! A schema prescribes, per field, a type and length constraints, lists
//! its required fields, and says whether fields outside the schema are
//! allowed. Validating a set of metadata entries against a schema is a
//! pure computation; loading the schema from durable storage is its
//! caller's business, and a missing or inactive schema is reported here as
//! a validation failure, exactly as a field violation is.

use vstd::prelude::*;
use vstd::string::StringSliceAdditionalSpecFns;

use crate::bytes::{bytes_eq, clone_bytes};

verus! {

/// A schema version, ordered lexicographically by major, then minor,
/// then patch.
#[derive(Clone, Copy, Debug, PartialEq, Eq, Structural)]
pub struct MetadataSchemaVersion {
    pub major: u32,
    pub minor: u32,
    pub patch: u32,
}

/// Strict lexicographic order on versions.
pub open spec fn version_gt(a: MetadataSchemaVersion, b: MetadataSchemaVersion) -> bool {
    ||| a.major > b.major
    ||| (a.major == b.major && a.minor > b.minor)
    ||| (a.major == b.major && a.minor == b.minor && a.patch > b.patch)
}

impl MetadataSchemaVersion {
    /// Whether `self` is strictly newer than `other` in the lexicographic
    /// (major, minor, patch) order.
    pub fn is_greater_than(&self, other: &MetadataSchemaVersion) -> (r: bool)
        ensures
            r == version_gt(*self, *other),
    {
        if self.major != other.major {
            return self.major > other.major;
        }
        if self.minor != other.minor {
            return self.minor > other.minor;
        }
        self.patch > other.patch
    }

    /// Whether the two versions agree in all three components.
    pub fn is_equal(&self, other: &MetadataSchemaVersion) -> (r: bool)
        ensures
            r == (*self == *other),
    {
        self.major == other.major && self.minor == other.minor && self.patch == other.patch
    }
}

/// The type a metadata value is declared to have.
#[derive(Clone, Copy, Debug, PartialEq, Eq, Structural)]
pub enum MetadataFieldType {
    Text,
    Number,
    Boolean,
    Date,
}

/// One field rule of a schema. Length constraints apply to text values
/// only, and a bound of zero means the bound is not enforced.
#[derive(Debug, PartialEq, Eq)]
pub struct MetadataFieldRule {
    pub name: Vec<u8>,
    pub field_type: MetadataFieldType,
    pub required: bool,
    pub min_length: u32,
    pub max_length: u32,
}

/// The mathematical view of a field rule.
#[verifier::ext_equal]
pub struct MetadataFieldRuleView {
    pub name: Seq<u8>,
    pub field_type: MetadataFieldType,
    pub required: bool,
    pub min_length: u32,
    pub max_length: u32,
}

impl View for MetadataFieldRule {
    type V = MetadataFieldRuleView;

    open spec fn view(&self) -> MetadataFieldRuleView {
        MetadataFieldRuleView {
            name: self.name@,
            field_type: self.field_type,
            required: self.required,
            min_length: self.min_length,
            max_length: self.max_length,
        }
    }
}

/// A registered schema.
#[derive(Debug, PartialEq, Eq)]
pub struct MetadataSchemaRecord {
    pub id: Vec<u8>,
    pub name: Vec<u8>,
    pub version: MetadataSchemaVersion,
    pub fields: Vec<MetadataFieldRule>,
    pub required_fields: Vec<Vec<u8>>,
    pub allow_custom_fields: bool,
    /// Identity of the authority that registered the schema.
    pub created_by: Vec<u8>,
    pub created_at: u64,
    pub is_active: bool,
    pub previous_version_id: Option<Vec<u8>>,
}

/// One metadata entry of a certificate: a key, a value, and the type the
/// value claims to have.
#[derive(Debug, PartialEq, Eq)]
pub struct MetadataEntry {
    pub key: Vec<u8>,
    pub value: Vec<u8>,
    pub value_type: MetadataFieldType,
}

/// The mathematical view of a metadata entry.
#[verifier::ext_equal]
pub struct MetadataEntryView {
    pub key: Seq<u8>,
    pub value: Seq<u8>,
    pub value_type: MetadataFieldType,
}

impl View for MetadataEntry {
    type V = MetadataEntryView;

    open spec fn view(&self) -> MetadataEntryView {
        MetadataEntryView { key: self.key@, value: self.value@, value_type: self.value_type }
    }
}

/// One validation finding: the field concerned, a message, and the name
/// of the violated constraint.
#[derive(Debug, PartialEq, Eq)]
pub struct MetadataFieldError {
    pub field: Vec<u8>,
    pub message: Vec<u8>,
    pub constraint: Vec<u8>,
}

/// The mathematical view of a validation finding.
#[verifier::ext_equal]
pub struct MetadataFieldErrorView {
    pub field: Seq<u8>,
    pub message: Seq<u8>,
    pub constraint: Seq<u8>,
}

impl View for MetadataFieldError {
    type V = MetadataFieldErrorView;

    open spec fn view(&self) -> MetadataFieldErrorView {
        MetadataFieldErrorView {
            field: self.field@,
            message: self.message@,
            constraint: self.constraint@,
        }
    }
}

/// The outcome of validating a set of entries against a schema: valid
/// exactly when no finding was collected.
#[derive(Debug, PartialEq, Eq)]
pub struct MetadataValidationResult {
    pub valid: bool,
    pub errors: Vec<MetadataFieldError>,
    pub schema_id: Vec<u8>,
    pub schema_version: MetadataSchemaVersion,
}

/// The typed failures of schema management.
#[derive(Clone, Copy, Debug, PartialEq, Eq, Structural)]
pub enum MetadataError {
    SchemaNotFound,
    SchemaInactive,
    VersionConflict,
    SchemaAlreadyExists,
    Unauthorized,
    InvalidVersion,
}

/// The views of a sequence of entries.
pub open spec fn entry_views(s: Seq<MetadataEntry>) -> Seq<MetadataEntryView> {
    s.map_values(|e: MetadataEntry| e@)
}

/// The views of a sequence of field rules.
pub open spec fn rule_views(s: Seq<MetadataFieldRule>) -> Seq<MetadataFieldRuleView> {
    s.map_values(|r: MetadataFieldRule| r@)
}

/// The views of a sequence of findings.
pub open spec fn error_views(s: Seq<MetadataFieldError>) -> Seq<MetadataFieldErrorView> {
    s.map_values(|e: MetadataFieldError| e@)
}

/// The views of a sequence of byte vectors.
pub open spec fn key_views(s: Seq<Vec<u8>>) -> Seq<Seq<u8>> {
    s.map_values(|k: Vec<u8>| k@)
}

/// Whether some entry carries `key`.
pub open spec fn provides_key(entries: Seq<MetadataEntryView>, key: Seq<u8>) -> bool {
    exists|i: int| 0 <= i < entries.len() && entries[i].key == key
}

/// The position of the first rule named `key`, or the number of rules
/// when none is.
pub open spec fn rule_index_of(rules: Seq<MetadataFieldRuleView>, key: Seq<u8>) -> int
    decreases rules.len(),
{
    if rules.len() == 0 {
        0
    } else if rules[0].name == key {
        0
    } else {
        1 + rule_index_of(rules.drop_first(), key)
    }
}

/// What [`rule_index_of`] returns: an in-range position naming `key` with
/// no earlier match, or the number of rules when `key` names none.
pub proof fn lemma_rule_index_of(rules: Seq<MetadataFieldRuleView>, key: Seq<u8>)
    ensures
        0 <= rule_index_of(rules, key) <= rules.len(),
        rule_index_of(rules, key) < rules.len() ==> rules[rule_index_of(rules, key)].name == key,
        forall|k: int| 0 <= k < rule_index_of(rules, key) ==> rules[k].name != key,
        rule_index_of(rules, key) == rules.len() ==> forall|k: int|
            0 <= k < rules.len() ==> rules[k].name != key,
    decreases rules.len(),
{
    if rules.len() == 0 {
    } else if rules[0].name == key {
    } else {
        lemma_rule_index_of(rules.drop_first(), key);
        assert(forall|k: int| 1 <= k < rules.len() ==> rules[k] == rules.drop_first()[k - 1]);
    }
}

/// The finding reporting a missing required field.
pub open spec fn required_error(field: Seq<u8>) -> MetadataFieldErrorView {
    MetadataFieldErrorView {
        field: field,
        message: "Required field missing".spec_bytes(),
        constraint: "required".spec_bytes(),
    }
}

/// The finding reporting a value whose claimed type contradicts its rule.
pub open spec fn type_error(field: Seq<u8>) -> MetadataFieldErrorView {
    MetadataFieldErrorView { field: field, message: "Type mismatch".spec_bytes(), constraint: "type".spec_bytes() }
}

/// The finding reporting a text value shorter than its rule's minimum.
pub open spec fn min_length_error(field: Seq<u8>) -> MetadataFieldErrorView {
    MetadataFieldErrorView { field: field, message: "Value too short".spec_bytes(), constraint: "minLength".spec_bytes() }
}

/// The finding reporting a text value longer than its rule's maximum.
pub open spec fn max_length_error(field: Seq<u8>) -> MetadataFieldErrorView {
    MetadataFieldErrorView { field: field, message: "Value too long".spec_bytes(), constraint: "maxLength".spec_bytes() }
}

/// The finding reporting a field outside the schema where the schema
/// forbids custom fields.
pub open spec fn custom_field_error(field: Seq<u8>) -> MetadataFieldErrorView {
    MetadataFieldErrorView {
        field: field,
        message: "Custom field not allowed".spec_bytes(),
        constraint: "noCustomFields".spec_bytes(),
    }
}

/// The finding reporting that no schema with the requested id exists.
pub open spec fn schema_missing_error() -> MetadataFieldErrorView {
    MetadataFieldErrorView {
        field: "_schema".spec_bytes(),
        message: "Schema not found".spec_bytes(),
        constraint: "exists".spec_bytes(),
    }
}

/// The finding reporting that the requested schema is inactive.
pub open spec fn schema_inactive_error() -> MetadataFieldErrorView {
    MetadataFieldErrorView {
        field: "_schema".spec_bytes(),
        message: "Schema is inactive".spec_bytes(),
        constraint: "active".spec_bytes(),
    }
}

/// The findings for the schema's required fields, in schema order: one
/// finding per required field that no entry provides.
pub open spec fn required_errors(
    required: Seq<Seq<u8>>,
    entries: Seq<MetadataEntryView>,
) -> Seq<MetadataFieldErrorView>
    decreases required.len(),
{
    if required.len() == 0 {
        Seq::empty()
    } else {
        (if !provides_key(entries, required[0]) {
            seq![required_error(required[0])]
        } else {
            Seq::empty()
        }) + required_errors(required.drop_first(), entries)
    }
}

/// The findings for one entry. The first rule naming the entry's key
/// governs it: a type mismatch is reported first, then — for text values
/// — a violated non-zero minimum, then a violated non-zero maximum. An
/// entry no rule names is a finding exactly where the schema forbids
/// custom fields.
pub open spec fn entry_errors(
    rules: Seq<MetadataFieldRuleView>,
    allow_custom_fields: bool,
    e: MetadataEntryView,
) -> Seq<MetadataFieldErrorView> {
    let idx = rule_index_of(rules, e.key);
    if idx < rules.len() {
        let rule = rules[idx];
        (if rule.field_type != e.value_type {
            seq![type_error(e.key)]
        } else {
            Seq::empty()
        }) + (if e.value_type == MetadataFieldType::Text && rule.min_length > 0 && e.value.len()
            < rule.min_length {
            seq![min_length_error(e.key)]
        } else {
            Seq::empty()
        }) + (if e.value_type == MetadataFieldType::Text && rule.max_length > 0 && e.value.len()
            > rule.max_length {
            seq![max_length_error(e.key)]
        } else {
            Seq::empty()
        })
    } else if !allow_custom_fields {
        seq![custom_field_error(e.key)]
    } else {
        Seq::empty()
    }
}

/// The findings for all entries, in entry order.
pub open spec fn entries_errors(
    rules: Seq<MetadataFieldRuleView>,
    allow_custom_fields: bool,
    entries: Seq<MetadataEntryView>,
) -> Seq<MetadataFieldErrorView>
    decreases entries.len(),
{
    if entries.len() == 0 {
        Seq::empty()
    } else {
        entry_errors(rules, allow_custom_fields, entries[0]) + entries_errors(
            rules,
            allow_custom_fields,
            entries.drop_first(),
        )
    }
}

/// All findings of validating `entries` against an active schema: the
/// missing required fields in schema order, then the per-entry findings
/// in entry order.
pub open spec fn validation_errors(
    required: Seq<Seq<u8>>,
    rules: Seq<MetadataFieldRuleView>,
    allow_custom_fields: bool,
    entries: Seq<MetadataEntryView>,
) -> Seq<MetadataFieldErrorView> {
    required_errors(required, entries) + entries_errors(rules, allow_custom_fields, entries)
}

/// Whether some entry carries `key`: a linear scan.
fn contains_key(entries: &Vec<MetadataEntry>, key: &Vec<u8>) -> (r: bool)
    ensures
        r == provides_key(entry_views(entries@), key@),
{
    let n = entries.len();
    let mut i: usize = 0;
    while i < n
        invariant
            n == entries@.len(),
            i <= n,
            forall|k: int| 0 <= k < i ==> entry_views(entries@)[k].key != key@,
        decreases n - i,
    {
        if bytes_eq(&entries[i].key, key) {
            assert(entry_views(entries@)[i as int].key == key@);
            return true;
        }
        i = i + 1;
    }
    assert(!provides_key(entry_views(entries@), key@));
    false
}

/// The position of the first rule named `key`, or the number of rules
/// when none is: a linear scan.
fn find_rule(rules: &Vec<MetadataFieldRule>, key: &Vec<u8>) -> (idx: usize)
    ensures
        idx as int == rule_index_of(rule_views(rules@), key@),
{
    let n = rules.len();
    let mut i: usize = 0;
    while i < n
        invariant
            n == rules@.len(),
            i <= n,
            forall|k: int| 0 <= k < i ==> rule_views(rules@)[k].name != key@,
        decreases n - i,
    {
        if bytes_eq(&rules[i].name, key) {
            proof {
                assert(rule_views(rules@)[i as int].name == key@);
                lemma_rule_index_of(rule_views(rules@), key@);
            }
            return i;
        }
        i = i + 1;
    }
    proof {
        lemma_rule_index_of(rule_views(rules@), key@);
    }
    n
}

/// A fresh byte vector holding a fixed byte string.
fn byte_text(s: &[u8]) -> (r: Vec<u8>)
    ensures
        r@ == s@,
{
    let mut r: Vec<u8> = Vec::new();
    let n = s.len();
    let mut i: usize = 0;
    while i < n
        invariant
            n == s@.len(),
            i <= n,
            r@ =~= s@.subrange(0, i as int),
        decreases n - i,
    {
        r.push(s[i]);
        i = i + 1;
    }
    assert(r@ =~= s@);
    r
}

/// Validates `entries` against `schema`, which its caller has looked up
/// by `schema_id` in whatever store it keeps schemas in. A missing schema
/// (`None`) and an inactive schema are single-finding failures; against
/// an active schema the findings are exactly the missing required fields
/// in schema order followed by the per-entry findings in entry order, and
/// the result is valid exactly when there is no finding.
pub fn validate_metadata(
    schema: Option<&MetadataSchemaRecord>,
    schema_id: &Vec<u8>,
    entries: &Vec<MetadataEntry>,
) -> (r: MetadataValidationResult)
    ensures
        r.schema_id@ == schema_id@,
        r.valid == (r.errors@.len() == 0),
        schema is None ==> error_views(r.errors@) == seq![schema_missing_error()]
            && r.schema_version == (MetadataSchemaVersion { major: 0, minor: 0, patch: 0 }),
        schema matches Some(s) ==> r.schema_version == s.version && (if !s.is_active {
            error_views(r.errors@) == seq![schema_inactive_error()]
        } else {
            error_views(r.errors@) == validation_errors(
                key_views(s.required_fields@),
                rule_views(s.fields@),
                s.allow_custom_fields,
                entry_views(entries@),
            )
        }),
{
    let schema = match schema {
        Some(s) => s,
        None => {
            let mut errors: Vec<MetadataFieldError> = Vec::new();
            errors.push(
                MetadataFieldError {
                    field: byte_text("_schema".as_bytes()),
                    message: byte_text("Schema not found".as_bytes()),
                    constraint: byte_text("exists".as_bytes()),
                },
            );
            proof {
                assert(error_views(errors@) =~= seq![schema_missing_error()]);
            }
            return MetadataValidationResult {
                valid: false,
                errors: errors,
                schema_id: clone_bytes(schema_id),
                schema_version: MetadataSchemaVersion { major: 0, minor: 0, patch: 0 },
            };
        },
    };

    if !schema.is_active {
        let mut errors: Vec<MetadataFieldError> = Vec::new();
        errors.push(
            MetadataFieldError {
                field: byte_text("_schema".as_bytes()),
                message: byte_text("Schema is inactive".as_bytes()),
                constraint: byte_text("active".as_bytes()),
            },
        );
        proof {
            assert(error_views(errors@) =~= seq![schema_inactive_error()]);
        }
        return MetadataValidationResult {
            valid: false,
            errors: errors,
            schema_id: clone_bytes(schema_id),
            schema_version: schema.version,
        };
    }

    let ghost required_seq = key_views(schema.required_fields@);
    let ghost entry_seq = entry_views(entries@);
    let ghost rule_seq = rule_views(schema.fields@);

    let mut errors: Vec<MetadataFieldError> = Vec::new();
    proof {
        assert(required_seq.skip(0) =~= required_seq);
        assert(error_views(errors@) =~= Seq::<MetadataFieldErrorView>::empty());
        assert(error_views(errors@) + required_errors(required_seq.skip(0), entry_seq)
            =~= required_errors(required_seq, entry_seq));
    }

    let nr = schema.required_fields.len();
    let mut i: usize = 0;
    while i < nr
        invariant
            nr == schema.required_fields@.len(),
            i <= nr,
            required_seq == key_views(schema.required_fields@),
            entry_seq == entry_views(entries@),
            error_views(errors@) + required_errors(required_seq.skip(i as int), entry_seq)
                =~= required_errors(required_seq, entry_seq),
        decreases nr - i,
    {
        proof {
            assert(required_seq.skip(i as int).drop_first() =~= required_seq.skip(i + 1));
            assert(required_seq.skip(i as int)[0] == schema.required_fields@[i as int]@);
        }
        if !contains_key(entries, &schema.required_fields[i]) {
            errors.push(
                MetadataFieldError {
                    field: clone_bytes(&schema.required_fields[i]),
                    message: byte_text("Required field missing".as_bytes()),
                    constraint: byte_text("required".as_bytes()),
                },
            );
        }
        i = i + 1;
        proof {
            assert(error_views(errors@) + required_errors(required_seq.skip(i as int), entry_seq)
                =~= required_errors(required_seq, entry_seq));
        }
    }
    proof {
        assert(required_seq.skip(nr as int) =~= Seq::<Seq<u8>>::empty());
        assert(error_views(errors@) =~= required_errors(required_seq, entry_seq));
    }

    let ghost req_errs = required_errors(required_seq, entry_seq);
    proof {
        assert(entry_seq.skip(0) =~= entry_seq);
        assert(error_views(errors@) + entries_errors(
            rule_seq,
            schema.allow_custom_fields,
            entry_seq.skip(0),
        ) =~= req_errs + entries_errors(rule_seq, schema.allow_custom_fields, entry_seq));
    }

    let ne = entries.len();
    let mut j: usize = 0;
    while j < ne
        invariant
            ne == entries@.len(),
            j <= ne,
            required_seq == key_views(schema.required_fields@),
            entry_seq == entry_views(entries@),
            rule_seq == rule_views(schema.fields@),
            req_errs == required_errors(required_seq, entry_seq),
            error_views(errors@) + entries_errors(
                rule_seq,
                schema.allow_custom_fields,
                entry_seq.skip(j as int),
            ) =~= req_errs + entries_errors(rule_seq, schema.allow_custom_fields, entry_seq),
        decreases ne - j,
    {
        proof {
            assert(entry_seq.skip(j as int).drop_first() =~= entry_seq.skip(j + 1));
            assert(entry_seq.skip(j as int)[0] == entries@[j as int]@);
        }
        let entry = &entries[j];
        let idx = find_rule(&schema.fields, &entry.key);
        if idx < schema.fields.len() {
            let rule = &schema.fields[idx];
            if rule.field_type != entry.value_type {
                errors.push(
                    MetadataFieldError {
                        field: clone_bytes(&entry.key),
                        message: byte_text("Type mismatch".as_bytes()),
                        constraint: byte_text("type".as_bytes()),
                    },
                );
            }
            if entry.value_type == MetadataFieldType::Text {
                if rule.min_length > 0 && entry.value.len() < rule.min_length as usize {
                    errors.push(
                        MetadataFieldError {
                            field: clone_bytes(&entry.key),
                            message: byte_text("Value too short".as_bytes()),
                            constraint: byte_text("minLength".as_bytes()),
                        },
                    );
                }
                if rule.max_length > 0 && entry.value.len() > rule.max_length as usize {
                    errors.push(
                        MetadataFieldError {
                            field: clone_bytes(&entry.key),
                            message: byte_text("Value too long".as_bytes()),
                            constraint: byte_text("maxLength".as_bytes()),
                        },
                    );
                }
            }
        } else {
            if !schema.allow_custom_fields {
                errors.push(
                    MetadataFieldError {
                        field: clone_bytes(&entry.key),
                        message: byte_text("Custom field not allowed".as_bytes()),
                        constraint: byte_text("noCustomFields".as_bytes()),
                    },
                );
            }
        }
        j = j + 1;
        proof {
            assert(error_views(errors@) + entries_errors(
                rule_seq,
                schema.allow_custom_fields,
                entry_seq.skip(j as int),
            ) =~= req_errs + entries_errors(rule_seq, schema.allow_custom_fields, entry_seq));
        }
    }
    proof {
        assert(entry_seq.skip(ne as int) =~= Seq::<MetadataEntryView>::empty());
        assert(error_views(errors@) =~= validation_errors(
            required_seq,
            rule_seq,
            schema.allow_custom_fields,
            entry_seq,
        ));
    }

    let valid = errors.len() == 0;
    MetadataValidationResult {
        valid: valid,
        errors: errors,
        schema_id: clone_bytes(schema_id),
        schema_version: schema.version,
    }
}

/// The decision of a schema upgrade: the schema being replaced must still
/// be active, and the replacement's version must be strictly newer.
/// Rewriting the stored records is its caller's business.
pub fn check_upgrade(old: &MetadataSchemaRecord, new_version: &MetadataSchemaVersion) -> (r:
    Result<(), MetadataError>)
    ensures
        r == (if !old.is_active {
            Err::<(), MetadataError>(MetadataError::SchemaInactive)
        } else if !version_gt(*new_version, old.version) {
            Err::<(), MetadataError>(MetadataError::InvalidVersion)
        } else {
            Ok::<(), MetadataError>(())
        }),
{
    if !old.is_active {
        return Err(MetadataError::SchemaInactive);
    }
    if !new_version.is_greater_than(&old.version) {
        return Err(MetadataError::InvalidVersion);
    }
    Ok(())
}


} // verus!
