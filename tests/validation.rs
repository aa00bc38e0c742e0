use graveyar_db::schemas::{Field, FieldType, Schema, SchemaValidator};
use graveyar_db::validation::{
    admits, validate_fields, DeclaredType, FieldIssue, FieldRule, Observed, PrimitiveType,
};

fn rule(name: &str, t: DeclaredType, required: bool) -> FieldRule {
    FieldRule {
        name: name.to_string(),
        field_type: t,
        constrained: true,
        required,
        min_length: None,
        max_length: None,
    }
}

#[test]
fn valid_payload_has_no_issues() {
    let mut r = rule("name", DeclaredType::Primitive(PrimitiveType::String), true);
    r.min_length = Some(1);
    assert_eq!(validate_fields(&vec![r], &vec![Observed::Text { len: 5 }]), Ok(()));
}

#[test]
fn number_below_minimum_is_one_issue() {
    let r = rule("age", DeclaredType::Primitive(PrimitiveType::Number), true);
    let got = validate_fields(&vec![r], &vec![Observed::Number { below_min: true, above_max: false }]);
    assert_eq!(got, Err(vec![FieldIssue::MinValue("age".to_string())]));
}

#[test]
fn missing_required_field_is_reported_alone() {
    let mut r = rule("id", DeclaredType::Primitive(PrimitiveType::Number), true);
    r.min_length = Some(3);
    assert_eq!(
        validate_fields(&vec![r.clone()], &vec![Observed::Absent]),
        Err(vec![FieldIssue::MissingField("id".to_string())])
    );
    assert_eq!(
        validate_fields(&vec![r], &vec![Observed::Null]),
        Err(vec![FieldIssue::MissingField("id".to_string())])
    );
    let optional = rule("opt", DeclaredType::Primitive(PrimitiveType::Number), false);
    assert_eq!(validate_fields(&vec![optional], &vec![Observed::Absent]), Ok(()));
}

#[test]
fn checks_do_not_short_circuit() {
    let mut r = rule("code", DeclaredType::Primitive(PrimitiveType::Boolean), false);
    r.min_length = Some(4);
    r.max_length = Some(2);
    let got = validate_fields(&vec![r], &vec![Observed::Text { len: 3 }]);
    assert_eq!(
        got,
        Err(vec![
            FieldIssue::InvalidType("code".to_string()),
            FieldIssue::MinLength("code".to_string(), 3, 4),
            FieldIssue::MaxLength("code".to_string(), 3, 2),
        ])
    );
}

#[test]
fn issues_are_aggregated_over_fields() {
    let a = rule("a", DeclaredType::Primitive(PrimitiveType::String), true);
    let b = rule("b", DeclaredType::Complex, false);
    let c = rule("c", DeclaredType::Primitive(PrimitiveType::Number), false);
    let got = validate_fields(
        &vec![a, b, c],
        &vec![Observed::Absent, Observed::Other, Observed::Number { below_min: false, above_max: true }],
    );
    assert_eq!(
        got,
        Err(vec![FieldIssue::MissingField("a".to_string()), FieldIssue::MaxValue("c".to_string())])
    );
}

#[test]
fn soft_fail_admits_invalid_events() {
    assert!(admits(false, false));
    assert!(admits(true, true));
    assert!(!admits(true, false));
}

fn field(t: FieldType) -> Field {
    Field { field_type: t, nullable: false, overrides_on_null: false }
}

#[test]
fn schema_structure_checks() {
    let mut v = SchemaValidator;
    let good = Schema {
        name: "User".to_string(),
        fields: vec![
            ("age".to_string(), field(FieldType::Number)),
            ("role".to_string(), field(FieldType::Enum(vec!["admin".to_string()]))),
        ],
    };
    assert!(good.accept(&mut v).is_ok());

    let unnamed = Schema { name: String::new(), fields: vec![] };
    assert_eq!(unnamed.accept(&mut v), Err("Schema name cannot be empty".to_string()));

    let empty_enum = Schema {
        name: "S".to_string(),
        fields: vec![("kind".to_string(), field(FieldType::Enum(vec![])))],
    };
    assert_eq!(
        empty_enum.accept(&mut v),
        Err("Enum field 'kind' must have at least one variant".to_string())
    );

    let nested = Schema {
        name: "Outer".to_string(),
        fields: vec![(
            "items".to_string(),
            field(FieldType::Array(Box::new(FieldType::SubSchema(Box::new(Schema {
                name: "Inner".to_string(),
                fields: vec![(String::new(), field(FieldType::String))],
            }))))),
        )],
    };
    assert_eq!(nested.accept(&mut v), Err("Field name cannot be empty".to_string()));
}
