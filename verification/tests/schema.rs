use chatbang::json::Json;
use chatbang::tools::error::ToolError;
use chatbang::tools::schema::{
    has_type_named, sub_type, type_label_of, type_matches_value, type_title_of, validate_args, InstanceType,
    ObjectRules, ParamSchema, PropertySchema, TypeSpec,
};

fn schema(
    instance_type: Option<TypeSpec>,
    required: Vec<&str>,
    properties: Vec<(&str, PropertySchema)>,
) -> ParamSchema {
    ParamSchema {
        text: "{}".into(),
        instance_type,
        object: Some(ObjectRules {
            required: required.into_iter().map(|s| s.to_string()).collect(),
            properties: properties.into_iter().map(|(k, p)| (k.to_string(), p)).collect(),
        }),
    }
}

fn object(members: Vec<(&str, Json)>) -> Json {
    Json::Object(members.into_iter().map(|(k, v)| (k.to_string(), v)).collect())
}

fn complaint(r: Result<(), ToolError>) -> String {
    match r {
        Err(ToolError::InvalidArgs(m)) => m,
        other => panic!("expected invalid args, got {:?}", other),
    }
}

fn typed(t: InstanceType) -> PropertySchema {
    PropertySchema::Typed(Some(TypeSpec::Single(t)))
}

#[test]
fn type_names_are_lower_case_and_titles_capitalised() {
    assert_eq!(type_label_of(InstanceType::Boolean), "boolean");
    assert_eq!(type_label_of(InstanceType::Integer), "integer");
    assert_eq!(type_title_of(InstanceType::String), "String");
    assert_eq!(type_title_of(InstanceType::Null), "Null");
}

#[test]
fn expected_type_of_property_schemas() {
    assert_eq!(sub_type(&PropertySchema::AnyValue), None);
    assert_eq!(sub_type(&PropertySchema::NoValue), Some("__nothing__".to_string()));
    assert_eq!(sub_type(&PropertySchema::Typed(None)), None);
    assert_eq!(sub_type(&typed(InstanceType::Number)), Some("number".to_string()));
    let many = PropertySchema::Typed(Some(TypeSpec::Many(vec![
        InstanceType::String,
        InstanceType::Null,
        InstanceType::Integer,
    ])));
    assert_eq!(sub_type(&many), Some("string|null|integer".to_string()));
}

#[test]
fn values_have_their_schema_types() {
    let s = Json::Str("x".into());
    assert!(type_matches_value(&s, "string"));
    assert!(type_matches_value(&Json::Bool(true), "boolean"));
    assert!(!type_matches_value(&Json::Bool(true), "bool"));
    assert!(type_matches_value(&Json::Number("5".into()), "integer"));
    assert!(type_matches_value(&Json::Number("-5".into()), "number"));
    assert!(!type_matches_value(&Json::Number("1.5".into()), "integer"));
    assert!(!type_matches_value(&Json::Number("1e3".into()), "integer"));
    assert!(type_matches_value(&Json::Null, "string|null"));
    assert!(type_matches_value(&Json::Null, "string| null "));
    assert!(type_matches_value(&Json::Number("3".into()), "integer|null"));
    assert!(!type_matches_value(&Json::Array(vec![]), "string|null"));
    assert!(!type_matches_value(&s, "__nothing__"));
    assert!(has_type_named(&Json::Object(vec![]), "object"));
    assert!(!has_type_named(&Json::Object(vec![]), " object"));
}

#[test]
fn valid_arguments_pass() {
    let s = schema(
        Some(TypeSpec::Single(InstanceType::Object)),
        vec!["command"],
        vec![("command", typed(InstanceType::String)), ("cwd", typed(InstanceType::String))],
    );
    let args = object(vec![("command", Json::Str("ls".into())), ("extra", Json::Bool(true))]);
    assert!(validate_args(&args, &s).is_ok());
}

#[test]
fn the_first_missing_required_field_is_named() {
    let s = schema(None, vec!["a", "b"], vec![]);
    let args = object(vec![("a", Json::Null)]);
    assert_eq!(complaint(validate_args(&args, &s)), "missing required field 'a'");
    let args = object(vec![("a", Json::Number("1".into()))]);
    assert_eq!(complaint(validate_args(&args, &s)), "missing required field 'b'");
}

#[test]
fn non_object_schema_and_non_object_args_are_refused() {
    let s = ParamSchema {
        text: "{}".into(),
        instance_type: Some(TypeSpec::Single(InstanceType::String)),
        object: None,
    };
    assert_eq!(complaint(validate_args(&Json::Null, &s)), "schema expects String, got object");
    let s = schema(None, vec![], vec![]);
    assert_eq!(
        complaint(validate_args(&Json::Str("x".into()), &s)),
        "expected object, got string"
    );
}

#[test]
fn boolean_and_integer_properties_take_bools_and_whole_numbers() {
    let s = schema(
        None,
        vec![],
        vec![("flag", typed(InstanceType::Boolean)), ("n", typed(InstanceType::Integer))],
    );
    let args = object(vec![("flag", Json::Bool(true)), ("n", Json::Number("3".into()))]);
    assert!(validate_args(&args, &s).is_ok());
    let args = object(vec![("flag", Json::Str("yes".into()))]);
    assert_eq!(complaint(validate_args(&args, &s)), "field 'flag' must be boolean, got string");
    let args = object(vec![("n", Json::Number("3.5".into()))]);
    assert_eq!(complaint(validate_args(&args, &s)), "field 'n' must be integer, got number");
}

#[test]
fn optional_integer_arguments_are_accepted() {
    let s = schema(
        Some(TypeSpec::Single(InstanceType::Object)),
        vec!["command"],
        vec![
            ("command", typed(InstanceType::String)),
            (
                "timeout_secs",
                PropertySchema::Typed(Some(TypeSpec::Many(vec![InstanceType::Integer, InstanceType::Null]))),
            ),
        ],
    );
    let args = object(vec![("command", Json::Str("echo hi".into())), ("timeout_secs", Json::Number("5".into()))]);
    assert!(validate_args(&args, &s).is_ok());
    let args = object(vec![("command", Json::Str("echo hi".into())), ("timeout_secs", Json::Bool(false))]);
    assert_eq!(
        complaint(validate_args(&args, &s)),
        "field 'timeout_secs' must be integer|null, got bool"
    );
}

#[test]
fn the_false_schema_matches_nothing_and_true_matches_anything() {
    let s = schema(
        None,
        vec![],
        vec![("never", PropertySchema::NoValue), ("any", PropertySchema::AnyValue)],
    );
    let args = object(vec![("any", Json::Array(vec![]))]);
    assert!(validate_args(&args, &s).is_ok());
    let args = object(vec![("never", Json::Null)]);
    assert_eq!(complaint(validate_args(&args, &s)), "field 'never' must be __nothing__, got null");
}

#[test]
fn members_are_checked_in_their_order() {
    let s = schema(
        None,
        vec![],
        vec![("a", typed(InstanceType::String)), ("b", typed(InstanceType::Array))],
    );
    let args = object(vec![("b", Json::Null), ("a", Json::Null)]);
    assert_eq!(complaint(validate_args(&args, &s)), "field 'b' must be array, got null");
}
