use spite::codegen::ts_types::{to_camel_case, to_pascal_case, to_snake_case, to_ts_type};
use spite::ir::{DomainType, FieldDef, ObjectType};

#[test]
fn test_primitive_types() {
    assert_eq!(to_ts_type(&DomainType::String), "string");
    assert_eq!(to_ts_type(&DomainType::Number), "number");
    assert_eq!(to_ts_type(&DomainType::Boolean), "boolean");
}

#[test]
fn test_array_type() {
    let arr = DomainType::Array(Box::new(DomainType::String));
    assert_eq!(to_ts_type(&arr), "string[]");
}

#[test]
fn test_optional_type() {
    let opt = DomainType::Option(Box::new(DomainType::Number));
    assert_eq!(to_ts_type(&opt), "number | undefined");
}

#[test]
fn test_nested_array() {
    let nested = DomainType::Array(Box::new(DomainType::Array(Box::new(DomainType::String))));
    assert_eq!(to_ts_type(&nested), "string[][]");
}

#[test]
fn test_object_type() {
    let obj = ObjectType {
        fields: vec![
            FieldDef { name: "id".to_string(), typ: DomainType::String, optional: false },
            FieldDef { name: "count".to_string(), typ: DomainType::Number, optional: true },
        ],
    };
    assert_eq!(to_ts_type(&DomainType::Object(obj)), "{ id: string; count?: number }");
}

#[test]
fn test_case_conversions() {
    assert_eq!(to_pascal_case("todo_item"), "TodoItem");
    assert_eq!(to_snake_case("TodoItem"), "todo_item");
    assert_eq!(to_camel_case("todo_item"), "todoItem");
}

#[test]
fn empty_object_type_is_an_empty_record() {
    let obj = ObjectType { fields: vec![] };
    assert_eq!(to_ts_type(&DomainType::Object(obj)), "Record<string, never>");
}

#[test]
fn reference_and_optional_array() {
    let t = DomainType::Option(Box::new(DomainType::Array(Box::new(DomainType::Reference("Item".to_string())))));
    assert_eq!(to_ts_type(&t), "Item[] | undefined");
}

#[test]
fn case_conversion_edge_cases() {
    assert_eq!(to_snake_case(""), "");
    assert_eq!(to_snake_case("A"), "a");
    assert_eq!(to_pascal_case("a__b"), "AB");
    assert_eq!(to_camel_case(""), "");
}
