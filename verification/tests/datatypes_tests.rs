use arrow_core::datatypes::{DataType, Field, Schema};
use arrow_core::error::ArrowError;
use serde_json::Value;

#[test]
fn create_struct_type() {
    let _person = DataType::Struct(vec![
        Field::new("first_name", DataType::Utf8, false),
        Field::new("last_name", DataType::Utf8, false),
        Field::new(
            "address",
            DataType::Struct(vec![
                Field::new("street", DataType::Utf8, false),
                Field::new("zip", DataType::UInt16, false),
            ]),
            false,
        ),
    ]);
}

#[test]
fn struct_field_to_json() {
    let f = Field::new(
        "address",
        DataType::Struct(vec![
            Field::new("street", DataType::Utf8, false),
            Field::new("zip", DataType::UInt16, false),
        ]),
        false,
    );
    assert_eq!(
        "{\"name\":\"address\",\"nullable\":false,\"type\":{\"fields\":[\
        {\"name\":\"street\",\"nullable\":false,\"type\":{\"name\":\"utf8\"}},\
        {\"name\":\"zip\",\"nullable\":false,\"type\":{\"bitWidth\":16,\"isSigned\":false,\"name\":\"int\"}}]}}",
        f.to_json().to_string()
    );
}

#[test]
fn primitive_field_to_json() {
    let f = Field::new("first_name", DataType::Utf8, false);
    assert_eq!(
        "{\"name\":\"first_name\",\"nullable\":false,\"type\":{\"name\":\"utf8\"}}",
        f.to_json().to_string()
    );
}

#[test]
fn parse_struct_from_json() {
    let json = "{\"name\":\"address\",\"nullable\":false,\"type\":{\"fields\":[\
    {\"name\":\"street\",\"nullable\":false,\"type\":{\"name\":\"utf8\"}},\
    {\"name\":\"zip\",\"nullable\":false,\"type\":{\"bitWidth\":16,\"isSigned\":false,\"name\":\"int\"}}]}}";
    let value: Value = serde_json::from_str(json).unwrap();
    let dt = Field::from(&value).unwrap();

    let expected = Field::new(
        "address",
        DataType::Struct(vec![
            Field::new("street", DataType::Utf8, false),
            Field::new("zip", DataType::UInt16, false),
        ]),
        false,
    );

    assert_eq!(expected, dt);
}

#[test]
fn parse_utf8_from_json() {
    let json = "{\"name\":\"utf8\"}";
    let value: Value = serde_json::from_str(json).unwrap();
    let dt = DataType::from(&value).unwrap();
    assert_eq!(DataType::Utf8, dt);
}

#[test]
fn parse_int32_from_json() {
    let json = "{\"name\": \"int\", \"isSigned\": true, \"bitWidth\": 32}";
    let value: Value = serde_json::from_str(json).unwrap();
    let dt = DataType::from(&value).unwrap();
    assert_eq!(DataType::Int32, dt);
}

#[test]
fn parse_int64_from_json() {
    // the 64-bit signed rendering parses back to Int64
    let json = "{\"name\": \"int\", \"isSigned\": true, \"bitWidth\": 64}";
    let value: Value = serde_json::from_str(json).unwrap();
    let dt = DataType::from(&value).unwrap();
    assert_eq!(DataType::Int64, dt);
}

#[test]
fn parse_list_from_json() {
    let json = "{\"name\":\"list\",\"children\":{\"name\":\"bool\"}}";
    let value: Value = serde_json::from_str(json).unwrap();
    let dt = DataType::from(&value).unwrap();
    assert_eq!(DataType::List(Box::new(DataType::Boolean)), dt);
}

#[test]
fn parse_unknown_type_name_fails() {
    let json = "{\"name\":\"decimal\"}";
    let value: Value = serde_json::from_str(json).unwrap();
    let result = DataType::from(&value);
    assert!(matches!(result, Err(ArrowError::ParseError(_))));
}

#[test]
fn parse_int_missing_bit_width_fails() {
    let json = "{\"name\":\"int\",\"isSigned\":true}";
    let value: Value = serde_json::from_str(json).unwrap();
    let result = DataType::from(&value);
    assert!(matches!(result, Err(ArrowError::ParseError(_))));
}

#[test]
fn parse_field_missing_nullable_fails() {
    let json = "{\"name\":\"a\",\"type\":{\"name\":\"bool\"}}";
    let value: Value = serde_json::from_str(json).unwrap();
    let result = Field::from(&value);
    assert!(matches!(result, Err(ArrowError::ParseError(_))));
}

#[test]
fn json_round_trip_through_serde() {
    let dt = DataType::Struct(vec![
        Field::new("flag", DataType::Boolean, true),
        Field::new(
            "tags",
            DataType::List(Box::new(DataType::Int64)),
            false,
        ),
        Field::new("temperature", DataType::Float32, true),
        Field::new("count", DataType::UInt32, false),
        Field::new("label", DataType::Utf8, false),
    ]);
    let rendered = dt.to_json();
    let parsed = DataType::from(&rendered).unwrap();
    assert_eq!(dt, parsed);
}

#[test]
fn json_round_trip_on_model() {
    let dt = DataType::List(Box::new(DataType::Struct(vec![
        Field::new("x", DataType::Int16, true),
        Field::new("y", DataType::Float64, false),
    ])));
    let rendered = dt.to_json_model();
    let parsed = DataType::from_model(&rendered).unwrap();
    assert_eq!(dt, parsed);
}

#[test]
fn create_schema_string() {
    let _person = Schema::new(vec![
        Field::new("first_name", DataType::Utf8, false),
        Field::new("last_name", DataType::Utf8, false),
        Field::new(
            "address",
            DataType::Struct(vec![
                Field::new("street", DataType::Utf8, false),
                Field::new("zip", DataType::UInt16, false),
            ]),
            false,
        ),
    ]);
    assert_eq!(_person.to_string(), "first_name: Utf8, last_name: Utf8, address: Struct([Field { name: \"street\", data_type: Utf8, nullable: false }, Field { name: \"zip\", data_type: UInt16, nullable: false }])")
}

#[test]
fn schema_field_accessors() {
    let _person = Schema::new(vec![
        Field::new("first_name", DataType::Utf8, false),
        Field::new("last_name", DataType::Utf8, false),
        Field::new(
            "address",
            DataType::Struct(vec![
                Field::new("street", DataType::Utf8, false),
                Field::new("zip", DataType::UInt16, false),
            ]),
            false,
        ),
    ]);

    // test schema accessors
    assert_eq!(_person.fields().len(), 3);

    // test field accessors
    assert_eq!(_person.fields()[0].name(), "first_name");
    assert_eq!(_person.fields()[0].data_type(), &DataType::Utf8);
    assert_eq!(_person.fields()[0].is_nullable(), false);
}

#[test]
fn schema_column_with_name() {
    let schema = Schema::new(vec![
        Field::new("a", DataType::Int32, false),
        Field::new("b", DataType::Boolean, true),
    ]);
    let (index, field) = schema.column_with_name("b").unwrap();
    assert_eq!(1, index);
    assert_eq!("b", field.name());
    assert!(schema.column_with_name("c").is_none());
    assert_eq!("a", schema.field(0).name());
}

#[test]
fn field_to_string_renders_type() {
    let f = Field::new("xs", DataType::List(Box::new(DataType::Int8)), true);
    assert_eq!("xs: List(Int8)", f.to_string());
}
