use templatize::fields::generate_fields;
use templatize::fields_from_str;
use templatize::json::JsonValue;

#[test]
fn from_string() {
    static TEST_STR: &str = "{ \"int\": 1, \"str\": \"string\", \"bool\": false, \"null\": null }";
    let fields = fields_from_str(TEST_STR).expect("Failed to generate fields");
    assert_eq!(fields.len(), 4);
    assert_eq!(fields[0].name(), "INT");
    assert_eq!(fields[0].value(), "1");
    assert_eq!(fields[1].name(), "STR");
    assert_eq!(fields[1].value(), "string");
    assert_eq!(fields[2].name(), "BOOL");
    assert_eq!(fields[2].value(), "false");
    assert_eq!(fields[3].name(), "NULL");
    assert_eq!(fields[3].value(), "null");
}

#[test]
fn nested_object_names() {
    let fields = fields_from_str("{\"a\":{\"b\":2}}").expect("Failed to generate fields");
    assert_eq!(fields.len(), 1);
    assert_eq!(fields[0].name(), "A_B");
    assert_eq!(fields[0].value(), "2");
}

#[test]
fn array_names() {
    let fields = fields_from_str("{\"list\":[5,6]}").expect("Failed to generate fields");
    assert_eq!(fields.len(), 2);
    assert_eq!(fields[0].name(), "LIST_0");
    assert_eq!(fields[0].value(), "5");
    assert_eq!(fields[1].name(), "LIST_1");
    assert_eq!(fields[1].value(), "6");
}

#[test]
fn array_two_digit_indices() {
    let fields = fields_from_str("{\"l\":[0,1,2,3,4,5,6,7,8,9,10,11]}")
        .expect("Failed to generate fields");
    assert_eq!(fields.len(), 12);
    assert_eq!(fields[9].name(), "L_9");
    assert_eq!(fields[10].name(), "L_10");
    assert_eq!(fields[10].value(), "10");
    assert_eq!(fields[11].name(), "L_11");
}

#[test]
fn deep_nesting_joins_whole_path() {
    let fields =
        fields_from_str("{\"user\":{\"address\":{\"city\":\"x\"}}}").expect("Failed to generate fields");
    assert_eq!(fields.len(), 1);
    assert_eq!(fields[0].name(), "USER_ADDRESS_CITY");
    assert_eq!(fields[0].value(), "x");
}

#[test]
fn non_ascii_key_kept_verbatim() {
    let fields = fields_from_str("{\"a\u{00f6}z\": 1}").expect("Failed to generate fields");
    assert_eq!(fields.len(), 1);
    assert_eq!(fields[0].name(), "A\u{00f6}Z");
}

#[test]
fn bare_scalar_yields_no_fields() {
    let fields = fields_from_str("5").expect("Failed to generate fields");
    assert_eq!(fields.len(), 0);
}

#[test]
fn empty_object_yields_no_fields() {
    let fields = fields_from_str("{}").expect("Failed to generate fields");
    assert_eq!(fields.len(), 0);
}

#[test]
fn malformed_text_is_rejected() {
    assert!(fields_from_str("{ not json").is_err());
}

#[test]
fn flattening_twice_is_identical() {
    static TEST_STR: &str = "{\"a\":{\"b\":[1,2]},\"c\":\"s\"}";
    let first = fields_from_str(TEST_STR).expect("Failed to generate fields");
    let second = fields_from_str(TEST_STR).expect("Failed to generate fields");
    assert_eq!(first.len(), second.len());
    for i in 0..first.len() {
        assert_eq!(first[i].name(), second[i].name());
        assert_eq!(first[i].value(), second[i].value());
    }
}

#[test]
fn generate_fields_from_built_value() {
    let v = JsonValue::Obj(vec![
        ("key".to_string(), JsonValue::Str("v".to_string())),
        ("nest".to_string(), JsonValue::Arr(vec![JsonValue::Bool(true), JsonValue::Null])),
    ]);
    let fields = generate_fields(&v, "");
    assert_eq!(fields.len(), 3);
    assert_eq!(fields[0].name(), "KEY");
    assert_eq!(fields[0].value(), "v");
    assert_eq!(fields[1].name(), "NEST_0");
    assert_eq!(fields[1].value(), "true");
    assert_eq!(fields[2].name(), "NEST_1");
    assert_eq!(fields[2].value(), "null");
}

#[test]
fn duplicate_flattened_names_coexist() {
    let fields = fields_from_str("{\"ab\": 1, \"AB\": 2}").expect("Failed to generate fields");
    assert_eq!(fields.len(), 2);
    assert_eq!(fields[0].name(), "AB");
    assert_eq!(fields[0].value(), "1");
    assert_eq!(fields[1].name(), "AB");
    assert_eq!(fields[1].value(), "2");
}
