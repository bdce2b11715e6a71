use tilemap_codegen::codegen::generate;
use tilemap_codegen::ir::{AstNode, PropertyDeclaration, PropertyValue, Value};

fn include_node(filename: &str) -> AstNode {
    AstNode::Include { filename: filename.to_string() }
}

fn define(name: &str, value: &str) -> AstNode {
    AstNode::Define { name: name.to_string(), value: value.to_string() }
}

fn struct_dec(name: &str, properties: Vec<PropertyDeclaration>) -> AstNode {
    AstNode::StructDeclaration { name: name.to_string(), properties }
}

fn prop_dec(name: &str, c_type: &str) -> PropertyDeclaration {
    PropertyDeclaration { name: name.to_string(), c_type: c_type.to_string() }
}

fn const_dec(name: &str, c_type: &str, value: Value) -> AstNode {
    AstNode::Const { name: name.to_string(), c_type: c_type.to_string(), value }
}

fn literal(value: &str) -> Value {
    Value::Literal { value: value.to_string() }
}

fn struct_value(properties: Vec<PropertyValue>) -> Value {
    Value::StructValue { properties }
}

fn prop_value(name: &str, value: Value) -> PropertyValue {
    PropertyValue { name: name.to_string(), value }
}

fn array(values: Vec<Value>) -> Value {
    Value::Array { values, hint_array_width: None }
}

#[test]
fn test_include() {
    let output = generate(vec![include_node("main.h")]);
    assert_eq!(output, "#include \"main.h\"\n");
}

#[test]
fn test_define() {
    let output = generate(vec![define("ARRAY_SIZE", "5")]);
    assert_eq!(output, "#define ARRAY_SIZE 5\n");
}

#[test]
fn test_struct() {
    let output = generate(vec![struct_dec("Portal", vec![
        prop_dec("x", "uint8_t"),
        prop_dec("y", "uint8_t"),
        prop_dec("target_x", "uint8_t"),
        prop_dec("target_y", "uint8_t"),
    ])]);

    let expected =
"typedef struct Portal {
\tuint8_t x;
\tuint8_t y;
\tuint8_t target_x;
\tuint8_t target_y;
} Portal;
";

    assert_eq!(output, expected);
}

#[test]
fn test_literals() {
    let output = generate(vec![const_dec("foo", "uint8_t", literal("5"))]);

    let expected = "const uint8_t foo = 5;\n";

    assert_eq!(output, expected);
}

#[test]
fn test_struct_value() {
    let output = generate(vec![const_dec("portal", "Portal", struct_value(vec![
        prop_value("x", literal("1")),
        prop_value("y", literal("2")),
        prop_value("target_x", literal("3")),
        prop_value("target_y", literal("4")),
    ]))]);

    let expected =
"const Portal portal = {
\t.x = 1,
\t.y = 2,
\t.target_x = 3,
\t.target_y = 4,
};
";

    assert_eq!(output, expected);
}

#[test]
fn test_nested_struct() {
    let output = generate(vec![const_dec("portal", "Portal", struct_value(vec![
        prop_value("nested", struct_value(vec![
            prop_value("x", literal("1")),
        ])),
    ]))]);

    let expected =
"const Portal portal = {
\t.nested = {
\t\t.x = 1,
\t},
};
";

    assert_eq!(output, expected);
}

#[test]
fn test_array() {
    let output = generate(vec![const_dec("array", "int", array(vec![
        literal("1"),
        literal("2"),
        literal("3"),
    ]))]);

    let expected =
"const int array[3] = {
\t1,2,3,
};
";

    assert_eq!(output, expected);
}
