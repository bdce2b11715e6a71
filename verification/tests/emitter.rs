use tilemap_codegen::codegen::{
    generate, generate_array_values, generate_node, generate_property_declarations,
    generate_property_values, generate_value, indentation,
};
use tilemap_codegen::ir::{AstNode, PropertyDeclaration, PropertyValue, Value};

fn lit(text: &str) -> Value {
    Value::Literal { value: text.to_string() }
}

fn numbers(count: usize) -> Vec<Value> {
    (1..=count).map(|n| lit(&n.to_string())).collect()
}

fn entry(name: &str, value: Value) -> PropertyValue {
    PropertyValue { name: name.to_string(), value }
}

fn field(name: &str, c_type: &str) -> PropertyDeclaration {
    PropertyDeclaration { name: name.to_string(), c_type: c_type.to_string() }
}

fn constant(name: &str, c_type: &str, value: Value) -> AstNode {
    AstNode::Const { name: name.to_string(), c_type: c_type.to_string(), value }
}

fn sample_nodes() -> Vec<AstNode> {
    vec![
        AstNode::Include { filename: "main.h".to_string() },
        AstNode::Define { name: "ARRAY_SIZE".to_string(), value: "5".to_string() },
        AstNode::StructDeclaration {
            name: "Point".to_string(),
            properties: vec![field("x", "int"), field("y", "int")],
        },
        constant("origin", "Point", Value::StructValue {
            properties: vec![entry("x", lit("0")), entry("y", lit("0"))],
        }),
        constant("table", "uint8_t", Value::Array {
            values: numbers(3),
            hint_array_width: Some(2),
        }),
    ]
}

#[test]
fn empty_sequence_gives_empty_text() {
    assert_eq!(generate(Vec::new()), "");
}

#[test]
fn document_is_the_node_texts_in_order() {
    let mut expected = String::new();
    for node in sample_nodes() {
        expected.push_str(&generate(vec![node]));
    }
    assert_eq!(generate(sample_nodes()), expected);
    assert_eq!(
        expected,
        "#include \"main.h\"\n\
         #define ARRAY_SIZE 5\n\
         typedef struct Point {\n\tint x;\n\tint y;\n} Point;\n\
         const Point origin = {\n\t.x = 0,\n\t.y = 0,\n};\n\
         const uint8_t table[3] = {\n\t1,2,\n\t3,\n};\n"
    );
}

#[test]
fn document_of_two_parts_is_both_texts() {
    let mut first = sample_nodes();
    let second = first.split_off(2);
    let whole = generate(sample_nodes());
    assert_eq!(whole, generate(first) + &generate(second));
}

#[test]
fn every_node_text_ends_with_a_newline() {
    for node in sample_nodes() {
        let text = generate_node(&node);
        assert!(text.ends_with('\n'));
        assert_eq!(text, generate(vec![node]));
    }
}

#[test]
fn nodes_are_not_reordered() {
    let output = generate(vec![
        AstNode::Define { name: "B".to_string(), value: "2".to_string() },
        AstNode::Define { name: "A".to_string(), value: "1".to_string() },
    ]);
    assert_eq!(output, "#define B 2\n#define A 1\n");
}

#[test]
fn struct_declaration_has_one_line_per_field() {
    for count in 0..6usize {
        let fields: Vec<PropertyDeclaration> =
            (0..count).map(|i| field(&format!("f{i}"), "int")).collect();
        let body = generate_property_declarations(&fields);
        assert_eq!(body.lines().count(), count);
        for (i, line) in body.lines().enumerate() {
            assert_eq!(line, format!("\tint f{i};"));
        }
        let output = generate(vec![AstNode::StructDeclaration {
            name: "S".to_string(),
            properties: fields,
        }]);
        assert_eq!(output, format!("typedef struct S {{\n{body}}} S;\n"));
    }
}

#[test]
fn struct_declaration_without_fields() {
    let output = generate(vec![AstNode::StructDeclaration {
        name: "Empty".to_string(),
        properties: Vec::new(),
    }]);
    assert_eq!(output, "typedef struct Empty {\n} Empty;\n");
}

#[test]
fn array_size_is_the_element_count() {
    for count in [0usize, 1, 9, 10, 11, 99, 100, 1234] {
        let output = generate(vec![constant("a", "int", Value::Array {
            values: numbers(count),
            hint_array_width: Some(7),
        })]);
        assert!(output.starts_with(&format!("const int a[{count}] = {{\n")));
    }
}

#[test]
fn empty_array_with_row_width() {
    let output = generate(vec![constant("a", "int", Value::Array {
        values: Vec::new(),
        hint_array_width: Some(4),
    })]);
    assert_eq!(output, "const int a[0] = {\n};\n");
}

#[test]
fn empty_array_without_row_width() {
    let output = generate(vec![constant("a", "int", Value::Array {
        values: Vec::new(),
        hint_array_width: None,
    })]);
    assert_eq!(output, "const int a[0] = {\n\t,\n};\n");
}

#[test]
fn array_rows_follow_the_width() {
    let text = generate_array_values(&numbers(5), &Some(2));
    assert_eq!(text, "{\n\t1,2,\n\t3,4,\n\t5,\n}");
    let text = generate_array_values(&numbers(6), &Some(3));
    assert_eq!(text, "{\n\t1,2,3,\n\t4,5,6,\n}");
    let text = generate_array_values(&numbers(3), &Some(3));
    assert_eq!(text, "{\n\t1,2,3,\n}");
    let text = generate_array_values(&numbers(3), &Some(10));
    assert_eq!(text, "{\n\t1,2,3,\n}");
    let text = generate_array_values(&numbers(3), &Some(1));
    assert_eq!(text, "{\n\t1,\n\t2,\n\t3,\n}");
    let text = generate_array_values(&numbers(3), &Some(u32::MAX));
    assert_eq!(text, "{\n\t1,2,3,\n}");
}

#[test]
fn array_row_count_is_the_quotient_rounded_up() {
    for count in 0..30usize {
        for width in 1..8u32 {
            let text = generate_array_values(&numbers(count), &Some(width));
            let body = text.strip_prefix("{\n").unwrap().strip_suffix("}").unwrap();
            let rows: Vec<&str> = body.lines().collect();
            assert_eq!(rows.len(), count.div_ceil(width as usize));
            for (i, row) in rows.iter().enumerate() {
                let elements = row.strip_prefix('\t').unwrap().strip_suffix(',').unwrap();
                let in_row = elements.split(',').count();
                if i + 1 < rows.len() {
                    assert_eq!(in_row, width as usize);
                } else {
                    assert!(1 <= in_row && in_row <= width as usize);
                }
            }
        }
    }
}

#[test]
fn array_without_width_is_one_row() {
    let text = generate_array_values(&numbers(12), &None);
    assert_eq!(text, "{\n\t1,2,3,4,5,6,7,8,9,10,11,12,\n}");
}

#[test]
fn value_at_deeper_nesting() {
    let value = Value::StructValue { properties: vec![entry("x", lit("1"))] };
    assert_eq!(generate_value(&value, 1), "{\n\t.x = 1,\n}");
    assert_eq!(generate_value(&value, 2), "{\n\t\t.x = 1,\n\t}");
    assert_eq!(generate_value(&value, 4), "{\n\t\t\t\t.x = 1,\n\t\t\t}");
    assert_eq!(generate_value(&lit("VALUE"), 3), "VALUE");
}

#[test]
fn struct_values_close_one_tab_short_of_their_entries() {
    for nesting in 1..6usize {
        let inner = Value::StructValue { properties: vec![entry("x", lit("1"))] };
        let text = generate_property_values(&vec![entry("nested", inner)], nesting);
        let outer_indent = "\t".repeat(nesting);
        let inner_indent = "\t".repeat(nesting + 1);
        let closing = "\t".repeat(nesting - 1);
        let expected = format!(
            "{{\n{outer_indent}.nested = {{\n{inner_indent}.x = 1,\n{outer_indent}}},\n{closing}}}"
        );
        assert_eq!(text, expected);
    }
}

#[test]
fn three_levels_of_structs() {
    let value = Value::StructValue {
        properties: vec![
            entry("a", Value::StructValue {
                properties: vec![
                    entry("b", Value::StructValue { properties: vec![entry("c", lit("1"))] }),
                    entry("d", lit("2")),
                ],
            }),
            entry("e", Value::StructValue { properties: Vec::new() }),
        ],
    };
    let output = generate(vec![constant("deep", "Deep", value)]);
    let expected = "const Deep deep = {\n\
                    \t.a = {\n\
                    \t\t.b = {\n\
                    \t\t\t.c = 1,\n\
                    \t\t},\n\
                    \t\t.d = 2,\n\
                    \t},\n\
                    \t.e = {\n\
                    \t},\n\
                    };\n";
    assert_eq!(output, expected);
}

#[test]
fn array_elements_stay_at_level_one() {
    let element = Value::StructValue { properties: vec![entry("x", lit("1"))] };
    let array = Value::Array { values: vec![element], hint_array_width: None };
    let value = Value::StructValue {
        properties: vec![entry("outer", Value::StructValue {
            properties: vec![entry("items", array)],
        })],
    };
    assert_eq!(
        generate_value(&value, 1),
        "{\n\t.outer = {\n\t\t.items = {\n\t{\n\t.x = 1,\n},\n},\n\t},\n}"
    );
}

#[test]
fn array_of_arrays() {
    let inner = |from: usize| Value::Array {
        values: vec![lit(&from.to_string()), lit(&(from + 1).to_string())],
        hint_array_width: Some(2),
    };
    let text = generate_array_values(&vec![inner(1), inner(3)], &Some(1));
    assert_eq!(text, "{\n\t{\n\t1,2,\n},\n\t{\n\t3,4,\n},\n}");
}

#[test]
fn nested_array_has_no_brackets_of_its_own() {
    let value = Value::StructValue {
        properties: vec![entry("items", Value::Array {
            values: numbers(2),
            hint_array_width: None,
        })],
    };
    let output = generate(vec![constant("s", "S", value)]);
    assert_eq!(output, "const S s = {\n\t.items = {\n\t1,2,\n},\n};\n");
}

#[test]
fn literal_text_is_not_changed() {
    let output = generate(vec![constant("s", "char *", lit("\"a,\tb\\n\""))]);
    assert_eq!(output, "const char * s = \"a,\tb\\n\";\n");
}

#[test]
fn indentation_is_tabs() {
    assert_eq!(indentation(0), "");
    assert_eq!(indentation(1), "\t");
    assert_eq!(indentation(5), "\t\t\t\t\t");
}

#[test]
fn well_formed_values_are_recognised() {
    assert!(lit("1").is_well_formed());
    assert!(Value::Array { values: numbers(3), hint_array_width: None }.is_well_formed());
    assert!(Value::Array { values: numbers(3), hint_array_width: Some(1) }.is_well_formed());
    assert!(!Value::Array { values: numbers(3), hint_array_width: Some(0) }.is_well_formed());
    assert!(!Value::Array { values: Vec::new(), hint_array_width: Some(0) }.is_well_formed());
    let hidden = Value::StructValue {
        properties: vec![
            entry("fine", lit("1")),
            entry("rows", Value::Array {
                values: vec![
                    lit("1"),
                    Value::Array { values: Vec::new(), hint_array_width: Some(0) },
                ],
                hint_array_width: Some(2),
            }),
        ],
    };
    assert!(!hidden.is_well_formed());
    assert!(!constant("c", "int", hidden).is_well_formed());
    assert!(constant("c", "int", lit("1")).is_well_formed());
    assert!(AstNode::Include { filename: "a.h".to_string() }.is_well_formed());
    for node in sample_nodes() {
        assert!(node.is_well_formed());
    }
}
