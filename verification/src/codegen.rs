//! The emitter: prints declarations as C source text.
//!
//! Every function here returns exactly the text that [`crate::text`] defines
//! for its arguments.  The emitter keeps no state and cannot fail; the one
//! thing it asks of its input is that no array carries a row width of zero.

use crate::decimal::push_decimal;
use crate::ir::{
    all_well_formed, lemma_value_view, properties_well_formed, values_well_formed, views, AstNode,
    PropertyDeclaration, PropertyValue, Value, ValueView,
};
use crate::rows::{lemma_row_items, lemma_rows_map_values, rows, split_rows};
use crate::text::{
    array_layout, array_lines, array_text, const_text, declaration_line, declaration_lines,
    declarations_text, define_text, document_text, element_texts, include_text, join, node_text,
    node_texts, property_line, property_lines, row_line, struct_declaration_text,
    struct_value_text, tabs, value_text,
};
use vstd::prelude::*;

verus! {

/// The indentation of a line nested `n` levels deep.
pub fn indentation(n: usize) -> (out: String)
    ensures
        out@ == tabs(n as nat),
{
    let mut out = String::new();
    for i in 0..n
        invariant
            out@ == tabs(i as nat),
    {
        out.append("\t");
        proof {
            reveal_strlit("\t");
            assert(out@ =~= tabs((i + 1) as nat));
        }
    }
    out
}

/// Prints a sequence of declarations: the text of each, in order, end to end.
pub fn generate(ast: Vec<AstNode>) -> (out: String)
    requires
        all_well_formed(views(ast@)),
    ensures
        out@ == document_text(views(ast@)),
{
    let mut output = String::new();
    let ghost texts = node_texts(views(ast@));
    assert(texts.take(0) =~= Seq::<Seq<char>>::empty());
    for i in 0..ast.len()
        invariant
            all_well_formed(views(ast@)),
            texts == node_texts(views(ast@)),
            output@ == texts.take(i as int).flatten(),
    {
        assert(views(ast@)[i as int] == ast@[i as int]@);
        let statement = generate_node(&ast[i]);
        output.append(statement.as_str());
        proof {
            assert(texts.take(i + 1) =~= texts.take(i as int).push(texts[i as int]));
            texts.take(i as int).lemma_flatten_push(texts[i as int]);
        }
    }
    assert(texts.take(ast.len() as int) =~= texts);
    output
}

/// Prints one declaration.
pub fn generate_node(statement: &AstNode) -> (out: String)
    requires
        statement@.well_formed(),
    ensures
        out@ == node_text(statement@),
{
    match statement {
        AstNode::Include { filename } => {
            let mut output = String::from_str("#include \"");
            output.append(filename.as_str());
            output.append("\"\n");
            assert(output@ =~= include_text(filename@));
            output
        },
        AstNode::Define { name, value } => {
            let mut output = String::from_str("#define ");
            output.append(name.as_str());
            output.append(" ");
            output.append(value.as_str());
            output.append("\n");
            assert(output@ =~= define_text(name@, value@));
            output
        },
        AstNode::StructDeclaration { name, properties } => {
            let properties_str = generate_property_declarations(properties);
            let mut output = String::from_str("typedef struct ");
            output.append(name.as_str());
            output.append(" {\n");
            output.append(properties_str.as_str());
            output.append("} ");
            output.append(name.as_str());
            output.append(";\n");
            assert(output@ =~= struct_declaration_text(name@, views(properties@)));
            output
        },
        AstNode::Const { name, c_type, value } => {
            let value_str = generate_value(value, 1);
            let mut output = String::from_str("const ");
            output.append(c_type.as_str());
            output.append(" ");
            output.append(name.as_str());
            match value {
                Value::Array { values, .. } => {
                    proof {
                        lemma_value_view(*value);
                    }
                    output.append("[");
                    push_decimal(&mut output, values.len() as u64);
                    output.append("] = ");
                },
                _ => {
                    output.append(" = ");
                },
            }
            output.append(value_str.as_str());
            output.append(";\n");
            assert(output@ =~= const_text(name@, c_type@, value@));
            output
        },
    }
}

/// Prints a value at nesting level `nesting`.
pub fn generate_value(value: &Value, nesting: usize) -> (out: String)
    requires
        nesting >= 1,
        value@.well_formed(),
    ensures
        out@ == value_text(value@, nesting as nat),
{
    let indent = indentation(nesting);
    let closing = indentation(nesting - 1);
    emit_value(value, indent.as_str(), closing.as_str())
}

/// Prints the fields of a struct declaration, one line each.
pub fn generate_property_declarations(properties: &Vec<PropertyDeclaration>) -> (out: String)
    ensures
        out@ == declarations_text(views(properties@)),
{
    let mut output = String::new();
    let ghost lines = declaration_lines(views(properties@));
    assert(lines.take(0) =~= Seq::<Seq<char>>::empty());
    for i in 0..properties.len()
        invariant
            lines == declaration_lines(views(properties@)),
            output@ == lines.take(i as int).flatten(),
    {
        let ghost before = output@;
        let property = &properties[i];
        output.append("\t");
        output.append(property.c_type.as_str());
        output.append(" ");
        output.append(property.name.as_str());
        output.append(";\n");
        proof {
            assert(output@ =~= before + declaration_line(property@));
            assert(lines.take(i + 1) =~= lines.take(i as int).push(lines[i as int]));
            lines.take(i as int).lemma_flatten_push(lines[i as int]);
        }
    }
    assert(lines.take(properties.len() as int) =~= lines);
    output
}

/// Prints a struct initialiser whose entries are nested `nesting` levels
/// deep.
pub fn generate_property_values(properties: &Vec<PropertyValue>, nesting: usize) -> (out: String)
    requires
        nesting >= 1,
        properties_well_formed(views(properties@)),
    ensures
        out@ == struct_value_text(views(properties@), nesting as nat),
{
    let indent = indentation(nesting);
    let closing = indentation(nesting - 1);
    emit_property_values(properties, indent.as_str(), closing.as_str())
}

/// Prints an array initialiser: its elements in rows of `hint_array_width`,
/// or in one row where there is no width.
pub fn generate_array_values(values: &Vec<Value>, hint_array_width: &Option<u32>) -> (out: String)
    requires
        values_well_formed(views(values@)),
        *hint_array_width != Some(0u32),
    ensures
        out@ == array_text(views(values@), *hint_array_width),
    decreases values,
{
    let mut output = String::from_str("{\n");
    let chunks = split_rows(values.as_slice(), *hint_array_width);
    let ghost elements = element_texts(views(values@));
    let ghost lines = array_lines(elements, *hint_array_width);
    proof {
        assert(elements =~= views(values@).map_values(|v: ValueView| value_text(v, 1)));
        lemma_rows_map_values(views(values@), |v: ValueView| value_text(v, 1), *hint_array_width);
        lemma_rows_map_values(values@, |v: Value| v@, *hint_array_width);
        assert(lines.take(0) =~= Seq::<Seq<char>>::empty());
    }
    for r in 0..chunks.len()
        invariant
            values_well_formed(views(values@)),
            *hint_array_width != Some(0u32),
            elements == element_texts(views(values@)),
            lines == array_lines(elements, *hint_array_width),
            chunks@.len() == rows(values@, *hint_array_width).len(),
            chunks@.len() == lines.len(),
            forall|i: int|
                0 <= i < chunks@.len() ==> (#[trigger] chunks@[i])@ == rows(
                    values@,
                    *hint_array_width,
                )[i],
            forall|i: int|
                0 <= i < chunks@.len() ==> #[trigger] rows(elements, *hint_array_width)[i]
                    == element_texts(views(rows(values@, *hint_array_width)[i])),
            output@ == "{\n"@ + lines.take(r as int).flatten(),
    {
        let row = chunks[r];
        let ghost before = output@;
        let ghost texts = element_texts(views(row@));
        output.append("\t");
        proof {
            assert(texts.take(0) =~= Seq::<Seq<char>>::empty());
            assert(output@ =~= before + "\t"@ + join(texts.take(0), ","@));
        }
        for j in 0..row.len()
            invariant
                values_well_formed(views(values@)),
                *hint_array_width != Some(0u32),
                0 <= r < chunks@.len(),
                chunks@.len() == rows(values@, *hint_array_width).len(),
                row@ == rows(values@, *hint_array_width)[r as int],
                texts == element_texts(views(row@)),
                output@ == before + "\t"@ + join(texts.take(j as int), ","@),
        {
            let element = &row[j];
            proof {
                let k = lemma_row_items(values@, *hint_array_width, r as int, j as int);
                assert(views(values@)[k] == element@);
                reveal_strlit("\t");
                reveal_strlit("");
                assert("\t"@ =~= tabs(1));
                assert(""@ =~= tabs(0));
            }
            if j > 0 {
                output.append(",");
            }
            let text = emit_value(element, "\t", "");
            output.append(text.as_str());
            proof {
                let next = texts.take(j + 1);
                assert(next.drop_last() =~= texts.take(j as int));
                assert(output@ =~= before + "\t"@ + join(next, ","@));
            }
        }
        output.append(",\n");
        proof {
            assert(texts.take(row.len() as int) =~= texts);
            assert(texts == rows(elements, *hint_array_width)[r as int]);
            assert(output@ =~= before + row_line(texts));
            assert(lines.take(r + 1) =~= lines.take(r as int).push(lines[r as int]));
            lines.take(r as int).lemma_flatten_push(lines[r as int]);
        }
    }
    output.append("}");
    proof {
        assert(lines.take(chunks.len() as int) =~= lines);
        assert(output@ =~= array_layout(elements, *hint_array_width));
    }
    output
}

/// Prints a value whose entries, if it is a struct initialiser, are indented
/// by `indent`, and whose closing brace is indented by `closing`.
///
/// The indentation is handed down as text, one tab longer at each level, so
/// that the depth of a value is never counted in machine arithmetic.
fn emit_value(value: &Value, indent: &str, closing: &str) -> (out: String)
    requires
        value@.well_formed(),
        indent@ == tabs(indent@.len()),
        closing@ == tabs(closing@.len()),
        indent@.len() == closing@.len() + 1,
    ensures
        out@ == value_text(value@, indent@.len()),
    decreases value,
{
    proof {
        lemma_value_view(*value);
    }
    match value {
        Value::Literal { value } => value.clone(),
        Value::StructValue { properties } => emit_property_values(properties, indent, closing),
        Value::Array { values, hint_array_width } => generate_array_values(
            values,
            hint_array_width,
        ),
    }
}

/// Prints a struct initialiser whose entries are indented by `indent` and
/// whose closing brace is indented by `closing`.
fn emit_property_values(properties: &Vec<PropertyValue>, indent: &str, closing: &str) -> (out:
    String)
    requires
        properties_well_formed(views(properties@)),
        indent@ == tabs(indent@.len()),
        closing@ == tabs(closing@.len()),
        indent@.len() == closing@.len() + 1,
    ensures
        out@ == struct_value_text(views(properties@), indent@.len()),
    decreases properties,
{
    let ghost nesting = indent@.len();
    let ghost lines = property_lines(views(properties@), nesting);
    let mut output = String::from_str("{\n");
    let mut deeper = String::from_str(indent);
    deeper.append("\t");
    proof {
        reveal_strlit("\t");
        assert(deeper@ =~= tabs(nesting + 1));
        assert(lines.take(0) =~= Seq::<Seq<char>>::empty());
    }
    for i in 0..properties.len()
        invariant
            properties_well_formed(views(properties@)),
            nesting == indent@.len(),
            indent@ == tabs(nesting),
            deeper@ == tabs(nesting + 1),
            lines == property_lines(views(properties@), nesting),
            output@ == "{\n"@ + lines.take(i as int).flatten(),
    {
        let ghost before = output@;
        let property = &properties[i];
        assert(views(properties@)[i as int] == property@);
        let value_str = emit_value(&property.value, deeper.as_str(), indent);
        output.append(indent);
        output.append(".");
        output.append(property.name.as_str());
        output.append(" = ");
        output.append(value_str.as_str());
        output.append(",\n");
        proof {
            assert(output@ =~= before + property_line(property.name@, value_str@, nesting));
            assert(lines.take(i + 1) =~= lines.take(i as int).push(lines[i as int]));
            lines.take(i as int).lemma_flatten_push(lines[i as int]);
        }
    }
    output.append(closing);
    output.append("}");
    proof {
        assert(lines.take(properties.len() as int) =~= lines);
        assert(output@ =~= struct_value_text(views(properties@), nesting));
    }
    output
}

} // verus!
