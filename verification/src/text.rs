//! The text of every declaration and value, as a mathematical definition.
//!
//! Texts are sequences of characters.  One indentation unit is one tab
//! character, and a line ends with one newline character.

use crate::decimal::{decimal, decimal_value, lemma_decimal_round_trip};
use crate::ir::{AstNodeView, PropertyDeclarationView, PropertyValueView, ValueView};
use crate::rows::{lemma_row_count, lemma_rows_map_values, lemma_rows_shape, row_count, rows};
use vstd::prelude::*;

verus! {

/// The indentation of a line nested `n` levels deep: `n` tab characters.
pub open spec fn tabs(n: nat) -> Seq<char> {
    Seq::new(n, |i: int| '\t')
}

/// The items, in order, with `separator` between each two neighbours.
pub open spec fn join(items: Seq<Seq<char>>, separator: Seq<char>) -> Seq<char>
    decreases items.len(),
{
    if items.len() == 0 {
        Seq::empty()
    } else if items.len() == 1 {
        items.last()
    } else {
        join(items.drop_last(), separator) + separator + items.last()
    }
}

/// The line of an include directive.
pub open spec fn include_text(filename: Seq<char>) -> Seq<char> {
    "#include \""@ + filename + "\"\n"@
}

/// The line of a macro definition.
pub open spec fn define_text(name: Seq<char>, value: Seq<char>) -> Seq<char> {
    "#define "@ + name + " "@ + value + "\n"@
}

/// The line of one field of a struct declaration: one indentation unit, the
/// type, the name, a semicolon.
pub open spec fn declaration_line(property: PropertyDeclarationView) -> Seq<char> {
    "\t"@ + property.c_type + " "@ + property.name + ";\n"@
}

/// The lines of the fields of a struct declaration: one per field, in the
/// order of the fields.
pub open spec fn declaration_lines(properties: Seq<PropertyDeclarationView>) -> Seq<Seq<char>> {
    Seq::new(properties.len(), |i: int| declaration_line(properties[i]))
}

/// The text of the fields of a struct declaration: their lines, end to end.
pub open spec fn declarations_text(properties: Seq<PropertyDeclarationView>) -> Seq<char> {
    declaration_lines(properties).flatten()
}

/// The text of a struct declaration: the opening line, the lines of the
/// fields, and the closing line, which is not indented.
pub open spec fn struct_declaration_text(
    name: Seq<char>,
    properties: Seq<PropertyDeclarationView>,
) -> Seq<char> {
    "typedef struct "@ + name + " {\n"@ + declarations_text(properties) + "} "@ + name + ";\n"@
}

/// The line of one entry of a struct initialiser whose entries are nested
/// `nesting` levels deep, given the text of the entry's value.
pub open spec fn property_line(name: Seq<char>, value_text: Seq<char>, nesting: nat) -> Seq<char> {
    tabs(nesting) + "."@ + name + " = "@ + value_text + ",\n"@
}

/// The text of a struct initialiser, given the lines of its entries: an
/// opening brace, the lines, and a closing brace that is indented one unit
/// less than the entries.
pub open spec fn struct_layout(lines: Seq<Seq<char>>, nesting: nat) -> Seq<char>
    recommends
        nesting >= 1,
{
    "{\n"@ + lines.flatten() + tabs((nesting - 1) as nat) + "}"@
}

/// The line of one row of an array initialiser, given the texts of the
/// row's elements: one indentation unit, the elements separated by commas
/// without spaces, a trailing comma.
pub open spec fn row_line(elements: Seq<Seq<char>>) -> Seq<char> {
    "\t"@ + join(elements, ","@) + ",\n"@
}

/// The lines of an array initialiser, given the texts of its elements: one
/// line per row of elements (see [`rows`]).
pub open spec fn array_lines(elements: Seq<Seq<char>>, hint_array_width: Option<u32>) -> Seq<
    Seq<char>,
>
    recommends
        hint_array_width != Some(0u32),
{
    Seq::new(
        rows(elements, hint_array_width).len(),
        |i: int| row_line(rows(elements, hint_array_width)[i]),
    )
}

/// The text of an array initialiser, given the texts of its elements: an
/// opening brace, the lines of the rows, and a closing brace without
/// indentation.
pub open spec fn array_layout(elements: Seq<Seq<char>>, hint_array_width: Option<u32>) -> Seq<
    char,
>
    recommends
        hint_array_width != Some(0u32),
{
    "{\n"@ + array_lines(elements, hint_array_width).flatten() + "}"@
}

/// The text of a value at nesting level `nesting`.
///
/// A literal is its own text.  The entries of a struct initialiser are
/// indented by `nesting` units and their values are one level deeper.  The
/// elements of an array are at level 1 wherever the array itself stands.
pub open spec fn value_text(value: ValueView, nesting: nat) -> Seq<char>
    recommends
        nesting >= 1,
        value.well_formed(),
    decreases value,
{
    match value {
        ValueView::Literal { value } => value,
        ValueView::StructValue { properties } => struct_layout(
            property_lines(properties, nesting),
            nesting,
        ),
        ValueView::Array { values, hint_array_width } => array_layout(
            element_texts(values),
            hint_array_width,
        ),
    }
}

/// The lines of the entries of a struct initialiser: one per entry, in the
/// order of the entries.
pub open spec fn property_lines(properties: Seq<PropertyValueView>, nesting: nat) -> Seq<
    Seq<char>,
>
    decreases properties,
{
    Seq::new(
        properties.len(),
        |i: int|
            if 0 <= i < properties.len() {
                property_line(
                    properties[i].name,
                    value_text(properties[i].value, nesting + 1),
                    nesting,
                )
            } else {
                Seq::empty()
            },
    )
}

/// The texts of the elements of an array: one per element, in order, each
/// at nesting level 1.
pub open spec fn element_texts(values: Seq<ValueView>) -> Seq<Seq<char>>
    decreases values,
{
    Seq::new(
        values.len(),
        |i: int|
            if 0 <= i < values.len() {
                value_text(values[i], 1)
            } else {
                Seq::empty()
            },
    )
}

/// The text of a struct initialiser whose entries are nested `nesting` levels
/// deep.
pub open spec fn struct_value_text(properties: Seq<PropertyValueView>, nesting: nat) -> Seq<char>
    recommends
        nesting >= 1,
{
    struct_layout(property_lines(properties, nesting), nesting)
}

/// The text of an array initialiser.
pub open spec fn array_text(values: Seq<ValueView>, hint_array_width: Option<u32>) -> Seq<char>
    recommends
        hint_array_width != Some(0u32),
{
    array_layout(element_texts(values), hint_array_width)
}

/// The text of a constant declaration.  For an array the name is followed by
/// the number of elements in brackets; any other value has no brackets.
pub open spec fn const_text(name: Seq<char>, c_type: Seq<char>, value: ValueView) -> Seq<char> {
    match value {
        ValueView::Array { values, .. } => "const "@ + c_type + " "@ + name + "["@ + decimal(
            values.len(),
        ) + "] = "@ + value_text(value, 1) + ";\n"@,
        _ => "const "@ + c_type + " "@ + name + " = "@ + value_text(value, 1) + ";\n"@,
    }
}

/// The text of one declaration.
pub open spec fn node_text(node: AstNodeView) -> Seq<char> {
    match node {
        AstNodeView::Include { filename } => include_text(filename),
        AstNodeView::Define { name, value } => define_text(name, value),
        AstNodeView::StructDeclaration { name, properties } => struct_declaration_text(
            name,
            properties,
        ),
        AstNodeView::Const { name, c_type, value } => const_text(name, c_type, value),
    }
}

/// The texts of the declarations: one per declaration, in order.
pub open spec fn node_texts(nodes: Seq<AstNodeView>) -> Seq<Seq<char>> {
    Seq::new(nodes.len(), |i: int| node_text(nodes[i]))
}

/// The text of a sequence of declarations: their texts, end to end.
pub open spec fn document_text(nodes: Seq<AstNodeView>) -> Seq<char> {
    node_texts(nodes).flatten()
}

/// A document is the concatenation of the texts of its declarations, one
/// text per declaration and in the order of the declarations: no declaration
/// gives no text, one gives its own, and a sequence cut in two at any place
/// gives the text of the first part followed by that of the second.
pub proof fn lemma_document_concatenation(first: Seq<AstNodeView>, second: Seq<AstNodeView>)
    ensures
        node_texts(first + second).len() == first.len() + second.len(),
        forall|i: int|
            0 <= i < (first + second).len() ==> #[trigger] node_texts(first + second)[i]
                == node_text((first + second)[i]),
        document_text(Seq::empty()) == Seq::<char>::empty(),
        first.len() == 1 ==> document_text(first) == node_text(first[0]),
        document_text(first + second) == document_text(first) + document_text(second),
{
    assert(node_texts(Seq::empty()) =~= Seq::<Seq<char>>::empty());
    if first.len() == 1 {
        node_texts(first).lemma_flatten_one_element();
    }
    assert(node_texts(first + second) =~= node_texts(first) + node_texts(second));
    vstd::seq_lib::lemma_flatten_concat(node_texts(first), node_texts(second));
}

/// The text of every declaration ends with a newline.
pub proof fn lemma_node_text_ends_with_newline(node: AstNodeView)
    ensures
        node_text(node).len() > 0,
        node_text(node).last() == '\n',
{
    reveal_strlit("\"\n");
    reveal_strlit("\n");
    reveal_strlit(";\n");
}

/// A struct declaration has one line per field, in the order of the fields,
/// between its opening and its closing line.
pub proof fn lemma_struct_declaration_lines(
    name: Seq<char>,
    properties: Seq<PropertyDeclarationView>,
)
    ensures
        node_text(AstNodeView::StructDeclaration { name, properties }) == "typedef struct "@ + name
            + " {\n"@ + declaration_lines(properties).flatten() + "} "@ + name + ";\n"@,
        declaration_lines(properties).len() == properties.len(),
        forall|i: int|
            0 <= i < properties.len() ==> #[trigger] declaration_lines(properties)[i] == "\t"@
                + properties[i].c_type + " "@ + properties[i].name + ";\n"@,
{
}

/// The size in the brackets of a constant array is the number of its
/// elements, written in decimal notation, whatever the row width.  An array
/// without elements has the size `0`; its initialiser is empty where a row
/// width is given, and holds one row without elements where none is.
pub proof fn lemma_const_array_size(
    name: Seq<char>,
    c_type: Seq<char>,
    values: Seq<ValueView>,
    hint_array_width: Option<u32>,
)
    requires
        hint_array_width != Some(0u32),
    ensures
        node_text(
            AstNodeView::Const {
                name,
                c_type,
                value: ValueView::Array { values, hint_array_width },
            },
        ) == "const "@ + c_type + " "@ + name + "["@ + decimal(values.len()) + "] = "@
            + array_text(values, hint_array_width) + ";\n"@,
        decimal_value(decimal(values.len())) == values.len(),
        values.len() == 0 ==> decimal(values.len()) == "0"@,
        values.len() == 0 && hint_array_width is Some ==> array_text(values, hint_array_width)
            == "{\n}"@,
        values.len() == 0 && hint_array_width is None ==> array_text(values, hint_array_width)
            == "{\n\t,\n}"@,
{
    lemma_decimal_round_trip(values.len());
    if values.len() == 0 {
        reveal_strlit("0");
        assert(decimal(0) =~= "0"@);
        let elements = element_texts(values);
        assert(elements =~= Seq::<Seq<char>>::empty());
        let lines = array_lines(elements, hint_array_width);
        reveal_strlit("{\n");
        reveal_strlit("}");
        reveal_strlit("{\n}");
        reveal_strlit("{\n\t,\n}");
        reveal_strlit("\t");
        reveal_strlit(",\n");
        match hint_array_width {
            Some(w) => {
                lemma_row_count(0, w as nat);
                assert(lines =~= Seq::<Seq<char>>::empty());
                assert(array_text(values, hint_array_width) =~= "{\n}"@);
            },
            None => {
                assert(rows(elements, hint_array_width) =~= seq![elements]);
                assert(lines =~= seq![row_line(elements)]);
                lines.lemma_flatten_one_element();
                assert(row_line(elements) =~= "\t"@ + ",\n"@);
                assert(array_text(values, hint_array_width) =~= "{\n\t,\n}"@);
            },
        }
    }
}

/// An array with the row width `w` is printed in `n / w` rounded up rows,
/// where `n` is the number of its elements.  Row `i` starts at element
/// `i * w`; every row but the last holds exactly `w` elements and the last
/// at least one.  Each row is one line: the texts of its elements at nesting
/// level 1, separated by commas, behind one tab and before a trailing comma.
pub proof fn lemma_array_rows(values: Seq<ValueView>, width: u32)
    requires
        width > 0,
    ensures
        array_text(values, Some(width)) == "{\n"@ + array_lines(
            element_texts(values),
            Some(width),
        ).flatten() + "}"@,
        array_lines(element_texts(values), Some(width)).len() == row_count(
            values.len(),
            width as nat,
        ),
        values.len() == 0 ==> row_count(values.len(), width as nat) == 0,
        values.len() > 0 ==> (row_count(values.len(), width as nat) - 1) * width < values.len()
            <= row_count(values.len(), width as nat) * width,
        forall|i: int|
            0 <= i < row_count(values.len(), width as nat) ==> #[trigger] array_lines(
                element_texts(values),
                Some(width),
            )[i] == "\t"@ + join(element_texts(rows(values, Some(width))[i]), ","@) + ",\n"@,
        forall|i: int|
            0 <= i < row_count(values.len(), width as nat) - 1 ==> (#[trigger] rows(
                values,
                Some(width),
            )[i]).len() == width,
        values.len() > 0 ==> 1 <= rows(values, Some(width)).last().len() <= width,
        forall|i: int, j: int|
            0 <= i < row_count(values.len(), width as nat) && 0 <= j < rows(
                values,
                Some(width),
            )[i].len() ==> #[trigger] rows(values, Some(width))[i][j] == values[i * width + j],
{
    let elements = element_texts(values);
    let hint = Some(width);
    lemma_rows_shape(values, width);
    lemma_row_count(values.len(), width as nat);
    assert(elements =~= values.map_values(|v: ValueView| value_text(v, 1)));
    lemma_rows_map_values(values, |v: ValueView| value_text(v, 1), hint);
    assert forall|i: int| 0 <= i < row_count(values.len(), width as nat) implies #[trigger] rows(
        elements,
        hint,
    )[i] == element_texts(rows(values, hint)[i]) by {
        assert(rows(values, hint)[i].map_values(|v: ValueView| value_text(v, 1)) =~= element_texts(
            rows(values, hint)[i],
        ));
    }
}

/// In a struct initialiser at nesting level `nesting`, every entry is one
/// line indented by `nesting` tabs, and the closing brace is indented by one
/// tab less.  The value of an entry is printed one level deeper: where it is
/// a struct initialiser itself, its entries are indented by `nesting + 1`
/// tabs and its closing brace by `nesting`, in line with the entry that
/// holds it.
pub proof fn lemma_struct_nesting(properties: Seq<PropertyValueView>, nesting: nat)
    requires
        nesting >= 1,
    ensures
        tabs(nesting).len() == nesting,
        tabs((nesting - 1) as nat).len() + 1 == tabs(nesting).len(),
        value_text(ValueView::StructValue { properties }, nesting) == "{\n"@ + property_lines(
            properties,
            nesting,
        ).flatten() + tabs((nesting - 1) as nat) + "}"@,
        property_lines(properties, nesting).len() == properties.len(),
        forall|i: int|
            0 <= i < properties.len() ==> #[trigger] property_lines(properties, nesting)[i] == tabs(
                nesting,
            ) + "."@ + properties[i].name + " = "@ + value_text(properties[i].value, nesting + 1)
                + ",\n"@,
        forall|i: int|
            0 <= i < properties.len() ==> (#[trigger] properties[i].value matches ValueView::StructValue {
                properties: inner,
            } ==> value_text(properties[i].value, nesting + 1) == "{\n"@ + property_lines(
                inner,
                nesting + 1,
            ).flatten() + tabs(nesting) + "}"@),
{
}

} // verus!
