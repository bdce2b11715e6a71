//! The intermediate representation: declarations and the values that
//! initialise them.
//!
//! Every type has a mathematical view in which strings are sequences of
//! characters and vectors are sequences.  All contracts of the crate are
//! stated over these views.

use vstd::prelude::*;

verus! {

/// A named field of a declared struct type.
#[derive(Debug, PartialEq, Eq)]
pub struct PropertyDeclaration {
    pub name: String,
    pub c_type: String,
}

/// View of a [`PropertyDeclaration`].
pub struct PropertyDeclarationView {
    pub name: Seq<char>,
    pub c_type: Seq<char>,
}

impl View for PropertyDeclaration {
    type V = PropertyDeclarationView;

    open spec fn view(&self) -> PropertyDeclarationView {
        PropertyDeclarationView { name: self.name@, c_type: self.c_type@ }
    }
}

/// One `name = value` entry of a struct initialiser.
#[derive(Debug, PartialEq, Eq)]
pub struct PropertyValue {
    pub name: String,
    pub value: Value,
}

/// View of a [`PropertyValue`].
pub struct PropertyValueView {
    pub name: Seq<char>,
    pub value: ValueView,
}

/// An initialiser expression.
#[derive(Debug, PartialEq, Eq)]
pub enum Value {
    /// A token that is printed as it stands.
    Literal { value: String },
    /// A designated initialiser: named entries, in order.
    StructValue { properties: Vec<PropertyValue> },
    /// An array initialiser.  The hint, if present, is the number of elements
    /// printed per line; it never changes the array's size.
    Array { values: Vec<Value>, hint_array_width: Option<u32> },
}

/// View of a [`Value`].
pub enum ValueView {
    Literal { value: Seq<char> },
    StructValue { properties: Seq<PropertyValueView> },
    Array { values: Seq<ValueView>, hint_array_width: Option<u32> },
}

/// The view of a value: the same tree, with every string and vector replaced
/// by the sequence that it holds.
pub open spec fn value_view(value: Value) -> ValueView
    decreases value,
{
    match value {
        Value::Literal { value } => ValueView::Literal { value: value@ },
        Value::StructValue { properties } => ValueView::StructValue {
            properties: Seq::new(
                properties@.len(),
                |i: int|
                    if 0 <= i < properties@.len() {
                        PropertyValueView {
                            name: properties@[i].name@,
                            value: value_view(properties@[i].value),
                        }
                    } else {
                        arbitrary()
                    },
            ),
        },
        Value::Array { values, hint_array_width } => ValueView::Array {
            values: Seq::new(
                values@.len(),
                |i: int|
                    if 0 <= i < values@.len() {
                        value_view(values@[i])
                    } else {
                        arbitrary()
                    },
            ),
            hint_array_width,
        },
    }
}

impl View for Value {
    type V = ValueView;

    open spec fn view(&self) -> ValueView {
        value_view(*self)
    }
}

impl View for PropertyValue {
    type V = PropertyValueView;

    open spec fn view(&self) -> PropertyValueView {
        PropertyValueView { name: self.name@, value: self.value@ }
    }
}

impl ValueView {
    /// A value is well formed when no array in it, at any depth, carries a
    /// row width of zero.
    pub open spec fn well_formed(self) -> bool
        decreases self,
    {
        match self {
            ValueView::Literal { .. } => true,
            ValueView::StructValue { properties } => properties_well_formed(properties),
            ValueView::Array { values, hint_array_width } => {
                &&& hint_array_width != Some(0u32)
                &&& values_well_formed(values)
            },
        }
    }
}

/// The value of every entry is well formed.
pub open spec fn properties_well_formed(properties: Seq<PropertyValueView>) -> bool
    decreases properties,
{
    forall|i: int| 0 <= i < properties.len() ==> (#[trigger] properties[i]).value.well_formed()
}

/// Every value of the sequence is well formed.
pub open spec fn values_well_formed(values: Seq<ValueView>) -> bool
    decreases values,
{
    forall|i: int| 0 <= i < values.len() ==> (#[trigger] values[i]).well_formed()
}

impl Value {
    /// Tells whether the value is well formed.
    #[verifier::loop_isolation(false)]
    pub fn is_well_formed(&self) -> (ok: bool)
        ensures
            ok == self@.well_formed(),
        decreases self,
    {
        proof {
            lemma_value_view(*self);
        }
        match self {
            Value::Literal { .. } => true,
            Value::StructValue { properties } => {
                for i in 0..properties.len()
                    invariant
                        forall|k: int|
                            0 <= k < i ==> (#[trigger] views(properties@)[k]).value.well_formed(),
                {
                    assert(views(properties@)[i as int] == properties@[i as int]@);
                    if !properties[i].value.is_well_formed() {
                        return false;
                    }
                }
                true
            },
            Value::Array { values, hint_array_width } => {
                match hint_array_width {
                    Some(width) => {
                        if *width == 0 {
                            return false;
                        }
                    },
                    None => {},
                }
                for i in 0..values.len()
                    invariant
                        forall|k: int| 0 <= k < i ==> (#[trigger] views(values@)[k]).well_formed(),
                {
                    assert(views(values@)[i as int] == values@[i as int]@);
                    if !values[i].is_well_formed() {
                        return false;
                    }
                }
                true
            },
        }
    }
}

/// A top-level declaration.
#[derive(Debug, PartialEq, Eq)]
#[allow(inconsistent_fields)]
pub enum AstNode {
    /// `#include "filename"`
    Include { filename: String },
    /// `#define name value`
    Define { name: String, value: String },
    /// `typedef struct name { ... } name;`
    StructDeclaration { name: String, properties: Vec<PropertyDeclaration> },
    /// `const c_type name = value;`
    Const { name: String, c_type: String, value: Value },
}

/// View of an [`AstNode`].
#[allow(inconsistent_fields)]
pub enum AstNodeView {
    Include { filename: Seq<char> },
    Define { name: Seq<char>, value: Seq<char> },
    StructDeclaration { name: Seq<char>, properties: Seq<PropertyDeclarationView> },
    Const { name: Seq<char>, c_type: Seq<char>, value: ValueView },
}

impl View for AstNode {
    type V = AstNodeView;

    open spec fn view(&self) -> AstNodeView {
        match self {
            AstNode::Include { filename } => AstNodeView::Include { filename: filename@ },
            AstNode::Define { name, value } => AstNodeView::Define { name: name@, value: value@ },
            AstNode::StructDeclaration { name, properties } => AstNodeView::StructDeclaration {
                name: name@,
                properties: views(properties@),
            },
            AstNode::Const { name, c_type, value } => AstNodeView::Const {
                name: name@,
                c_type: c_type@,
                value: value@,
            },
        }
    }
}

impl AstNode {
    /// Tells whether the declaration is well formed.
    pub fn is_well_formed(&self) -> (ok: bool)
        ensures
            ok == self@.well_formed(),
    {
        match self {
            AstNode::Const { value, .. } => value.is_well_formed(),
            _ => true,
        }
    }
}

impl AstNodeView {
    /// A declaration is well formed when the value it holds, if any, is.
    pub open spec fn well_formed(self) -> bool {
        match self {
            AstNodeView::Const { value, .. } => value.well_formed(),
            _ => true,
        }
    }
}

/// The views of the items of a sequence, in order.
pub open spec fn views<T: View>(items: Seq<T>) -> Seq<T::V> {
    items.map_values(|item: T| item@)
}

/// The view of a struct initialiser holds the views of its entries, and the
/// view of an array those of its elements.
pub proof fn lemma_value_view(value: Value)
    ensures
        value matches Value::StructValue { properties } ==> value@ == (ValueView::StructValue {
            properties: views(properties@),
        }),
        value matches Value::Array { values, hint_array_width } ==> value@ == (ValueView::Array {
            values: views(values@),
            hint_array_width,
        }),
{
    match value {
        Value::Literal { .. } => {},
        Value::StructValue { properties } => {
            assert(value@->properties =~= views(properties@));
        },
        Value::Array { values, hint_array_width } => {
            assert(value@->values =~= views(values@));
        },
    }
}

/// Every declaration of the sequence is well formed.
pub open spec fn all_well_formed(nodes: Seq<AstNodeView>) -> bool {
    forall|i: int| 0 <= i < nodes.len() ==> (#[trigger] nodes[i]).well_formed()
}

} // verus!
