//! Top-level declarations of one module.

use vstd::prelude::*;

use crate::expression::BlockExpression;
use crate::expression::BlockExpressionV;
use crate::token::view_strings;

verus! {

/// A function or component parameter: a name with its type annotation.
#[derive(Debug, Clone)]
pub struct Parameter {
    pub name: String,
    pub type_annotation: String,
}

/// The value of a `Parameter`.
#[verifier::ext_equal]
pub ghost struct ParameterV {
    pub name: Seq<char>,
    pub type_annotation: Seq<char>,
}

impl View for Parameter {
    type V = ParameterV;

    open spec fn view(&self) -> ParameterV {
        ParameterV { name: self.name@, type_annotation: self.type_annotation@ }
    }
}

/// One declared field of a struct item.
#[derive(Debug, Clone)]
pub struct StructField {
    pub name: String,
    pub type_annotation: String,
}

/// The value of a `StructField`.
#[verifier::ext_equal]
pub ghost struct StructFieldV {
    pub name: Seq<char>,
    pub type_annotation: Seq<char>,
}

impl View for StructField {
    type V = StructFieldV;

    open spec fn view(&self) -> StructFieldV {
        StructFieldV { name: self.name@, type_annotation: self.type_annotation@ }
    }
}

/// The views of a sequence of parameters.
pub open spec fn view_params(s: Seq<Parameter>) -> Seq<ParameterV> {
    Seq::new(
        s.len(),
        |i: int|
            if 0 <= i < s.len() {
                s[i].view()
            } else {
                arbitrary()
            },
    )
}

/// The views of a sequence of struct fields.
pub open spec fn view_struct_fields(s: Seq<StructField>) -> Seq<StructFieldV> {
    Seq::new(
        s.len(),
        |i: int|
            if 0 <= i < s.len() {
                s[i].view()
            } else {
                arbitrary()
            },
    )
}

/// A top-level declaration.
#[derive(Debug)]
pub enum Item {
    Function {
        name: String,
        parameters: Vec<Parameter>,
        body: BlockExpression,
        return_type: Option<String>,
    },
    Component { name: String, parameters: Vec<Parameter>, body: BlockExpression },
    Import { path: Vec<String> },
    TestRunner,
    Struct { name: String, fields: Vec<StructField> },
}

/// The value of an `Item`.
#[verifier::ext_equal]
pub ghost enum ItemV {
    Function {
        name: Seq<char>,
        parameters: Seq<ParameterV>,
        body: BlockExpressionV,
        return_type: Option<Seq<char>>,
    },
    Component { name: Seq<char>, parameters: Seq<ParameterV>, body: BlockExpressionV },
    Import { path: Seq<Seq<char>> },
    TestRunner,
    Struct { name: Seq<char>, fields: Seq<StructFieldV> },
}

impl View for Item {
    type V = ItemV;

    open spec fn view(&self) -> ItemV {
        match self {
            Item::Function { name, parameters, body, return_type } => ItemV::Function {
                name: name@,
                parameters: view_params(parameters@),
                body: body.view(),
                return_type: match return_type {
                    Option::Some(t) => Option::Some(t@),
                    Option::None => Option::None,
                },
            },
            Item::Component { name, parameters, body } => ItemV::Component {
                name: name@,
                parameters: view_params(parameters@),
                body: body.view(),
            },
            Item::Import { path } => ItemV::Import { path: view_strings(path@) },
            Item::TestRunner => ItemV::TestRunner,
            Item::Struct { name, fields } => ItemV::Struct {
                name: name@,
                fields: view_struct_fields(fields@),
            },
        }
    }
}

/// The views of a sequence of items.
pub open spec fn view_items(s: Seq<Item>) -> Seq<ItemV> {
    Seq::new(
        s.len(),
        |i: int|
            if 0 <= i < s.len() {
                s[i].view()
            } else {
                arbitrary()
            },
    )
}

} // verus!
