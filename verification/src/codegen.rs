//! Shared pieces of the two code generators: the hard-stop error for
//! syntax-tree shapes a backend does not implement, the per-module output
//! record, and literal rendering.

use vstd::prelude::*;

use crate::token::Literal;

verus! {

use vstd::string::StringExecFns;

/// A code-generation failure: the backend met a syntax-tree shape it does
/// not implement (generation stops rather than miscompiling), or a node
/// whose token carries no usable literal value.
#[derive(Debug)]
pub enum CompileError {
    Unsupported(String),
}

impl CompileError {
    /// The human-readable description of the failure.
    pub fn message(&self) -> &String {
        match self {
            CompileError::Unsupported(m) => m,
        }
    }
}

/// One generated output file: its extension-free name and its full text.
#[derive(Debug)]
pub struct ModuleOutput {
    pub name: String,
    pub contents: String,
}

/// The display form of a literal: its bare text, with `true` / `false` for
/// the booleans.
pub open spec fn spec_literal_display(l: Literal) -> Seq<char> {
    match l {
        Literal::True => "true"@,
        Literal::False => "false"@,
        Literal::Identifier(s) => s@,
        Literal::String(s) => s@,
        Literal::Number(s) => s@,
    }
}

/// The expression form of a literal: as `spec_literal_display`, except that
/// string literals are wrapped in double quotes.
pub open spec fn spec_literal_expr_text(l: Literal) -> Seq<char> {
    match l {
        Literal::String(s) => "\""@ + s@ + "\""@,
        _ => spec_literal_display(l),
    }
}

/// Render a literal in display form.
pub fn literal_display(l: &Literal) -> (r: String)
    ensures
        r@ == spec_literal_display(*l),
{
    match l {
        Literal::True => String::from_str("true"),
        Literal::False => String::from_str("false"),
        Literal::Identifier(s) => s.clone(),
        Literal::String(s) => s.clone(),
        Literal::Number(s) => s.clone(),
    }
}

/// Render a literal in expression form (strings quoted).
pub fn literal_expr_text(l: &Literal) -> (r: String)
    ensures
        r@ == spec_literal_expr_text(*l),
{
    match l {
        Literal::String(s) => {
            let mut out = String::from_str("\"");
            out.append(s.as_str());
            out.append("\"");
            out
        },
        _ => literal_display(l),
    }
}

} // verus!
