//! A small debug printer that renders the classic expression shapes
//! (binary, grouping, unary, literal) in prefix form.

use vstd::prelude::*;

use crate::codegen::literal_display;
use crate::codegen::spec_literal_display;
use crate::expression::ExpressionWithoutBlock;

verus! {

use vstd::string::StringExecFns;

/// The prefix-form rendering of an expression, where one exists: only the
/// four classic shapes are printable.
pub open spec fn spec_print(e: ExpressionWithoutBlock) -> Option<Seq<char>>
    decreases e,
{
    match e {
        ExpressionWithoutBlock::Binary { left, operator, right } => {
            match (spec_print(*left), spec_print(*right)) {
                (Option::Some(l), Option::Some(r)) => Option::Some(
                    "("@ + operator.lexeme@ + " "@ + l + " "@ + r + ")"@,
                ),
                _ => Option::None,
            }
        },
        ExpressionWithoutBlock::Grouping(inner) => match spec_print(*inner) {
            Option::Some(s) => Option::Some("(group "@ + s + ")"@),
            Option::None => Option::None,
        },
        ExpressionWithoutBlock::Unary { operator, right } => match spec_print(*right) {
            Option::Some(r) => Option::Some("("@ + operator.lexeme@ + " "@ + r + ")"@),
            Option::None => Option::None,
        },
        ExpressionWithoutBlock::Literal(l) => Option::Some(spec_literal_display(l)),
        _ => Option::None,
    }
}

/// Render an expression in prefix form; only binary, grouping, unary and
/// literal shapes are printable.
pub fn print(expression: &ExpressionWithoutBlock) -> (r: Option<String>)
    ensures
        match r {
            Option::Some(s) => spec_print(*expression) == Option::Some(s@),
            Option::None => spec_print(*expression) is None,
        },
    decreases *expression,
{
    match expression {
        ExpressionWithoutBlock::Binary { left, operator, right } => {
            let l = match print(left) {
                Option::Some(l) => l,
                Option::None => {
                    return Option::None;
                },
            };
            let r = match print(right) {
                Option::Some(r) => r,
                Option::None => {
                    return Option::None;
                },
            };
            let mut out = String::from_str("(");
            out.append(operator.lexeme.as_str());
            out.append(" ");
            out.append(l.as_str());
            out.append(" ");
            out.append(r.as_str());
            out.append(")");
            proof {
                assert(out@ =~= "("@ + operator.lexeme@ + " "@ + l@ + " "@ + r@ + ")"@);
            }
            Option::Some(out)
        },
        ExpressionWithoutBlock::Grouping(inner) => {
            let s = match print(inner) {
                Option::Some(s) => s,
                Option::None => {
                    return Option::None;
                },
            };
            let mut out = String::from_str("(group ");
            out.append(s.as_str());
            out.append(")");
            proof {
                assert(out@ =~= "(group "@ + s@ + ")"@);
            }
            Option::Some(out)
        },
        ExpressionWithoutBlock::Unary { operator, right } => {
            let r = match print(right) {
                Option::Some(r) => r,
                Option::None => {
                    return Option::None;
                },
            };
            let mut out = String::from_str("(");
            out.append(operator.lexeme.as_str());
            out.append(" ");
            out.append(r.as_str());
            out.append(")");
            proof {
                assert(out@ =~= "("@ + operator.lexeme@ + " "@ + r@ + ")"@);
            }
            Option::Some(out)
        },
        ExpressionWithoutBlock::Literal(l) => Option::Some(literal_display(l)),
        _ => Option::None,
    }
}

} // verus!
