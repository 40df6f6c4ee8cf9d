//! Statement nodes of the abstract syntax tree.

use vstd::prelude::*;

use crate::expression::Expression;
use crate::expression::ExpressionV;
use crate::token::Token;
use crate::token::TokenV;
use crate::token::view_tokens;

verus! {

/// What block parsing yields from one step: a true statement, or a bare
/// expression whose role (statement or tail value) is decided by what
/// follows it.
#[derive(Debug)]
pub enum MaybeStatement {
    Statement(Statement),
    Expression(Expression),
}

/// The binding target of a `let`: a single name, an array destructuring, or
/// a tuple destructuring.
#[derive(Debug)]
pub enum Declaration {
    Name(Token),
    Array(Vec<Token>),
    Tuple(Vec<Token>),
}

/// The value of a `Declaration`.
#[verifier::ext_equal]
pub ghost enum DeclarationV {
    Name(TokenV),
    Array(Seq<TokenV>),
    Tuple(Seq<TokenV>),
}

impl View for Declaration {
    type V = DeclarationV;

    open spec fn view(&self) -> DeclarationV {
        match self {
            Declaration::Name(t) => DeclarationV::Name(t.view()),
            Declaration::Array(ts) => DeclarationV::Array(view_tokens(ts@)),
            Declaration::Tuple(ts) => DeclarationV::Tuple(view_tokens(ts@)),
        }
    }
}

/// One statement.
#[derive(Debug)]
pub enum Statement {
    Print(Expression),
    Expression(Expression),
    Let { declaration: Declaration, expression: Expression, mutable: bool },
    AssertEq(Expression, Expression),
    RunTest { test_name: Token, function_name: Box<Expression> },
}

/// The value of a `Statement`.
#[verifier::ext_equal]
pub ghost enum StatementV {
    Print(Box<ExpressionV>),
    Expression(Box<ExpressionV>),
    Let { declaration: DeclarationV, expression: Box<ExpressionV>, mutable: bool },
    AssertEq(Box<ExpressionV>, Box<ExpressionV>),
    RunTest { test_name: TokenV, function_name: Box<ExpressionV> },
}

impl View for Statement {
    type V = StatementV;

    open spec fn view(&self) -> StatementV
        decreases self,
    {
        match self {
            Statement::Print(e) => StatementV::Print(Box::new(e.view())),
            Statement::Expression(e) => StatementV::Expression(Box::new(e.view())),
            Statement::Let { declaration, expression, mutable } => StatementV::Let {
                declaration: declaration.view(),
                expression: Box::new(expression.view()),
                mutable: *mutable,
            },
            Statement::AssertEq(l, r) => StatementV::AssertEq(
                Box::new(l.view()),
                Box::new(r.view()),
            ),
            Statement::RunTest { test_name, function_name } => StatementV::RunTest {
                test_name: test_name.view(),
                function_name: Box::new((**function_name).view()),
            },
        }
    }
}

} // verus!
