//! Expression nodes of the abstract syntax tree.
//!
//! Expressions are split into two mutually exclusive kinds: those that end in
//! a brace-delimited block (blocks and `if`/`else` chains) and everything
//! else.  The split matters because block-ended expressions obey different
//! statement-termination rules, and every consumer preserves it.

use vstd::prelude::*;

use crate::statement::Statement;
use crate::statement::StatementV;
use crate::token::Token;
use crate::token::TokenV;
use crate::token::Literal;
use crate::token::LiteralV;

verus! {

/// One piece of a backtick string: either literal text or an interpolated
/// identifier.
#[derive(Debug, Clone)]
pub enum FStringChunk {
    Literal(String),
    Identifier(String),
}

/// The value of an `FStringChunk`.
#[verifier::ext_equal]
pub ghost enum FStringChunkV {
    Literal(Seq<char>),
    Identifier(Seq<char>),
}

impl View for FStringChunk {
    type V = FStringChunkV;

    open spec fn view(&self) -> FStringChunkV {
        match self {
            FStringChunk::Literal(s) => FStringChunkV::Literal(s@),
            FStringChunk::Identifier(s) => FStringChunkV::Identifier(s@),
        }
    }
}

/// A lambda parameter: a name with an optional type annotation.
#[derive(Debug, Clone)]
pub struct LambdaParameter {
    pub name: String,
    pub type_annotation: Option<String>,
}

/// The value of a `LambdaParameter`.
#[verifier::ext_equal]
pub ghost struct LambdaParameterV {
    pub name: Seq<char>,
    pub type_annotation: Option<Seq<char>>,
}

impl View for LambdaParameter {
    type V = LambdaParameterV;

    open spec fn view(&self) -> LambdaParameterV {
        LambdaParameterV {
            name: self.name@,
            type_annotation: match self.type_annotation {
                Option::Some(ref t) => Option::Some(t@),
                Option::None => Option::None,
            },
        }
    }
}

/// Any expression: one that ends in a block, or one that does not.
#[derive(Debug)]
pub enum Expression {
    WithBlock(ExpressionWithBlock),
    WithoutBlock(ExpressionWithoutBlock),
}

/// An expression that does not end in a block.
#[derive(Debug)]
pub enum ExpressionWithoutBlock {
    Binary { left: Box<ExpressionWithoutBlock>, operator: Token, right: Box<
        ExpressionWithoutBlock,
    > },
    Call { callee: Box<ExpressionWithoutBlock>, arguments: Vec<Expression> },
    Index { callee: Box<ExpressionWithoutBlock>, index: Box<Expression> },
    Field { callee: Box<ExpressionWithoutBlock>, field: Token },
    Lambda { parameters: Vec<LambdaParameter>, body: Box<Expression> },
    Grouping(Box<ExpressionWithoutBlock>),
    Literal(Literal),
    Unary { operator: Token, right: Box<ExpressionWithoutBlock> },
    Variable(Token),
    Assignment { name: Token, value: Box<ExpressionWithoutBlock>, operator: Token },
    Html { name: Token, inner: Vec<Expression>, attributes: Vec<(Token, Expression)> },
    FString { chunks: Vec<FStringChunk> },
    Array { elements: Vec<Expression> },
    Tuple { elements: Vec<Expression> },
    Struct { name: Token, fields: Vec<(Token, Expression)> },
    RawJs(String),
    RawGo(String),
}

/// An expression that ends in a block.
#[derive(Debug)]
pub enum ExpressionWithBlock {
    Block(Box<BlockExpression>),
    If {
        expr: Box<Expression>,
        then: Box<BlockExpression>,
        else_branch: Option<Box<ExpressionWithBlock>>,
    },
}

/// An ordered sequence of statements with an optional trailing tail value.
#[derive(Debug)]
pub struct BlockExpression {
    pub statements: Vec<Statement>,
    pub expr: Option<ExpressionWithoutBlock>,
}

/// The value of an `Expression`.
#[verifier::ext_equal]
pub ghost enum ExpressionV {
    WithBlock(Box<ExpressionWithBlockV>),
    WithoutBlock(Box<ExpressionWithoutBlockV>),
}

/// The value of an `ExpressionWithoutBlock`.
#[verifier::ext_equal]
pub ghost enum ExpressionWithoutBlockV {
    Binary { left: Box<ExpressionWithoutBlockV>, operator: TokenV, right: Box<
        ExpressionWithoutBlockV,
    > },
    Call { callee: Box<ExpressionWithoutBlockV>, arguments: Seq<ExpressionV> },
    Index { callee: Box<ExpressionWithoutBlockV>, index: Box<ExpressionV> },
    Field { callee: Box<ExpressionWithoutBlockV>, field: TokenV },
    Lambda { parameters: Seq<LambdaParameterV>, body: Box<ExpressionV> },
    Grouping(Box<ExpressionWithoutBlockV>),
    Literal(LiteralV),
    Unary { operator: TokenV, right: Box<ExpressionWithoutBlockV> },
    Variable(TokenV),
    Assignment { name: TokenV, value: Box<ExpressionWithoutBlockV>, operator: TokenV },
    Html { name: TokenV, inner: Seq<ExpressionV>, attributes: Seq<(TokenV, ExpressionV)> },
    FString { chunks: Seq<FStringChunkV> },
    Array { elements: Seq<ExpressionV> },
    Tuple { elements: Seq<ExpressionV> },
    Struct { name: TokenV, fields: Seq<(TokenV, ExpressionV)> },
    RawJs(Seq<char>),
    RawGo(Seq<char>),
}

/// The value of an `ExpressionWithBlock`.
#[verifier::ext_equal]
pub ghost enum ExpressionWithBlockV {
    Block(Box<BlockExpressionV>),
    If {
        expr: Box<ExpressionV>,
        then: Box<BlockExpressionV>,
        else_branch: Option<Box<ExpressionWithBlockV>>,
    },
}

/// The value of a `BlockExpression`.
#[verifier::ext_equal]
pub ghost struct BlockExpressionV {
    pub statements: Seq<StatementV>,
    pub expr: Option<ExpressionWithoutBlockV>,
}


/// The views of a sequence of expressions.
pub open spec fn view_exprs(s: Seq<Expression>) -> Seq<ExpressionV>
    decreases s,
{
    Seq::new(
        s.len(),
        |i: int|
            if 0 <= i < s.len() {
                s[i].view()
            } else {
                arbitrary()
            },
    )
}

/// The views of a sequence of token-expression pairs.
pub open spec fn view_expr_pairs(s: Seq<(Token, Expression)>) -> Seq<(TokenV, ExpressionV)>
    decreases s,
{
    Seq::new(
        s.len(),
        |i: int|
            if 0 <= i < s.len() {
                (s[i].0.view(), s[i].1.view())
            } else {
                arbitrary()
            },
    )
}

/// The views of a sequence of statements.
pub open spec fn view_stmts(s: Seq<Statement>) -> Seq<StatementV>
    decreases s,
{
    Seq::new(
        s.len(),
        |i: int|
            if 0 <= i < s.len() {
                s[i].view()
            } else {
                arbitrary()
            },
    )
}

/// The views of a sequence of lambda parameters.
pub open spec fn view_lambda_params(s: Seq<LambdaParameter>) -> Seq<LambdaParameterV> {
    Seq::new(
        s.len(),
        |i: int|
            if 0 <= i < s.len() {
                s[i].view()
            } else {
                arbitrary()
            },
    )
}

/// The views of a sequence of interpolation chunks.
pub open spec fn view_chunks(s: Seq<FStringChunk>) -> Seq<FStringChunkV> {
    Seq::new(
        s.len(),
        |i: int|
            if 0 <= i < s.len() {
                s[i].view()
            } else {
                arbitrary()
            },
    )
}

impl View for Expression {
    type V = ExpressionV;

    open spec fn view(&self) -> ExpressionV
        decreases self,
    {
        match self {
            Expression::WithBlock(e) => ExpressionV::WithBlock(Box::new(e.view())),
            Expression::WithoutBlock(e) => ExpressionV::WithoutBlock(Box::new(e.view())),
        }
    }
}

impl View for ExpressionWithoutBlock {
    type V = ExpressionWithoutBlockV;

    open spec fn view(&self) -> ExpressionWithoutBlockV
        decreases self,
    {
        match self {
            ExpressionWithoutBlock::Binary { left, operator, right } => {
                ExpressionWithoutBlockV::Binary {
                    left: Box::new((**left).view()),
                    operator: operator.view(),
                    right: Box::new((**right).view()),
                }
            },
            ExpressionWithoutBlock::Call { callee, arguments } => ExpressionWithoutBlockV::Call {
                callee: Box::new((**callee).view()),
                arguments: view_exprs(arguments@),
            },
            ExpressionWithoutBlock::Index { callee, index } => ExpressionWithoutBlockV::Index {
                callee: Box::new((**callee).view()),
                index: Box::new((**index).view()),
            },
            ExpressionWithoutBlock::Field { callee, field } => ExpressionWithoutBlockV::Field {
                callee: Box::new((**callee).view()),
                field: field.view(),
            },
            ExpressionWithoutBlock::Lambda { parameters, body } => ExpressionWithoutBlockV::Lambda {
                parameters: view_lambda_params(parameters@),
                body: Box::new((**body).view()),
            },
            ExpressionWithoutBlock::Grouping(e) => ExpressionWithoutBlockV::Grouping(
                Box::new((**e).view()),
            ),
            ExpressionWithoutBlock::Literal(l) => ExpressionWithoutBlockV::Literal(l.view()),
            ExpressionWithoutBlock::Unary { operator, right } => ExpressionWithoutBlockV::Unary {
                operator: operator.view(),
                right: Box::new((**right).view()),
            },
            ExpressionWithoutBlock::Variable(t) => ExpressionWithoutBlockV::Variable(t.view()),
            ExpressionWithoutBlock::Assignment { name, value, operator } => {
                ExpressionWithoutBlockV::Assignment {
                    name: name.view(),
                    value: Box::new((**value).view()),
                    operator: operator.view(),
                }
            },
            ExpressionWithoutBlock::Html { name, inner, attributes } => {
                ExpressionWithoutBlockV::Html {
                    name: name.view(),
                    inner: view_exprs(inner@),
                    attributes: view_expr_pairs(attributes@),
                }
            },
            ExpressionWithoutBlock::FString { chunks } => ExpressionWithoutBlockV::FString {
                chunks: view_chunks(chunks@),
            },
            ExpressionWithoutBlock::Array { elements } => ExpressionWithoutBlockV::Array {
                elements: view_exprs(elements@),
            },
            ExpressionWithoutBlock::Tuple { elements } => ExpressionWithoutBlockV::Tuple {
                elements: view_exprs(elements@),
            },
            ExpressionWithoutBlock::Struct { name, fields } => ExpressionWithoutBlockV::Struct {
                name: name.view(),
                fields: view_expr_pairs(fields@),
            },
            ExpressionWithoutBlock::RawJs(s) => ExpressionWithoutBlockV::RawJs(s@),
            ExpressionWithoutBlock::RawGo(s) => ExpressionWithoutBlockV::RawGo(s@),
        }
    }
}

impl View for ExpressionWithBlock {
    type V = ExpressionWithBlockV;

    open spec fn view(&self) -> ExpressionWithBlockV
        decreases self,
    {
        match self {
            ExpressionWithBlock::Block(b) => ExpressionWithBlockV::Block(Box::new((**b).view())),
            ExpressionWithBlock::If { expr, then, else_branch } => ExpressionWithBlockV::If {
                expr: Box::new((**expr).view()),
                then: Box::new((**then).view()),
                else_branch: match else_branch {
                    Option::Some(e) => Option::Some(Box::new((**e).view())),
                    Option::None => Option::None,
                },
            },
        }
    }
}

impl View for BlockExpression {
    type V = BlockExpressionV;

    open spec fn view(&self) -> BlockExpressionV
        decreases self,
    {
        BlockExpressionV {
            statements: view_stmts(self.statements@),
            expr: match self.expr {
                Option::Some(ref e) => Option::Some(e.view()),
                Option::None => Option::None,
            },
        }
    }
}

} // verus!
