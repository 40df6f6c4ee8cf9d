//! The script-style backend: it lowers the whole program into one
//! concatenated output text.
//!
//! As with the native backend, `compile` succeeds if and only if the
//! program uses only the shapes this backend implements, and on success
//! the produced text equals the mathematical rendering given by the
//! `js_*_text` functions.

use vstd::prelude::*;

use crate::codegen::literal_display;
use crate::codegen::literal_expr_text;
use crate::codegen::spec_literal_display;
use crate::codegen::spec_literal_expr_text;
use crate::codegen::CompileError;
use crate::expression::Expression;
use crate::expression::ExpressionWithBlock;
use crate::expression::ExpressionWithoutBlock;
use crate::expression::FStringChunk;
use crate::expression::LambdaParameter;
use crate::item::Item;
use crate::item::Parameter;
use crate::program::Module;
use crate::program::Program;
use crate::statement::Declaration;
use crate::statement::Statement;
use crate::strutil::join_strings;
use crate::strutil::spec_join;
use crate::strutil::str_eq;
use crate::token::Literal;
use crate::token::Token;
use crate::token::TokenType;

verus! {

use vstd::string::StringExecFns;

/// The test-harness runner emitted verbatim for a test-runner marker item.
pub open spec fn js_runtest_snippet() -> Seq<char> {
    "\n                function runTest(test, name) {\n                    process.stdout.write(`${name}...`);\n\n                    try {\n                        test();\n                        process.stdout.write(\" pass\\n\");\n                    } catch (err) {\n                        process.stdout.write(\" fail\\n\");\n                    }\n                }"@
}

/// The script-side spelling of an attribute name: one special case maps
/// the lower-case click handler to its camel-cased form.
pub open spec fn js_attr_name(n: Seq<char>) -> Seq<char> {
    if n == "onclick"@ {
        "onClick"@
    } else {
        n
    }
}

/// The rendered parameter names, in order (the script backend drops type
/// annotations).
pub open spec fn js_param_texts(ps: Seq<Parameter>) -> Seq<Seq<char>> {
    Seq::new(
        ps.len(),
        |i: int|
            if 0 <= i < ps.len() {
                ps[i].name@
            } else {
                arbitrary()
            },
    )
}

/// The rendered lambda parameter names, in order.
pub open spec fn js_lambda_param_texts(ps: Seq<LambdaParameter>) -> Seq<Seq<char>> {
    Seq::new(
        ps.len(),
        |i: int|
            if 0 <= i < ps.len() {
                ps[i].name@
            } else {
                arbitrary()
            },
    )
}

/// The template-literal piece of one interpolation chunk.
pub open spec fn js_chunk_text(c: FStringChunk) -> Seq<char> {
    match c {
        FStringChunk::Literal(s) => s@,
        FStringChunk::Identifier(s) => "${"@ + s@ + "}"@,
    }
}

/// The body of a template literal.
pub open spec fn js_format_body(chunks: Seq<FStringChunk>) -> Seq<char>
    decreases chunks.len(),
{
    if chunks.len() == 0 {
        Seq::empty()
    } else {
        js_chunk_text(chunks[0]) + js_format_body(chunks.drop_first())
    }
}

/// Whether every name token of a destructuring carries a value.
pub open spec fn js_decl_names_valued(ts: Seq<Token>) -> bool {
    forall|i: int| 0 <= i < ts.len() ==> (#[trigger] ts[i]).value is Some
}

/// The displayed names of a destructuring, in order.
pub open spec fn js_decl_name_texts(ts: Seq<Token>) -> Seq<Seq<char>> {
    Seq::new(
        ts.len(),
        |i: int|
            if 0 <= i < ts.len() {
                match ts[i].value {
                    Option::Some(l) => spec_literal_display(l),
                    Option::None => arbitrary(),
                }
            } else {
                arbitrary()
            },
    )
}

/// Whether the backend implements this expression.
pub open spec fn js_expression_supported(e: Expression) -> bool
    decreases e, 1int,
{
    match e {
        Expression::WithBlock(eb) => js_ewb_supported(eb),
        Expression::WithoutBlock(eb) => js_ewob_supported(eb),
    }
}

/// Whether the backend implements every expression of the sequence.
pub open spec fn js_expressions_supported(es: Seq<Expression>) -> bool
    decreases es, 2int,
{
    forall|i: int| 0 <= i < es.len() ==> js_expression_supported(#[trigger] es[i])
}

/// Whether the backend implements every statement of the sequence.
pub open spec fn js_statements_supported(ss: Seq<Statement>) -> bool
    decreases ss, 2int,
{
    forall|i: int| 0 <= i < ss.len() ==> js_statement_supported(#[trigger] ss[i])
}

/// Whether the backend implements this block-ended expression.
pub open spec fn js_ewb_supported(e: ExpressionWithBlock) -> bool
    decreases e, 3int,
{
    match e {
        ExpressionWithBlock::Block(b) => js_statements_supported((*b).statements@),
        ExpressionWithBlock::If { expr, then, else_branch } => js_expression_supported(*expr)
            && js_statements_supported((*then).statements@) && (match else_branch {
            Option::Some(eb) => js_ewb_supported(*eb),
            Option::None => true,
        }),
    }
}

/// Whether the backend implements this let statement.
pub open spec fn js_let_supported(declaration: Declaration, expression: Expression) -> bool
    decreases expression, 5int,
{
    let decl_ok = match declaration {
        Declaration::Name(t) => t.value is Some,
        Declaration::Array(ts) => js_decl_names_valued(ts@),
        Declaration::Tuple(ts) => js_decl_names_valued(ts@),
    };
    decl_ok && (match expression {
        Expression::WithoutBlock(e) => js_ewob_supported(e),
        Expression::WithBlock(ExpressionWithBlock::Block(b)) => js_statements_supported(
            (*b).statements@,
        ) && (match (*b).expr {
            Option::Some(e2) => js_ewob_supported(e2),
            Option::None => true,
        }),
        Expression::WithBlock(ExpressionWithBlock::If { .. }) => false,
    })
}

/// Whether the backend implements this statement.
pub open spec fn js_statement_supported(s: Statement) -> bool
    decreases s, 3int,
{
    match s {
        Statement::Print(e) => js_expression_supported(e),
        Statement::Expression(e) => js_expression_supported(e),
        Statement::Let { declaration, expression, .. } => js_let_supported(
            declaration,
            expression,
        ),
        Statement::AssertEq(l, r) => js_expression_supported(l) && js_expression_supported(r),
        Statement::RunTest { test_name, function_name } => (test_name.value matches Option::Some(
            Literal::String(_),
        )) && js_expression_supported(*function_name),
    }
}

/// Whether the backend implements every attribute value.
pub open spec fn js_attrs_supported(attrs: Seq<(Token, Expression)>) -> bool
    decreases attrs, 2int,
{
    forall|i: int| 0 <= i < attrs.len() ==> js_expression_supported((#[trigger] attrs[i]).1)
}

/// Whether the backend implements every struct-literal field value.
pub open spec fn js_fields_supported(fields: Seq<(Token, Expression)>) -> bool
    decreases fields, 2int,
{
    forall|i: int| 0 <= i < fields.len() ==> js_expression_supported((#[trigger] fields[i]).1)
}

/// Whether the backend implements this block-free expression.
pub open spec fn js_ewob_supported(e: ExpressionWithoutBlock) -> bool
    decreases e, 3int,
{
    match e {
        ExpressionWithoutBlock::Binary { left, right, .. } => js_ewob_supported(*left)
            && js_ewob_supported(*right),
        ExpressionWithoutBlock::Call { callee, arguments } => js_ewob_supported(*callee)
            && js_expressions_supported(arguments@),
        ExpressionWithoutBlock::Index { callee, index } => js_ewob_supported(*callee)
            && js_expression_supported(*index),
        ExpressionWithoutBlock::Field { callee, .. } => js_ewob_supported(*callee),
        ExpressionWithoutBlock::Lambda { body, .. } => match *body {
            Expression::WithoutBlock(inner) => js_ewob_supported(inner),
            Expression::WithBlock(_) => false,
        },
        ExpressionWithoutBlock::Grouping(inner) => js_ewob_supported(*inner),
        ExpressionWithoutBlock::Literal(_) => true,
        ExpressionWithoutBlock::Unary { .. } => false,
        ExpressionWithoutBlock::Variable(t) => t.value is Some,
        ExpressionWithoutBlock::Assignment { value, operator, .. } => (operator.token_type
            == TokenType::Equal || operator.token_type == TokenType::PlusEqual)
            && js_ewob_supported(*value),
        ExpressionWithoutBlock::Html { inner, attributes, .. } => js_expressions_supported(inner@)
            && js_attrs_supported(attributes@),
        ExpressionWithoutBlock::FString { .. } => true,
        ExpressionWithoutBlock::Array { elements } => js_expressions_supported(elements@),
        ExpressionWithoutBlock::Tuple { elements } => js_expressions_supported(elements@),
        ExpressionWithoutBlock::Struct { fields, .. } => js_fields_supported(fields@),
        ExpressionWithoutBlock::RawJs(_) => true,
        ExpressionWithoutBlock::RawGo(_) => true,
    }
}

/// The rendered text of an expression (meaningful only where supported).
pub open spec fn js_expression_text(e: Expression) -> Seq<char>
    decreases e, 1int,
{
    match e {
        Expression::WithBlock(eb) => js_ewb_text(eb),
        Expression::WithoutBlock(eb) => js_ewob_text(eb),
    }
}

/// The rendered texts of a sequence of expressions.
pub open spec fn js_expression_texts(es: Seq<Expression>) -> Seq<Seq<char>>
    decreases es, 2int,
{
    Seq::new(
        es.len(),
        |i: int|
            if 0 <= i < es.len() {
                js_expression_text(es[i])
            } else {
                arbitrary()
            },
    )
}

/// The rendered texts of a sequence of statements.
pub open spec fn js_statement_texts(ss: Seq<Statement>) -> Seq<Seq<char>>
    decreases ss, 2int,
{
    Seq::new(
        ss.len(),
        |i: int|
            if 0 <= i < ss.len() {
                js_statement_text(ss[i])
            } else {
                arbitrary()
            },
    )
}

/// The concatenated rendering of a statement sequence.
pub open spec fn js_statements_text(ss: Seq<Statement>) -> Seq<char>
    decreases ss, 3int,
{
    spec_join(js_statement_texts(ss), ""@)
}

/// The rendered text of a block-ended expression.
pub open spec fn js_ewb_text(e: ExpressionWithBlock) -> Seq<char>
    decreases e, 4int,
{
    match e {
        ExpressionWithBlock::Block(b) => js_statements_text((*b).statements@),
        ExpressionWithBlock::If { expr, then, else_branch } => {
            let head = "if ("@ + js_expression_text(*expr) + ") {\n"@ + js_statements_text(
                (*then).statements@,
            ) + "}"@;
            match else_branch {
                Option::Some(eb) => head + " else {\n"@ + js_ewb_text(*eb) + "}\n"@,
                Option::None => head,
            }
        },
    }
}

/// The rendered text of a let statement.
pub open spec fn js_let_text(declaration: Declaration, expression: Expression) -> Seq<char>
    decreases expression, 6int,
{
    let decl_str = "let "@ + (match declaration {
        Declaration::Name(t) => match t.value {
            Option::Some(l) => spec_literal_display(l),
            Option::None => arbitrary(),
        },
        Declaration::Array(ts) => "["@ + spec_join(js_decl_name_texts(ts@), ","@) + "]"@,
        Declaration::Tuple(ts) => "["@ + spec_join(js_decl_name_texts(ts@), ","@) + "]"@,
    }) + " ="@;
    match expression {
        Expression::WithoutBlock(e) => decl_str + " "@ + js_ewob_text(e) + ";\n"@,
        Expression::WithBlock(ExpressionWithBlock::Block(b)) => {
            let stmts = js_statements_text((*b).statements@);
            match (*b).expr {
                Option::Some(e2) => stmts + decl_str + " "@ + js_ewob_text(e2) + ";\n"@,
                Option::None => stmts,
            }
        },
        Expression::WithBlock(ExpressionWithBlock::If { .. }) => arbitrary(),
    }
}

/// The rendered text of a statement.
pub open spec fn js_statement_text(s: Statement) -> Seq<char>
    decreases s, 4int,
{
    match s {
        Statement::Print(e) => "console.log("@ + js_expression_text(e) + ");\n"@,
        Statement::Expression(e) => js_expression_text(e) + "\n"@,
        Statement::Let { declaration, expression, .. } => js_let_text(declaration, expression),
        Statement::AssertEq(l, r) => {
            let tl = js_expression_text(l);
            let tr = js_expression_text(r);
            "if ("@ + tl + " != "@ + tr + ") {\nthrow new Error(`"@ + tl + " != "@ + tr
                + "`);\n}\n"@
        },
        Statement::RunTest { test_name, function_name } => match test_name.value {
            Option::Some(Literal::String(n)) => "runTest("@ + js_expression_text(*function_name)
                + ", \""@ + n@ + "\")\n"@,
            _ => arbitrary(),
        },
    }
}

/// The rendered attribute pieces of a tag expression.
pub open spec fn js_attr_texts(attrs: Seq<(Token, Expression)>) -> Seq<Seq<char>>
    decreases attrs, 2int,
{
    Seq::new(
        attrs.len(),
        |i: int|
            if 0 <= i < attrs.len() {
                js_attr_name(attrs[i].0.lexeme@) + "={"@ + js_expression_text(attrs[i].1) + "}"@
            } else {
                arbitrary()
            },
    )
}

/// Whether a tag child is itself a tag (rendered raw rather than wrapped).
pub open spec fn js_child_is_tag(e: Expression) -> bool {
    e matches Expression::WithoutBlock(ExpressionWithoutBlock::Html { .. })
}

/// The rendered child pieces of a tag expression: nested tags stand raw,
/// computed children are wrapped so the runtime recognizes them.
pub open spec fn js_child_texts(inner: Seq<Expression>) -> Seq<Seq<char>>
    decreases inner, 2int,
{
    Seq::new(
        inner.len(),
        |i: int|
            if 0 <= i < inner.len() {
                if js_child_is_tag(inner[i]) {
                    js_expression_text(inner[i])
                } else {
                    "{"@ + js_expression_text(inner[i]) + "}"@
                }
            } else {
                arbitrary()
            },
    )
}

/// The rendered field pieces of a struct literal.
pub open spec fn js_field_texts(fields: Seq<(Token, Expression)>) -> Seq<Seq<char>>
    decreases fields, 2int,
{
    Seq::new(
        fields.len(),
        |i: int|
            if 0 <= i < fields.len() {
                fields[i].0.lexeme@ + ": "@ + js_expression_text(fields[i].1)
            } else {
                arbitrary()
            },
    )
}

/// The rendered text of a block-free expression.
pub open spec fn js_ewob_text(e: ExpressionWithoutBlock) -> Seq<char>
    decreases e, 4int,
{
    match e {
        ExpressionWithoutBlock::Binary { left, operator, right } => js_ewob_text(*left) + " "@
            + operator.lexeme@ + " "@ + js_ewob_text(*right),
        ExpressionWithoutBlock::Call { callee, arguments } => js_ewob_text(*callee) + "("@
            + spec_join(js_expression_texts(arguments@), ", "@) + ")"@,
        ExpressionWithoutBlock::Index { callee, index } => js_ewob_text(*callee) + "["@
            + js_expression_text(*index) + "]"@,
        ExpressionWithoutBlock::Field { callee, field } => js_ewob_text(*callee) + "."@
            + field.lexeme@,
        ExpressionWithoutBlock::Lambda { parameters, body } => {
            let body_text = match *body {
                Expression::WithoutBlock(inner) => js_ewob_text(inner),
                Expression::WithBlock(_) => arbitrary(),
            };
            "("@ + spec_join(js_lambda_param_texts(parameters@), ", "@) + ") => {\nreturn "@
                + body_text + ";\n}\n"@
        },
        ExpressionWithoutBlock::Grouping(inner) => "("@ + js_ewob_text(*inner) + ")"@,
        ExpressionWithoutBlock::Literal(l) => spec_literal_expr_text(l),
        ExpressionWithoutBlock::Unary { .. } => arbitrary(),
        ExpressionWithoutBlock::Variable(t) => match t.value {
            Option::Some(l) => spec_literal_display(l),
            Option::None => arbitrary(),
        },
        ExpressionWithoutBlock::Assignment { name, value, operator } => if operator.token_type
            == TokenType::Equal {
            name.lexeme@ + " = "@ + js_ewob_text(*value)
        } else if operator.token_type == TokenType::PlusEqual {
            name.lexeme@ + " += "@ + js_ewob_text(*value)
        } else {
            arbitrary()
        },
        ExpressionWithoutBlock::Html { name, inner, attributes } => "<"@ + name.lexeme@ + " "@
            + spec_join(js_attr_texts(attributes@), " "@) + ">"@ + spec_join(
            js_child_texts(inner@),
            "\n"@,
        ) + "</"@ + name.lexeme@ + ">"@,
        ExpressionWithoutBlock::FString { chunks } => "`"@ + js_format_body(chunks@) + "`"@,
        ExpressionWithoutBlock::Array { elements } => "["@ + spec_join(
            js_expression_texts(elements@),
            ", "@,
        ) + "]"@,
        ExpressionWithoutBlock::Tuple { elements } => "["@ + spec_join(
            js_expression_texts(elements@),
            ", "@,
        ) + "]"@,
        ExpressionWithoutBlock::Struct { fields, .. } => "{\n"@ + spec_join(
            js_field_texts(fields@),
            ",\n"@,
        ) + "}"@,
        ExpressionWithoutBlock::RawJs(code) => code@ + "\n"@,
        ExpressionWithoutBlock::RawGo(_) => Seq::empty(),
    }
}

/// Whether the backend implements this item.
pub open spec fn js_item_supported(item: Item) -> bool {
    match item {
        Item::Function { body, .. } => js_statements_supported(body.statements@) && (match body
            .expr {
            Option::Some(e) => js_ewob_supported(e),
            Option::None => true,
        }),
        Item::Component { body, .. } => js_statements_supported(body.statements@) && (match body
            .expr {
            Option::Some(e) => js_ewob_supported(e),
            Option::None => false,
        }),
        Item::Import { .. } => true,
        Item::TestRunner => true,
        Item::Struct { .. } => true,
    }
}

/// The rendered text of an item.
pub open spec fn js_item_text(item: Item) -> Seq<char> {
    match item {
        Item::Function { name, parameters, body, .. } => {
            let params = spec_join(js_param_texts(parameters@), ", "@);
            let stmts = js_statements_text(body.statements@);
            match body.expr {
                Option::Some(e) => "function "@ + name@ + "("@ + params + ") {\n"@ + stmts
                    + "\nreturn "@ + js_ewob_text(e) + "\n}\n"@,
                Option::None => "function "@ + name@ + "("@ + params + ") {\n"@ + stmts + "\n}\n"@,
            }
        },
        Item::Component { name, parameters, body } => {
            let params = spec_join(js_param_texts(parameters@), ", "@);
            let stmts = js_statements_text(body.statements@);
            match body.expr {
                Option::Some(e) => "function "@ + name@ + "("@ + params + ") {\n"@ + stmts
                    + "\n return ("@ + js_ewob_text(e) + ");\n}\n"@,
                Option::None => arbitrary(),
            }
        },
        Item::Import { .. } => Seq::empty(),
        Item::TestRunner => js_runtest_snippet(),
        Item::Struct { .. } => Seq::empty(),
    }
}

/// The rendered item texts of one module.
pub open spec fn js_item_texts(items: Seq<Item>) -> Seq<Seq<char>> {
    Seq::new(
        items.len(),
        |i: int|
            if 0 <= i < items.len() {
                js_item_text(items[i])
            } else {
                arbitrary()
            },
    )
}

/// Whether the backend implements every item of every module.
pub open spec fn js_program_supported(ms: Seq<Module>) -> bool {
    forall|i: int|
        0 <= i < ms.len() ==> (forall|j: int|
            0 <= j < (#[trigger] ms[i]).items@.len() ==> js_item_supported(
                #[trigger] ms[i].items@[j],
            ))
}

/// The concatenated item renderings of one module.
pub open spec fn js_module_text(m: Module) -> Seq<char> {
    spec_join(js_item_texts(m.items@), ""@)
}

/// The module texts of the program, in order.
pub open spec fn js_module_texts(ms: Seq<Module>) -> Seq<Seq<char>> {
    Seq::new(
        ms.len(),
        |i: int|
            if 0 <= i < ms.len() {
                js_module_text(ms[i])
            } else {
                arbitrary()
            },
    )
}

/// The whole generated program text (the surrounding bootstrap text is an
/// external asset a caller places around it).
pub open spec fn js_program_text(ms: Seq<Module>) -> Seq<char> {
    spec_join(js_module_texts(ms), ""@)
}

/// The script-style code generator.  It keeps no state between nodes.
pub struct JsTarget {}

impl JsTarget {
    pub fn new() -> (t: JsTarget) {
        JsTarget {  }
    }

    /// Lower a whole program into one concatenated text.  Succeeds exactly
    /// when every module uses only implemented shapes; the text then
    /// equals its mathematical rendering.
    #[verifier::loop_isolation(false)]
    pub fn compile(&mut self, program: &Program) -> (r: Result<String, CompileError>)
        ensures
            (r is Ok) == js_program_supported(program@),
            r matches Result::Ok(s) ==> s@ == js_program_text(program@),
    {
        let mut parts: Vec<String> = Vec::new();
        let n = program.len();
        let mut i: usize = 0;
        while i < n
            invariant
                n == program@.len(),
                i <= n,
                parts@.len() == i,
                forall|k: int|
                    0 <= k < i ==> (forall|j: int|
                        0 <= j < (#[trigger] program@[k]).items@.len() ==> js_item_supported(
                            #[trigger] program@[k].items@[j],
                        )),
                forall|k: int|
                    0 <= k < i ==> (#[trigger] parts@[k])@ == js_module_text(program@[k]),
            decreases n - i,
        {
            match self.compile_items(&program[i].items) {
                Result::Ok(s) => parts.push(s),
                Result::Err(e) => {
                    return Result::Err(e);
                },
            }
            i = i + 1;
        }
        let joined = join_strings(&parts, "");
        proof {
            assert(parts@.map_values(|s: String| s@) =~= js_module_texts(program@));
        }
        Result::Ok(joined)
    }

    /// Render every item of one module, concatenated.
    #[verifier::loop_isolation(false)]
    fn compile_items(&mut self, items: &Vec<Item>) -> (r: Result<String, CompileError>)
        ensures
            (r is Ok) == (forall|j: int|
                0 <= j < items@.len() ==> js_item_supported(#[trigger] items@[j])),
            r matches Result::Ok(s) ==> s@ == spec_join(js_item_texts(items@), ""@),
    {
        let mut parts: Vec<String> = Vec::new();
        let n = items.len();
        let mut i: usize = 0;
        while i < n
            invariant
                n == items@.len(),
                i <= n,
                parts@.len() == i,
                forall|k: int| 0 <= k < i ==> js_item_supported(#[trigger] items@[k]),
                forall|k: int|
                    0 <= k < i ==> (#[trigger] parts@[k])@ == js_item_text(items@[k]),
            decreases n - i,
        {
            match self.compile_item(&items[i]) {
                Result::Ok(s) => parts.push(s),
                Result::Err(e) => {
                    return Result::Err(e);
                },
            }
            i = i + 1;
        }
        let joined = join_strings(&parts, "");
        proof {
            assert(parts@.map_values(|s: String| s@) =~= js_item_texts(items@));
        }
        Result::Ok(joined)
    }

    /// Render one item.
    pub fn compile_item(&mut self, item: &Item) -> (r: Result<String, CompileError>)
        ensures
            (r is Ok) == js_item_supported(*item),
            r matches Result::Ok(s) ==> s@ == js_item_text(*item),
    {
        match item {
            Item::Function { name, parameters, body, .. } => {
                let params = compile_js_params(parameters);
                let stmts = match self.compile_statements(&body.statements) {
                    Result::Ok(s) => s,
                    Result::Err(e) => {
                        return Result::Err(e);
                    },
                };
                let mut out = String::from_str("function ");
                out.append(name.as_str());
                out.append("(");
                out.append(params.as_str());
                out.append(") {\n");
                out.append(stmts.as_str());
                match &body.expr {
                    Option::Some(e) => {
                        let tail = match self.compile_expression_without_block(e) {
                            Result::Ok(s) => s,
                            Result::Err(err) => {
                                return Result::Err(err);
                            },
                        };
                        out.append("\nreturn ");
                        out.append(tail.as_str());
                        out.append("\n}\n");
                    },
                    Option::None => {
                        out.append("\n}\n");
                    },
                }
                proof {
                    assert(out@ =~= js_item_text(*item));
                }
                Result::Ok(out)
            },
            Item::Component { name, parameters, body } => {
                let params = compile_js_params(parameters);
                let stmts = match self.compile_statements(&body.statements) {
                    Result::Ok(s) => s,
                    Result::Err(e) => {
                        return Result::Err(e);
                    },
                };
                match &body.expr {
                    Option::Some(e) => {
                        let tail = match self.compile_expression_without_block(e) {
                            Result::Ok(s) => s,
                            Result::Err(err) => {
                                return Result::Err(err);
                            },
                        };
                        let mut out = String::from_str("function ");
                        out.append(name.as_str());
                        out.append("(");
                        out.append(params.as_str());
                        out.append(") {\n");
                        out.append(stmts.as_str());
                        out.append("\n return (");
                        out.append(tail.as_str());
                        out.append(");\n}\n");
                        proof {
                            assert(out@ =~= js_item_text(*item));
                        }
                        Result::Ok(out)
                    },
                    Option::None => Result::Err(
                        CompileError::Unsupported(
                            String::from_str("a component must end in a renderable value"),
                        ),
                    ),
                }
            },
            Item::Import { .. } => Result::Ok(String::new()),
            Item::TestRunner => Result::Ok(
                String::from_str(
                    "\n                function runTest(test, name) {\n                    process.stdout.write(`${name}...`);\n\n                    try {\n                        test();\n                        process.stdout.write(\" pass\\n\");\n                    } catch (err) {\n                        process.stdout.write(\" fail\\n\");\n                    }\n                }",
                ),
            ),
            Item::Struct { .. } => Result::Ok(String::new()),
        }
    }

    /// Render a statement sequence, concatenated.
    #[verifier::loop_isolation(false)]
    fn compile_statements(&mut self, ss: &Vec<Statement>) -> (r: Result<String, CompileError>)
        ensures
            (r is Ok) == js_statements_supported(ss@),
            r matches Result::Ok(s) ==> s@ == js_statements_text(ss@),
        decreases ss@, 5int,
    {
        let mut parts: Vec<String> = Vec::new();
        let n = ss.len();
        let mut i: usize = 0;
        while i < n
            invariant
                n == ss@.len(),
                i <= n,
                parts@.len() == i,
                forall|k: int| 0 <= k < i ==> js_statement_supported(#[trigger] ss@[k]),
                forall|k: int|
                    0 <= k < i ==> (#[trigger] parts@[k])@ == js_statement_text(ss@[k]),
            decreases n - i,
        {
            match self.compile_statement(&ss[i]) {
                Result::Ok(s) => parts.push(s),
                Result::Err(e) => {
                    proof {
                        assert(!js_statement_supported(ss@[i as int]));
                        assert(!js_statements_supported(ss@));
                    }
                    return Result::Err(e);
                },
            }
            i = i + 1;
        }
        let joined = join_strings(&parts, "");
        proof {
            assert(parts@.map_values(|s: String| s@) =~= js_statement_texts(ss@));
        }
        Result::Ok(joined)
    }

    /// Render one statement.
    pub fn compile_statement(&mut self, s: &Statement) -> (r: Result<String, CompileError>)
        ensures
            (r is Ok) == js_statement_supported(*s),
            r matches Result::Ok(t) ==> t@ == js_statement_text(*s),
        decreases *s, 4int,
    {
        match s {
            Statement::Print(e) => {
                let inner = match self.compile_expression(e) {
                    Result::Ok(t) => t,
                    Result::Err(err) => {
                        return Result::Err(err);
                    },
                };
                let mut out = String::from_str("console.log(");
                out.append(inner.as_str());
                out.append(");\n");
                proof {
                    assert(out@ =~= js_statement_text(*s));
                }
                Result::Ok(out)
            },
            Statement::Expression(e) => {
                let inner = match self.compile_expression(e) {
                    Result::Ok(t) => t,
                    Result::Err(err) => {
                        return Result::Err(err);
                    },
                };
                let mut out = inner;
                out.append("\n");
                proof {
                    assert(out@ =~= js_statement_text(*s));
                }
                Result::Ok(out)
            },
            Statement::Let { declaration, expression, .. } => self.compile_let(
                declaration,
                expression,
            ),
            Statement::AssertEq(l, r) => {
                let tl = match self.compile_expression(l) {
                    Result::Ok(t) => t,
                    Result::Err(err) => {
                        return Result::Err(err);
                    },
                };
                let tr = match self.compile_expression(r) {
                    Result::Ok(t) => t,
                    Result::Err(err) => {
                        return Result::Err(err);
                    },
                };
                let mut out = String::from_str("if (");
                out.append(tl.as_str());
                out.append(" != ");
                out.append(tr.as_str());
                out.append(") {\nthrow new Error(`");
                out.append(tl.as_str());
                out.append(" != ");
                out.append(tr.as_str());
                out.append("`);\n}\n");
                proof {
                    assert(out@ =~= js_statement_text(*s));
                }
                Result::Ok(out)
            },
            Statement::RunTest { test_name, function_name } => {
                let label = match &test_name.value {
                    Option::Some(Literal::String(n)) => n.clone(),
                    _ => {
                        return Result::Err(
                            CompileError::Unsupported(
                                String::from_str("test name must be a string"),
                            ),
                        );
                    },
                };
                let callee = match self.compile_expression(function_name) {
                    Result::Ok(t) => t,
                    Result::Err(err) => {
                        return Result::Err(err);
                    },
                };
                let mut out = String::from_str("runTest(");
                out.append(callee.as_str());
                out.append(", \"");
                out.append(label.as_str());
                out.append("\")\n");
                proof {
                    assert(out@ =~= js_statement_text(*s));
                }
                Result::Ok(out)
            },
        }
    }

    /// Render a let statement.
    fn compile_let(&mut self, declaration: &Declaration, expression: &Expression) -> (r: Result<
        String,
        CompileError,
    >)
        ensures
            (r is Ok) == js_let_supported(*declaration, *expression),
            r matches Result::Ok(t) ==> t@ == js_let_text(*declaration, *expression),
        decreases *expression, 7int,
    {
        let mut decl_str = String::from_str("let ");
        match declaration {
            Declaration::Name(t) => {
                match &t.value {
                    Option::Some(l) => {
                        let d = literal_display(l);
                        decl_str.append(d.as_str());
                    },
                    Option::None => {
                        return Result::Err(
                            CompileError::Unsupported(
                                String::from_str("binding name carries no value"),
                            ),
                        );
                    },
                }
            },
            Declaration::Array(ts) => {
                let names = match compile_js_decl_names(ts) {
                    Result::Ok(v) => v,
                    Result::Err(e) => {
                        return Result::Err(e);
                    },
                };
                let joined = join_strings(&names, ",");
                decl_str.append("[");
                decl_str.append(joined.as_str());
                decl_str.append("]");
            },
            Declaration::Tuple(ts) => {
                let names = match compile_js_decl_names(ts) {
                    Result::Ok(v) => v,
                    Result::Err(e) => {
                        return Result::Err(e);
                    },
                };
                let joined = join_strings(&names, ",");
                decl_str.append("[");
                decl_str.append(joined.as_str());
                decl_str.append("]");
            },
        }
        decl_str.append(" =");
        match expression {
            Expression::WithoutBlock(e) => {
                let inner = match self.compile_expression_without_block(e) {
                    Result::Ok(t) => t,
                    Result::Err(err) => {
                        return Result::Err(err);
                    },
                };
                let mut out = decl_str;
                out.append(" ");
                out.append(inner.as_str());
                out.append(";\n");
                proof {
                    assert(out@ =~= js_let_text(*declaration, *expression));
                }
                Result::Ok(out)
            },
            Expression::WithBlock(ExpressionWithBlock::Block(b)) => {
                let stmts = match self.compile_statements(&b.statements) {
                    Result::Ok(t) => t,
                    Result::Err(err) => {
                        return Result::Err(err);
                    },
                };
                match &b.expr {
                    Option::Some(e2) => {
                        let inner = match self.compile_expression_without_block(e2) {
                            Result::Ok(t) => t,
                            Result::Err(err) => {
                                return Result::Err(err);
                            },
                        };
                        let mut out = stmts;
                        out.append(decl_str.as_str());
                        out.append(" ");
                        out.append(inner.as_str());
                        out.append(";\n");
                        proof {
                            assert(out@ =~= js_let_text(*declaration, *expression));
                        }
                        Result::Ok(out)
                    },
                    Option::None => Result::Ok(stmts),
                }
            },
            Expression::WithBlock(ExpressionWithBlock::If { .. }) => Result::Err(
                CompileError::Unsupported(
                    String::from_str("an if expression cannot initialize a binding"),
                ),
            ),
        }
    }

    /// Render any expression.
    pub fn compile_expression(&mut self, e: &Expression) -> (r: Result<String, CompileError>)
        ensures
            (r is Ok) == js_expression_supported(*e),
            r matches Result::Ok(t) ==> t@ == js_expression_text(*e),
        decreases *e, 1int,
    {
        match e {
            Expression::WithBlock(eb) => self.compile_expression_with_block(eb),
            Expression::WithoutBlock(eb) => self.compile_expression_without_block(eb),
        }
    }

    /// Render a block-ended expression.
    pub fn compile_expression_with_block(&mut self, e: &ExpressionWithBlock) -> (r: Result<
        String,
        CompileError,
    >)
        ensures
            (r is Ok) == js_ewb_supported(*e),
            r matches Result::Ok(t) ==> t@ == js_ewb_text(*e),
        decreases *e, 4int,
    {
        match e {
            ExpressionWithBlock::Block(b) => self.compile_statements(&b.statements),
            ExpressionWithBlock::If { expr, then, else_branch } => {
                let cond = match self.compile_expression(expr) {
                    Result::Ok(t) => t,
                    Result::Err(err) => {
                        return Result::Err(err);
                    },
                };
                let stmts = match self.compile_statements(&then.statements) {
                    Result::Ok(t) => t,
                    Result::Err(err) => {
                        return Result::Err(err);
                    },
                };
                let mut out = String::from_str("if (");
                out.append(cond.as_str());
                out.append(") {\n");
                out.append(stmts.as_str());
                out.append("}");
                match else_branch {
                    Option::Some(eb) => {
                        let tail = match self.compile_expression_with_block(eb) {
                            Result::Ok(t) => t,
                            Result::Err(err) => {
                                return Result::Err(err);
                            },
                        };
                        out.append(" else {\n");
                        out.append(tail.as_str());
                        out.append("}\n");
                    },
                    Option::None => {},
                }
                proof {
                    assert(out@ =~= js_ewb_text(*e));
                }
                Result::Ok(out)
            },
        }
    }

    /// Render every expression of a sequence.
    #[verifier::loop_isolation(false)]
    fn compile_expressions(&mut self, es: &Vec<Expression>) -> (r: Result<
        Vec<String>,
        CompileError,
    >)
        ensures
            (r is Ok) == js_expressions_supported(es@),
            r matches Result::Ok(parts) ==> parts@.map_values(|s: String| s@)
                == js_expression_texts(es@),
        decreases es@, 2int,
    {
        let mut parts: Vec<String> = Vec::new();
        let n = es.len();
        let mut i: usize = 0;
        while i < n
            invariant
                n == es@.len(),
                i <= n,
                parts@.len() == i,
                forall|k: int| 0 <= k < i ==> js_expression_supported(#[trigger] es@[k]),
                forall|k: int|
                    0 <= k < i ==> (#[trigger] parts@[k])@ == js_expression_text(es@[k]),
            decreases n - i,
        {
            match self.compile_expression(&es[i]) {
                Result::Ok(s) => parts.push(s),
                Result::Err(e) => {
                    proof {
                        assert(!js_expression_supported(es@[i as int]));
                        assert(!js_expressions_supported(es@));
                    }
                    return Result::Err(e);
                },
            }
            i = i + 1;
        }
        proof {
            assert(parts@.map_values(|s: String| s@) =~= js_expression_texts(es@));
        }
        Result::Ok(parts)
    }

    /// Render a block-free expression.
    #[verifier::rlimit(100)]
    #[verifier::loop_isolation(false)]
    pub fn compile_expression_without_block(&mut self, e: &ExpressionWithoutBlock) -> (r: Result<
        String,
        CompileError,
    >)
        ensures
            (r is Ok) == js_ewob_supported(*e),
            r matches Result::Ok(t) ==> t@ == js_ewob_text(*e),
        decreases *e, 4int,
    {
        match e {
            ExpressionWithoutBlock::Binary { left, operator, right } => {
                let tl = match self.compile_expression_without_block(left) {
                    Result::Ok(t) => t,
                    Result::Err(err) => {
                        return Result::Err(err);
                    },
                };
                let tr = match self.compile_expression_without_block(right) {
                    Result::Ok(t) => t,
                    Result::Err(err) => {
                        return Result::Err(err);
                    },
                };
                let mut out = tl;
                out.append(" ");
                out.append(operator.lexeme.as_str());
                out.append(" ");
                out.append(tr.as_str());
                proof {
                    assert(out@ =~= js_ewob_text(*e));
                }
                Result::Ok(out)
            },
            ExpressionWithoutBlock::Call { callee, arguments } => {
                let tc = match self.compile_expression_without_block(callee) {
                    Result::Ok(t) => t,
                    Result::Err(err) => {
                        return Result::Err(err);
                    },
                };
                let parts = match self.compile_expressions(arguments) {
                    Result::Ok(p) => p,
                    Result::Err(err) => {
                        return Result::Err(err);
                    },
                };
                let args = join_strings(&parts, ", ");
                let mut out = tc;
                out.append("(");
                out.append(args.as_str());
                out.append(")");
                proof {
                    assert(out@ =~= js_ewob_text(*e));
                }
                Result::Ok(out)
            },
            ExpressionWithoutBlock::Index { callee, index } => {
                let tc = match self.compile_expression_without_block(callee) {
                    Result::Ok(t) => t,
                    Result::Err(err) => {
                        return Result::Err(err);
                    },
                };
                let ti = match self.compile_expression(index) {
                    Result::Ok(t) => t,
                    Result::Err(err) => {
                        return Result::Err(err);
                    },
                };
                let mut out = tc;
                out.append("[");
                out.append(ti.as_str());
                out.append("]");
                proof {
                    assert(out@ =~= js_ewob_text(*e));
                }
                Result::Ok(out)
            },
            ExpressionWithoutBlock::Field { callee, field } => {
                let tc = match self.compile_expression_without_block(callee) {
                    Result::Ok(t) => t,
                    Result::Err(err) => {
                        return Result::Err(err);
                    },
                };
                let mut out = tc;
                out.append(".");
                out.append(field.lexeme.as_str());
                proof {
                    assert(out@ =~= js_ewob_text(*e));
                }
                Result::Ok(out)
            },
            ExpressionWithoutBlock::Lambda { parameters, body } => {
                let params = compile_js_lambda_params(parameters);
                let body_text = match &**body {
                    Expression::WithoutBlock(inner) => {
                        match self.compile_expression_without_block(inner) {
                            Result::Ok(t) => t,
                            Result::Err(err) => {
                                return Result::Err(err);
                            },
                        }
                    },
                    Expression::WithBlock(_) => {
                        return Result::Err(
                            CompileError::Unsupported(
                                String::from_str("a lambda body must be a plain expression"),
                            ),
                        );
                    },
                };
                let mut out = String::from_str("(");
                out.append(params.as_str());
                out.append(") => {\nreturn ");
                out.append(body_text.as_str());
                out.append(";\n}\n");
                proof {
                    assert(out@ =~= js_ewob_text(*e));
                }
                Result::Ok(out)
            },
            ExpressionWithoutBlock::Grouping(inner) => {
                let ti = match self.compile_expression_without_block(inner) {
                    Result::Ok(t) => t,
                    Result::Err(err) => {
                        return Result::Err(err);
                    },
                };
                let mut out = String::from_str("(");
                out.append(ti.as_str());
                out.append(")");
                proof {
                    assert(out@ =~= js_ewob_text(*e));
                }
                Result::Ok(out)
            },
            ExpressionWithoutBlock::Literal(l) => Result::Ok(literal_expr_text(l)),
            ExpressionWithoutBlock::Unary { .. } => Result::Err(
                CompileError::Unsupported(
                    String::from_str("unary operators have no script-backend rendering"),
                ),
            ),
            ExpressionWithoutBlock::Variable(t) => match &t.value {
                Option::Some(l) => Result::Ok(literal_display(l)),
                Option::None => Result::Err(
                    CompileError::Unsupported(
                        String::from_str("variable token carries no value"),
                    ),
                ),
            },
            ExpressionWithoutBlock::Assignment { name, value, operator } => {
                let op: &str = if operator.token_type == TokenType::Equal {
                    " = "
                } else if operator.token_type == TokenType::PlusEqual {
                    " += "
                } else {
                    return Result::Err(
                        CompileError::Unsupported(
                            String::from_str("unexpected assignment operator"),
                        ),
                    );
                };
                let tv = match self.compile_expression_without_block(value) {
                    Result::Ok(t) => t,
                    Result::Err(err) => {
                        return Result::Err(err);
                    },
                };
                let mut out = name.lexeme.clone();
                out.append(op);
                out.append(tv.as_str());
                proof {
                    assert(out@ =~= js_ewob_text(*e));
                }
                Result::Ok(out)
            },
            ExpressionWithoutBlock::Html { .. } => self.compile_html_tag(e),
            ExpressionWithoutBlock::FString { chunks } => {
                let body = compile_js_format_body(chunks);
                let mut out = String::from_str("`");
                out.append(body.as_str());
                out.append("`");
                proof {
                    assert(out@ =~= js_ewob_text(*e));
                }
                Result::Ok(out)
            },
            ExpressionWithoutBlock::Array { elements } => {
                let parts = match self.compile_expressions(elements) {
                    Result::Ok(p) => p,
                    Result::Err(err) => {
                        return Result::Err(err);
                    },
                };
                let elems = join_strings(&parts, ", ");
                let mut out = String::from_str("[");
                out.append(elems.as_str());
                out.append("]");
                proof {
                    assert(out@ =~= js_ewob_text(*e));
                }
                Result::Ok(out)
            },
            ExpressionWithoutBlock::Tuple { elements } => {
                let parts = match self.compile_expressions(elements) {
                    Result::Ok(p) => p,
                    Result::Err(err) => {
                        return Result::Err(err);
                    },
                };
                let elems = join_strings(&parts, ", ");
                let mut out = String::from_str("[");
                out.append(elems.as_str());
                out.append("]");
                proof {
                    assert(out@ =~= js_ewob_text(*e));
                }
                Result::Ok(out)
            },
            ExpressionWithoutBlock::Struct { .. } => self.compile_struct_literal(e),
            ExpressionWithoutBlock::RawJs(code) => {
                let mut out = code.clone();
                out.append("\n");
                proof {
                    assert(out@ =~= js_ewob_text(*e));
                }
                Result::Ok(out)
            },
            ExpressionWithoutBlock::RawGo(_) => Result::Ok(String::new()),
        }
    }

    /// Render a tag expression: attributes, then children (nested tags
    /// raw, computed children wrapped), inside matching opening and
    /// closing tags.
    #[verifier::loop_isolation(false)]
    fn compile_html_tag(&mut self, e: &ExpressionWithoutBlock) -> (r: Result<String, CompileError>)
        requires
            *e matches ExpressionWithoutBlock::Html { .. },
        ensures
            (r is Ok) == js_ewob_supported(*e),
            r matches Result::Ok(t) ==> t@ == js_ewob_text(*e),
        decreases *e, 3int,
    {
        match e {
            ExpressionWithoutBlock::Html { name, inner, attributes } => {
                let mut attr_parts: Vec<String> = Vec::new();
                let n_attrs = attributes.len();
                let mut i: usize = 0;
                while i < n_attrs
                    invariant
                        n_attrs == attributes@.len(),
                        i <= n_attrs,
                        attr_parts@.len() == i,
                        forall|k: int|
                            0 <= k < i ==> js_expression_supported(
                                (#[trigger] attributes@[k]).1,
                            ),
                        forall|k: int|
                            0 <= k < i ==> (#[trigger] attr_parts@[k])@ == js_attr_texts(
                                attributes@,
                            )[k],
                    decreases n_attrs - i,
                {
                    proof {
                        assert(decreases_to!(*e => (*e)->Html_attributes));
                        assert(decreases_to!((*e)->Html_attributes => (*e)->Html_attributes@));
                        assert(decreases_to!((*e)->Html_attributes@ => (*e)->Html_attributes@[
                            i as int
                        ]));
                        assert(decreases_to!((*e)->Html_attributes@[i as int] => (*e)
                            ->Html_attributes@[i as int].1));
                    }
                    let value_text = match self.compile_expression(&attributes[i].1) {
                        Result::Ok(t) => t,
                        Result::Err(err) => {
                            proof {
                                assert(!js_expression_supported(attributes@[i as int].1));
                                assert(!js_attrs_supported(attributes@));
                            }
                            return Result::Err(err);
                        },
                    };
                    let mut part = if str_eq(attributes[i].0.lexeme.as_str(), "onclick") {
                        String::from_str("onClick")
                    } else {
                        attributes[i].0.lexeme.clone()
                    };
                    part.append("={");
                    part.append(value_text.as_str());
                    part.append("}");
                    attr_parts.push(part);
                    i = i + 1;
                }
                let attrs_joined = join_strings(&attr_parts, " ");
                proof {
                    assert(attr_parts@.map_values(|s: String| s@) =~= js_attr_texts(attributes@));
                }
                let mut child_parts: Vec<String> = Vec::new();
                let n_inner = inner.len();
                let mut j: usize = 0;
                while j < n_inner
                    invariant
                        n_inner == inner@.len(),
                        j <= n_inner,
                        child_parts@.len() == j,
                        forall|k: int|
                            0 <= k < j ==> js_expression_supported(#[trigger] inner@[k]),
                        forall|k: int|
                            0 <= k < j ==> (#[trigger] child_parts@[k])@ == js_child_texts(
                                inner@,
                            )[k],
                    decreases n_inner - j,
                {
                    proof {
                        assert(decreases_to!(*e => (*e)->Html_inner));
                        assert(decreases_to!((*e)->Html_inner => (*e)->Html_inner@));
                        assert(decreases_to!((*e)->Html_inner@ => (*e)->Html_inner@[j as int]));
                    }
                    let child_text = match self.compile_expression(&inner[j]) {
                        Result::Ok(t) => t,
                        Result::Err(err) => {
                            proof {
                                assert(!js_expression_supported(inner@[j as int]));
                                assert(!js_expressions_supported(inner@));
                            }
                            return Result::Err(err);
                        },
                    };
                    let is_tag = match &inner[j] {
                        Expression::WithoutBlock(ExpressionWithoutBlock::Html { .. }) => true,
                        _ => false,
                    };
                    if is_tag {
                        child_parts.push(child_text);
                    } else {
                        let mut wrapped = String::from_str("{");
                        wrapped.append(child_text.as_str());
                        wrapped.append("}");
                        child_parts.push(wrapped);
                    }
                    j = j + 1;
                }
                let children_joined = join_strings(&child_parts, "\n");
                proof {
                    assert(child_parts@.map_values(|s: String| s@) =~= js_child_texts(inner@));
                }
                let mut out = String::from_str("<");
                out.append(name.lexeme.as_str());
                out.append(" ");
                out.append(attrs_joined.as_str());
                out.append(">");
                out.append(children_joined.as_str());
                out.append("</");
                out.append(name.lexeme.as_str());
                out.append(">");
                proof {
                    assert(js_expressions_supported(inner@));
                    assert(js_attrs_supported(attributes@));
                    assert(js_ewob_supported(*e));
                    assert(out@ =~= js_ewob_text(*e));
                }
                Result::Ok(out)
            },
            _ => {
                proof {
                    assert(false);
                }
                Result::Err(CompileError::Unsupported(String::new()))
            },
        }
    }

    /// Render a struct literal as a keyed record.
    #[verifier::loop_isolation(false)]
    fn compile_struct_literal(&mut self, e: &ExpressionWithoutBlock) -> (r: Result<
        String,
        CompileError,
    >)
        requires
            *e matches ExpressionWithoutBlock::Struct { .. },
        ensures
            (r is Ok) == js_ewob_supported(*e),
            r matches Result::Ok(t) ==> t@ == js_ewob_text(*e),
        decreases *e, 3int,
    {
        match e {
            ExpressionWithoutBlock::Struct { fields, .. } => {
                let mut field_parts: Vec<String> = Vec::new();
                let n = fields.len();
                let mut i: usize = 0;
                while i < n
                    invariant
                        n == fields@.len(),
                        i <= n,
                        field_parts@.len() == i,
                        forall|k: int|
                            0 <= k < i ==> js_expression_supported((#[trigger] fields@[k]).1),
                        forall|k: int|
                            0 <= k < i ==> (#[trigger] field_parts@[k])@ == js_field_texts(
                                fields@,
                            )[k],
                    decreases n - i,
                {
                    proof {
                        assert(decreases_to!(*e => (*e)->Struct_fields));
                        assert(decreases_to!((*e)->Struct_fields => (*e)->Struct_fields@));
                        assert(decreases_to!((*e)->Struct_fields@ => (*e)->Struct_fields@[
                            i as int
                        ]));
                        assert(decreases_to!((*e)->Struct_fields@[i as int] => (*e)
                            ->Struct_fields@[i as int].1));
                    }
                    let value_text = match self.compile_expression(&fields[i].1) {
                        Result::Ok(t) => t,
                        Result::Err(err) => {
                            proof {
                                assert(!js_expression_supported(fields@[i as int].1));
                                assert(!js_fields_supported(fields@));
                            }
                            return Result::Err(err);
                        },
                    };
                    let mut part = fields[i].0.lexeme.clone();
                    part.append(": ");
                    part.append(value_text.as_str());
                    field_parts.push(part);
                    i = i + 1;
                }
                let joined = join_strings(&field_parts, ",\n");
                proof {
                    assert(field_parts@.map_values(|s: String| s@) =~= js_field_texts(fields@));
                }
                let mut out = String::from_str("{\n");
                out.append(joined.as_str());
                out.append("}");
                proof {
                    assert(js_fields_supported(fields@));
                    assert(js_ewob_supported(*e));
                    assert(out@ =~= js_ewob_text(*e));
                }
                Result::Ok(out)
            },
            _ => {
                proof {
                    assert(false);
                }
                Result::Err(CompileError::Unsupported(String::new()))
            },
        }
    }
}

/// Render a comma-separated list of parameter names.
fn compile_js_params(ps: &Vec<Parameter>) -> (r: String)
    ensures
        r@ == spec_join(js_param_texts(ps@), ", "@),
{
    let mut parts: Vec<String> = Vec::new();
    let n = ps.len();
    let mut i: usize = 0;
    while i < n
        invariant
            n == ps@.len(),
            i <= n,
            parts@.len() == i,
            forall|k: int| 0 <= k < i ==> (#[trigger] parts@[k])@ == ps@[k].name@,
        decreases n - i,
    {
        parts.push(ps[i].name.clone());
        i = i + 1;
    }
    proof {
        assert(parts@.map_values(|s: String| s@) =~= js_param_texts(ps@));
    }
    join_strings(&parts, ", ")
}

/// Render a comma-separated list of lambda parameter names.
fn compile_js_lambda_params(ps: &Vec<LambdaParameter>) -> (r: String)
    ensures
        r@ == spec_join(js_lambda_param_texts(ps@), ", "@),
{
    let mut parts: Vec<String> = Vec::new();
    let n = ps.len();
    let mut i: usize = 0;
    while i < n
        invariant
            n == ps@.len(),
            i <= n,
            parts@.len() == i,
            forall|k: int| 0 <= k < i ==> (#[trigger] parts@[k])@ == ps@[k].name@,
        decreases n - i,
    {
        parts.push(ps[i].name.clone());
        i = i + 1;
    }
    proof {
        assert(parts@.map_values(|s: String| s@) =~= js_lambda_param_texts(ps@));
    }
    join_strings(&parts, ", ")
}

/// Render the displayed names of a destructuring's tokens.
fn compile_js_decl_names(ts: &Vec<Token>) -> (r: Result<Vec<String>, CompileError>)
    ensures
        (r is Ok) == js_decl_names_valued(ts@),
        r matches Result::Ok(parts) ==> parts@.map_values(|s: String| s@) == js_decl_name_texts(
            ts@,
        ),
{
    let mut parts: Vec<String> = Vec::new();
    let n = ts.len();
    let mut i: usize = 0;
    while i < n
        invariant
            n == ts@.len(),
            i <= n,
            parts@.len() == i,
            forall|k: int| 0 <= k < i ==> (#[trigger] ts@[k]).value is Some,
            forall|k: int|
                0 <= k < i ==> (#[trigger] parts@[k])@ == js_decl_name_texts(ts@)[k],
        decreases n - i,
    {
        match &ts[i].value {
            Option::Some(l) => parts.push(literal_display(l)),
            Option::None => {
                return Result::Err(
                    CompileError::Unsupported(
                        String::from_str("binding name carries no value"),
                    ),
                );
            },
        }
        i = i + 1;
    }
    proof {
        assert(parts@.map_values(|s: String| s@) =~= js_decl_name_texts(ts@));
    }
    Result::Ok(parts)
}

/// Render the body of a template literal.
fn compile_js_format_body(chunks: &Vec<FStringChunk>) -> (r: String)
    ensures
        r@ == js_format_body(chunks@),
{
    let mut out = String::new();
    let n = chunks.len();
    let mut i: usize = 0;
    proof {
        assert(chunks@.subrange(0, n as int) =~= chunks@);
        assert(out@ + js_format_body(chunks@) =~= js_format_body(chunks@));
    }
    while i < n
        invariant
            n == chunks@.len(),
            i <= n,
            js_format_body(chunks@) == out@ + js_format_body(chunks@.subrange(i as int, n as int)),
        decreases n - i,
    {
        proof {
            assert(chunks@.subrange(i as int, n as int).drop_first() =~= chunks@.subrange(
                i + 1,
                n as int,
            ));
            assert(chunks@.subrange(i as int, n as int)[0] == chunks@[i as int]);
        }
        match &chunks[i] {
            FStringChunk::Literal(s) => out.append(s.as_str()),
            FStringChunk::Identifier(s) => {
                out.append("${");
                out.append(s.as_str());
                out.append("}");
            },
        }
        proof {
            assert(js_format_body(chunks@) =~= out@ + js_format_body(
                chunks@.subrange(i + 1, n as int),
            ));
        }
        i = i + 1;
    }
    proof {
        assert(chunks@.subrange(n as int, n as int) =~= Seq::<FStringChunk>::empty());
        assert(js_format_body(chunks@) =~= out@ + js_format_body(
            chunks@.subrange(n as int, n as int),
        ));
    }
    out
}

} // verus!
