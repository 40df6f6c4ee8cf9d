//! The native-style backend: it lowers each module to one output file of
//! Go-flavoured source text.
//!
//! Every rendering function is specified exactly: `compile` succeeds if and
//! only if the program uses only the shapes this backend implements, and on
//! success the produced text equals the mathematical rendering given by the
//! `go_*_text` functions.  Unimplemented shapes are a hard stop, never a
//! silent miscompilation.

use vstd::prelude::*;

use crate::codegen::literal_display;
use crate::codegen::literal_expr_text;
use crate::codegen::spec_literal_display;
use crate::codegen::spec_literal_expr_text;
use crate::codegen::CompileError;
use crate::codegen::ModuleOutput;
use crate::expression::BlockExpression;
use crate::expression::Expression;
use crate::expression::ExpressionWithBlock;
use crate::expression::ExpressionWithoutBlock;
use crate::expression::FStringChunk;
use crate::expression::LambdaParameter;
use crate::item::Item;
use crate::item::Parameter;
use crate::program::Module;
use crate::program::Program;
use crate::statement::Declaration;
use crate::statement::Statement;
use crate::strutil::contains_sub;
use crate::strutil::join_strings;
use crate::strutil::spec_contains_sub;
use crate::strutil::spec_decimal;
use crate::strutil::spec_join;
use crate::strutil::strip_newlines;
use crate::strutil::str_eq;
use crate::strutil::usize_to_string;
use crate::strutil::without_newlines;
use crate::token::Literal;
use crate::token::Token;
use crate::token::TokenType;

verus! {

use vstd::string::StringExecFns;

/// The test-harness runner emitted verbatim for a test-runner marker item.
pub open spec fn go_runtest_snippet() -> Seq<char> {
    "\n                func runTest(test func(), name string) {\n                    defer func() {\n                        if err := recover(); err != nil {\n                            fmt.Print(\" fail\\n\")\n                        }\n                    }()\n\n                    fmt.Printf(\"%s...\", name)\n                    test()\n                    fmt.Print(\" pass\\n\")\n                }\n                "@
}

/// The Go spelling of a parameter type annotation.
pub open spec fn go_param_type_name(t: Seq<char>) -> Seq<char> {
    if t == "int"@ {
        "int"@
    } else if t == "str"@ {
        "string"@
    } else {
        t
    }
}

/// The Go spelling of a return type annotation.
pub open spec fn go_return_type_name(rt: Option<String>) -> Seq<char> {
    match rt {
        Option::Some(t) => if t@ == "int"@ {
            "int"@
        } else if t@ == "str"@ {
            "string"@
        } else if t@ == "void"@ {
            ""@
        } else {
            t@
        },
        Option::None => ""@,
    }
}

/// One rendered parameter: `name type`.
pub open spec fn go_param_text(p: Parameter) -> Seq<char> {
    p.name@ + " "@ + go_param_type_name(p.type_annotation@)
}

/// The rendered parameters, in order.
pub open spec fn go_param_texts(ps: Seq<Parameter>) -> Seq<Seq<char>> {
    Seq::new(
        ps.len(),
        |i: int|
            if 0 <= i < ps.len() {
                go_param_text(ps[i])
            } else {
                arbitrary()
            },
    )
}

/// The parameter list, comma separated.
pub open spec fn go_params_text(ps: Seq<Parameter>) -> Seq<char> {
    spec_join(go_param_texts(ps), ", "@)
}

/// One rendered lambda parameter; a missing annotation defaults to `int`.
pub open spec fn go_lambda_param_text(p: LambdaParameter) -> Seq<char> {
    p.name@ + " "@ + (match p.type_annotation {
        Option::Some(t) => go_param_type_name(t@),
        Option::None => "int"@,
    })
}

/// The rendered lambda parameters, in order.
pub open spec fn go_lambda_param_texts(ps: Seq<LambdaParameter>) -> Seq<Seq<char>> {
    Seq::new(
        ps.len(),
        |i: int|
            if 0 <= i < ps.len() {
                go_lambda_param_text(ps[i])
            } else {
                arbitrary()
            },
    )
}

/// The format-string piece of one interpolation chunk: literal text stands
/// as is, an identifier becomes a `%v` verb.
pub open spec fn go_chunk_format(c: FStringChunk) -> Seq<char> {
    match c {
        FStringChunk::Literal(s) => s@,
        FStringChunk::Identifier(_) => "%v"@,
    }
}

/// The whole format string of an interpolated string.
pub open spec fn go_format_string(chunks: Seq<FStringChunk>) -> Seq<char>
    decreases chunks.len(),
{
    if chunks.len() == 0 {
        Seq::empty()
    } else {
        go_chunk_format(chunks[0]) + go_format_string(chunks.drop_first())
    }
}

/// The interpolated identifiers, in order.
pub open spec fn go_format_args(chunks: Seq<FStringChunk>) -> Seq<Seq<char>>
    decreases chunks.len(),
{
    if chunks.len() == 0 {
        Seq::empty()
    } else {
        let rest = go_format_args(chunks.drop_first());
        match chunks[0] {
            FStringChunk::Identifier(s) => seq![s@] + rest,
            FStringChunk::Literal(_) => rest,
        }
    }
}

/// Whether the backend implements this expression.
pub open spec fn go_expression_supported(e: Expression) -> bool
    decreases e, 1int,
{
    match e {
        Expression::WithBlock(eb) => go_ewb_supported(eb),
        Expression::WithoutBlock(eb) => go_ewob_supported(eb),
    }
}

/// Whether the backend implements every expression of the sequence.
pub open spec fn go_expressions_supported(es: Seq<Expression>) -> bool
    decreases es, 2int,
{
    forall|i: int| 0 <= i < es.len() ==> go_expression_supported(#[trigger] es[i])
}

/// Whether the backend implements every statement of the sequence.
pub open spec fn go_statements_supported(ss: Seq<Statement>) -> bool
    decreases ss, 2int,
{
    forall|i: int| 0 <= i < ss.len() ==> go_statement_supported(#[trigger] ss[i])
}

/// Whether the backend implements this block-ended expression.  A block in
/// expression position contributes only its statements; its tail value is
/// discarded unread.
pub open spec fn go_ewb_supported(e: ExpressionWithBlock) -> bool
    decreases e, 3int,
{
    match e {
        ExpressionWithBlock::Block(b) => go_statements_supported((*b).statements@),
        ExpressionWithBlock::If { expr, then, else_branch } => go_expression_supported(*expr)
            && go_statements_supported((*then).statements@) && (match else_branch {
            Option::Some(eb) => go_ewb_supported(*eb),
            Option::None => true,
        }),
    }
}

/// Whether every name token of a destructuring carries an identifier value.
pub open spec fn go_decl_names_valued(ts: Seq<Token>) -> bool {
    forall|i: int| 0 <= i < ts.len() ==> (#[trigger] ts[i]).value is Some
}

/// Whether the backend implements this let statement.
pub open spec fn go_let_supported(declaration: Declaration, expression: Expression) -> bool
    decreases expression, 5int,
{
    let decl_ok = match declaration {
        Declaration::Name(t) => t.value is Some,
        Declaration::Array(ts) => go_decl_names_valued(ts@),
        Declaration::Tuple(ts) => go_decl_names_valued(ts@),
    };
    decl_ok && (match expression {
        Expression::WithoutBlock(e) => go_ewob_supported(e),
        Expression::WithBlock(ExpressionWithBlock::Block(b)) => go_statements_supported(
            (*b).statements@,
        ) && (match (*b).expr {
            Option::Some(e2) => go_ewob_supported(e2),
            Option::None => true,
        }),
        Expression::WithBlock(ExpressionWithBlock::If { .. }) => false,
    })
}

/// Whether the backend implements this statement.
pub open spec fn go_statement_supported(s: Statement) -> bool
    decreases s, 3int,
{
    match s {
        Statement::Print(e) => go_expression_supported(e),
        Statement::Expression(e) => go_expression_supported(e),
        Statement::Let { declaration, expression, .. } => go_let_supported(
            declaration,
            expression,
        ),
        Statement::AssertEq(l, r) => go_ewob_or_expr_supported(l) && go_ewob_or_expr_supported(r),
        Statement::RunTest { test_name, function_name } => (test_name.value matches Option::Some(
            Literal::String(_),
        )) && go_expression_supported(*function_name),
    }
}

/// Whether the backend implements this expression (alias used where the
/// original compiles a whole `Expression`).
pub open spec fn go_ewob_or_expr_supported(e: Expression) -> bool
    decreases e, 2int,
{
    go_expression_supported(e)
}

/// Whether the backend implements this block-free expression.
pub open spec fn go_ewob_supported(e: ExpressionWithoutBlock) -> bool
    decreases e, 3int,
{
    match e {
        ExpressionWithoutBlock::Binary { left, right, .. } => go_ewob_supported(*left)
            && go_ewob_supported(*right),
        ExpressionWithoutBlock::Call { callee, arguments } => go_ewob_supported(*callee)
            && go_expressions_supported(arguments@),
        ExpressionWithoutBlock::Index { callee, index } => go_ewob_supported(*callee)
            && go_expression_supported(*index),
        ExpressionWithoutBlock::Field { .. } => false,
        ExpressionWithoutBlock::Lambda { body, .. } => match *body {
            Expression::WithoutBlock(inner) => go_ewob_supported(inner),
            Expression::WithBlock(_) => false,
        },
        ExpressionWithoutBlock::Grouping(inner) => go_ewob_supported(*inner),
        ExpressionWithoutBlock::Literal(_) => true,
        ExpressionWithoutBlock::Unary { .. } => false,
        ExpressionWithoutBlock::Variable(t) => t.value is Some,
        ExpressionWithoutBlock::Assignment { value, operator, .. } => (operator.token_type
            == TokenType::Equal || operator.token_type == TokenType::PlusEqual)
            && go_ewob_supported(*value),
        ExpressionWithoutBlock::Html { inner, attributes, .. } => go_expressions_supported(inner@)
            && go_attr_expressions_supported(attributes@),
        ExpressionWithoutBlock::FString { .. } => true,
        ExpressionWithoutBlock::Array { elements } => go_expressions_supported(elements@),
        ExpressionWithoutBlock::Tuple { elements } => go_expressions_supported(elements@),
        ExpressionWithoutBlock::Struct { .. } => false,
        ExpressionWithoutBlock::RawJs(_) => true,
        ExpressionWithoutBlock::RawGo(_) => true,
    }
}

/// Whether the backend implements every attribute value.
pub open spec fn go_attr_expressions_supported(attrs: Seq<(Token, Expression)>) -> bool
    decreases attrs, 2int,
{
    forall|i: int| 0 <= i < attrs.len() ==> go_expression_supported((#[trigger] attrs[i]).1)
}

/// The rendered text of an expression (meaningful only where supported).
/// `h` says whether rendering already sits inside a tag builder.
pub open spec fn go_expression_text(e: Expression, h: bool) -> Seq<char>
    decreases e, 1int,
{
    match e {
        Expression::WithBlock(eb) => go_ewb_text(eb, h),
        Expression::WithoutBlock(eb) => go_ewob_text(eb, h),
    }
}

/// The rendered texts of a sequence of expressions.
pub open spec fn go_expression_texts(es: Seq<Expression>, h: bool) -> Seq<Seq<char>>
    decreases es, 2int,
{
    Seq::new(
        es.len(),
        |i: int|
            if 0 <= i < es.len() {
                go_expression_text(es[i], h)
            } else {
                arbitrary()
            },
    )
}

/// The rendered texts of a sequence of statements.
pub open spec fn go_statement_texts(ss: Seq<Statement>, h: bool) -> Seq<Seq<char>>
    decreases ss, 2int,
{
    Seq::new(
        ss.len(),
        |i: int|
            if 0 <= i < ss.len() {
                go_statement_text(ss[i], h)
            } else {
                arbitrary()
            },
    )
}

/// The concatenated rendering of a statement sequence.
pub open spec fn go_statements_text(ss: Seq<Statement>, h: bool) -> Seq<char>
    decreases ss, 3int,
{
    spec_join(go_statement_texts(ss, h), ""@)
}

/// The rendered text of a block-ended expression.  A block contributes its
/// statements only; an `if` renders its condition, its then-statements and
/// any else chain.
pub open spec fn go_ewb_text(e: ExpressionWithBlock, h: bool) -> Seq<char>
    decreases e, 4int,
{
    match e {
        ExpressionWithBlock::Block(b) => go_statements_text((*b).statements@, h),
        ExpressionWithBlock::If { expr, then, else_branch } => {
            let head = "if ("@ + go_expression_text(*expr, h) + ") {\n"@ + go_statements_text(
                (*then).statements@,
                h,
            ) + "}"@;
            match else_branch {
                Option::Some(eb) => head + " else {\n"@ + go_ewb_text(*eb, h) + "}\n"@,
                Option::None => head,
            }
        },
    }
}

/// The rendered binding head and trailing extraction of a let statement.
pub open spec fn go_decl_name_texts(ts: Seq<Token>) -> Seq<Seq<char>> {
    Seq::new(
        ts.len(),
        |i: int|
            if 0 <= i < ts.len() {
                match ts[i].value {
                    Option::Some(l) => spec_literal_display(l),
                    Option::None => arbitrary(),
                }
            } else {
                arbitrary()
            },
    )
}

/// The indexed-extraction lines of an array destructuring.
pub open spec fn go_destructure_texts(ts: Seq<Token>) -> Seq<Seq<char>> {
    Seq::new(
        ts.len(),
        |i: int|
            if 0 <= i < ts.len() {
                (match ts[i].value {
                    Option::Some(l) => spec_literal_display(l),
                    Option::None => arbitrary(),
                }) + " := x_tmp["@ + spec_decimal(i as nat) + "]"@
            } else {
                arbitrary()
            },
    )
}

/// The rendered text of a let statement: its binding head, its rendered
/// initializer, and the indexed extraction of an array destructuring.
pub open spec fn go_let_text(declaration: Declaration, expression: Expression, h: bool) -> Seq<
    char,
>
    decreases expression, 6int,
{
    let decl_str = match declaration {
        Declaration::Name(t) => (match t.value {
            Option::Some(l) => spec_literal_display(l),
            Option::None => arbitrary(),
        }) + " := "@,
        Declaration::Array(_) => "x_tmp := "@,
        Declaration::Tuple(ts) => spec_join(go_decl_name_texts(ts@), ", "@) + " := "@,
    };
    let destr_str = match declaration {
        Declaration::Name(_) => Seq::<char>::empty(),
        Declaration::Array(ts) => spec_join(go_destructure_texts(ts@), "\n"@) + "\n"@,
        Declaration::Tuple(_) => Seq::<char>::empty(),
    };
    match expression {
        Expression::WithoutBlock(e) => decl_str + " "@ + go_ewob_text(e, h) + "\n"@ + destr_str,
        Expression::WithBlock(ExpressionWithBlock::Block(b)) => {
            let stmts = go_statements_text((*b).statements@, h);
            match (*b).expr {
                Option::Some(e2) => stmts + decl_str + " "@ + go_ewob_text(e2, h) + "\n"@
                    + destr_str,
                Option::None => stmts,
            }
        },
        Expression::WithBlock(ExpressionWithBlock::If { .. }) => arbitrary(),
    }
}

/// The rendered text of a statement.
pub open spec fn go_statement_text(s: Statement, h: bool) -> Seq<char>
    decreases s, 4int,
{
    match s {
        Statement::Print(e) => "fmt.Println("@ + go_expression_text(e, h) + ")\n"@,
        Statement::Expression(e) => go_expression_text(e, h) + "\n"@,
        Statement::Let { declaration, expression, .. } => go_let_text(
            declaration,
            expression,
            h,
        ),
        Statement::AssertEq(l, r) => {
            let tl = go_expression_text(l, h);
            let tr = go_expression_text(r, h);
            "if ("@ + tl + " != "@ + tr + ") {\npanic(`"@ + tl + " != "@ + tr + "`)}\n"@
        },
        Statement::RunTest { test_name, function_name } => match test_name.value {
            Option::Some(Literal::String(n)) => "runTest("@ + go_expression_text(
                *function_name,
                h,
            ) + ", \""@ + n@ + "\")\n"@,
            _ => arbitrary(),
        },
    }
}

/// The rendered attribute-setting lines of a tag expression; attribute
/// values lose their newlines.
pub open spec fn go_attr_texts(attrs: Seq<(Token, Expression)>) -> Seq<Seq<char>>
    decreases attrs, 2int,
{
    Seq::new(
        attrs.len(),
        |i: int|
            if 0 <= i < attrs.len() {
                "builder.addAttribute(\""@ + attrs[i].0.lexeme@ + "\", "@ + without_newlines(
                    go_expression_text(attrs[i].1, true),
                ) + ")\n"@
            } else {
                arbitrary()
            },
    )
}

/// The rendered child lines of a tag expression: plain strings and
/// interpolations go through the builder, everything else stands as is.
pub open spec fn go_html_child_texts(inner: Seq<Expression>) -> Seq<Seq<char>>
    decreases inner, 2int,
{
    Seq::new(
        inner.len(),
        |i: int|
            if 0 <= i < inner.len() {
                if go_html_child_is_string(inner[i]) {
                    "builder.addString("@ + go_expression_text(inner[i], true) + ")\n"@
                } else {
                    go_expression_text(inner[i], true)
                }
            } else {
                arbitrary()
            },
    )
}

/// Whether a tag child is a plain string or an interpolated string.
pub open spec fn go_html_child_is_string(e: Expression) -> bool {
    match e {
        Expression::WithoutBlock(ExpressionWithoutBlock::FString { .. }) => true,
        Expression::WithoutBlock(ExpressionWithoutBlock::Literal(Literal::String(_))) => true,
        _ => false,
    }
}

/// The rendered text of a block-free expression.
pub open spec fn go_ewob_text(e: ExpressionWithoutBlock, h: bool) -> Seq<char>
    decreases e, 4int,
{
    match e {
        ExpressionWithoutBlock::Binary { left, operator, right } => go_ewob_text(*left, h) + " "@
            + operator.lexeme@ + " "@ + go_ewob_text(*right, h),
        ExpressionWithoutBlock::Call { callee, arguments } => go_ewob_text(*callee, h) + "("@
            + spec_join(go_expression_texts(arguments@, h), ", "@) + ")"@,
        ExpressionWithoutBlock::Index { callee, index } => go_ewob_text(*callee, h) + "["@
            + go_expression_text(*index, h) + "]"@,
        ExpressionWithoutBlock::Field { .. } => arbitrary(),
        ExpressionWithoutBlock::Lambda { parameters, body } => {
            let body_text = match *body {
                Expression::WithoutBlock(inner) => go_ewob_text(inner, h),
                Expression::WithBlock(_) => arbitrary(),
            };
            "func("@ + spec_join(go_lambda_param_texts(parameters@), ", "@)
                + ") int {\nreturn "@ + body_text + "\n}\n"@
        },
        ExpressionWithoutBlock::Grouping(inner) => "("@ + go_ewob_text(*inner, h) + ")"@,
        ExpressionWithoutBlock::Literal(l) => spec_literal_expr_text(l),
        ExpressionWithoutBlock::Unary { .. } => arbitrary(),
        ExpressionWithoutBlock::Variable(t) => match t.value {
            Option::Some(l) => spec_literal_display(l),
            Option::None => arbitrary(),
        },
        ExpressionWithoutBlock::Assignment { name, value, operator } => if operator.token_type
            == TokenType::Equal {
            name.lexeme@ + " = "@ + go_ewob_text(*value, h)
        } else if operator.token_type == TokenType::PlusEqual {
            name.lexeme@ + " += "@ + go_ewob_text(*value, h)
        } else {
            arbitrary()
        },
        ExpressionWithoutBlock::Html { name, inner, attributes } => {
            let opening = if h {
                Seq::<char>::empty()
            } else {
                "func() string {\nbuilder := NewHTMLBuilder()\n"@
            };
            let closing = if h {
                Seq::<char>::empty()
            } else {
                "return builder.build()\n}()"@
            };
            opening + "builder.beginElement(\""@ + name.lexeme@ + "\")\n"@ + spec_join(
                go_attr_texts(attributes@),
                ""@,
            ) + spec_join(go_html_child_texts(inner@), ""@) + "builder.endElement()\n"@ + closing
        },
        ExpressionWithoutBlock::FString { chunks } => "fmt.Sprintf(\""@ + go_format_string(chunks@)
            + "\", "@ + spec_join(go_format_args(chunks@), ", "@) + ")"@,
        ExpressionWithoutBlock::Array { elements } => "["@ + spec_decimal(elements@.len()) + "]int{"@
            + spec_join(go_expression_texts(elements@, h), ", "@) + "}"@,
        ExpressionWithoutBlock::Tuple { elements } => spec_join(
            go_expression_texts(elements@, h),
            ", "@,
        ),
        ExpressionWithoutBlock::Struct { .. } => arbitrary(),
        ExpressionWithoutBlock::RawJs(_) => Seq::empty(),
        ExpressionWithoutBlock::RawGo(code) => code@ + "\n"@,
    }
}

/// Whether the backend implements this item.
pub open spec fn go_item_supported(item: Item) -> bool {
    match item {
        Item::Function { body, .. } => go_statements_supported(body.statements@) && (match body
            .expr {
            Option::Some(e) => go_ewob_supported(e),
            Option::None => true,
        }),
        Item::Component { body, .. } => go_statements_supported(body.statements@) && (match body
            .expr {
            Option::Some(e) => go_ewob_supported(e),
            Option::None => true,
        }),
        Item::Import { .. } => true,
        Item::TestRunner => true,
        Item::Struct { .. } => false,
    }
}

/// The rendered text of an item.
pub open spec fn go_item_text(item: Item) -> Seq<char> {
    match item {
        Item::Function { name, parameters, body, return_type } => {
            let params = spec_join(go_param_texts(parameters@), ", "@);
            let stmts = go_statements_text(body.statements@, false);
            let rt = go_return_type_name(return_type);
            match body.expr {
                Option::Some(e) => "func "@ + name@ + "("@ + params + ") "@ + rt + " {\n"@ + stmts
                    + "\nreturn "@ + go_ewob_text(e, false) + "\n}\n"@,
                Option::None => "func "@ + name@ + "("@ + params + ") "@ + rt + " {\n"@ + stmts
                    + "\n}\n"@,
            }
        },
        Item::Component { name, parameters, body } => {
            let params = spec_join(go_param_texts(parameters@), ", "@);
            let stmts = go_statements_text(body.statements@, false);
            match body.expr {
                Option::Some(e) => "func "@ + name@ + "("@ + params + ") string {\n"@ + stmts
                    + "\nreturn "@ + go_ewob_text(e, false) + "\n}\n"@,
                Option::None => "func "@ + name@ + "("@ + params + ") {\n"@ + stmts + "\n}\n"@,
            }
        },
        Item::Import { .. } => Seq::empty(),
        Item::TestRunner => go_runtest_snippet(),
        Item::Struct { .. } => arbitrary(),
    }
}

/// Whether the backend implements every item of the module.
pub open spec fn go_module_supported(m: Module) -> bool {
    forall|i: int| 0 <= i < m.items@.len() ==> go_item_supported(#[trigger] m.items@[i])
}

/// The rendered item texts of a module.
pub open spec fn go_item_texts(items: Seq<Item>) -> Seq<Seq<char>> {
    Seq::new(
        items.len(),
        |i: int|
            if 0 <= i < items.len() {
                go_item_text(items[i])
            } else {
                arbitrary()
            },
    )
}

/// The concatenated item renderings of a module, before the preamble.
pub open spec fn go_module_body(m: Module) -> Seq<char> {
    spec_join(go_item_texts(m.items@), ""@)
}

/// The full output text of a module: the package preamble, an import of
/// the formatting package exactly when the body mentions it, then the body.
pub open spec fn go_module_text(m: Module) -> Seq<char> {
    let body = go_module_body(m);
    "package main\n"@ + (if spec_contains_sub(body, "fmt."@) {
        "import \"fmt\"\n"@
    } else {
        Seq::<char>::empty()
    }) + body
}

/// Whether the backend implements every module of the program.
pub open spec fn go_program_supported(ms: Seq<Module>) -> bool {
    forall|i: int| 0 <= i < ms.len() ==> go_module_supported(#[trigger] ms[i])
}

/// The native-style code generator.  Its one piece of state tracks whether
/// rendering currently sits inside a tag builder, so nested tags do not
/// re-wrap themselves.
pub struct GoCompiler {
    building_html: bool,
}

impl GoCompiler {
    /// Whether rendering currently sits inside a tag builder.
    pub closed spec fn in_html(&self) -> bool {
        self.building_html
    }

    pub fn new() -> (c: GoCompiler)
        ensures
            !c.in_html(),
    {
        GoCompiler { building_html: false }
    }

    /// Lower a whole program: one output file per module, named after the
    /// module's final path segment.  Succeeds exactly when every module
    /// uses only implemented shapes; the text of each output then equals
    /// its mathematical rendering.
    #[verifier::loop_isolation(false)]
    pub fn compile(&mut self, program: &Program) -> (r: Result<Vec<ModuleOutput>, CompileError>)
        requires
            !old(self).in_html(),
            forall|i: int| 0 <= i < program@.len() ==> (#[trigger] program@[i]).path@.len() >= 1,
        ensures
            !final(self).in_html(),
            (r is Ok) == go_program_supported(program@),
            r matches Result::Ok(outs) ==> {
                &&& outs@.len() == program@.len()
                &&& forall|i: int|
                    0 <= i < outs@.len() ==> (#[trigger] outs@[i]).name@ == program@[i].path@.last()@
                        && outs@[i].contents@ == go_module_text(program@[i])
            },
    {
        let mut outputs: Vec<ModuleOutput> = Vec::new();
        let n = program.len();
        let mut i: usize = 0;
        while i < n
            invariant
                !self.in_html(),
                n == program@.len(),
                i <= n,
                forall|k: int| 0 <= k < n ==> (#[trigger] program@[k]).path@.len() >= 1,
                outputs@.len() == i,
                forall|k: int| 0 <= k < i ==> go_module_supported(#[trigger] program@[k]),
                forall|k: int|
                    0 <= k < i ==> (#[trigger] outputs@[k]).name@ == program@[k].path@.last()@
                        && outputs@[k].contents@ == go_module_text(program@[k]),
            decreases n - i,
        {
            let module = &program[i];
            let body = match self.compile_items(&module.items) {
                Result::Ok(s) => s,
                Result::Err(e) => {
                    proof {
                        assert(!go_module_supported(program@[i as int]));
                    }
                    return Result::Err(e);
                },
            };
            let mut contents = String::from_str("package main\n");
            if contains_sub(body.as_str(), "fmt.") {
                contents.append("import \"fmt\"\n");
            }
            contents.append(body.as_str());
            proof {
                assert(body@ == go_module_body(program@[i as int]));
                assert(contents@ =~= go_module_text(program@[i as int]));
            }
            let name = module.path[module.path.len() - 1].clone();
            outputs.push(ModuleOutput { name, contents });
            i = i + 1;
        }
        Result::Ok(outputs)
    }

    /// Render every item of one module, concatenated.
    #[verifier::loop_isolation(false)]
    fn compile_items(&mut self, items: &Vec<Item>) -> (r: Result<String, CompileError>)
        requires
            !old(self).in_html(),
        ensures
            !final(self).in_html(),
            (r is Ok) == (forall|i: int|
                0 <= i < items@.len() ==> go_item_supported(#[trigger] items@[i])),
            r matches Result::Ok(s) ==> s@ == spec_join(go_item_texts(items@), ""@),
    {
        let mut parts: Vec<String> = Vec::new();
        let n = items.len();
        let mut i: usize = 0;
        while i < n
            invariant
                !self.in_html(),
                n == items@.len(),
                i <= n,
                parts@.len() == i,
                forall|k: int| 0 <= k < i ==> go_item_supported(#[trigger] items@[k]),
                forall|k: int|
                    0 <= k < i ==> (#[trigger] parts@[k])@ == go_item_text(items@[k]),
            decreases n - i,
        {
            match self.compile_item(&items[i]) {
                Result::Ok(s) => parts.push(s),
                Result::Err(e) => {
                    proof {
                        assert(!go_item_supported(items@[i as int]));
                    }
                    return Result::Err(e);
                },
            }
            i = i + 1;
        }
        let joined = join_strings(&parts, "");
        proof {
            assert(parts@.map_values(|s: String| s@) =~= go_item_texts(items@));
        }
        Result::Ok(joined)
    }

    /// Render one item.
    #[verifier::loop_isolation(false)]
    pub fn compile_item(&mut self, item: &Item) -> (r: Result<String, CompileError>)
        requires
            !old(self).in_html(),
        ensures
            !final(self).in_html(),
            (r is Ok) == go_item_supported(*item),
            r matches Result::Ok(s) ==> s@ == go_item_text(*item),
    {
        match item {
            Item::Function { name, parameters, body, return_type } => {
                let params = compile_go_params(parameters);
                let stmts = match self.compile_statements(&body.statements) {
                    Result::Ok(s) => s,
                    Result::Err(e) => {
                        return Result::Err(e);
                    },
                };
                let rt = compile_go_return_type(return_type);
                let mut out = String::from_str("func ");
                out.append(name.as_str());
                out.append("(");
                out.append(params.as_str());
                out.append(") ");
                out.append(rt.as_str());
                out.append(" {\n");
                out.append(stmts.as_str());
                match &body.expr {
                    Option::Some(e) => {
                        let tail = match self.compile_expression_without_block(e) {
                            Result::Ok(s) => s,
                            Result::Err(err) => {
                                return Result::Err(err);
                            },
                        };
                        out.append("\nreturn ");
                        out.append(tail.as_str());
                        out.append("\n}\n");
                    },
                    Option::None => {
                        out.append("\n}\n");
                    },
                }
                proof {
                    assert(out@ =~= go_item_text(*item));
                }
                Result::Ok(out)
            },
            Item::Component { name, parameters, body } => {
                let params = compile_go_params(parameters);
                let stmts = match self.compile_statements(&body.statements) {
                    Result::Ok(s) => s,
                    Result::Err(e) => {
                        return Result::Err(e);
                    },
                };
                let mut out = String::from_str("func ");
                out.append(name.as_str());
                out.append("(");
                out.append(params.as_str());
                match &body.expr {
                    Option::Some(e) => {
                        let tail = match self.compile_expression_without_block(e) {
                            Result::Ok(s) => s,
                            Result::Err(err) => {
                                return Result::Err(err);
                            },
                        };
                        out.append(") string {\n");
                        out.append(stmts.as_str());
                        out.append("\nreturn ");
                        out.append(tail.as_str());
                        out.append("\n}\n");
                    },
                    Option::None => {
                        out.append(") {\n");
                        out.append(stmts.as_str());
                        out.append("\n}\n");
                    },
                }
                proof {
                    assert(out@ =~= go_item_text(*item));
                }
                Result::Ok(out)
            },
            Item::Import { .. } => Result::Ok(String::new()),
            Item::TestRunner => Result::Ok(
                String::from_str(
                    "\n                func runTest(test func(), name string) {\n                    defer func() {\n                        if err := recover(); err != nil {\n                            fmt.Print(\" fail\\n\")\n                        }\n                    }()\n\n                    fmt.Printf(\"%s...\", name)\n                    test()\n                    fmt.Print(\" pass\\n\")\n                }\n                ",
                ),
            ),
            Item::Struct { .. } => Result::Err(
                CompileError::Unsupported(
                    String::from_str("struct items have no native-backend rendering"),
                ),
            ),
        }
    }

    /// Render a statement sequence, concatenated.
    #[verifier::loop_isolation(false)]
    fn compile_statements(&mut self, ss: &Vec<Statement>) -> (r: Result<String, CompileError>)
        ensures
            final(self).in_html() == old(self).in_html(),
            (r is Ok) == go_statements_supported(ss@),
            r matches Result::Ok(s) ==> s@ == go_statements_text(ss@, old(self).in_html()),
        decreases ss@, 5int,
    {
        let ghost h = self.in_html();
        let mut parts: Vec<String> = Vec::new();
        let n = ss.len();
        let mut i: usize = 0;
        while i < n
            invariant
                self.in_html() == h,
                n == ss@.len(),
                i <= n,
                parts@.len() == i,
                forall|k: int| 0 <= k < i ==> go_statement_supported(#[trigger] ss@[k]),
                forall|k: int|
                    0 <= k < i ==> (#[trigger] parts@[k])@ == go_statement_text(ss@[k], h),
            decreases n - i,
        {
            match self.compile_statement(&ss[i]) {
                Result::Ok(s) => parts.push(s),
                Result::Err(e) => {
                    proof {
                        assert(!go_statement_supported(ss@[i as int]));
                        assert(!go_statements_supported(ss@));
                    }
                    return Result::Err(e);
                },
            }
            i = i + 1;
        }
        let joined = join_strings(&parts, "");
        proof {
            assert(parts@.map_values(|s: String| s@) =~= go_statement_texts(ss@, h));
        }
        Result::Ok(joined)
    }

    /// Render one statement.
    pub fn compile_statement(&mut self, s: &Statement) -> (r: Result<String, CompileError>)
        ensures
            final(self).in_html() == old(self).in_html(),
            (r is Ok) == go_statement_supported(*s),
            r matches Result::Ok(t) ==> t@ == go_statement_text(*s, old(self).in_html()),
        decreases *s, 4int,
    {
        match s {
            Statement::Print(e) => {
                let inner = match self.compile_expression(e) {
                    Result::Ok(t) => t,
                    Result::Err(err) => {
                        return Result::Err(err);
                    },
                };
                let mut out = String::from_str("fmt.Println(");
                out.append(inner.as_str());
                out.append(")\n");
                proof {
                    assert(out@ =~= go_statement_text(*s, old(self).in_html()));
                }
                Result::Ok(out)
            },
            Statement::Expression(e) => {
                let inner = match self.compile_expression(e) {
                    Result::Ok(t) => t,
                    Result::Err(err) => {
                        return Result::Err(err);
                    },
                };
                let mut out = inner;
                out.append("\n");
                proof {
                    assert(out@ =~= go_statement_text(*s, old(self).in_html()));
                }
                Result::Ok(out)
            },
            Statement::Let { declaration, expression, .. } => self.compile_let(
                declaration,
                expression,
            ),
            Statement::AssertEq(l, r) => {
                let tl = match self.compile_expression(l) {
                    Result::Ok(t) => t,
                    Result::Err(err) => {
                        return Result::Err(err);
                    },
                };
                let tr = match self.compile_expression(r) {
                    Result::Ok(t) => t,
                    Result::Err(err) => {
                        return Result::Err(err);
                    },
                };
                let mut out = String::from_str("if (");
                out.append(tl.as_str());
                out.append(" != ");
                out.append(tr.as_str());
                out.append(") {\npanic(`");
                out.append(tl.as_str());
                out.append(" != ");
                out.append(tr.as_str());
                out.append("`)}\n");
                proof {
                    assert(out@ =~= go_statement_text(*s, old(self).in_html()));
                }
                Result::Ok(out)
            },
            Statement::RunTest { test_name, function_name } => {
                let label = match &test_name.value {
                    Option::Some(Literal::String(n)) => n.clone(),
                    _ => {
                        return Result::Err(
                            CompileError::Unsupported(
                                String::from_str("test name must be a string"),
                            ),
                        );
                    },
                };
                let callee = match self.compile_expression(function_name) {
                    Result::Ok(t) => t,
                    Result::Err(err) => {
                        return Result::Err(err);
                    },
                };
                let mut out = String::from_str("runTest(");
                out.append(callee.as_str());
                out.append(", \"");
                out.append(label.as_str());
                out.append("\")\n");
                proof {
                    assert(out@ =~= go_statement_text(*s, old(self).in_html()));
                }
                Result::Ok(out)
            },
        }
    }

    /// Render a let statement: its binding head, its initializer and, for
    /// array destructurings, the indexed extraction through a temporary.
    fn compile_let(&mut self, declaration: &Declaration, expression: &Expression) -> (r: Result<
        String,
        CompileError,
    >)
        ensures
            final(self).in_html() == old(self).in_html(),
            (r is Ok) == go_let_supported(*declaration, *expression),
            r matches Result::Ok(t) ==> t@ == go_let_text(
                *declaration,
                *expression,
                old(self).in_html(),
            ),
        decreases *expression, 7int,
    {
        let decl_str: String = match declaration {
            Declaration::Name(t) => {
                match &t.value {
                    Option::Some(l) => {
                        let mut d = literal_display(l);
                        d.append(" := ");
                        d
                    },
                    Option::None => {
                        return Result::Err(
                            CompileError::Unsupported(
                                String::from_str("binding name carries no value"),
                            ),
                        );
                    },
                }
            },
            Declaration::Array(_) => String::from_str("x_tmp := "),
            Declaration::Tuple(ts) => {
                let names = match compile_go_decl_names(ts) {
                    Result::Ok(v) => v,
                    Result::Err(e) => {
                        return Result::Err(e);
                    },
                };
                let mut d = join_strings(&names, ", ");
                d.append(" := ");
                d
            },
        };
        let destr_str: String = match declaration {
            Declaration::Name(_) => String::new(),
            Declaration::Array(ts) => {
                let lines = match compile_go_destructure(ts) {
                    Result::Ok(v) => v,
                    Result::Err(e) => {
                        return Result::Err(e);
                    },
                };
                let mut d = join_strings(&lines, "\n");
                d.append("\n");
                d
            },
            Declaration::Tuple(_) => String::new(),
        };
        match expression {
            Expression::WithoutBlock(e) => {
                let inner = match self.compile_expression_without_block(e) {
                    Result::Ok(t) => t,
                    Result::Err(err) => {
                        return Result::Err(err);
                    },
                };
                let mut out = decl_str;
                out.append(" ");
                out.append(inner.as_str());
                out.append("\n");
                out.append(destr_str.as_str());
                proof {
                    assert(out@ =~= go_let_text(*declaration, *expression, old(self).in_html()));
                }
                Result::Ok(out)
            },
            Expression::WithBlock(ExpressionWithBlock::Block(b)) => {
                let stmts = match self.compile_statements(&b.statements) {
                    Result::Ok(t) => t,
                    Result::Err(err) => {
                        return Result::Err(err);
                    },
                };
                match &b.expr {
                    Option::Some(e2) => {
                        let inner = match self.compile_expression_without_block(e2) {
                            Result::Ok(t) => t,
                            Result::Err(err) => {
                                return Result::Err(err);
                            },
                        };
                        let mut out = stmts;
                        out.append(decl_str.as_str());
                        out.append(" ");
                        out.append(inner.as_str());
                        out.append("\n");
                        out.append(destr_str.as_str());
                        proof {
                            assert(out@ =~= go_let_text(
                                *declaration,
                                *expression,
                                old(self).in_html(),
                            ));
                        }
                        Result::Ok(out)
                    },
                    Option::None => Result::Ok(stmts),
                }
            },
            Expression::WithBlock(ExpressionWithBlock::If { .. }) => Result::Err(
                CompileError::Unsupported(
                    String::from_str("an if expression cannot initialize a binding"),
                ),
            ),
        }
    }

    /// Render any expression.
    pub fn compile_expression(&mut self, e: &Expression) -> (r: Result<String, CompileError>)
        ensures
            final(self).in_html() == old(self).in_html(),
            (r is Ok) == go_expression_supported(*e),
            r matches Result::Ok(t) ==> t@ == go_expression_text(*e, old(self).in_html()),
        decreases *e, 1int,
    {
        match e {
            Expression::WithBlock(eb) => self.compile_expression_with_block(eb),
            Expression::WithoutBlock(eb) => self.compile_expression_without_block(eb),
        }
    }

    /// Render a block-ended expression.
    pub fn compile_expression_with_block(&mut self, e: &ExpressionWithBlock) -> (r: Result<
        String,
        CompileError,
    >)
        ensures
            final(self).in_html() == old(self).in_html(),
            (r is Ok) == go_ewb_supported(*e),
            r matches Result::Ok(t) ==> t@ == go_ewb_text(*e, old(self).in_html()),
        decreases *e, 4int,
    {
        match e {
            ExpressionWithBlock::Block(b) => self.compile_statements(&b.statements),
            ExpressionWithBlock::If { expr, then, else_branch } => {
                let cond = match self.compile_expression(expr) {
                    Result::Ok(t) => t,
                    Result::Err(err) => {
                        return Result::Err(err);
                    },
                };
                let stmts = match self.compile_statements(&then.statements) {
                    Result::Ok(t) => t,
                    Result::Err(err) => {
                        return Result::Err(err);
                    },
                };
                let mut out = String::from_str("if (");
                out.append(cond.as_str());
                out.append(") {\n");
                out.append(stmts.as_str());
                out.append("}");
                match else_branch {
                    Option::Some(eb) => {
                        let tail = match self.compile_expression_with_block(eb) {
                            Result::Ok(t) => t,
                            Result::Err(err) => {
                                return Result::Err(err);
                            },
                        };
                        out.append(" else {\n");
                        out.append(tail.as_str());
                        out.append("}\n");
                    },
                    Option::None => {},
                }
                proof {
                    assert(out@ =~= go_ewb_text(*e, old(self).in_html()));
                }
                Result::Ok(out)
            },
        }
    }

    /// Render every expression of a sequence.
    #[verifier::loop_isolation(false)]
    fn compile_expressions(&mut self, es: &Vec<Expression>) -> (r: Result<
        Vec<String>,
        CompileError,
    >)
        ensures
            final(self).in_html() == old(self).in_html(),
            (r is Ok) == go_expressions_supported(es@),
            r matches Result::Ok(parts) ==> parts@.map_values(|s: String| s@)
                == go_expression_texts(es@, old(self).in_html()),
        decreases es@, 2int,
    {
        let ghost h = self.in_html();
        let mut parts: Vec<String> = Vec::new();
        let n = es.len();
        let mut i: usize = 0;
        while i < n
            invariant
                self.in_html() == h,
                n == es@.len(),
                i <= n,
                parts@.len() == i,
                forall|k: int| 0 <= k < i ==> go_expression_supported(#[trigger] es@[k]),
                forall|k: int|
                    0 <= k < i ==> (#[trigger] parts@[k])@ == go_expression_text(es@[k], h),
            decreases n - i,
        {
            match self.compile_expression(&es[i]) {
                Result::Ok(s) => parts.push(s),
                Result::Err(e) => {
                    proof {
                        assert(!go_expression_supported(es@[i as int]));
                        assert(!go_expressions_supported(es@));
                    }
                    return Result::Err(e);
                },
            }
            i = i + 1;
        }
        proof {
            assert(parts@.map_values(|s: String| s@) =~= go_expression_texts(es@, h));
        }
        Result::Ok(parts)
    }

    /// Render a block-free expression.
    #[verifier::rlimit(100)]
    #[verifier::loop_isolation(false)]
    pub fn compile_expression_without_block(&mut self, e: &ExpressionWithoutBlock) -> (r: Result<
        String,
        CompileError,
    >)
        ensures
            final(self).in_html() == old(self).in_html(),
            (r is Ok) == go_ewob_supported(*e),
            r matches Result::Ok(t) ==> t@ == go_ewob_text(*e, old(self).in_html()),
        decreases *e, 4int,
    {
        match e {
            ExpressionWithoutBlock::Binary { left, operator, right } => {
                let tl = match self.compile_expression_without_block(left) {
                    Result::Ok(t) => t,
                    Result::Err(err) => {
                        return Result::Err(err);
                    },
                };
                let tr = match self.compile_expression_without_block(right) {
                    Result::Ok(t) => t,
                    Result::Err(err) => {
                        return Result::Err(err);
                    },
                };
                let mut out = tl;
                out.append(" ");
                out.append(operator.lexeme.as_str());
                out.append(" ");
                out.append(tr.as_str());
                proof {
                    assert(out@ =~= go_ewob_text(*e, old(self).in_html()));
                }
                Result::Ok(out)
            },
            ExpressionWithoutBlock::Call { callee, arguments } => {
                let tc = match self.compile_expression_without_block(callee) {
                    Result::Ok(t) => t,
                    Result::Err(err) => {
                        return Result::Err(err);
                    },
                };
                let parts = match self.compile_expressions(arguments) {
                    Result::Ok(p) => p,
                    Result::Err(err) => {
                        return Result::Err(err);
                    },
                };
                let args = join_strings(&parts, ", ");
                let mut out = tc;
                out.append("(");
                out.append(args.as_str());
                out.append(")");
                proof {
                    assert(out@ =~= go_ewob_text(*e, old(self).in_html()));
                }
                Result::Ok(out)
            },
            ExpressionWithoutBlock::Index { callee, index } => {
                let tc = match self.compile_expression_without_block(callee) {
                    Result::Ok(t) => t,
                    Result::Err(err) => {
                        return Result::Err(err);
                    },
                };
                let ti = match self.compile_expression(index) {
                    Result::Ok(t) => t,
                    Result::Err(err) => {
                        return Result::Err(err);
                    },
                };
                let mut out = tc;
                out.append("[");
                out.append(ti.as_str());
                out.append("]");
                proof {
                    assert(out@ =~= go_ewob_text(*e, old(self).in_html()));
                }
                Result::Ok(out)
            },
            ExpressionWithoutBlock::Field { .. } => Result::Err(
                CompileError::Unsupported(
                    String::from_str("field access has no native-backend rendering"),
                ),
            ),
            ExpressionWithoutBlock::Lambda { parameters, body } => {
                let params = compile_go_lambda_params(parameters);
                let body_text = match &**body {
                    Expression::WithoutBlock(inner) => {
                        match self.compile_expression_without_block(inner) {
                            Result::Ok(t) => t,
                            Result::Err(err) => {
                                return Result::Err(err);
                            },
                        }
                    },
                    Expression::WithBlock(_) => {
                        return Result::Err(
                            CompileError::Unsupported(
                                String::from_str("a lambda body must be a plain expression"),
                            ),
                        );
                    },
                };
                let mut out = String::from_str("func(");
                out.append(params.as_str());
                out.append(") int {\nreturn ");
                out.append(body_text.as_str());
                out.append("\n}\n");
                proof {
                    assert(out@ =~= go_ewob_text(*e, old(self).in_html()));
                }
                Result::Ok(out)
            },
            ExpressionWithoutBlock::Grouping(inner) => {
                let ti = match self.compile_expression_without_block(inner) {
                    Result::Ok(t) => t,
                    Result::Err(err) => {
                        return Result::Err(err);
                    },
                };
                let mut out = String::from_str("(");
                out.append(ti.as_str());
                out.append(")");
                proof {
                    assert(out@ =~= go_ewob_text(*e, old(self).in_html()));
                }
                Result::Ok(out)
            },
            ExpressionWithoutBlock::Literal(l) => Result::Ok(literal_expr_text(l)),
            ExpressionWithoutBlock::Unary { .. } => Result::Err(
                CompileError::Unsupported(
                    String::from_str("unary operators have no native-backend rendering"),
                ),
            ),
            ExpressionWithoutBlock::Variable(t) => match &t.value {
                Option::Some(l) => Result::Ok(literal_display(l)),
                Option::None => Result::Err(
                    CompileError::Unsupported(
                        String::from_str("variable token carries no value"),
                    ),
                ),
            },
            ExpressionWithoutBlock::Assignment { name, value, operator } => {
                let op: &str = if operator.token_type == TokenType::Equal {
                    " = "
                } else if operator.token_type == TokenType::PlusEqual {
                    " += "
                } else {
                    return Result::Err(
                        CompileError::Unsupported(
                            String::from_str("unexpected assignment operator"),
                        ),
                    );
                };
                let tv = match self.compile_expression_without_block(value) {
                    Result::Ok(t) => t,
                    Result::Err(err) => {
                        return Result::Err(err);
                    },
                };
                let mut out = name.lexeme.clone();
                out.append(op);
                out.append(tv.as_str());
                proof {
                    assert(out@ =~= go_ewob_text(*e, old(self).in_html()));
                }
                Result::Ok(out)
            },
            ExpressionWithoutBlock::Html { .. } => self.compile_html(e),

            ExpressionWithoutBlock::FString { chunks } => {
                let fmt = compile_go_format_string(chunks);
                let args = compile_go_format_args(chunks);
                let joined = join_strings(&args, ", ");
                let mut out = String::from_str("fmt.Sprintf(\"");
                out.append(fmt.as_str());
                out.append("\", ");
                out.append(joined.as_str());
                out.append(")");
                proof {
                    assert(out@ =~= go_ewob_text(*e, old(self).in_html()));
                }
                Result::Ok(out)
            },
            ExpressionWithoutBlock::Array { elements } => {
                let count = usize_to_string(elements.len());
                let parts = match self.compile_expressions(elements) {
                    Result::Ok(p) => p,
                    Result::Err(err) => {
                        return Result::Err(err);
                    },
                };
                let elems = join_strings(&parts, ", ");
                let mut out = String::from_str("[");
                out.append(count.as_str());
                out.append("]int{");
                out.append(elems.as_str());
                out.append("}");
                proof {
                    assert(out@ =~= go_ewob_text(*e, old(self).in_html()));
                }
                Result::Ok(out)
            },
            ExpressionWithoutBlock::Tuple { elements } => {
                let parts = match self.compile_expressions(elements) {
                    Result::Ok(p) => p,
                    Result::Err(err) => {
                        return Result::Err(err);
                    },
                };
                Result::Ok(join_strings(&parts, ", "))
            },
            ExpressionWithoutBlock::Struct { .. } => Result::Err(
                CompileError::Unsupported(
                    String::from_str("struct literals have no native-backend rendering"),
                ),
            ),
            ExpressionWithoutBlock::RawJs(_) => Result::Ok(String::new()),
            ExpressionWithoutBlock::RawGo(code) => {
                let mut out = code.clone();
                out.append("\n");
                proof {
                    assert(out@ =~= go_ewob_text(*e, old(self).in_html()));
                }
                Result::Ok(out)
            },
        }
    }


    /// Render a tag expression through the builder calls; only the
    /// outermost tag wraps itself in a self-invoking closure.
    #[verifier::rlimit(100)]
    #[verifier::loop_isolation(false)]
    fn compile_html(&mut self, e: &ExpressionWithoutBlock) -> (r: Result<String, CompileError>)
        requires
            *e matches ExpressionWithoutBlock::Html { .. },
        ensures
            final(self).in_html() == old(self).in_html(),
            (r is Ok) == go_ewob_supported(*e),
            r matches Result::Ok(t) ==> t@ == go_ewob_text(*e, old(self).in_html()),
        decreases *e, 3int,
    {
        match e {
            ExpressionWithoutBlock::Html { name, inner, attributes } => {

            let require_cleanup = !self.building_html;
            let mut out = String::new();
            if require_cleanup {
                out.append("func() string {\nbuilder := NewHTMLBuilder()\n");
                self.building_html = true;
            }
            out.append("builder.beginElement(\"");
            out.append(name.lexeme.as_str());
            out.append("\")\n");
            let n_attrs = attributes.len();
            let mut i: usize = 0;
            while i < n_attrs
                invariant
                    self.in_html(),
                    n_attrs == attributes@.len(),
                    i <= n_attrs,
                    forall|k: int|
                        0 <= k < i ==> go_expression_supported((#[trigger] attributes@[k]).1),
                    out@ == (if require_cleanup {
                        "func() string {\nbuilder := NewHTMLBuilder()\n"@
                    } else {
                        Seq::<char>::empty()
                    }) + "builder.beginElement(\""@ + name.lexeme@ + "\")\n"@ + spec_join(
                        go_attr_texts(attributes@.subrange(0, i as int)),
                        ""@,
                    ),
                decreases n_attrs - i,
            {
                proof {
                    assert(decreases_to!(*e => (*e)->Html_attributes));
                    assert(decreases_to!((*e)->Html_attributes => (*e)->Html_attributes@));
                    assert(decreases_to!((*e)->Html_attributes@ => (*e)->Html_attributes@[
                        i as int
                    ]));
                    assert(decreases_to!((*e)->Html_attributes@[i as int] => (*e)
                        ->Html_attributes@[i as int].1));
                }
                let value_text = match self.compile_expression(&attributes[i].1) {
                    Result::Ok(t) => t,
                    Result::Err(err) => {
                        if require_cleanup {
                            self.building_html = false;
                        }
                        proof {
                            assert(!go_expression_supported(attributes@[i as int].1));
                            assert(!go_attr_expressions_supported(attributes@));
                        }
                        return Result::Err(err);
                    },
                };
                let stripped = strip_newlines(value_text.as_str());
                out.append("builder.addAttribute(\"");
                out.append(attributes[i].0.lexeme.as_str());
                out.append("\", ");
                out.append(stripped.as_str());
                out.append(")\n");
                proof {
                    reveal_strlit("");
                    let piece = "builder.addAttribute(\""@ + attributes@[i as int].0.lexeme@
                        + "\", "@ + without_newlines(
                        go_expression_text(attributes@[i as int].1, true),
                    ) + ")\n"@;
                    assert(go_attr_texts(attributes@.subrange(0, i + 1)) =~= go_attr_texts(
                        attributes@.subrange(0, i as int),
                    ).push(piece));
                    crate::strutil::lemma_spec_join_push(
                        go_attr_texts(attributes@.subrange(0, i as int)),
                        piece,
                        ""@,
                    );
                    assert(out@ =~= (if require_cleanup {
                        "func() string {\nbuilder := NewHTMLBuilder()\n"@
                    } else {
                        Seq::<char>::empty()
                    }) + "builder.beginElement(\""@ + name.lexeme@ + "\")\n"@ + spec_join(
                        go_attr_texts(attributes@.subrange(0, i + 1)),
                        ""@,
                    ));
                }
                i = i + 1;
            }
            proof {
                assert(attributes@.subrange(0, n_attrs as int) =~= attributes@);
            }
            let n_inner = inner.len();
            let mut j: usize = 0;
            let ghost head = (if require_cleanup {
                "func() string {\nbuilder := NewHTMLBuilder()\n"@
            } else {
                Seq::<char>::empty()
            }) + "builder.beginElement(\""@ + name.lexeme@ + "\")\n"@ + spec_join(
                go_attr_texts(attributes@),
                ""@,
            );
            while j < n_inner
                invariant
                    self.in_html(),
                    n_inner == inner@.len(),
                    j <= n_inner,
                    forall|k: int| 0 <= k < j ==> go_expression_supported(#[trigger] inner@[k]),
                    out@ == head + spec_join(go_html_child_texts(inner@.subrange(0, j as int)), ""@),
                decreases n_inner - j,
            {
                proof {
                    assert(decreases_to!(*e => (*e)->Html_inner));
                    assert(decreases_to!((*e)->Html_inner => (*e)->Html_inner@));
                    assert(decreases_to!((*e)->Html_inner@ => (*e)->Html_inner@[j as int]));
                }
                let child_text = match self.compile_expression(&inner[j]) {
                    Result::Ok(t) => t,
                    Result::Err(err) => {
                        if require_cleanup {
                            self.building_html = false;
                        }
                        proof {
                            assert(!go_expression_supported(inner@[j as int]));
                            assert(!go_expressions_supported(inner@));
                        }
                        return Result::Err(err);
                    },
                };
                if is_go_string_child(&inner[j]) {
                    out.append("builder.addString(");
                    out.append(child_text.as_str());
                    out.append(")\n");
                } else {
                    out.append(child_text.as_str());
                }
                proof {
                    reveal_strlit("");
                    let piece = if go_html_child_is_string(inner@[j as int]) {
                        "builder.addString("@ + go_expression_text(inner@[j as int], true) + ")\n"@
                    } else {
                        go_expression_text(inner@[j as int], true)
                    };
                    assert(go_html_child_texts(inner@.subrange(0, j + 1)) =~= go_html_child_texts(
                        inner@.subrange(0, j as int),
                    ).push(piece));
                    crate::strutil::lemma_spec_join_push(
                        go_html_child_texts(inner@.subrange(0, j as int)),
                        piece,
                        ""@,
                    );
                    assert(out@ =~= head + spec_join(
                        go_html_child_texts(inner@.subrange(0, j + 1)),
                        ""@,
                    ));
                }
                j = j + 1;
            }
            proof {
                assert(inner@.subrange(0, n_inner as int) =~= inner@);
            }
            out.append("builder.endElement()\n");
            if require_cleanup {
                out.append("return builder.build()\n}()");
                self.building_html = false;
            }
            proof {
                assert(go_expressions_supported(inner@));
                assert(go_attr_expressions_supported(attributes@));
                assert(go_ewob_supported(*e));
                assert(out@ =~= go_ewob_text(*e, old(self).in_html()));
            }
            Result::Ok(out)
            },
            _ => {
                proof {
                    assert(false);
                }
                Result::Err(CompileError::Unsupported(String::new()))
            },
        }
    }
}

/// Whether a tag child is a plain or interpolated string.
fn is_go_string_child(e: &Expression) -> (r: bool)
    ensures
        r == go_html_child_is_string(*e),
{
    match e {
        Expression::WithoutBlock(ExpressionWithoutBlock::FString { .. }) => true,
        Expression::WithoutBlock(ExpressionWithoutBlock::Literal(Literal::String(_))) => true,
        _ => false,
    }
}

/// Map a parameter type annotation to its Go spelling.
fn compile_go_type(t: &String) -> (r: String)
    ensures
        r@ == go_param_type_name(t@),
{
    if str_eq(t.as_str(), "int") {
        String::from_str("int")
    } else if str_eq(t.as_str(), "str") {
        String::from_str("string")
    } else {
        t.clone()
    }
}

/// Render the return type annotation.
fn compile_go_return_type(rt: &Option<String>) -> (r: String)
    ensures
        r@ == go_return_type_name(*rt),
{
    proof {
        reveal_strlit("");
    }
    match rt {
        Option::Some(t) => {
            if str_eq(t.as_str(), "int") {
                String::from_str("int")
            } else if str_eq(t.as_str(), "str") {
                String::from_str("string")
            } else if str_eq(t.as_str(), "void") {
                String::new()
            } else {
                t.clone()
            }
        },
        Option::None => String::new(),
    }
}

/// Render a comma-separated parameter list.
fn compile_go_params(ps: &Vec<Parameter>) -> (r: String)
    ensures
        r@ == go_params_text(ps@),
{
    let mut parts: Vec<String> = Vec::new();
    let n = ps.len();
    let mut i: usize = 0;
    while i < n
        invariant
            n == ps@.len(),
            i <= n,
            parts@.len() == i,
            forall|k: int| 0 <= k < i ==> (#[trigger] parts@[k])@ == go_param_text(ps@[k]),
        decreases n - i,
    {
        let mut p = ps[i].name.clone();
        p.append(" ");
        let t = compile_go_type(&ps[i].type_annotation);
        p.append(t.as_str());
        parts.push(p);
        i = i + 1;
    }
    proof {
        assert(parts@.map_values(|s: String| s@) =~= go_param_texts(ps@));
    }
    join_strings(&parts, ", ")
}

/// Render a comma-separated lambda parameter list.
fn compile_go_lambda_params(ps: &Vec<LambdaParameter>) -> (r: String)
    ensures
        r@ == spec_join(go_lambda_param_texts(ps@), ", "@),
{
    let mut parts: Vec<String> = Vec::new();
    let n = ps.len();
    let mut i: usize = 0;
    while i < n
        invariant
            n == ps@.len(),
            i <= n,
            parts@.len() == i,
            forall|k: int| 0 <= k < i ==> (#[trigger] parts@[k])@ == go_lambda_param_text(ps@[k]),
        decreases n - i,
    {
        let mut p = ps[i].name.clone();
        p.append(" ");
        let t = match &ps[i].type_annotation {
            Option::Some(t) => compile_go_type(t),
            Option::None => String::from_str("int"),
        };
        p.append(t.as_str());
        parts.push(p);
        i = i + 1;
    }
    proof {
        assert(parts@.map_values(|s: String| s@) =~= go_lambda_param_texts(ps@));
    }
    join_strings(&parts, ", ")
}

/// Render the displayed names of a destructuring's tokens.
fn compile_go_decl_names(ts: &Vec<Token>) -> (r: Result<Vec<String>, CompileError>)
    ensures
        (r is Ok) == go_decl_names_valued(ts@),
        r matches Result::Ok(parts) ==> parts@.map_values(|s: String| s@) == go_decl_name_texts(
            ts@,
        ),
{
    let mut parts: Vec<String> = Vec::new();
    let n = ts.len();
    let mut i: usize = 0;
    while i < n
        invariant
            n == ts@.len(),
            i <= n,
            parts@.len() == i,
            forall|k: int| 0 <= k < i ==> (#[trigger] ts@[k]).value is Some,
            forall|k: int|
                0 <= k < i ==> (#[trigger] parts@[k])@ == go_decl_name_texts(ts@)[k],
        decreases n - i,
    {
        match &ts[i].value {
            Option::Some(l) => parts.push(literal_display(l)),
            Option::None => {
                return Result::Err(
                    CompileError::Unsupported(
                        String::from_str("binding name carries no value"),
                    ),
                );
            },
        }
        i = i + 1;
    }
    proof {
        assert(parts@.map_values(|s: String| s@) =~= go_decl_name_texts(ts@));
    }
    Result::Ok(parts)
}

/// Render the indexed-extraction lines of an array destructuring.
fn compile_go_destructure(ts: &Vec<Token>) -> (r: Result<Vec<String>, CompileError>)
    ensures
        (r is Ok) == go_decl_names_valued(ts@),
        r matches Result::Ok(parts) ==> parts@.map_values(|s: String| s@) == go_destructure_texts(
            ts@,
        ),
{
    let mut parts: Vec<String> = Vec::new();
    let n = ts.len();
    let mut i: usize = 0;
    while i < n
        invariant
            n == ts@.len(),
            i <= n,
            parts@.len() == i,
            forall|k: int| 0 <= k < i ==> (#[trigger] ts@[k]).value is Some,
            forall|k: int|
                0 <= k < i ==> (#[trigger] parts@[k])@ == go_destructure_texts(ts@)[k],
        decreases n - i,
    {
        let mut line = match &ts[i].value {
            Option::Some(l) => literal_display(l),
            Option::None => {
                return Result::Err(
                    CompileError::Unsupported(
                        String::from_str("binding name carries no value"),
                    ),
                );
            },
        };
        line.append(" := x_tmp[");
        let idx = usize_to_string(i);
        line.append(idx.as_str());
        line.append("]");
        parts.push(line);
        i = i + 1;
    }
    proof {
        assert(parts@.map_values(|s: String| s@) =~= go_destructure_texts(ts@));
    }
    Result::Ok(parts)
}

/// Render the format string of an interpolated string.
fn compile_go_format_string(chunks: &Vec<FStringChunk>) -> (r: String)
    ensures
        r@ == go_format_string(chunks@),
{
    let mut out = String::new();
    let n = chunks.len();
    let mut i: usize = 0;
    proof {
        assert(chunks@.subrange(0, n as int) =~= chunks@);
        assert(out@ + go_format_string(chunks@) =~= go_format_string(chunks@));
    }
    while i < n
        invariant
            n == chunks@.len(),
            i <= n,
            go_format_string(chunks@) == out@ + go_format_string(chunks@.subrange(i as int, n as int)),
        decreases n - i,
    {
        proof {
            assert(chunks@.subrange(i as int, n as int).drop_first() =~= chunks@.subrange(
                i + 1,
                n as int,
            ));
            assert(chunks@.subrange(i as int, n as int)[0] == chunks@[i as int]);
        }
        match &chunks[i] {
            FStringChunk::Literal(s) => out.append(s.as_str()),
            FStringChunk::Identifier(_) => out.append("%v"),
        }
        i = i + 1;
    }
    proof {
        assert(chunks@.subrange(n as int, n as int) =~= Seq::<FStringChunk>::empty());
        assert(go_format_string(chunks@) =~= out@ + go_format_string(
            chunks@.subrange(n as int, n as int),
        ));
    }
    out
}

/// Collect the interpolated identifiers of an interpolated string.
fn compile_go_format_args(chunks: &Vec<FStringChunk>) -> (r: Vec<String>)
    ensures
        r@.map_values(|s: String| s@) == go_format_args(chunks@),
{
    let mut parts: Vec<String> = Vec::new();
    let n = chunks.len();
    let mut i: usize = 0;
    proof {
        assert(chunks@.subrange(0, n as int) =~= chunks@);
        assert(parts@.map_values(|s: String| s@) + go_format_args(chunks@) =~= go_format_args(
            chunks@,
        ));
    }
    while i < n
        invariant
            n == chunks@.len(),
            i <= n,
            go_format_args(chunks@) == parts@.map_values(|s: String| s@) + go_format_args(
                chunks@.subrange(i as int, n as int),
            ),
        decreases n - i,
    {
        proof {
            assert(chunks@.subrange(i as int, n as int).drop_first() =~= chunks@.subrange(
                i + 1,
                n as int,
            ));
            assert(chunks@.subrange(i as int, n as int)[0] == chunks@[i as int]);
        }
        let ghost pre = parts@;
        match &chunks[i] {
            FStringChunk::Identifier(s) => {
                parts.push(s.clone());
                proof {
                    assert(parts@.map_values(|s: String| s@) =~= pre.map_values(|s: String| s@)
                        + seq![chunks@[i as int]->Identifier_0@]);
                }
            },
            FStringChunk::Literal(_) => {},
        }
        i = i + 1;
    }
    proof {
        assert(chunks@.subrange(n as int, n as int) =~= Seq::<FStringChunk>::empty());
        assert(go_format_args(chunks@) =~= parts@.map_values(|s: String| s@));
    }
    parts
}

} // verus!
