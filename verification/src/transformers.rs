//! The transform passes that run over a parsed program before code
//! generation.
//!
//! - Identifier qualification rewrites every function name (except the
//!   entry point) into a globally unique, path-derived name, and rewrites
//!   variable references accordingly.  The pass is idempotent by design: a
//!   name that already carries its module's prefix is left alone.
//! - Test-harness synthesis collects every function whose name carries the
//!   reserved test prefix and appends a synthesized module that imports and
//!   invokes each of them.
//! - Standard-library inclusion parses given library sources and appends
//!   them to the program.

use vstd::prelude::*;

use crate::expression::BlockExpression;
use crate::expression::Expression;
use crate::expression::ExpressionWithBlock;
use crate::expression::ExpressionWithoutBlock;
use crate::item::Item;
use crate::parser::ParseError;
use crate::parser::Parser;
use crate::program::Module;
use crate::program::Program;
use crate::scanner::recognized_char;
use crate::scanner::ScanError;
use crate::scanner::Scanner;
use crate::statement::Declaration;
use crate::statement::Statement;
use crate::strutil::has_prefix;
use crate::strutil::join_strings;
use crate::strutil::spec_is_prefix;
use crate::strutil::spec_join;
use crate::strutil::str_eq;
use crate::expression::view_exprs;
use crate::expression::view_expr_pairs;
use crate::expression::view_lambda_params;
use crate::item::view_params;
use crate::token::view_strings;
use crate::token::Literal;
use crate::token::Token;
use crate::token::TokenType;

verus! {

use vstd::string::StringExecFns;

/// Whether `p` is a prefix of `s`, segment for segment.
pub open spec fn segs_prefix(p: Seq<Seq<char>>, s: Seq<Seq<char>>) -> bool {
    p.len() <= s.len() && (forall|i: int| 0 <= i < p.len() ==> p[i] == #[trigger] s[i])
}

/// A name-to-name mapping with last-insertion-wins lookup, standing in for
/// the reference hash map of the rewrite passes.
pub struct NameMap {
    entries: Vec<(String, String)>,
}

/// The entries of a name map, oldest first.
pub open spec fn entries_view(es: Seq<(String, String)>) -> Seq<(Seq<char>, Seq<char>)> {
    Seq::new(
        es.len(),
        |i: int|
            if 0 <= i < es.len() {
                (es[i].0@, es[i].1@)
            } else {
                arbitrary()
            },
    )
}

/// Look a key up, newest entry first.
pub open spec fn lookup_name(es: Seq<(Seq<char>, Seq<char>)>, k: Seq<char>) -> Option<Seq<char>>
    decreases es.len(),
{
    if es.len() == 0 {
        Option::None
    } else if es.last().0 == k {
        Option::Some(es.last().1)
    } else {
        lookup_name(es.drop_last(), k)
    }
}

impl NameMap {
    /// The mapping's entries.
    pub closed spec fn view(&self) -> Seq<(Seq<char>, Seq<char>)> {
        entries_view(self.entries@)
    }

    pub fn new() -> (m: NameMap)
        ensures
            m@ == Seq::<(Seq<char>, Seq<char>)>::empty(),
    {
        let m = NameMap { entries: Vec::new() };
        proof {
            assert(m@ =~= Seq::<(Seq<char>, Seq<char>)>::empty());
        }
        m
    }

    /// Record that `key` now maps to `value`.
    pub fn insert(&mut self, key: String, value: String)
        ensures
            final(self)@ == old(self)@.push((key@, value@)),
    {
        let ghost pre = self@;
        self.entries.push((key, value));
        proof {
            assert(self@ =~= pre.push((self.entries@.last().0@, self.entries@.last().1@)));
        }
    }

    /// The newest value recorded for `key`, if any.
    pub fn get(&self, key: &str) -> (r: Option<String>)
        ensures
            match r {
                Option::Some(v) => lookup_name(self@, key@) == Option::Some(v@),
                Option::None => lookup_name(self@, key@) is None,
            },
    {
        let n = self.entries.len();
        let mut i: usize = n;
        proof {
            assert(self@.subrange(0, n as int) =~= self@);
        }
        while i > 0
            invariant
                n == self.entries@.len(),
                i <= n,
                lookup_name(self@, key@) == lookup_name(self@.subrange(0, i as int), key@),
            decreases i,
        {
            proof {
                assert(self@.subrange(0, i as int).last() == (self.entries@[i - 1].0@,
                self.entries@[i - 1].1@));
                assert(self@.subrange(0, i as int).drop_last() =~= self@.subrange(0, i - 1));
            }
            if str_eq(self.entries[i - 1].0.as_str(), key) {
                return Option::Some(self.entries[i - 1].1.clone());
            }
            i = i - 1;
        }
        proof {
            assert(self@.subrange(0, 0) =~= Seq::<(Seq<char>, Seq<char>)>::empty());
        }
        Option::None
    }
}

/// The qualified form of a function name: the path-derived prefix, an
/// underscore, then the name.  The entry point keeps its name, and a name
/// that already carries the prefix is left alone, which makes the pass
/// idempotent.
pub open spec fn spec_qualified_name(prefix: Seq<char>, name: Seq<char>) -> Seq<char> {
    if name == "main"@ || spec_is_prefix(prefix + "_"@, name) {
        name
    } else {
        prefix + "_"@ + name
    }
}

/// Qualifying a name twice prefixes it exactly once.
pub proof fn lemma_qualified_name_idempotent(prefix: Seq<char>, name: Seq<char>)
    ensures
        spec_qualified_name(prefix, spec_qualified_name(prefix, name)) == spec_qualified_name(
            prefix,
            name,
        ),
{
    let once = spec_qualified_name(prefix, name);
    if !(name == "main"@ || spec_is_prefix(prefix + "_"@, name)) {
        assert((prefix + "_"@ + name).subrange(0, (prefix + "_"@).len() as int) =~= prefix + "_"@);
        assert(spec_is_prefix(prefix + "_"@, once));
    }
}

/// How one item extends the rewrite map: a renamed function records its
/// old and new names; an import records its last segment against its fully
/// qualified path; nothing else contributes.
pub open spec fn step_map(
    prefix: Seq<char>,
    parent_rel: Seq<Seq<char>>,
    item: Item,
    map: Seq<(Seq<char>, Seq<char>)>,
) -> Seq<(Seq<char>, Seq<char>)> {
    match item {
        Item::Function { name, .. } => if name@ == "main"@ || spec_is_prefix(
            prefix + "_"@,
            name@,
        ) {
            map
        } else {
            map.push((name@, prefix + "_"@ + name@))
        },
        Item::Import { path } => if path@.len() == 0 {
            map
        } else {
            map.push(
                (
                    path@.last()@,
                    spec_join(parent_rel + view_strings(path@), "_"@),
                ),
            )
        },
        _ => map,
    }
}

/// How a token is rewritten: a mapped lexeme is replaced (and the value
/// becomes the new identifier); an unmapped token is untouched.
pub open spec fn token_renamed(
    map: Seq<(Seq<char>, Seq<char>)>,
    a: Token,
    b: Token,
) -> bool {
    match lookup_name(map, a.lexeme@) {
        Option::Some(nn) => {
            &&& b.token_type == a.token_type
            &&& b.lexeme@ == nn
            &&& b@.value == Option::Some(crate::token::LiteralV::Identifier(nn))
            &&& b.line == a.line
        },
        Option::None => b@ == a@,
    }
}

/// Whether `b` is `a` with every variable reference rewritten through
/// `map`.  Traversal order and coverage follow the tree walker: tag
/// attributes and interpolation chunks are not entered.
pub open spec fn expression_rewritten(
    map: Seq<(Seq<char>, Seq<char>)>,
    a: Expression,
    b: Expression,
) -> bool
    decreases a, 1int,
{
    match a {
        Expression::WithBlock(x) => b matches Expression::WithBlock(y) && ewb_rewritten(map, x, y),
        Expression::WithoutBlock(x) => b matches Expression::WithoutBlock(y) && ewob_rewritten(
            map,
            x,
            y,
        ),
    }
}

/// Pairwise rewriting of expression sequences.
pub open spec fn expressions_rewritten(
    map: Seq<(Seq<char>, Seq<char>)>,
    a: Seq<Expression>,
    b: Seq<Expression>,
) -> bool
    decreases a, 2int,
{
    a.len() == b.len() && (forall|i: int|
        0 <= i < a.len() ==> expression_rewritten(map, #[trigger] a[i], #[trigger] b[i]))
}

/// Pairwise rewriting of statement sequences.
pub open spec fn statements_rewritten(
    map: Seq<(Seq<char>, Seq<char>)>,
    a: Seq<Statement>,
    b: Seq<Statement>,
) -> bool
    decreases a, 2int,
{
    a.len() == b.len() && (forall|i: int|
        0 <= i < a.len() ==> statement_rewritten(map, #[trigger] a[i], #[trigger] b[i]))
}

/// Whether `b` is the block `a` with its statements and tail rewritten.
pub open spec fn block_rewritten(
    map: Seq<(Seq<char>, Seq<char>)>,
    a: BlockExpression,
    b: BlockExpression,
) -> bool
    decreases a, 3int,
{
    &&& statements_rewritten(map, a.statements@, b.statements@)
    &&& match a.expr {
        Option::Some(x) => b.expr matches Option::Some(y) && ewob_rewritten(map, x, y),
        Option::None => b.expr is None,
    }
}

/// Whether `b` is the block-ended expression `a`, rewritten.
pub open spec fn ewb_rewritten(
    map: Seq<(Seq<char>, Seq<char>)>,
    a: ExpressionWithBlock,
    b: ExpressionWithBlock,
) -> bool
    decreases a, 4int,
{
    match a {
        ExpressionWithBlock::Block(x) => b matches ExpressionWithBlock::Block(y)
            && block_rewritten(map, *x, *y),
        ExpressionWithBlock::If { expr, then, else_branch } => b matches ExpressionWithBlock::If {
            expr: e2,
            then: t2,
            else_branch: el2,
        } && expression_rewritten(map, *expr, *e2) && block_rewritten(map, *then, *t2) && (match
            else_branch {
            Option::Some(x) => el2 matches Option::Some(y) && ewb_rewritten(map, *x, *y),
            Option::None => el2 is None,
        }),
    }
}

/// Whether `b` is the statement `a`, rewritten.
pub open spec fn statement_rewritten(
    map: Seq<(Seq<char>, Seq<char>)>,
    a: Statement,
    b: Statement,
) -> bool
    decreases a, 4int,
{
    match a {
        Statement::Print(x) => b matches Statement::Print(y) && expression_rewritten(map, x, y),
        Statement::Expression(x) => b matches Statement::Expression(y) && expression_rewritten(
            map,
            x,
            y,
        ),
        Statement::Let { declaration, expression, mutable } => b matches Statement::Let {
            declaration: d2,
            expression: e2,
            mutable: m2,
        } && d2@ == declaration@ && m2 == mutable && expression_rewritten(map, expression, *&e2),
        Statement::AssertEq(x1, x2) => b matches Statement::AssertEq(y1, y2)
            && expression_rewritten(map, x1, y1) && expression_rewritten(map, x2, y2),
        Statement::RunTest { test_name, function_name } => b matches Statement::RunTest {
            test_name: t2,
            function_name: f2,
        } && t2@ == test_name@ && expression_rewritten(map, *function_name, *f2),
    }
}

/// Whether `b` is the block-free expression `a`, rewritten.
pub open spec fn ewob_rewritten(
    map: Seq<(Seq<char>, Seq<char>)>,
    a: ExpressionWithoutBlock,
    b: ExpressionWithoutBlock,
) -> bool
    decreases a, 4int,
{
    match a {
        ExpressionWithoutBlock::Binary { left, operator, right } => b
            matches ExpressionWithoutBlock::Binary { left: l2, operator: o2, right: r2 } && o2@
            == operator@ && ewob_rewritten(map, *left, *l2) && ewob_rewritten(map, *right, *r2),
        ExpressionWithoutBlock::Call { callee, arguments } => b
            matches ExpressionWithoutBlock::Call { callee: c2, arguments: a2 } && ewob_rewritten(
            map,
            *callee,
            *c2,
        ) && expressions_rewritten(map, arguments@, a2@),
        ExpressionWithoutBlock::Index { callee, index } => b
            matches ExpressionWithoutBlock::Index { callee: c2, index: i2 } && ewob_rewritten(
            map,
            *callee,
            *c2,
        ) && expression_rewritten(map, *index, *i2),
        ExpressionWithoutBlock::Field { callee, field } => b
            matches ExpressionWithoutBlock::Field { callee: c2, field: f2 } && f2@ == field@
            && ewob_rewritten(map, *callee, *c2),
        ExpressionWithoutBlock::Lambda { parameters, body } => b
            matches ExpressionWithoutBlock::Lambda { parameters: p2, body: b2 }
            && view_lambda_params(p2@) == view_lambda_params(parameters@)
            && expression_rewritten(map, *body, *b2),
        ExpressionWithoutBlock::Grouping(inner) => b matches ExpressionWithoutBlock::Grouping(i2)
            && ewob_rewritten(map, *inner, *i2),
        ExpressionWithoutBlock::Literal(_) => b@ == a@,
        ExpressionWithoutBlock::Unary { operator, right } => b
            matches ExpressionWithoutBlock::Unary { operator: o2, right: r2 } && o2@ == operator@
            && ewob_rewritten(map, *right, *r2),
        ExpressionWithoutBlock::Variable(t) => b matches ExpressionWithoutBlock::Variable(t2)
            && token_renamed(map, t, t2),
        ExpressionWithoutBlock::Assignment { name, value, operator } => b
            matches ExpressionWithoutBlock::Assignment { name: n2, value: v2, operator: o2 } && n2@
            == name@ && o2@ == operator@ && ewob_rewritten(map, *value, *v2),
        ExpressionWithoutBlock::Html { name, inner, attributes } => b
            matches ExpressionWithoutBlock::Html { name: n2, inner: i2, attributes: at2 } && n2@
            == name@ && view_expr_pairs(at2@) == view_expr_pairs(attributes@) && expressions_rewritten(
            map,
            inner@,
            i2@,
        ),
        ExpressionWithoutBlock::FString { .. } => b@ == a@,
        ExpressionWithoutBlock::Array { elements } => b matches ExpressionWithoutBlock::Array {
            elements: e2,
        } && expressions_rewritten(map, elements@, e2@),
        ExpressionWithoutBlock::Tuple { elements } => b matches ExpressionWithoutBlock::Tuple {
            elements: e2,
        } && expressions_rewritten(map, elements@, e2@),
        ExpressionWithoutBlock::Struct { name, fields } => b
            matches ExpressionWithoutBlock::Struct { name: n2, fields: f2 } && n2@ == name@
            && fields_rewritten(map, fields@, f2@),
        ExpressionWithoutBlock::RawJs(_) => b@ == a@,
        ExpressionWithoutBlock::RawGo(_) => b@ == a@,
    }
}

/// Pairwise rewriting of struct-literal fields: names kept, values
/// rewritten.
pub open spec fn fields_rewritten(
    map: Seq<(Seq<char>, Seq<char>)>,
    a: Seq<(Token, Expression)>,
    b: Seq<(Token, Expression)>,
) -> bool
    decreases a, 2int,
{
    a.len() == b.len() && (forall|i: int|
        0 <= i < a.len() ==> (#[trigger] b[i]).0@ == (#[trigger] a[i]).0@ && expression_rewritten(
            map,
            a[i].1,
            b[i].1,
        ))
}

/// Whether `b` is the item `a` qualified against `map` (the rewrite map in
/// force when `a` is reached).  A function's own map entry is visible
/// inside its body, so recursive references qualify too.
pub open spec fn item_qualified(
    prefix: Seq<char>,
    parent_rel: Seq<Seq<char>>,
    map: Seq<(Seq<char>, Seq<char>)>,
    a: Item,
    b: Item,
) -> bool {
    match a {
        Item::Function { name, parameters, body, return_type } => b matches Item::Function {
            name: n2,
            parameters: p2,
            body: b2,
            return_type: rt2,
        } && n2@ == spec_qualified_name(prefix, name@) && view_params(p2@) == view_params(
            parameters@,
        ) && (match return_type {
            Option::Some(t) => rt2 matches Option::Some(t2) && t2@ == t@,
            Option::None => rt2 is None,
        }) && block_rewritten(step_map(prefix, parent_rel, a, map), body, b2),
        Item::Component { name, parameters, body } => b matches Item::Component {
            name: n2,
            parameters: p2,
            body: b2,
        } && n2@ == name@ && view_params(p2@) == view_params(parameters@) && block_rewritten(
            map,
            body,
            b2,
        ),
        _ => b@ == a@,
    }
}

/// Whether `bs` is the item sequence `as_` qualified, threading the
/// rewrite map from item to item in source order.
pub open spec fn items_qualified(
    prefix: Seq<char>,
    parent_rel: Seq<Seq<char>>,
    map: Seq<(Seq<char>, Seq<char>)>,
    a: Seq<Item>,
    b: Seq<Item>,
) -> bool
    decreases a.len(),
{
    &&& a.len() == b.len()
    &&& (a.len() > 0 ==> item_qualified(prefix, parent_rel, map, a[0], b[0]) && items_qualified(
        prefix,
        parent_rel,
        step_map(prefix, parent_rel, a[0], map),
        a.drop_first(),
        b.drop_first(),
    ))
}

/// The path-derived prefix of a module: its root-relative segments joined
/// with underscores.
pub open spec fn module_prefix(root: Seq<Seq<char>>, path: Seq<Seq<char>>) -> Seq<char> {
    spec_join(path.subrange(root.len() as int, path.len() as int), "_"@)
}

/// The root-relative directory segments of a module (its path without the
/// final file-stem segment).
pub open spec fn module_parent_rel(root: Seq<Seq<char>>, path: Seq<Seq<char>>) -> Seq<Seq<char>> {
    path.subrange(root.len() as int, path.len() - 1)
}

/// Whether `b` is the module `a` with its items qualified.
pub open spec fn module_qualified(root: Seq<Seq<char>>, a: Module, b: Module) -> bool {
    let pathv = view_strings(a.path@);
    &&& view_strings(b.path@) == pathv
    &&& items_qualified(
        module_prefix(root, pathv),
        module_parent_rel(root, pathv),
        Seq::empty(),
        a.items@,
        b.items@,
    )
}

/// Whether `b` is the program `a` with every module qualified (each module
/// starts from an empty rewrite map).
pub open spec fn program_qualified(root: Seq<Seq<char>>, a: Seq<Module>, b: Seq<Module>) -> bool {
    a.len() == b.len() && (forall|i: int|
        0 <= i < a.len() ==> module_qualified(root, #[trigger] a[i], #[trigger] b[i]))
}

/// Whether every module's path lies under the root and has at least one
/// segment of its own.
pub open spec fn paths_under_root(root: Seq<Seq<char>>, ms: Seq<Module>) -> bool {
    forall|i: int|
        0 <= i < ms.len() ==> segs_prefix(root, view_strings((#[trigger] ms[i]).path@))
            && view_strings(ms[i].path@).len() > root.len()
}

/// Rewrite every mapped variable reference in one block-free expression.
/// Unchanged parts (tag attributes, interpolation chunks, raw payloads,
/// operator and name tokens) move through untouched.
fn rewrite_ewob(map: &NameMap, e: ExpressionWithoutBlock) -> (r: ExpressionWithoutBlock)
    ensures
        ewob_rewritten(map@, e, r),
    decreases e, 4int,
{
    match e {
        ExpressionWithoutBlock::Binary { left, operator, right } => {
            let l2 = rewrite_ewob(map, *left);
            let r2 = rewrite_ewob(map, *right);
            ExpressionWithoutBlock::Binary {
                left: Box::new(l2),
                operator,
                right: Box::new(r2),
            }
        },
        ExpressionWithoutBlock::Call { callee, arguments } => {
            let c2 = rewrite_ewob(map, *callee);
            let a2 = rewrite_expressions(map, arguments);
            ExpressionWithoutBlock::Call { callee: Box::new(c2), arguments: a2 }
        },
        ExpressionWithoutBlock::Index { callee, index } => {
            let c2 = rewrite_ewob(map, *callee);
            let i2 = rewrite_expression(map, *index);
            ExpressionWithoutBlock::Index { callee: Box::new(c2), index: Box::new(i2) }
        },
        ExpressionWithoutBlock::Field { callee, field } => {
            let c2 = rewrite_ewob(map, *callee);
            ExpressionWithoutBlock::Field { callee: Box::new(c2), field }
        },
        ExpressionWithoutBlock::Lambda { parameters, body } => {
            let b2 = rewrite_expression(map, *body);
            ExpressionWithoutBlock::Lambda { parameters, body: Box::new(b2) }
        },
        ExpressionWithoutBlock::Grouping(inner) => {
            let i2 = rewrite_ewob(map, *inner);
            ExpressionWithoutBlock::Grouping(Box::new(i2))
        },
        ExpressionWithoutBlock::Literal(l) => ExpressionWithoutBlock::Literal(l),
        ExpressionWithoutBlock::Unary { operator, right } => {
            let r2 = rewrite_ewob(map, *right);
            ExpressionWithoutBlock::Unary { operator, right: Box::new(r2) }
        },
        ExpressionWithoutBlock::Variable(t) => {
            match map.get(t.lexeme.as_str()) {
                Option::Some(nn) => {
                    let t2 = Token {
                        token_type: t.token_type,
                        lexeme: nn.clone(),
                        value: Option::Some(Literal::Identifier(nn)),
                        line: t.line,
                    };
                    ExpressionWithoutBlock::Variable(t2)
                },
                Option::None => ExpressionWithoutBlock::Variable(t),
            }
        },
        ExpressionWithoutBlock::Assignment { name, value, operator } => {
            let v2 = rewrite_ewob(map, *value);
            ExpressionWithoutBlock::Assignment { name, value: Box::new(v2), operator }
        },
        ExpressionWithoutBlock::Html { name, inner, attributes } => {
            let i2 = rewrite_expressions(map, inner);
            ExpressionWithoutBlock::Html { name, inner: i2, attributes }
        },
        ExpressionWithoutBlock::FString { chunks } => ExpressionWithoutBlock::FString { chunks },
        ExpressionWithoutBlock::Array { elements } => ExpressionWithoutBlock::Array {
            elements: rewrite_expressions(map, elements),
        },
        ExpressionWithoutBlock::Tuple { elements } => ExpressionWithoutBlock::Tuple {
            elements: rewrite_expressions(map, elements),
        },
        ExpressionWithoutBlock::Struct { name, fields } => ExpressionWithoutBlock::Struct {
            name,
            fields: rewrite_fields(map, fields),
        },
        ExpressionWithoutBlock::RawJs(c) => ExpressionWithoutBlock::RawJs(c),
        ExpressionWithoutBlock::RawGo(c) => ExpressionWithoutBlock::RawGo(c),
    }
}

/// Rewrite one expression of either kind.
fn rewrite_expression(map: &NameMap, e: Expression) -> (r: Expression)
    ensures
        expression_rewritten(map@, e, r),
    decreases e, 5int,
{
    match e {
        Expression::WithBlock(x) => Expression::WithBlock(rewrite_ewb(map, x)),
        Expression::WithoutBlock(x) => Expression::WithoutBlock(rewrite_ewob(map, x)),
    }
}

/// Rewrite a sequence of expressions, in order.
#[verifier::loop_isolation(false)]
fn rewrite_expressions(map: &NameMap, es: Vec<Expression>) -> (r: Vec<Expression>)
    ensures
        expressions_rewritten(map@, es@, r@),
    decreases es, 6int,
{
    let ghost whole = es;
    let ghost original = es@;
    let mut rest = es;
    let mut out: Vec<Expression> = Vec::new();
    while rest.len() > 0
        invariant
            out@.len() + rest@.len() == original.len(),
            rest@ =~= original.subrange(out@.len() as int, original.len() as int),
            forall|k: int|
                0 <= k < out@.len() ==> expression_rewritten(
                    map@,
                    #[trigger] original[k],
                    #[trigger] out@[k],
                ),
        decreases rest@.len(),
    {
        let x = rest.remove(0);
        proof {
            assert(x == original[out@.len() as int]);
            assert(decreases_to!(whole => whole@));
            assert(decreases_to!(whole@ => whole@[out@.len() as int]));
        }
        let r = rewrite_expression(map, x);
        out.push(r);
        proof {
            assert(rest@ =~= original.subrange(out@.len() as int, original.len() as int));
        }
    }
    out
}

/// Rewrite the value of every struct-literal field, in order.
#[verifier::loop_isolation(false)]
fn rewrite_fields(map: &NameMap, fs: Vec<(Token, Expression)>) -> (r: Vec<(Token, Expression)>)
    ensures
        fields_rewritten(map@, fs@, r@),
    decreases fs, 6int,
{
    let ghost whole = fs;
    let ghost original = fs@;
    let mut rest = fs;
    let mut out: Vec<(Token, Expression)> = Vec::new();
    while rest.len() > 0
        invariant
            out@.len() + rest@.len() == original.len(),
            rest@ =~= original.subrange(out@.len() as int, original.len() as int),
            forall|k: int|
                0 <= k < out@.len() ==> (#[trigger] out@[k]).0@ == (#[trigger] original[k]).0@
                    && expression_rewritten(map@, original[k].1, out@[k].1),
        decreases rest@.len(),
    {
        let (t, x) = rest.remove(0);
        proof {
            assert((t, x) == original[out@.len() as int]);
            assert(decreases_to!(whole => whole@));
            assert(decreases_to!(whole@ => whole@[out@.len() as int]));
            assert(decreases_to!(whole@[out@.len() as int] => whole@[out@.len() as int].1));
        }
        let r = rewrite_expression(map, x);
        out.push((t, r));
        proof {
            assert(rest@ =~= original.subrange(out@.len() as int, original.len() as int));
        }
    }
    out
}

/// Rewrite a block-ended expression.
fn rewrite_ewb(map: &NameMap, e: ExpressionWithBlock) -> (r: ExpressionWithBlock)
    ensures
        ewb_rewritten(map@, e, r),
    decreases e, 4int,
{
    match e {
        ExpressionWithBlock::Block(b) => ExpressionWithBlock::Block(
            Box::new(rewrite_block(map, *b)),
        ),
        ExpressionWithBlock::If { expr, then, else_branch } => {
            let e2 = rewrite_expression(map, *expr);
            let t2 = rewrite_block(map, *then);
            let el2 = match else_branch {
                Option::Some(x) => Option::Some(Box::new(rewrite_ewb(map, *x))),
                Option::None => Option::None,
            };
            ExpressionWithBlock::If { expr: Box::new(e2), then: Box::new(t2), else_branch: el2 }
        },
    }
}

/// Rewrite a block: its statements and its tail expression.
#[verifier::loop_isolation(false)]
fn rewrite_block(map: &NameMap, b: BlockExpression) -> (r: BlockExpression)
    ensures
        block_rewritten(map@, b, r),
    decreases b, 3int,
{
    let ghost whole = b;
    let BlockExpression { statements, expr } = b;
    let ghost original = statements@;
    let mut rest = statements;
    let mut out: Vec<Statement> = Vec::new();
    while rest.len() > 0
        invariant
            out@.len() + rest@.len() == original.len(),
            rest@ =~= original.subrange(out@.len() as int, original.len() as int),
            forall|k: int|
                0 <= k < out@.len() ==> statement_rewritten(
                    map@,
                    #[trigger] original[k],
                    #[trigger] out@[k],
                ),
        decreases rest@.len(),
    {
        let x = rest.remove(0);
        proof {
            assert(x == original[out@.len() as int]);
            assert(decreases_to!(whole => whole.statements));
            assert(decreases_to!(whole.statements => whole.statements@));
            assert(decreases_to!(whole.statements@ => whole.statements@[out@.len() as int]));
        }
        let r = rewrite_statement(map, x);
        out.push(r);
        proof {
            assert(rest@ =~= original.subrange(out@.len() as int, original.len() as int));
        }
    }
    let expr2 = match expr {
        Option::Some(x) => Option::Some(rewrite_ewob(map, x)),
        Option::None => Option::None,
    };
    BlockExpression { statements: out, expr: expr2 }
}

/// Rewrite one statement.
fn rewrite_statement(map: &NameMap, s: Statement) -> (r: Statement)
    ensures
        statement_rewritten(map@, s, r),
    decreases s, 5int,
{
    match s {
        Statement::Print(e) => Statement::Print(rewrite_expression(map, e)),
        Statement::Expression(e) => Statement::Expression(rewrite_expression(map, e)),
        Statement::Let { declaration, expression, mutable } => {
            let e2 = rewrite_expression(map, expression);
            Statement::Let { declaration, expression: e2, mutable }
        },
        Statement::AssertEq(l, r0) => Statement::AssertEq(
            rewrite_expression(map, l),
            rewrite_expression(map, r0),
        ),
        Statement::RunTest { test_name, function_name } => {
            let f2 = rewrite_expression(map, *function_name);
            Statement::RunTest { test_name, function_name: Box::new(f2) }
        },
    }
}


/// The rewrite map after the first `k` items of a module.
pub open spec fn map_at(
    prefix: Seq<char>,
    parent_rel: Seq<Seq<char>>,
    items: Seq<Item>,
    k: int,
) -> Seq<(Seq<char>, Seq<char>)>
    decreases k,
{
    if k <= 0 {
        Seq::empty()
    } else {
        step_map(prefix, parent_rel, items[k - 1], map_at(prefix, parent_rel, items, k - 1))
    }
}

/// Pointwise qualification (each item against the map in force when it is
/// reached) gives the threaded item-sequence relation.
proof fn lemma_items_qualified_from_pointwise(
    prefix: Seq<char>,
    parent_rel: Seq<Seq<char>>,
    a: Seq<Item>,
    b: Seq<Item>,
    j: int,
)
    requires
        0 <= j <= a.len(),
        a.len() == b.len(),
        forall|k: int|
            j <= k < a.len() ==> item_qualified(
                prefix,
                parent_rel,
                map_at(prefix, parent_rel, a, k),
                #[trigger] a[k],
                #[trigger] b[k],
            ),
    ensures
        items_qualified(
            prefix,
            parent_rel,
            map_at(prefix, parent_rel, a, j),
            a.subrange(j, a.len() as int),
            b.subrange(j, b.len() as int),
        ),
    decreases a.len() - j,
{
    let asub = a.subrange(j, a.len() as int);
    let bsub = b.subrange(j, b.len() as int);
    if j < a.len() {
        lemma_items_qualified_from_pointwise(prefix, parent_rel, a, b, j + 1);
        assert(asub[0] == a[j]);
        assert(bsub[0] == b[j]);
        assert(asub.drop_first() =~= a.subrange(j + 1, a.len() as int));
        assert(bsub.drop_first() =~= b.subrange(j + 1, b.len() as int));
        assert(step_map(prefix, parent_rel, a[j], map_at(prefix, parent_rel, a, j)) == map_at(
            prefix,
            parent_rel,
            a,
            j + 1,
        ));
    }
}

/// Qualify one item against the current rewrite map, extending the map as
/// the item demands.
#[verifier::loop_isolation(false)]
fn qualify_item(prefix: &String, parent_rel: &Vec<String>, map: &mut NameMap, item: Item) -> (r:
    Item)
    ensures
        item_qualified(prefix@, view_strings(parent_rel@), old(map)@, item, r),
        final(map)@ == step_map(prefix@, view_strings(parent_rel@), item, old(map)@),
    decreases item,
{
    match item {
        Item::Function { name, parameters, body, return_type } => {
            let mut prefixed = prefix.clone();
            prefixed.append("_");
            let keep = str_eq(name.as_str(), "main") || has_prefix(
                name.as_str(),
                prefixed.as_str(),
            );
            let new_name = if keep {
                name
            } else {
                let ghost namev = name@;
                let mut nn = prefixed;
                nn.append(name.as_str());
                proof {
                    assert(nn@ =~= prefix@ + "_"@ + namev);
                }
                map.insert(name, nn.clone());
                nn
            };
            let body2 = rewrite_block(map, body);
            Item::Function { name: new_name, parameters, body: body2, return_type }
        },
        Item::Component { name, parameters, body } => {
            let body2 = rewrite_block(map, body);
            Item::Component { name, parameters, body: body2 }
        },
        Item::Import { path } => {
            if path.len() > 0 {
                let last = path[path.len() - 1].clone();
                let mut segs: Vec<String> = Vec::new();
                let n1 = parent_rel.len();
                let mut i: usize = 0;
                while i < n1
                    invariant
                        i <= n1,
                        segs@.len() == i,
                        forall|k: int| 0 <= k < i ==> (#[trigger] segs@[k])@ == parent_rel@[k]@,
                    decreases n1 - i,
                {
                    segs.push(parent_rel[i].clone());
                    i = i + 1;
                }
                let n2 = path.len();
                let mut j: usize = 0;
                while j < n2
                    invariant
                        j <= n2,
                        segs@.len() == n1 + j,
                        forall|k: int| 0 <= k < n1 ==> (#[trigger] segs@[k])@ == parent_rel@[k]@,
                        forall|k: int|
                            n1 <= k < n1 + j ==> (#[trigger] segs@[k])@ == path@[k - n1]@,
                    decreases n2 - j,
                {
                    segs.push(path[j].clone());
                    j = j + 1;
                }
                proof {
                    assert(view_strings(segs@) =~= view_strings(parent_rel@) + view_strings(
                        path@,
                    ));
                    assert(segs@.map_values(|x: String| x@) =~= view_strings(parent_rel@)
                        + view_strings(path@));
                }
                let full = join_strings(&segs, "_");
                map.insert(last, full);
            }
            Item::Import { path }
        },
        Item::TestRunner => Item::TestRunner,
        Item::Struct { name, fields } => Item::Struct { name, fields },
    }
}

/// Qualify every item of one module, threading the rewrite map through in
/// source order.
#[verifier::loop_isolation(false)]
fn qualify_module(root: &Vec<String>, m: Module) -> (r: Module)
    requires
        segs_prefix(view_strings(root@), view_strings(m.path@)),
        view_strings(m.path@).len() > view_strings(root@).len(),
    ensures
        module_qualified(view_strings(root@), m, r),
{
    let ghost pathv = view_strings(m.path@);
    let Module { path, items } = m;
    let root_len = root.len();
    let mut stripped: Vec<String> = Vec::new();
    let mut i: usize = root_len;
    let n = path.len();
    while i < n
        invariant
            root_len <= i <= n,
            stripped@.len() == i - root_len,
            forall|k: int|
                0 <= k < i - root_len ==> (#[trigger] stripped@[k])@ == path@[root_len + k]@,
        decreases n - i,
    {
        stripped.push(path[i].clone());
        i = i + 1;
    }
    proof {
        assert(view_strings(stripped@) =~= pathv.subrange(root_len as int, pathv.len() as int));
        assert(stripped@.map_values(|x: String| x@) =~= pathv.subrange(
            root_len as int,
            pathv.len() as int,
        ));
    }
    let prefix = join_strings(&stripped, "_");
    let mut parent_rel: Vec<String> = Vec::new();
    let mut j: usize = root_len;
    while j + 1 < n
        invariant
            root_len <= j,
            j < n || j == root_len,
            j + 1 <= n || j == root_len,
            parent_rel@.len() == j - root_len,
            forall|k: int|
                0 <= k < j - root_len ==> (#[trigger] parent_rel@[k])@ == path@[root_len + k]@,
        decreases n - j,
    {
        parent_rel.push(path[j].clone());
        j = j + 1;
    }
    proof {
        assert(view_strings(parent_rel@) =~= module_parent_rel(view_strings(root@), pathv));
    }
    let ghost prefixv = module_prefix(view_strings(root@), pathv);
    let ghost parentv = module_parent_rel(view_strings(root@), pathv);
    let ghost original = items@;
    let mut map = NameMap::new();
    let mut rest = items;
    let mut out: Vec<Item> = Vec::new();
    while rest.len() > 0
        invariant
            out@.len() + rest@.len() == original.len(),
            rest@ =~= original.subrange(out@.len() as int, original.len() as int),
            prefix@ == prefixv,
            view_strings(parent_rel@) == parentv,
            map@ == map_at(prefixv, parentv, original, out@.len() as int),
            forall|k: int|
                0 <= k < out@.len() ==> item_qualified(
                    prefixv,
                    parentv,
                    map_at(prefixv, parentv, original, k),
                    #[trigger] original[k],
                    #[trigger] out@[k],
                ),
        decreases rest@.len(),
    {
        let item = rest.remove(0);
        proof {
            assert(item == original[out@.len() as int]);
        }
        let item2 = qualify_item(&prefix, &parent_rel, &mut map, item);
        out.push(item2);
        proof {
            assert(rest@ =~= original.subrange(out@.len() as int, original.len() as int));
        }
    }
    proof {
        lemma_items_qualified_from_pointwise(prefixv, parentv, original, out@, 0);
        assert(original.subrange(0, original.len() as int) =~= original);
        assert(out@.subrange(0, out@.len() as int) =~= out@);
    }
    Module { path, items: out }
}

/// Qualify every module of the program.
#[verifier::loop_isolation(false)]
fn qualify_program(root: &Vec<String>, program: &mut Program)
    requires
        paths_under_root(view_strings(root@), old(program)@),
    ensures
        program_qualified(view_strings(root@), old(program)@, final(program)@),
{
    let ghost original = program@;
    let mut out: Vec<Module> = Vec::new();
    while program.len() > 0
        invariant
            out@.len() + program@.len() == original.len(),
            program@ =~= original.subrange(out@.len() as int, original.len() as int),
            paths_under_root(view_strings(root@), original),
            forall|k: int|
                0 <= k < out@.len() ==> module_qualified(
                    view_strings(root@),
                    #[trigger] original[k],
                    #[trigger] out@[k],
                ),
        decreases program@.len(),
    {
        let m = program.remove(0);
        proof {
            assert(m == original[out@.len() as int]);
        }
        let m2 = qualify_module(root, m);
        out.push(m2);
        proof {
            assert(program@ =~= original.subrange(out@.len() as int, original.len() as int));
        }
    }
    *program = out;
}

/// The per-target identifier-qualification pass for the native backend.
/// Both backends share one qualification convention (plain joining with
/// underscores, no case change).
pub struct GoIdentifierTransformer {
    root: Vec<String>,
}

impl GoIdentifierTransformer {
    /// The root the pass strips from module paths.
    pub closed spec fn root_view(&self) -> Seq<Seq<char>> {
        view_strings(self.root@)
    }

    pub fn new(root: Vec<String>) -> (t: GoIdentifierTransformer)
        ensures
            t.root_view() == view_strings(root@),
    {
        GoIdentifierTransformer { root }
    }

    /// Qualify every function name and rewrite every mapped variable
    /// reference, module by module.
    pub fn transform(&mut self, program: &mut Program)
        requires
            paths_under_root(old(self).root_view(), old(program)@),
        ensures
            program_qualified(old(self).root_view(), old(program)@, final(program)@),
            final(self).root_view() == old(self).root_view(),
    {
        qualify_program(&self.root, program);
    }
}

/// The per-target identifier-qualification pass for the script backend; it
/// applies the same convention as the native one.
pub struct JsIdentifierTransformer {
    root: Vec<String>,
}

impl JsIdentifierTransformer {
    /// The root the pass strips from module paths.
    pub closed spec fn root_view(&self) -> Seq<Seq<char>> {
        view_strings(self.root@)
    }

    pub fn new(root: Vec<String>) -> (t: JsIdentifierTransformer)
        ensures
            t.root_view() == view_strings(root@),
    {
        JsIdentifierTransformer { root }
    }

    /// Qualify every function name and rewrite every mapped variable
    /// reference, module by module.
    pub fn transform(&mut self, program: &mut Program)
        requires
            paths_under_root(old(self).root_view(), old(program)@),
        ensures
            program_qualified(old(self).root_view(), old(program)@, final(program)@),
            final(self).root_view() == old(self).root_view(),
    {
        qualify_program(&self.root, program);
    }
}


/// The tests of one module's items: every function whose name carries the
/// reserved test prefix, tagged with the module's root-relative segments.
pub open spec fn collect_item_tests(stripped: Seq<Seq<char>>, items: Seq<Item>) -> Seq<
    (Seq<Seq<char>>, Seq<char>),
>
    decreases items.len(),
{
    if items.len() == 0 {
        Seq::empty()
    } else {
        let rest = collect_item_tests(stripped, items.drop_first());
        match items[0] {
            Item::Function { name, .. } => if spec_is_prefix("test_"@, name@) {
                seq![(stripped, name@)] + rest
            } else {
                rest
            },
            _ => rest,
        }
    }
}

/// The tests of a whole program, in module order.
pub open spec fn collect_tests(root: Seq<Seq<char>>, ms: Seq<Module>) -> Seq<
    (Seq<Seq<char>>, Seq<char>),
>
    decreases ms.len(),
{
    if ms.len() == 0 {
        Seq::empty()
    } else {
        collect_item_tests(
            strings_stripped(root, ms[0]),
            ms[0].items@,
        ) + collect_tests(root, ms.drop_first())
    }
}

/// A module's root-relative path segments.
pub open spec fn strings_stripped(root: Seq<Seq<char>>, m: Module) -> Seq<Seq<char>> {
    view_strings(m.path@).subrange(root.len() as int, view_strings(m.path@).len() as int)
}

/// The label of one collected test: its module segments joined with double
/// colons, then the test name.
pub open spec fn test_label(t: (Seq<Seq<char>>, Seq<char>)) -> Seq<char> {
    spec_join(t.0, "::"@) + "::"@ + t.1
}

/// What the synthesized harness module looks like, given the collected
/// tests: a test-runner marker, one import per test, and an entry-point
/// function holding exactly one labelled test invocation per test.
pub open spec fn harness_module_ok(
    root: Seq<Seq<char>>,
    tests: Seq<(Seq<Seq<char>>, Seq<char>)>,
    m: Module,
) -> bool {
    &&& view_strings(m.path@) == root.push("main"@)
    &&& m.items@.len() == tests.len() + 2
    &&& m.items@[0] is TestRunner
    &&& forall|j: int|
        0 <= j < tests.len() ==> ((#[trigger] m.items@[j + 1]) matches Item::Import { path }
            && view_strings(path@) == tests[j].0.push(tests[j].1))
    &&& m.items@.last() matches Item::Function { name, parameters, body, return_type } && name@
        == "main"@ && parameters@.len() == 0 && return_type is None && body.expr is None
        && body.statements@.len() == tests.len() && (forall|j: int|
        0 <= j < tests.len() ==> ({
            &&& (#[trigger] body.statements@[j]) matches Statement::RunTest {
                test_name,
                function_name,
            }
            &&& test_name.value matches Option::Some(Literal::String(label))
            &&& label@ == test_label(tests[j])
            &&& (*function_name) matches Expression::WithoutBlock(
                ExpressionWithoutBlock::Variable(t),
            )
            &&& t.lexeme@ == tests[j].1
        }))
}

/// Appending one module extends the collected tests by that module's own.
proof fn lemma_collect_tests_push(root: Seq<Seq<char>>, ms: Seq<Module>, m: Module)
    ensures
        collect_tests(root, ms.push(m)) == collect_tests(root, ms) + collect_item_tests(
            strings_stripped(root, m),
            m.items@,
        ),
    decreases ms.len(),
{
    let whole = ms.push(m);
    if ms.len() == 0 {
        assert(whole.drop_first() =~= Seq::<Module>::empty());
        assert(whole[0] == m);
        assert(collect_tests(root, whole.drop_first()) == Seq::<
            (Seq<Seq<char>>, Seq<char>),
        >::empty());
        assert(collect_tests(root, whole) =~= collect_item_tests(
            strings_stripped(root, m),
            m.items@,
        ));
        assert(collect_tests(root, ms) + collect_item_tests(strings_stripped(root, m), m.items@)
            =~= collect_item_tests(strings_stripped(root, m), m.items@));
    } else {
        assert(whole.drop_first() =~= ms.drop_first().push(m));
        lemma_collect_tests_push(root, ms.drop_first(), m);
        assert(whole[0] == ms[0]);
        assert(collect_tests(root, ms) + collect_item_tests(strings_stripped(root, m), m.items@)
            =~= collect_item_tests(strings_stripped(root, ms[0]), ms[0].items@) + (collect_tests(
            root,
            ms.drop_first(),
        ) + collect_item_tests(strings_stripped(root, m), m.items@)));
    }
}

/// Appending one item extends a module's collected tests by that item's
/// contribution.
proof fn lemma_collect_item_tests_push(stripped: Seq<Seq<char>>, items: Seq<Item>, it: Item)
    ensures
        collect_item_tests(stripped, items.push(it)) == collect_item_tests(stripped, items) + (
        match it {
            Item::Function { name, .. } => if spec_is_prefix("test_"@, name@) {
                seq![(stripped, name@)]
            } else {
                Seq::empty()
            },
            _ => Seq::empty(),
        }),
    decreases items.len(),
{
    let whole = items.push(it);
    let tail: Seq<(Seq<Seq<char>>, Seq<char>)> = match it {
        Item::Function { name, .. } => if spec_is_prefix("test_"@, name@) {
            seq![(stripped, name@)]
        } else {
            Seq::empty()
        },
        _ => Seq::empty(),
    };
    if items.len() == 0 {
        assert(whole.drop_first() =~= Seq::<Item>::empty());
        assert(whole[0] == it);
        assert(collect_item_tests(stripped, whole.drop_first()) == Seq::<
            (Seq<Seq<char>>, Seq<char>),
        >::empty());
        assert(collect_item_tests(stripped, whole) =~= tail);
        assert(collect_item_tests(stripped, items) + tail =~= tail);
    } else {
        assert(whole.drop_first() =~= items.drop_first().push(it));
        lemma_collect_item_tests_push(stripped, items.drop_first(), it);
        assert(whole[0] == items[0]);
        let head: Seq<(Seq<Seq<char>>, Seq<char>)> = match items[0] {
            Item::Function { name, .. } => if spec_is_prefix("test_"@, name@) {
                seq![(stripped, name@)]
            } else {
                Seq::empty()
            },
            _ => Seq::empty(),
        };
        assert(collect_item_tests(stripped, whole) =~= head + (collect_item_tests(
            stripped,
            items.drop_first(),
        ) + tail));
        assert(collect_item_tests(stripped, items) + tail =~= head + (collect_item_tests(
            stripped,
            items.drop_first(),
        ) + tail));
    }
}

/// The test-harness synthesis pass: it discovers every test-prefixed
/// function and appends a synthesized module that imports and invokes each
/// one.  It must run before identifier qualification so the generated
/// references are qualified like everything else.
pub struct TestRunnerTransformer {
    tests: Vec<(Vec<String>, String)>,
    root: Vec<String>,
}

impl TestRunnerTransformer {
    /// The root the pass strips from module paths.
    pub closed spec fn root_view(&self) -> Seq<Seq<char>> {
        view_strings(self.root@)
    }

    pub fn new(root: Vec<String>) -> (t: TestRunnerTransformer)
        ensures
            t.root_view() == view_strings(root@),
    {
        TestRunnerTransformer { tests: Vec::new(), root }
    }

    /// Collect every test and append the synthesized harness module.
    #[verifier::loop_isolation(false)]
    #[verifier::rlimit(100)]
    pub fn transform(&mut self, program: &mut Program)
        requires
            forall|i: int|
                0 <= i < old(program)@.len() ==> segs_prefix(
                    old(self).root_view(),
                    view_strings((#[trigger] old(program)@[i]).path@),
                ),
        ensures
            final(program)@.len() == old(program)@.len() + 1,
            forall|i: int|
                0 <= i < old(program)@.len() ==> final(program)@[i] == #[trigger] old(
                    program,
                )@[i],
            harness_module_ok(
                old(self).root_view(),
                collect_tests(old(self).root_view(), old(program)@),
                final(program)@.last(),
            ),
    {
        let ghost rootv = self.root_view();
        let ghost original = program@;
        let mut collected: Vec<(Vec<String>, String)> = Vec::new();
        let n = program.len();
        let mut i: usize = 0;
        proof {
            assert(original.subrange(0, 0) =~= Seq::<Module>::empty());
            assert(collected_view(collected@) =~= collect_tests(rootv, original.subrange(0, 0)));
        }
        while i < n
            invariant
                n == program@.len(),
                program@ == original,
                i <= n,
                collected_view(collected@) == collect_tests(rootv, original.subrange(0, i as int)),
            decreases n - i,
        {
            let module = &program[i];
            let root_len = self.root.len();
            let path_len = module.path.len();
            let mut stripped: Vec<String> = Vec::new();
            let mut k: usize = root_len;
            while k < path_len
                invariant
                    root_len <= k <= path_len,
                    path_len == module.path@.len(),
                    stripped@.len() == k - root_len,
                    forall|q: int|
                        0 <= q < k - root_len ==> (#[trigger] stripped@[q])@ == module.path@[
                            root_len + q
                        ]@,
                decreases path_len - k,
            {
                stripped.push(module.path[k].clone());
                k = k + 1;
            }
            proof {
                assert(view_strings(stripped@) =~= strings_stripped(rootv, original[i as int]));
            }
            let n_items = module.items.len();
            let mut j: usize = 0;
            proof {
                assert(original[i as int].items@.subrange(0, 0) =~= Seq::<Item>::empty());
                assert(collected_view(collected@) + collect_item_tests(
                    view_strings(stripped@),
                    original[i as int].items@.subrange(0, 0),
                ) =~= collected_view(collected@));
            }
            while j < n_items
                invariant
                    n == program@.len(),
                    program@ == original,
                    i < n,
                    n_items == original[i as int].items@.len(),
                    j <= n_items,
                    view_strings(stripped@) == strings_stripped(rootv, original[i as int]),
                    collected_view(collected@) == collect_tests(
                        rootv,
                        original.subrange(0, i as int),
                    ) + collect_item_tests(
                        view_strings(stripped@),
                        original[i as int].items@.subrange(0, j as int),
                    ),
                decreases n_items - j,
            {
                let is_test: bool = match &program[i].items[j] {
                    Item::Function { name, .. } => has_prefix(name.as_str(), "test_"),
                    _ => false,
                };
                let ghost pre = collected@;
                if is_test {
                    let name = match &program[i].items[j] {
                        Item::Function { name, .. } => name.clone(),
                        _ => String::new(),
                    };
                    let segs = clone_strings(&stripped);
                    collected.push((segs, name));
                }
                proof {
                    lemma_collect_item_tests_push(
                        view_strings(stripped@),
                        original[i as int].items@.subrange(0, j as int),
                        original[i as int].items@[j as int],
                    );
                    assert(original[i as int].items@.subrange(0, j + 1)
                        =~= original[i as int].items@.subrange(0, j as int).push(
                        original[i as int].items@[j as int],
                    ));
                    if is_test {
                        assert(collected_view(collected@) =~= collected_view(pre).push(
                            (view_strings(stripped@), collected@.last().1@),
                        ));
                    }
                    assert(collected_view(collected@) =~= collect_tests(
                        rootv,
                        original.subrange(0, i as int),
                    ) + collect_item_tests(
                        view_strings(stripped@),
                        original[i as int].items@.subrange(0, j + 1),
                    ));
                }
                j = j + 1;
            }
            proof {
                assert(original[i as int].items@.subrange(0, n_items as int) =~= original[
                    i as int
                ].items@);
                assert(original.subrange(0, i + 1) =~= original.subrange(0, i as int).push(
                    original[i as int],
                ));
                lemma_collect_tests_push_prefix(rootv, original, i as int);
            }
            i = i + 1;
        }
        proof {
            assert(original.subrange(0, n as int) =~= original);
        }
        self.tests = collected;
        let harness = self.build_harness();
        program.push(harness);
    }

    /// Build the synthesized harness module from the collected tests.
    #[verifier::loop_isolation(false)]
    #[verifier::rlimit(100)]
    fn build_harness(&self) -> (m: Module)
        ensures
            harness_module_ok(self.root_view(), collected_view(self.tests@), m),
    {
        let ghost testsv = collected_view(self.tests@);
        let mut items: Vec<Item> = Vec::new();
        items.push(Item::TestRunner);
        let n = self.tests.len();
        let mut i: usize = 0;
        while i < n
            invariant
                n == self.tests@.len(),
                i <= n,
                items@.len() == i + 1,
                items@[0] is TestRunner,
                forall|j: int|
                    0 <= j < i ==> ((#[trigger] items@[j + 1]) matches Item::Import { path }
                        && view_strings(path@) == testsv[j].0.push(testsv[j].1)),
            decreases n - i,
        {
            let mut path = clone_strings(&self.tests[i].0);
            path.push(self.tests[i].1.clone());
            proof {
                assert(view_strings(path@) =~= testsv[i as int].0.push(testsv[i as int].1));
            }
            items.push(Item::Import { path });
            i = i + 1;
        }
        let mut statements: Vec<Statement> = Vec::new();
        let mut k: usize = 0;
        while k < n
            invariant
                n == self.tests@.len(),
                k <= n,
                statements@.len() == k,
                forall|j: int|
                    0 <= j < k ==> ({
                        &&& (#[trigger] statements@[j]) matches Statement::RunTest {
                            test_name,
                            function_name,
                        }
                        &&& test_name.value matches Option::Some(Literal::String(label))
                        &&& label@ == test_label(testsv[j])
                        &&& (*function_name) matches Expression::WithoutBlock(
                            ExpressionWithoutBlock::Variable(t),
                        )
                        &&& t.lexeme@ == testsv[j].1
                    }),
            decreases n - k,
        {
            let mut label = join_strings(&self.tests[k].0, "::");
            label.append("::");
            label.append(self.tests[k].1.as_str());
            proof {
                assert(self.tests@[k as int].0@.map_values(|x: String| x@) =~= testsv[
                    k as int
                ].0);
                assert(label@ =~= test_label(testsv[k as int]));
            }
            let mut lexeme = String::from_str("\"");
            lexeme.append(label.as_str());
            lexeme.append("\"");
            let test_name = Token {
                token_type: TokenType::String,
                lexeme,
                value: Option::Some(Literal::String(label)),
                line: 0,
            };
            let fn_token = Token {
                token_type: TokenType::Identifier,
                lexeme: self.tests[k].1.clone(),
                value: Option::Some(Literal::Identifier(self.tests[k].1.clone())),
                line: 0,
            };
            let call = Expression::WithoutBlock(ExpressionWithoutBlock::Variable(fn_token));
            statements.push(
                Statement::RunTest { test_name, function_name: Box::new(call) },
            );
            k = k + 1;
        }
        let body = BlockExpression { statements, expr: Option::None };
        items.push(
            Item::Function {
                name: String::from_str("main"),
                parameters: Vec::new(),
                body,
                return_type: Option::None,
            },
        );
        let mut path = clone_strings(&self.root);
        path.push(String::from_str("main"));
        proof {
            reveal_strlit("main");
            assert(view_strings(path@) =~= self.root_view().push("main"@));
        }
        Module { path, items }
    }
}

/// The collected tests' values.
pub open spec fn collected_view(ts: Seq<(Vec<String>, String)>) -> Seq<
    (Seq<Seq<char>>, Seq<char>),
> {
    Seq::new(
        ts.len(),
        |i: int|
            if 0 <= i < ts.len() {
                (view_strings(ts[i].0@), ts[i].1@)
            } else {
                arbitrary()
            },
    )
}

/// Collecting over one more module appends that module's tests.
proof fn lemma_collect_tests_push_prefix(root: Seq<Seq<char>>, ms: Seq<Module>, i: int)
    requires
        0 <= i < ms.len(),
    ensures
        collect_tests(root, ms.subrange(0, i + 1)) == collect_tests(root, ms.subrange(0, i))
            + collect_item_tests(strings_stripped(root, ms[i]), ms[i].items@),
{
    assert(ms.subrange(0, i + 1) =~= ms.subrange(0, i).push(ms[i]));
    lemma_collect_tests_push(root, ms.subrange(0, i), ms[i]);
}

/// A copy of a string vector with equal values.
fn clone_strings(v: &Vec<String>) -> (r: Vec<String>)
    ensures
        view_strings(r@) == view_strings(v@),
        r@.len() == v@.len(),
{
    let mut out: Vec<String> = Vec::new();
    let n = v.len();
    let mut i: usize = 0;
    while i < n
        invariant
            n == v@.len(),
            i <= n,
            out@.len() == i,
            forall|k: int| 0 <= k < i ==> (#[trigger] out@[k])@ == v@[k]@,
        decreases n - i,
    {
        out.push(v[i].clone());
        i = i + 1;
    }
    proof {
        assert(view_strings(out@) =~= view_strings(v@));
    }
    out
}

/// One library source file handed to the inclusion pass: its text and its
/// path segments relative to the library directory (extension-free).
pub struct ModuleSource {
    pub contents: String,
    pub relative_path: Vec<String>,
}

/// A failure while loading a library source: a lexical or a syntax error.
#[derive(Debug)]
pub enum LoadError {
    Scan(ScanError),
    Parse(ParseError),
}

/// The standard-library inclusion pass: it parses the given library
/// sources and appends them to the program, under `root`/`std`.
pub struct StandardLibraryTransformer {
    root: Vec<String>,
}

impl StandardLibraryTransformer {
    /// The project root the appended modules are filed under.
    pub closed spec fn root_view(&self) -> Seq<Seq<char>> {
        view_strings(self.root@)
    }

    pub fn new(root: Vec<String>) -> (t: StandardLibraryTransformer)
        ensures
            t.root_view() == view_strings(root@),
    {
        StandardLibraryTransformer { root }
    }

    /// Parse every source and append the resulting modules, in order.
    /// Fail-fast: the first lexical or syntax error is returned, with the
    /// program unchanged.
    #[verifier::loop_isolation(false)]
    #[verifier::rlimit(100)]
    pub fn transform(&mut self, program: &mut Program, sources: Vec<ModuleSource>) -> (r: Result<
        (),
        LoadError,
    >)
        requires
            forall|i: int|
                0 <= i < sources@.len() ==> (#[trigger] sources@[i]).contents@.len()
                    < usize::MAX,
        ensures
            r is Ok ==> final(program)@.len() == old(program)@.len() + sources@.len(),
            r is Ok ==> forall|i: int|
                0 <= i < old(program)@.len() ==> final(program)@[i] == #[trigger] old(
                    program,
                )@[i],
            r is Ok ==> forall|j: int|
                0 <= j < sources@.len() ==> view_strings(
                    (#[trigger] final(program)@[old(program)@.len() + j]).path@,
                ) =~= old(self).root_view().push("std"@) + view_strings(sources@[j].relative_path@),
            r is Err ==> final(program)@ == old(program)@,
            r matches Result::Err(LoadError::Scan(ScanError::UnexpectedCharacter {
                character,
                ..
            })) ==> !recognized_char(character) && (exists|s: int, p: int|
                0 <= s < sources@.len() && 0 <= p < sources@[s].contents@.len() && (#[trigger]
                sources@[s].contents@[p]) == character),
            r matches Result::Err(LoadError::Scan(ScanError::UnterminatedString { .. })) ==> (
            exists|s: int, p: int|
                {
                    &&& 0 <= s < sources@.len()
                    &&& 0 <= p < sources@[s].contents@.len()
                    &&& (((#[trigger] sources@[s].contents@[p]) == '"' && (forall|j: int|
                        p < j < sources@[s].contents@.len() ==> sources@[s].contents@[j] != '"'))
                        || (sources@[s].contents@[p] == '`' && (forall|j: int|
                        p < j < sources@[s].contents@.len() ==> sources@[s].contents@[j] != '`')))
                }),
            r matches Result::Err(LoadError::Scan(ScanError::UnknownRawEscape { lexeme, .. }))
                ==> lexeme@ != "@js"@ && lexeme@ != "@go"@,
    {
        let ghost original = program@;
        let ghost srcv = sources@;
        let mut modules: Vec<Module> = Vec::new();
        let mut rest = sources;
        let ghost rootv = self.root_view();
        while rest.len() > 0
            invariant
                program@ == original,
                modules@.len() + rest@.len() == srcv.len(),
                rest@ =~= srcv.subrange(modules@.len() as int, srcv.len() as int),
                forall|i: int|
                    0 <= i < srcv.len() ==> (#[trigger] srcv[i]).contents@.len() < usize::MAX,
                forall|j: int|
                    0 <= j < modules@.len() ==> view_strings((#[trigger] modules@[j]).path@)
                        =~= rootv.push("std"@) + view_strings(srcv[j].relative_path@),
            decreases rest@.len(),
        {
            let ghost j = modules@.len() as int;
            let source = rest.remove(0);
            proof {
                assert(source == srcv[j]);
            }
            let mut scanner = Scanner::new(source.contents);
            let tokens = match scanner.scan_tokens() {
                Result::Ok(t) => t,
                Result::Err(e) => {
                    proof {
                        assert(scanner.src() == sources@[j].contents@);
                    }
                    return Result::Err(LoadError::Scan(e));
                },
            };
            let mut path = clone_strings(&self.root);
            path.push(String::from_str("std"));
            let mut rel = source.relative_path;
            path.append(&mut rel);
            proof {
                reveal_strlit("std");
                assert(view_strings(path@) =~= rootv.push("std"@) + view_strings(
                    srcv[j].relative_path@,
                ));
            }
            let path_for_parser = clone_strings(&path);
            let mut parser = Parser::new(tokens, path_for_parser);
            let items = match parser.parse() {
                Result::Ok(items) => items,
                Result::Err(e) => {
                    return Result::Err(LoadError::Parse(e));
                },
            };
            modules.push(Module { path, items });
            proof {
                assert(rest@ =~= srcv.subrange(modules@.len() as int, srcv.len() as int));
            }
        }
        let mut to_add = modules;
        program.append(&mut to_add);
        Result::Ok(())
    }
}


/// Rewriting through an empty map relates every expression to itself.
proof fn lemma_empty_rewrite_reflexive_expression(e: Expression)
    ensures
        expression_rewritten(Seq::<(Seq<char>, Seq<char>)>::empty(), e, e),
    decreases e, 1int,
{
    match e {
        Expression::WithBlock(x) => lemma_empty_rewrite_reflexive_ewb(x),
        Expression::WithoutBlock(x) => lemma_empty_rewrite_reflexive_ewob(x),
    }
}

/// Rewriting through an empty map relates every block-ended expression to
/// itself.
proof fn lemma_empty_rewrite_reflexive_ewb(e: ExpressionWithBlock)
    ensures
        ewb_rewritten(Seq::<(Seq<char>, Seq<char>)>::empty(), e, e),
    decreases e, 4int,
{
    match e {
        ExpressionWithBlock::Block(b) => lemma_empty_rewrite_reflexive_block(*b),
        ExpressionWithBlock::If { expr, then, else_branch } => {
            lemma_empty_rewrite_reflexive_expression(*expr);
            lemma_empty_rewrite_reflexive_block(*then);
            match else_branch {
                Option::Some(x) => lemma_empty_rewrite_reflexive_ewb(*x),
                Option::None => {},
            }
        },
    }
}

/// Rewriting through an empty map relates every block to itself.
proof fn lemma_empty_rewrite_reflexive_block(b: BlockExpression)
    ensures
        block_rewritten(Seq::<(Seq<char>, Seq<char>)>::empty(), b, b),
    decreases b, 3int,
{
    assert forall|i: int| 0 <= i < b.statements@.len() implies statement_rewritten(
        Seq::<(Seq<char>, Seq<char>)>::empty(),
        #[trigger] b.statements@[i],
        #[trigger] b.statements@[i],
    ) by {
        lemma_empty_rewrite_reflexive_statement(b.statements@[i]);
    }
    assert(statements_rewritten(
        Seq::<(Seq<char>, Seq<char>)>::empty(),
        b.statements@,
        b.statements@,
    ));
    match b.expr {
        Option::Some(x) => lemma_empty_rewrite_reflexive_ewob(x),
        Option::None => {},
    }
}

/// Rewriting through an empty map relates every statement to itself.
proof fn lemma_empty_rewrite_reflexive_statement(s: Statement)
    ensures
        statement_rewritten(Seq::<(Seq<char>, Seq<char>)>::empty(), s, s),
    decreases s, 5int,
{
    match s {
        Statement::Print(x) => lemma_empty_rewrite_reflexive_expression(x),
        Statement::Expression(x) => lemma_empty_rewrite_reflexive_expression(x),
        Statement::Let { expression, .. } => lemma_empty_rewrite_reflexive_expression(expression),
        Statement::AssertEq(x1, x2) => {
            lemma_empty_rewrite_reflexive_expression(x1);
            lemma_empty_rewrite_reflexive_expression(x2);
        },
        Statement::RunTest { function_name, .. } => lemma_empty_rewrite_reflexive_expression(
            *function_name,
        ),
    }
}

/// Rewriting through an empty map relates every block-free expression to
/// itself.
#[verifier::rlimit(100)]
proof fn lemma_empty_rewrite_reflexive_ewob(e: ExpressionWithoutBlock)
    ensures
        ewob_rewritten(Seq::<(Seq<char>, Seq<char>)>::empty(), e, e),
    decreases e, 4int,
{
    match e {
        ExpressionWithoutBlock::Binary { left, right, .. } => {
            lemma_empty_rewrite_reflexive_ewob(*left);
            lemma_empty_rewrite_reflexive_ewob(*right);
        },
        ExpressionWithoutBlock::Call { callee, arguments } => {
            lemma_empty_rewrite_reflexive_ewob(*callee);
            assert forall|i: int| 0 <= i < arguments@.len() implies expression_rewritten(
                Seq::<(Seq<char>, Seq<char>)>::empty(),
                #[trigger] arguments@[i],
                #[trigger] arguments@[i],
            ) by {
                lemma_empty_rewrite_reflexive_expression(arguments@[i]);
            }
            assert(expressions_rewritten(
                Seq::<(Seq<char>, Seq<char>)>::empty(),
                arguments@,
                arguments@,
            ));
        },
        ExpressionWithoutBlock::Index { callee, index } => {
            lemma_empty_rewrite_reflexive_ewob(*callee);
            lemma_empty_rewrite_reflexive_expression(*index);
        },
        ExpressionWithoutBlock::Field { callee, .. } => {
            lemma_empty_rewrite_reflexive_ewob(*callee);
        },
        ExpressionWithoutBlock::Lambda { body, .. } => {
            lemma_empty_rewrite_reflexive_expression(*body);
        },
        ExpressionWithoutBlock::Grouping(inner) => {
            lemma_empty_rewrite_reflexive_ewob(*inner);
        },
        ExpressionWithoutBlock::Literal(_) => {},
        ExpressionWithoutBlock::Unary { right, .. } => {
            lemma_empty_rewrite_reflexive_ewob(*right);
        },
        ExpressionWithoutBlock::Variable(_) => {},
        ExpressionWithoutBlock::Assignment { value, .. } => {
            lemma_empty_rewrite_reflexive_ewob(*value);
        },
        ExpressionWithoutBlock::Html { inner, .. } => {
            assert forall|i: int| 0 <= i < inner@.len() implies expression_rewritten(
                Seq::<(Seq<char>, Seq<char>)>::empty(),
                #[trigger] inner@[i],
                #[trigger] inner@[i],
            ) by {
                lemma_empty_rewrite_reflexive_expression(inner@[i]);
            }
            assert(expressions_rewritten(
                Seq::<(Seq<char>, Seq<char>)>::empty(),
                inner@,
                inner@,
            ));
        },
        ExpressionWithoutBlock::FString { .. } => {},
        ExpressionWithoutBlock::Array { elements } => {
            assert forall|i: int| 0 <= i < elements@.len() implies expression_rewritten(
                Seq::<(Seq<char>, Seq<char>)>::empty(),
                #[trigger] elements@[i],
                #[trigger] elements@[i],
            ) by {
                lemma_empty_rewrite_reflexive_expression(elements@[i]);
            }
            assert(expressions_rewritten(
                Seq::<(Seq<char>, Seq<char>)>::empty(),
                elements@,
                elements@,
            ));
        },
        ExpressionWithoutBlock::Tuple { elements } => {
            assert forall|i: int| 0 <= i < elements@.len() implies expression_rewritten(
                Seq::<(Seq<char>, Seq<char>)>::empty(),
                #[trigger] elements@[i],
                #[trigger] elements@[i],
            ) by {
                lemma_empty_rewrite_reflexive_expression(elements@[i]);
            }
            assert(expressions_rewritten(
                Seq::<(Seq<char>, Seq<char>)>::empty(),
                elements@,
                elements@,
            ));
        },
        ExpressionWithoutBlock::Struct { fields, .. } => {
            assert forall|i: int| 0 <= i < fields@.len() implies (#[trigger] fields@[i]).0@
                == fields@[i].0@ && expression_rewritten(
                Seq::<(Seq<char>, Seq<char>)>::empty(),
                fields@[i].1,
                fields@[i].1,
            ) by {
                lemma_empty_rewrite_reflexive_expression(fields@[i].1);
            }
            assert(fields_rewritten(
                Seq::<(Seq<char>, Seq<char>)>::empty(),
                fields@,
                fields@,
            ));
        },
        ExpressionWithoutBlock::RawJs(_) => {},
        ExpressionWithoutBlock::RawGo(_) => {},
    }
}

/// Whether a module holds no import items.
pub open spec fn module_has_no_imports(m: Module) -> bool {
    forall|i: int| 0 <= i < m.items@.len() ==> !((#[trigger] m.items@[i]) is Import)
}

/// A qualified name satisfies the already-qualified guard, so qualifying
/// it again changes nothing.
proof fn lemma_qualified_name_guard(prefix: Seq<char>, name: Seq<char>)
    ensures
        spec_qualified_name(prefix, name) == "main"@ || spec_is_prefix(
            prefix + "_"@,
            spec_qualified_name(prefix, name),
        ),
{
    if !(name == "main"@ || spec_is_prefix(prefix + "_"@, name)) {
        assert((prefix + "_"@ + name).subrange(0, (prefix + "_"@).len() as int) =~= prefix
            + "_"@);
    }
}

/// A second qualification run relates every once-qualified item of an
/// import-free module to itself, against an empty rewrite map.
proof fn lemma_item_qualified_idempotent(
    prefix: Seq<char>,
    parent_rel: Seq<Seq<char>>,
    map: Seq<(Seq<char>, Seq<char>)>,
    a: Item,
    b: Item,
)
    requires
        item_qualified(prefix, parent_rel, map, a, b),
        !(a is Import),
    ensures
        item_qualified(
            prefix,
            parent_rel,
            Seq::<(Seq<char>, Seq<char>)>::empty(),
            b,
            b,
        ),
        step_map(prefix, parent_rel, b, Seq::<(Seq<char>, Seq<char>)>::empty()) == Seq::<
            (Seq<char>, Seq<char>),
        >::empty(),
        !(b is Import),
{
    match a {
        Item::Function { name, .. } => {
            lemma_qualified_name_guard(prefix, name@);
            lemma_qualified_name_idempotent(prefix, name@);
            match b {
                Item::Function { body, .. } => {
                    lemma_empty_rewrite_reflexive_block(body);
                },
                _ => {},
            }
        },
        Item::Component { .. } => {
            match b {
                Item::Component { body, .. } => {
                    lemma_empty_rewrite_reflexive_block(body);
                },
                _ => {},
            }
        },
        _ => {},
    }
}

/// A second qualification run relates the once-qualified items of an
/// import-free module to themselves.
proof fn lemma_items_qualified_idempotent(
    prefix: Seq<char>,
    parent_rel: Seq<Seq<char>>,
    map: Seq<(Seq<char>, Seq<char>)>,
    a: Seq<Item>,
    b: Seq<Item>,
)
    requires
        items_qualified(prefix, parent_rel, map, a, b),
        forall|i: int| 0 <= i < a.len() ==> !((#[trigger] a[i]) is Import),
    ensures
        items_qualified(prefix, parent_rel, Seq::<(Seq<char>, Seq<char>)>::empty(), b, b),
    decreases a.len(),
{
    if a.len() > 0 {
        lemma_item_qualified_idempotent(prefix, parent_rel, map, a[0], b[0]);
        assert(forall|i: int|
            0 <= i < a.drop_first().len() ==> !((#[trigger] a.drop_first()[i]) is Import));
        lemma_items_qualified_idempotent(
            prefix,
            parent_rel,
            step_map(prefix, parent_rel, a[0], map),
            a.drop_first(),
            b.drop_first(),
        );
        assert(b.drop_first()[0] == b[1] || b.len() <= 1);
    }
}

/// Identifier qualification is idempotent: once a program whose modules
/// hold no import items has been qualified, running the pass again relates
/// the result to itself, so every function name carries its module prefix
/// exactly once and no reference is rewritten twice.  (With import items
/// the second run rebuilds the import mappings; a program whose rewritten
/// names collide with an import's last segment could then change again, so
/// those inputs stay outside this statement.)
pub proof fn lemma_qualification_idempotent(root: Seq<Seq<char>>, a: Seq<Module>, b: Seq<Module>)
    requires
        program_qualified(root, a, b),
        forall|i: int| 0 <= i < a.len() ==> module_has_no_imports(#[trigger] a[i]),
    ensures
        program_qualified(root, b, b),
{
    assert forall|i: int| 0 <= i < b.len() implies module_qualified(
        root,
        #[trigger] b[i],
        #[trigger] b[i],
    ) by {
        assert(module_qualified(root, a[i], b[i]));
        lemma_items_qualified_idempotent(
            module_prefix(root, view_strings(a[i].path@)),
            module_parent_rel(root, view_strings(a[i].path@)),
            Seq::empty(),
            a[i].items@,
            b[i].items@,
        );
    }
}

} // verus!
