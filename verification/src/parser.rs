//! The recursive-descent parser: it consumes the scanner's token sequence
//! and produces the top-level items of one module.
//!
//! Expressions are parsed with an explicit precedence ladder (assignment,
//! equality, comparison, additive, multiplicative, unary, postfix, primary).
//! A context stack records whether parsing is inside an `if` condition: an
//! identifier followed by `{` is a struct literal everywhere except there,
//! where the brace starts the `if` body instead.
//!
//! Every grammar violation is a structural error carrying the offending
//! token and a message; the parser never recovers and never panics.

use vstd::prelude::*;

use crate::expression::BlockExpression;
use crate::expression::Expression;
use crate::expression::ExpressionWithBlock;
use crate::expression::ExpressionWithoutBlock;
use crate::expression::FStringChunk;
use crate::expression::LambdaParameter;
use crate::fstring::split_fstring;
use crate::item::Item;
use crate::item::Parameter;
use crate::item::StructField;
use crate::statement::Declaration;
use crate::statement::MaybeStatement;
use crate::statement::Statement;
use crate::strutil::str_eq;
use crate::token::Literal;
use crate::token::LiteralV;
use crate::token::Token;
use crate::token::TokenType;

verus! {

use vstd::string::StringExecFns;

/// The parsing context: inside an `if` condition, identifier-brace
/// sequences open the `if` body rather than a struct literal.
#[derive(Debug, PartialEq, Eq, Copy, Clone, Structural)]
pub enum ParseContext {
    Normal,
    IfCondition,
}

/// A structural syntax error: the offending token and what was expected.
#[derive(Debug)]
pub enum ParseError {
    SyntaxError(Token, String),
}

impl ParseError {
    /// The human-readable message carried by the error.
    pub fn message(&self) -> &String {
        match self {
            ParseError::SyntaxError(_, m) => m,
        }
    }

    /// The token at which parsing failed.
    pub fn token(&self) -> &Token {
        match self {
            ParseError::SyntaxError(t, _) => t,
        }
    }
}

/// The recursive-descent parser over one module's token sequence.
pub struct Parser {
    tokens: Vec<Token>,
    current: usize,
    path: Vec<String>,
    context_stack: Vec<ParseContext>,
}

impl Parser {
    /// The tokens being parsed.
    pub closed spec fn toks(&self) -> Seq<Token> {
        self.tokens@
    }

    /// The index of the next token.
    pub closed spec fn cur(&self) -> int {
        self.current as int
    }

    /// How many tokens are left.
    pub open spec fn rem(&self) -> int {
        self.toks().len() - self.cur()
    }

    /// The parser's internal consistency: the token sequence is non-empty,
    /// ends with an end-of-input token, and the cursor never passes it.
    pub closed spec fn wf(&self) -> bool {
        &&& self.toks().len() >= 1
        &&& self.toks().last().token_type == TokenType::EOF
        &&& self.cur() < self.toks().len()
    }

    /// The kind of the next token.
    pub closed spec fn peek_type_s(&self) -> TokenType {
        self.toks()[self.cur()].token_type
    }

    /// The next token.
    pub closed spec fn peek_s(&self) -> Token {
        self.toks()[self.cur()]
    }

    /// The kind of the most recently consumed token.
    pub closed spec fn prev_type(&self) -> TokenType {
        self.toks()[self.cur() - 1].token_type
    }

    /// The context stack.
    pub closed spec fn ctx(&self) -> Seq<ParseContext> {
        self.context_stack@
    }

    /// Whether parsing currently sits directly inside an `if` condition.
    pub open spec fn in_if_ctx(&self) -> bool {
        self.ctx().len() > 0 && self.ctx().last() == ParseContext::IfCondition
    }

    /// The grammar's main disambiguation case: directly inside an `if`
    /// condition, the next two tokens are an identifier and then `{`.
    /// Here the identifier must stay a bare variable — the brace opens
    /// the `if` body, not a struct literal.
    pub open spec fn if_head_variable_case(&self) -> bool {
        &&& self.in_if_ctx()
        &&& self.peek_type_s() == TokenType::Identifier
        &&& self.toks()[self.cur() + 1].token_type == TokenType::LeftBrace
    }
}

/// Parameter `i` of a parameter list whose `(` sits at `p`: its name and
/// type are identifier tokens separated by a colon, at stride four.
pub open spec fn param_group_at(toks: Seq<Token>, p: int, params: Seq<Parameter>, i: int) -> bool {
    &&& toks[p + 1 + 4 * i].token_type == TokenType::Identifier
    &&& params[i].name@ == toks[p + 1 + 4 * i].lexeme@
    &&& toks[p + 2 + 4 * i].token_type == TokenType::Colon
    &&& toks[p + 3 + 4 * i].token_type == TokenType::Identifier
    &&& params[i].type_annotation@ == toks[p + 3 + 4 * i].lexeme@
}

/// The first `params.len()` parameter groups after the `(` at `p`, with a
/// comma after each group except, when `last_comma` is false, the last.
pub open spec fn params_groups(
    toks: Seq<Token>,
    p: int,
    params: Seq<Parameter>,
    last_comma: bool,
) -> bool {
    forall|i: int|
        0 <= i < params.len() ==> #[trigger] param_group_at(toks, p, params, i) && ((i < params.len()
            - 1 || last_comma) ==> toks[p + 4 + 4 * i].token_type == TokenType::Comma)
}

/// The leading keyword at item `i`'s starting position decides the item's
/// kind.
pub open spec fn item_head_at(toks: Seq<Token>, cuts: Seq<int>, items: Seq<Item>, i: int) -> bool {
    match items[i] {
        Item::Function { .. } => toks[cuts[i]].token_type == TokenType::Fn,
        Item::Component { .. } => toks[cuts[i]].token_type == TokenType::Cmpnt,
        Item::Import { .. } => toks[cuts[i]].token_type == TokenType::Import,
        Item::TestRunner => toks[cuts[i]].token_type == TokenType::TestRunner,
        Item::Struct { .. } => toks[cuts[i]].token_type == TokenType::Struct,
    }
}

/// The items stand in source order: `cuts` gives each item's starting
/// token position, strictly increasing within `[lo, hi)`, and the leading
/// keyword there decides the item's kind.
pub open spec fn items_in_source_order(
    toks: Seq<Token>,
    cuts: Seq<int>,
    items: Seq<Item>,
    lo: int,
    hi: int,
) -> bool {
    &&& cuts.len() == items.len()
    &&& forall|i: int|
        0 <= i < items.len() ==> {
            &&& lo <= #[trigger] cuts[i] < hi
            &&& (i > 0 ==> cuts[i - 1] < cuts[i])
            &&& item_head_at(toks, cuts, items, i)
        }
}

/// The parsed items list the source's declarations in order: some strictly
/// increasing sequence of starting positions within `[lo, hi)` puts each
/// item under its own leading keyword.
pub open spec fn parse_lists_in_order(
    toks: Seq<Token>,
    items: Seq<Item>,
    lo: int,
    hi: int,
) -> bool {
    exists|cuts: Seq<int>| items_in_source_order(toks, cuts, items, lo, hi)
}

/// Where a parameter list whose `(` sits at `p` ends: the position right
/// after its `)`.
pub open spec fn params_end(p: int, params: Seq<Parameter>) -> int {
    if params.len() == 0 {
        p + 2
    } else {
        p + 4 * params.len() + 1
    }
}

/// The token range `[p, q)` spells a parenthesized parameter list —
/// `(` name `:` type { `,` name `:` type } `)` — and `params` lists
/// exactly the annotated names in order: every accepted parameter carried
/// its `:` type annotation.
pub open spec fn params_parse(toks: Seq<Token>, p: int, q: int, params: Seq<Parameter>) -> bool {
    &&& toks[p].token_type == TokenType::LeftParen
    &&& toks[q - 1].token_type == TokenType::RightParen
    &&& params_groups(toks, p, params, false)
    &&& if params.len() == 0 {
        q == p + 2
    } else {
        q == p + 4 * params.len() + 1
    }
}

/// Path segment `i` of an import whose first identifier sits at `p`, at
/// stride two: an identifier token whose lexeme is the segment, with the
/// `::` separator right before it for every segment but the first.
pub open spec fn import_seg_at(toks: Seq<Token>, p: int, path: Seq<String>, i: int) -> bool {
    &&& toks[p + 2 * i].token_type == TokenType::Identifier
    &&& path[i]@ == toks[p + 2 * i].lexeme@
    &&& (i >= 1 ==> toks[p + 2 * i - 1].token_type == TokenType::ColonColon)
}

/// All `path.len()` segments of an import starting at `p`, in order,
/// `::`-separated.
pub open spec fn import_groups(toks: Seq<Token>, p: int, path: Seq<String>) -> bool {
    forall|i: int| 0 <= i < path.len() ==> #[trigger] import_seg_at(toks, p, path, i)
}

/// Field `i` of a struct item whose `{` sits at `p`: name, colon, type
/// and the mandatory trailing comma, at stride four.
pub open spec fn struct_field_at(
    toks: Seq<Token>,
    p: int,
    fields: Seq<StructField>,
    i: int,
) -> bool {
    &&& toks[p + 1 + 4 * i].token_type == TokenType::Identifier
    &&& fields[i].name@ == toks[p + 1 + 4 * i].lexeme@
    &&& toks[p + 2 + 4 * i].token_type == TokenType::Colon
    &&& toks[p + 3 + 4 * i].token_type == TokenType::Identifier
    &&& fields[i].type_annotation@ == toks[p + 3 + 4 * i].lexeme@
    &&& toks[p + 4 + 4 * i].token_type == TokenType::Comma
}

/// The struct item's field list starting at the `{` in position `p`:
/// each field spells name `:` type `,` (the comma mandatory after every
/// field), and the closing `}` follows the last one.
pub open spec fn struct_fields_parse(toks: Seq<Token>, p: int, fields: Seq<StructField>) -> bool {
    &&& toks[p].token_type == TokenType::LeftBrace
    &&& toks[p + 1 + 4 * fields.len()].token_type == TokenType::RightBrace
    &&& forall|i: int| 0 <= i < fields.len() ==> #[trigger] struct_field_at(toks, p, fields, i)
}

/// Bound name `i` of a destructuring target whose opening bracket sits
/// at `p`, at stride two: an identifier token, with the comma separator
/// right before it for every name but the first.
pub open spec fn destructure_name_at(toks: Seq<Token>, p: int, names: Seq<Token>, i: int) -> bool {
    &&& toks[p + 1 + 2 * i].token_type == TokenType::Identifier
    &&& names[i]@ == toks[p + 1 + 2 * i]@
    &&& (i >= 1 ==> toks[p + 2 * i].token_type == TokenType::Comma)
}

/// Where a destructuring target whose opening bracket sits at `p` ends:
/// the position right after its closing bracket.
pub open spec fn destructure_end(p: int, names: Seq<Token>) -> int {
    if names.len() == 0 {
        p + 2
    } else {
        p + 1 + 2 * names.len()
    }
}

/// A destructuring binding target over the token range `[p, q)`: the
/// opening bracket at `p`, comma-separated identifier tokens, and the
/// given closer at `q - 1`; `names` are exactly those identifier tokens.
pub open spec fn destructure_parse(
    toks: Seq<Token>,
    p: int,
    q: int,
    names: Seq<Token>,
    closer: TokenType,
) -> bool {
    &&& q == destructure_end(p, names)
    &&& toks[q - 1].token_type == closer
    &&& forall|i: int| 0 <= i < names.len() ==> #[trigger] destructure_name_at(toks, p, names, i)
}

impl Parser {

    /// A parser over `tokens`, which must be a scanner-style sequence:
    /// non-empty with an end-of-input token at the end.
    pub fn new(tokens: Vec<Token>, path: Vec<String>) -> (p: Parser)
        requires
            tokens@.len() >= 1,
            tokens@.last().token_type == TokenType::EOF,
        ensures
            p.wf(),
            p.toks() == tokens@,
            p.cur() == 0,
            p.ctx() == Seq::<ParseContext>::empty(),
    {
        Parser { tokens, current: 0, path, context_stack: Vec::new() }
    }

    /// Parse every top-level item until the end of input.  Fail-fast: the
    /// first grammar violation is returned and nothing more is consumed.
    /// On success the whole token sequence has been consumed: no items on
    /// an empty module, at least one otherwise, and the items list the
    /// source's declarations in order, each introduced by its leading
    /// keyword.
    pub fn parse(&mut self) -> (r: Result<Vec<Item>, ParseError>)
        requires
            old(self).wf(),
        ensures
            final(self).wf(),
            final(self).toks() == old(self).toks(),
            old(self).cur() <= final(self).cur(),
            r is Ok ==> final(self).peek_type_s() == TokenType::EOF,
            old(self).peek_type_s() == TokenType::EOF ==> r is Ok,
            r matches Result::Ok(items) ==> (items@.len() == 0 <==> old(self).peek_type_s()
                == TokenType::EOF),
            r matches Result::Ok(items) ==> parse_lists_in_order(
                old(self).toks(),
                items@,
                old(self).cur(),
                final(self).cur(),
            ),
    {
        let mut items: Vec<Item> = Vec::new();
        let ghost mut cuts: Seq<int> = Seq::empty();
        while !self.is_at_end()
            invariant
                self.wf(),
                self.toks() == old(self).toks(),
                old(self).cur() <= self.cur(),
                items@.len() == 0 <==> self.cur() == old(self).cur(),
                self.cur() == old(self).cur() || old(self).peek_type_s() != TokenType::EOF,
                cuts.len() == items@.len(),
                cuts.len() > 0 ==> cuts[cuts.len() - 1] < self.cur(),
                items_in_source_order(self.toks(), cuts, items@, old(self).cur(), self.cur()),
            decreases self.rem(),
        {
            let ghost pre_cur = self.cur();
            let ghost pre_cuts = cuts;
            let ghost pre_items = items@;
            match self.item() {
                Result::Ok(item) => {
                    items.push(item);
                    proof {
                        cuts = cuts.push(pre_cur);
                        assert forall|i: int| 0 <= i < items@.len() implies {
                            &&& old(self).cur() <= #[trigger] cuts[i] < self.cur()
                            &&& (i > 0 ==> cuts[i - 1] < cuts[i])
                            &&& item_head_at(self.toks(), cuts, items@, i)
                        } by {
                            if i < pre_items.len() {
                                assert(cuts[i] == pre_cuts[i]);
                                assert(items@[i] == pre_items[i]);
                                assert(item_head_at(self.toks(), pre_cuts, pre_items, i));
                                if i > 0 {
                                    assert(cuts[i - 1] == pre_cuts[i - 1]);
                                }
                            }
                        }
                    }
                },
                Result::Err(e) => {
                    return Result::Err(e);
                },
            }
        }
        proof {
            assert(items_in_source_order(
                old(self).toks(),
                cuts,
                items@,
                old(self).cur(),
                self.cur(),
            ));
            assert(parse_lists_in_order(
                old(self).toks(),
                items@,
                old(self).cur(),
                self.cur(),
            ));
        }
        Result::Ok(items)
    }

    /// Parse one top-level item.  The leading keyword decides the item's
    /// kind; anything else is a syntax error.
    fn item(&mut self) -> (r: Result<Item, ParseError>)
        requires
            old(self).wf(),
        ensures
            final(self).wf(),
            final(self).toks() == old(self).toks(),
            old(self).cur() <= final(self).cur(),
            r is Ok ==> old(self).cur() < final(self).cur(),
            r is Ok ==> final(self).ctx() == old(self).ctx(),
            r is Ok && old(self).peek_type_s() == TokenType::Fn ==> r matches Result::Ok(
                Item::Function { .. },
            ),
            r is Ok && old(self).peek_type_s() == TokenType::Cmpnt ==> r matches Result::Ok(
                Item::Component { .. },
            ),
            r is Ok && old(self).peek_type_s() == TokenType::Import ==> r matches Result::Ok(
                Item::Import { .. },
            ),
            r is Ok && old(self).peek_type_s() == TokenType::TestRunner ==> r matches Result::Ok(
                Item::TestRunner,
            ),
            r is Ok && old(self).peek_type_s() == TokenType::Struct ==> r matches Result::Ok(
                Item::Struct { .. },
            ),
            !(old(self).peek_type_s() == TokenType::Fn || old(self).peek_type_s()
                == TokenType::Cmpnt || old(self).peek_type_s() == TokenType::Import || old(
                self,
            ).peek_type_s() == TokenType::TestRunner || old(self).peek_type_s()
                == TokenType::Struct) ==> r is Err,
        decreases old(self).rem(), 26int,
    {
        if self.match_token(&[TokenType::Fn, TokenType::Cmpnt]) {
            self.function()
        } else if self.match_token(&[TokenType::Import]) {
            self.import()
        } else if self.match_token(&[TokenType::TestRunner]) {
            match self.consume(TokenType::Semicolon, "Expect ';' after item") {
                Result::Ok(_) => Result::Ok(Item::TestRunner),
                Result::Err(e) => Result::Err(e),
            }
        } else if self.match_token(&[TokenType::Struct]) {
            self.struct_()
        } else {
            Result::Err(self.error_here("Expected item declaration"))
        }
    }

    /// Parse a function or component item; the `fn` / `cmpnt` keyword has
    /// just been consumed.  Every parameter carries a `: type` annotation;
    /// a `-> type` return annotation is allowed only for plain functions.
    fn function(&mut self) -> (r: Result<Item, ParseError>)
        requires
            old(self).wf(),
            old(self).cur() >= 1,
            old(self).prev_type() == TokenType::Fn || old(self).prev_type() == TokenType::Cmpnt,
        ensures
            final(self).wf(),
            final(self).toks() == old(self).toks(),
            old(self).cur() <= final(self).cur(),
            r is Ok ==> old(self).cur() < final(self).cur(),
            r is Ok ==> final(self).ctx() == old(self).ctx(),
            r is Ok && old(self).prev_type() == TokenType::Fn ==> r matches Result::Ok(
                Item::Function { .. },
            ),
            r is Ok && old(self).prev_type() == TokenType::Cmpnt ==> r matches Result::Ok(
                Item::Component { .. },
            ),
            old(self).peek_type_s() != TokenType::Identifier ==> r is Err,
            r matches Result::Ok(Item::Function { name, .. }) ==> name@ == old(
                self,
            ).peek_s().lexeme@,
            r matches Result::Ok(Item::Component { name, .. }) ==> name@ == old(
                self,
            ).peek_s().lexeme@,
            r matches Result::Ok(Item::Function { parameters, return_type, .. }) ==> ({
                let q = params_end(old(self).cur() + 1, parameters@);
                &&& params_parse(old(self).toks(), old(self).cur() + 1, q, parameters@)
                &&& match return_type {
                    Option::Some(rt) => {
                        &&& old(self).toks()[q].token_type == TokenType::MinusGreater
                        &&& ((old(self).toks()[q + 1].token_type == TokenType::Identifier && rt@
                            == old(self).toks()[q + 1].lexeme@) || (old(self).toks()[q
                            + 1].token_type == TokenType::String && old(self).toks()[q + 1]@.value
                            == Option::Some(LiteralV::String(rt@))))
                        &&& old(self).toks()[q + 2].token_type == TokenType::LeftBrace
                    },
                    Option::None => old(self).toks()[q].token_type == TokenType::LeftBrace,
                }
            }),
            r matches Result::Ok(Item::Component { parameters, .. }) ==> ({
                let q = params_end(old(self).cur() + 1, parameters@);
                &&& params_parse(old(self).toks(), old(self).cur() + 1, q, parameters@)
                &&& old(self).toks()[q].token_type == TokenType::LeftBrace
            }),
        decreases old(self).rem(), 25int,
    {
        let is_function = self.previous().token_type == TokenType::Fn;
        let name = if self.match_token(&[TokenType::Identifier]) {
            self.previous().lexeme.clone()
        } else {
            return Result::Err(self.error_prev("Expected identifier"));
        };
        let mut parameters: Vec<Parameter> = Vec::new();
        match self.consume(TokenType::LeftParen, "Expected '('") {
            Result::Ok(_) => {},
            Result::Err(e) => {
                return Result::Err(e);
            },
        }
        if !self.check(TokenType::RightParen) {
            loop
                invariant_except_break
                    self.cur() == old(self).cur() + 2 + 4 * parameters@.len(),
                    params_groups(self.toks(), old(self).cur() + 1, parameters@, true),
                invariant
                    self.wf(),
                    self.toks() == old(self).toks(),
                    old(self).cur() < self.cur(),
                    self.ctx() == old(self).ctx(),
                ensures
                    parameters@.len() >= 1,
                    self.cur() == old(self).cur() + 1 + 4 * parameters@.len(),
                    self.toks() == old(self).toks(),
                    self.ctx() == old(self).ctx(),
                    self.wf(),
                    params_groups(self.toks(), old(self).cur() + 1, parameters@, false),
                decreases self.rem(),
            {
                let ghost pre_params = parameters@;
                let ghost k = parameters@.len() as int;
                let p_name = match self.consume(TokenType::Identifier, "Expect parameter name") {
                    Result::Ok(t) => t.lexeme,
                    Result::Err(e) => {
                        return Result::Err(e);
                    },
                };
                match self.consume(TokenType::Colon, "Expect type annotation") {
                    Result::Ok(_) => {},
                    Result::Err(e) => {
                        return Result::Err(e);
                    },
                }
                let p_type = match self.consume(TokenType::Identifier, "Expect type annotation") {
                    Result::Ok(t) => t.lexeme,
                    Result::Err(e) => {
                        return Result::Err(e);
                    },
                };
                parameters.push(Parameter { name: p_name, type_annotation: p_type });
                proof {
                    let toks = self.toks();
                    let p = old(self).cur() + 1;
                    assert forall|i: int| 0 <= i < parameters@.len() implies #[trigger]
                    param_group_at(toks, p, parameters@, i) && ((i < parameters@.len() - 1)
                        ==> toks[p + 4 + 4 * i].token_type == TokenType::Comma) by {
                        if i < k {
                            assert(parameters@[i] == pre_params[i]);
                            assert(param_group_at(toks, p, pre_params, i));
                        }
                    }
                }
                if !self.match_token(&[TokenType::Comma]) {
                    break;
                }
                proof {
                    let toks = self.toks();
                    let p = old(self).cur() + 1;
                    assert forall|i: int| 0 <= i < parameters@.len() implies #[trigger]
                    param_group_at(toks, p, parameters@, i) && toks[p + 4 + 4 * i].token_type
                        == TokenType::Comma by {
                        if i < k {
                            assert(parameters@[i] == pre_params[i]);
                            assert(param_group_at(toks, p, pre_params, i));
                        }
                    }
                }
            }
        }
        match self.consume(TokenType::RightParen, "Expected ')'") {
            Result::Ok(_) => {},
            Result::Err(e) => {
                return Result::Err(e);
            },
        }
        let ghost q = self.cur();
        proof {
            assert(q == params_end(old(self).cur() + 1, parameters@));
            assert(params_parse(old(self).toks(), old(self).cur() + 1, q, parameters@));
        }
        let return_type: Option<String> = if is_function && self.match_token(
            &[TokenType::MinusGreater],
        ) {
            if self.match_token(&[TokenType::Identifier, TokenType::String]) {
                if self.previous().token_type == TokenType::Identifier {
                    Some(self.previous().lexeme.clone())
                } else {
                    match &self.previous().value {
                        Option::Some(Literal::String(s)) => Some(s.clone()),
                        _ => {
                            return Result::Err(self.error_prev("Expected return type"));
                        },
                    }
                }
            } else {
                return Result::Err(self.error_prev("Expected return type"));
            }
        } else {
            Option::None
        };
        match self.consume(TokenType::LeftBrace, "Expected '{'") {
            Result::Ok(_) => {},
            Result::Err(e) => {
                return Result::Err(e);
            },
        }
        let body = match self.block_expression() {
            Result::Ok(b) => b,
            Result::Err(e) => {
                return Result::Err(e);
            },
        };
        if is_function {
            Result::Ok(Item::Function { name, parameters, body, return_type })
        } else {
            Result::Ok(Item::Component { name, parameters, body })
        }
    }

    /// Parse an import item; the `import` keyword has just been consumed.
    /// The path is a non-empty `::`-separated identifier list.
    fn import(&mut self) -> (r: Result<Item, ParseError>)
        requires
            old(self).wf(),
        ensures
            final(self).wf(),
            final(self).toks() == old(self).toks(),
            old(self).cur() <= final(self).cur(),
            r is Ok ==> old(self).cur() < final(self).cur(),
            r is Ok ==> final(self).ctx() == old(self).ctx(),
            r is Ok ==> r matches Result::Ok(Item::Import { .. }),
            old(self).peek_type_s() != TokenType::Identifier ==> r is Err,
            r matches Result::Ok(Item::Import { path }) ==> ({
                &&& path@.len() >= 1
                &&& final(self).cur() == old(self).cur() + 2 * path@.len()
                &&& old(self).toks()[old(self).cur() + 2 * path@.len() - 1].token_type
                    == TokenType::Semicolon
                &&& import_groups(old(self).toks(), old(self).cur(), path@)
            }),
        decreases old(self).rem(), 25int,
    {
        let mut path: Vec<String> = Vec::new();
        let first = match self.consume(TokenType::Identifier, "Expect identifier") {
            Result::Ok(t) => t.lexeme,
            Result::Err(e) => {
                return Result::Err(e);
            },
        };
        path.push(first);
        while self.match_token(&[TokenType::ColonColon])
            invariant
                self.wf(),
                self.toks() == old(self).toks(),
                self.ctx() == old(self).ctx(),
                old(self).peek_type_s() == TokenType::Identifier,
                path@.len() >= 1,
                self.cur() == old(self).cur() + 2 * path@.len() - 1,
                forall|i: int|
                    0 <= i < path@.len() ==> #[trigger] import_seg_at(
                        self.toks(),
                        old(self).cur(),
                        path@,
                        i,
                    ),
            decreases self.rem(),
        {
            let ghost pre_path = path@;
            let ghost k = path@.len() as int;
            let part = match self.consume(TokenType::Identifier, "Expect identifier") {
                Result::Ok(t) => t.lexeme,
                Result::Err(e) => {
                    return Result::Err(e);
                },
            };
            path.push(part);
            proof {
                assert forall|i: int| 0 <= i < path@.len() implies #[trigger] import_seg_at(
                    self.toks(),
                    old(self).cur(),
                    path@,
                    i,
                ) by {
                    if i < k {
                        assert(path@[i] == pre_path[i]);
                        assert(import_seg_at(self.toks(), old(self).cur(), pre_path, i));
                    }
                }
            }
        }
        proof {
            assert(import_groups(old(self).toks(), old(self).cur(), path@));
        }
        match self.consume(TokenType::Semicolon, "Expect ';'") {
            Result::Ok(_) => Result::Ok(Item::Import { path }),
            Result::Err(e) => Result::Err(e),
        }
    }

    /// Parse a struct item; the `struct` keyword has just been consumed.
    fn struct_(&mut self) -> (r: Result<Item, ParseError>)
        requires
            old(self).wf(),
        ensures
            final(self).wf(),
            final(self).toks() == old(self).toks(),
            old(self).cur() <= final(self).cur(),
            r is Ok ==> old(self).cur() < final(self).cur(),
            r is Ok ==> final(self).ctx() == old(self).ctx(),
            r is Ok ==> r matches Result::Ok(Item::Struct { .. }),
            old(self).peek_type_s() != TokenType::Identifier ==> r is Err,
            r matches Result::Ok(Item::Struct { name, fields }) ==> ({
                &&& name@ == old(self).peek_s().lexeme@
                &&& struct_fields_parse(old(self).toks(), old(self).cur() + 1, fields@)
                &&& final(self).cur() == old(self).cur() + 3 + 4 * fields@.len()
            }),
        decreases old(self).rem(), 25int,
    {
        let name = match self.consume(TokenType::Identifier, "Expect type name") {
            Result::Ok(t) => t.lexeme,
            Result::Err(e) => {
                return Result::Err(e);
            },
        };
        match self.consume(TokenType::LeftBrace, "Expect '{'") {
            Result::Ok(_) => {},
            Result::Err(e) => {
                return Result::Err(e);
            },
        }
        let mut fields: Vec<StructField> = Vec::new();
        while !self.check(TokenType::RightBrace)
            invariant
                self.wf(),
                self.toks() == old(self).toks(),
                old(self).cur() <= self.cur(),
                self.ctx() == old(self).ctx(),
                self.cur() == old(self).cur() + 2 + 4 * fields@.len(),
                self.toks()[old(self).cur() + 1].token_type == TokenType::LeftBrace,
                forall|i: int|
                    0 <= i < fields@.len() ==> #[trigger] struct_field_at(
                        self.toks(),
                        old(self).cur() + 1,
                        fields@,
                        i,
                    ),
            decreases self.rem(),
        {
            let ghost pre_fields = fields@;
            let ghost k = fields@.len() as int;
            let f_name = match self.consume(TokenType::Identifier, "Expect field name") {
                Result::Ok(t) => t.lexeme,
                Result::Err(e) => {
                    return Result::Err(e);
                },
            };
            match self.consume(TokenType::Colon, "Expect type annotation") {
                Result::Ok(_) => {},
                Result::Err(e) => {
                    return Result::Err(e);
                },
            }
            let f_type = match self.consume(TokenType::Identifier, "Expect type annotation") {
                Result::Ok(t) => t.lexeme,
                Result::Err(e) => {
                    return Result::Err(e);
                },
            };
            match self.consume(TokenType::Comma, "Expect ','") {
                Result::Ok(_) => {},
                Result::Err(e) => {
                    return Result::Err(e);
                },
            }
            fields.push(StructField { name: f_name, type_annotation: f_type });
            proof {
                let toks = self.toks();
                let p = old(self).cur() + 1;
                assert forall|i: int| 0 <= i < fields@.len() implies #[trigger] struct_field_at(
                    toks,
                    p,
                    fields@,
                    i,
                ) by {
                    if i < k {
                        assert(fields@[i] == pre_fields[i]);
                        assert(struct_field_at(toks, p, pre_fields, i));
                    }
                }
            }
        }
        proof {
            assert(struct_fields_parse(old(self).toks(), old(self).cur() + 1, fields@));
        }
        match self.consume(TokenType::RightBrace, "Expect '}'") {
            Result::Ok(_) => Result::Ok(Item::Struct { name, fields }),
            Result::Err(e) => Result::Err(e),
        }
    }

    /// Parse one "maybe statement": a true statement keyword starts a
    /// statement, anything else is a bare expression whose role the block
    /// parser decides.
    fn maybe_statement(&mut self) -> (r: Result<MaybeStatement, ParseError>)
        requires
            old(self).wf(),
        ensures
            final(self).wf(),
            final(self).toks() == old(self).toks(),
            old(self).cur() <= final(self).cur(),
            r is Ok ==> old(self).cur() < final(self).cur(),
            r is Ok ==> final(self).ctx() == old(self).ctx(),
            r is Ok && old(self).peek_type_s() == TokenType::Let ==> r matches Result::Ok(
                MaybeStatement::Statement(Statement::Let { .. }),
            ),
            r is Ok && old(self).peek_type_s() == TokenType::Print ==> r matches Result::Ok(
                MaybeStatement::Statement(Statement::Print(_)),
            ),
            r is Ok && old(self).peek_type_s() == TokenType::AssertEq ==> r matches Result::Ok(
                MaybeStatement::Statement(Statement::AssertEq(_, _)),
            ),
            r is Ok && old(self).peek_type_s() == TokenType::RunTest ==> r matches Result::Ok(
                MaybeStatement::Statement(Statement::RunTest { .. }),
            ),
            r is Ok && !(old(self).peek_type_s() == TokenType::Let || old(self).peek_type_s()
                == TokenType::Print || old(self).peek_type_s() == TokenType::AssertEq || old(
                self,
            ).peek_type_s() == TokenType::RunTest) ==> r matches Result::Ok(
                MaybeStatement::Expression(_),
            ),
        decreases old(self).rem(), 22int,
    {
        if self.match_token(
            &[TokenType::Let, TokenType::Print, TokenType::AssertEq, TokenType::RunTest],
        ) {
            let kind = self.previous().token_type;
            let stmt = if kind == TokenType::Let {
                self.let_declaration()
            } else if kind == TokenType::Print {
                self.print_statement()
            } else if kind == TokenType::AssertEq {
                self.assert_eq_statement()
            } else {
                self.run_test_statement()
            };
            match stmt {
                Result::Ok(s) => Result::Ok(MaybeStatement::Statement(s)),
                Result::Err(e) => Result::Err(e),
            }
        } else {
            match self.expression() {
                Result::Ok(e) => Result::Ok(MaybeStatement::Expression(e)),
                Result::Err(e) => Result::Err(e),
            }
        }
    }

    /// Parse a let statement; the `let` keyword has just been consumed.
    /// The binding target is a name, an array destructuring or a tuple
    /// destructuring, and every variable must be initialized.
    fn let_declaration(&mut self) -> (r: Result<Statement, ParseError>)
        requires
            old(self).wf(),
        ensures
            final(self).wf(),
            final(self).toks() == old(self).toks(),
            old(self).cur() <= final(self).cur(),
            r is Ok ==> old(self).cur() < final(self).cur(),
            r is Ok ==> final(self).ctx() == old(self).ctx(),
            r is Ok ==> r matches Result::Ok(Statement::Let { .. }),
            r matches Result::Ok(Statement::Let { mutable, .. }) ==> mutable == (old(
                self,
            ).peek_type_s() == TokenType::Mut),
            r matches Result::Ok(Statement::Let { declaration, .. }) ==> ({
                let i0 = if old(self).peek_type_s() == TokenType::Mut {
                    old(self).cur() + 1
                } else {
                    old(self).cur()
                };
                &&& (old(self).toks()[i0].token_type == TokenType::LeftSquareBracket
                    ==> declaration is Array)
                &&& (old(self).toks()[i0].token_type == TokenType::LeftParen
                    ==> declaration is Tuple)
                &&& (old(self).toks()[i0].token_type == TokenType::Identifier ==> (
                declaration matches Declaration::Name(t) && t@ == old(self).toks()[i0]@))
                &&& match declaration {
                    Declaration::Name(_) => old(self).toks()[i0 + 1].token_type
                        == TokenType::Equal,
                    Declaration::Array(names) => destructure_parse(
                        old(self).toks(),
                        i0,
                        destructure_end(i0, names@),
                        names@,
                        TokenType::RightSquareBracket,
                    ) && old(self).toks()[destructure_end(i0, names@)].token_type
                        == TokenType::Equal,
                    Declaration::Tuple(names) => destructure_parse(
                        old(self).toks(),
                        i0,
                        destructure_end(i0, names@),
                        names@,
                        TokenType::RightParen,
                    ) && old(self).toks()[destructure_end(i0, names@)].token_type
                        == TokenType::Equal,
                }
            }),
            r is Ok ==> final(self).cur() >= 1 && final(self).prev_type() == TokenType::Semicolon,
            ({
                let i0 = if old(self).peek_type_s() == TokenType::Mut {
                    old(self).cur() + 1
                } else {
                    old(self).cur()
                };
                (old(self).toks()[i0].token_type == TokenType::Identifier && old(self).toks()[i0
                    + 1].token_type != TokenType::Equal) ==> (r matches Result::Err(
                    ParseError::SyntaxError(t, m),
                ) && t@ == old(self).toks()[i0 + 1]@ && m@
                    == "All variables must be initialized"@)
            }),
        decreases old(self).rem(), 25int,
    {
        let mutable = self.match_token(&[TokenType::Mut]);
        let ghost i0 = self.cur();
        let declaration: Declaration = if self.match_token(
            &[TokenType::LeftSquareBracket, TokenType::LeftParen],
        ) {
            let is_array = self.previous().token_type == TokenType::LeftSquareBracket;
            let closer = if is_array {
                TokenType::RightSquareBracket
            } else {
                TokenType::RightParen
            };
            let closer_message = if is_array {
                "Expect ']'"
            } else {
                "Expect ')'"
            };
            let mut names: Vec<Token> = Vec::new();
            if !self.check(closer) {
                let first_name = match self.consume(TokenType::Identifier, "Expect variable name")
                {
                    Result::Ok(t) => t,
                    Result::Err(e) => {
                        return Result::Err(e);
                    },
                };
                names.push(first_name);
                while self.match_token(&[TokenType::Comma])
                    invariant
                        self.wf(),
                        self.toks() == old(self).toks(),
                        old(self).cur() < self.cur(),
                        self.ctx() == old(self).ctx(),
                        i0 == if old(self).peek_type_s() == TokenType::Mut {
                            old(self).cur() + 1
                        } else {
                            old(self).cur()
                        },
                        self.toks()[i0].token_type == TokenType::LeftSquareBracket
                            || self.toks()[i0].token_type == TokenType::LeftParen,
                        names@.len() >= 1,
                        self.cur() == i0 + 2 * names@.len(),
                        forall|i: int|
                            0 <= i < names@.len() ==> #[trigger] destructure_name_at(
                                self.toks(),
                                i0,
                                names@,
                                i,
                            ),
                    decreases self.rem(),
                {
                    let ghost pre_names = names@;
                    let ghost k = names@.len() as int;
                    let name = match self.consume(TokenType::Identifier, "Expect variable name") {
                        Result::Ok(t) => t,
                        Result::Err(e) => {
                            return Result::Err(e);
                        },
                    };
                    names.push(name);
                    proof {
                        assert forall|i: int|
                            0 <= i < names@.len() implies #[trigger] destructure_name_at(
                            self.toks(),
                            i0,
                            names@,
                            i,
                        ) by {
                            if i < k {
                                assert(names@[i] == pre_names[i]);
                                assert(destructure_name_at(self.toks(), i0, pre_names, i));
                            }
                        }
                    }
                }
            }
            match self.consume(closer, closer_message) {
                Result::Ok(_) => {},
                Result::Err(e) => {
                    return Result::Err(e);
                },
            }
            proof {
                assert(self.cur() == destructure_end(i0, names@));
                assert(destructure_parse(self.toks(), i0, self.cur(), names@, closer));
            }
            if is_array {
                Declaration::Array(names)
            } else {
                Declaration::Tuple(names)
            }
        } else {
            match self.consume(TokenType::Identifier, "Expect variable name") {
                Result::Ok(t) => Declaration::Name(t),
                Result::Err(e) => {
                    return Result::Err(e);
                },
            }
        };
        match self.consume(TokenType::Equal, "All variables must be initialized") {
            Result::Ok(_) => {},
            Result::Err(e) => {
                return Result::Err(e);
            },
        }
        let initializer = match self.expression() {
            Result::Ok(e) => e,
            Result::Err(e) => {
                return Result::Err(e);
            },
        };
        match self.consume(TokenType::Semicolon, "Expect ; after variable declaration") {
            Result::Ok(_) => Result::Ok(
                Statement::Let { declaration, expression: initializer, mutable },
            ),
            Result::Err(e) => Result::Err(e),
        }
    }

    /// Parse a print statement; the `print` keyword has just been consumed.
    fn print_statement(&mut self) -> (r: Result<Statement, ParseError>)
        requires
            old(self).wf(),
        ensures
            final(self).wf(),
            final(self).toks() == old(self).toks(),
            old(self).cur() <= final(self).cur(),
            r is Ok ==> old(self).cur() < final(self).cur(),
            r is Ok ==> final(self).ctx() == old(self).ctx(),
            r is Ok ==> r matches Result::Ok(Statement::Print(_)),
            old(self).peek_type_s() != TokenType::LeftParen ==> r is Err,
        decreases old(self).rem(), 25int,
    {
        match self.consume(TokenType::LeftParen, "Expect '('") {
            Result::Ok(_) => {},
            Result::Err(e) => {
                return Result::Err(e);
            },
        }
        let value = match self.expression() {
            Result::Ok(e) => e,
            Result::Err(e) => {
                return Result::Err(e);
            },
        };
        match self.consume(TokenType::RightParen, "Expect ')'") {
            Result::Ok(_) => {},
            Result::Err(e) => {
                return Result::Err(e);
            },
        }
        match self.consume(TokenType::Semicolon, "Expect ;") {
            Result::Ok(_) => Result::Ok(Statement::Print(value)),
            Result::Err(e) => Result::Err(e),
        }
    }

    /// Parse an assert-equality statement; the keyword has just been
    /// consumed.
    fn assert_eq_statement(&mut self) -> (r: Result<Statement, ParseError>)
        requires
            old(self).wf(),
        ensures
            final(self).wf(),
            final(self).toks() == old(self).toks(),
            old(self).cur() <= final(self).cur(),
            r is Ok ==> old(self).cur() < final(self).cur(),
            r is Ok ==> final(self).ctx() == old(self).ctx(),
            r is Ok ==> r matches Result::Ok(Statement::AssertEq(_, _)),
            old(self).peek_type_s() != TokenType::LeftParen ==> r is Err,
        decreases old(self).rem(), 25int,
    {
        match self.consume(TokenType::LeftParen, "Expect '('") {
            Result::Ok(_) => {},
            Result::Err(e) => {
                return Result::Err(e);
            },
        }
        let left = match self.expression() {
            Result::Ok(e) => e,
            Result::Err(e) => {
                return Result::Err(e);
            },
        };
        match self.consume(TokenType::Comma, "Expect ','") {
            Result::Ok(_) => {},
            Result::Err(e) => {
                return Result::Err(e);
            },
        }
        let right = match self.expression() {
            Result::Ok(e) => e,
            Result::Err(e) => {
                return Result::Err(e);
            },
        };
        match self.consume(TokenType::RightParen, "Expect ')'") {
            Result::Ok(_) => {},
            Result::Err(e) => {
                return Result::Err(e);
            },
        }
        match self.consume(TokenType::Semicolon, "Expect ';'") {
            Result::Ok(_) => Result::Ok(Statement::AssertEq(left, right)),
            Result::Err(e) => Result::Err(e),
        }
    }

    /// Parse a run-test statement; the builtin keyword has just been
    /// consumed.  The test name is the string literal right after the
    /// opening parenthesis.
    fn run_test_statement(&mut self) -> (r: Result<Statement, ParseError>)
        requires
            old(self).wf(),
        ensures
            final(self).wf(),
            final(self).toks() == old(self).toks(),
            old(self).cur() <= final(self).cur(),
            r is Ok ==> old(self).cur() < final(self).cur(),
            r is Ok ==> final(self).ctx() == old(self).ctx(),
            r is Ok ==> r matches Result::Ok(Statement::RunTest { .. }),
            old(self).peek_type_s() != TokenType::LeftParen ==> r is Err,
            r matches Result::Ok(Statement::RunTest { test_name, .. }) ==> test_name@ == old(
                self,
            ).toks()[old(self).cur() + 1]@ && test_name.token_type == TokenType::String,
        decreases old(self).rem(), 25int,
    {
        match self.consume(TokenType::LeftParen, "Expect '('") {
            Result::Ok(_) => {},
            Result::Err(e) => {
                return Result::Err(e);
            },
        }
        let test_name = match self.consume(TokenType::String, "Expect test name") {
            Result::Ok(t) => t,
            Result::Err(e) => {
                return Result::Err(e);
            },
        };
        match self.consume(TokenType::Comma, "Expect ',' after test name") {
            Result::Ok(_) => {},
            Result::Err(e) => {
                return Result::Err(e);
            },
        }
        let function_name = match self.expression() {
            Result::Ok(e) => e,
            Result::Err(e) => {
                return Result::Err(e);
            },
        };
        match self.consume(TokenType::RightParen, "Expect ')'") {
            Result::Ok(_) => {},
            Result::Err(e) => {
                return Result::Err(e);
            },
        }
        match self.consume(TokenType::Semicolon, "Expect ';'") {
            Result::Ok(_) => Result::Ok(
                Statement::RunTest { test_name, function_name: Box::new(function_name) },
            ),
            Result::Err(e) => Result::Err(e),
        }
    }

    /// Parse any expression: `{` or `if` opens a block-ended expression,
    /// anything else a block-free one.
    fn expression(&mut self) -> (r: Result<Expression, ParseError>)
        requires
            old(self).wf(),
        ensures
            final(self).wf(),
            final(self).toks() == old(self).toks(),
            old(self).cur() <= final(self).cur(),
            r is Ok ==> old(self).cur() < final(self).cur(),
            r is Ok ==> final(self).ctx() == old(self).ctx(),
            r is Ok && old(self).if_head_variable_case() ==> (r matches Result::Ok(
                Expression::WithoutBlock(ExpressionWithoutBlock::Variable(t)),
            ) && t@ == old(self).peek_s()@ && final(self).cur() == old(self).cur() + 1),
        decreases old(self).rem(), 20int,
    {
        if self.match_token(&[TokenType::LeftBrace, TokenType::If]) {
            match self.expression_with_block() {
                Result::Ok(e) => Result::Ok(Expression::WithBlock(e)),
                Result::Err(e) => Result::Err(e),
            }
        } else {
            match self.expression_without_block() {
                Result::Ok(e) => Result::Ok(Expression::WithoutBlock(e)),
                Result::Err(e) => Result::Err(e),
            }
        }
    }

    /// Parse a block-ended expression; the `{` or `if` has just been
    /// consumed.
    fn expression_with_block(&mut self) -> (r: Result<ExpressionWithBlock, ParseError>)
        requires
            old(self).wf(),
            old(self).cur() >= 1,
            old(self).prev_type() == TokenType::LeftBrace || old(self).prev_type()
                == TokenType::If,
        ensures
            final(self).wf(),
            final(self).toks() == old(self).toks(),
            old(self).cur() <= final(self).cur(),
            r is Ok ==> final(self).ctx() == old(self).ctx(),
            r is Ok && old(self).prev_type() == TokenType::LeftBrace ==> r matches Result::Ok(
                ExpressionWithBlock::Block(_),
            ),
            r is Ok && old(self).prev_type() == TokenType::If ==> r matches Result::Ok(
                ExpressionWithBlock::If { .. },
            ),
        decreases old(self).rem(), 24int,
    {
        if self.previous().token_type == TokenType::LeftBrace {
            match self.block_expression() {
                Result::Ok(b) => Result::Ok(ExpressionWithBlock::Block(Box::new(b))),
                Result::Err(e) => Result::Err(e),
            }
        } else {
            self.if_expression()
        }
    }

    /// Parse the inside of a block, up to and including its closing `}`.
    ///
    /// At most one tail expression exists and it is always last: a bare
    /// non-block expression without a terminator becomes the tail only if
    /// the closing brace follows at once; anything else after it is a
    /// syntax error.  A block-ended expression without a terminator is
    /// recorded as a statement.
    fn block_expression(&mut self) -> (r: Result<BlockExpression, ParseError>)
        requires
            old(self).wf(),
        ensures
            final(self).wf(),
            final(self).toks() == old(self).toks(),
            old(self).cur() <= final(self).cur(),
            r is Ok ==> old(self).cur() < final(self).cur(),
            r is Ok ==> final(self).ctx() == old(self).ctx(),
            r is Ok ==> final(self).cur() >= 1 && final(self).prev_type()
                == TokenType::RightBrace,
        decreases old(self).rem(), 23int,
    {
        let mut tail: Option<ExpressionWithoutBlock> = Option::None;
        let mut statements: Vec<Statement> = Vec::new();
        while !self.match_token(&[TokenType::RightBrace])
            invariant
                self.wf(),
                self.toks() == old(self).toks(),
                old(self).cur() <= self.cur(),
                self.ctx() == old(self).ctx(),
            decreases self.rem(),
        {
            let maybe = match self.maybe_statement() {
                Result::Ok(m) => m,
                Result::Err(e) => {
                    return Result::Err(e);
                },
            };
            match maybe {
                MaybeStatement::Statement(statement) => statements.push(statement),
                MaybeStatement::Expression(expression) => {
                    if self.check(TokenType::Semicolon) {
                        self.advance();
                        statements.push(Statement::Expression(expression));
                    } else {
                        match expression {
                            Expression::WithoutBlock(e) => {
                                tail = Option::Some(e);
                                if !self.check(TokenType::RightBrace) {
                                    return Result::Err(
                                        self.error_here("Expect ';' after expression"),
                                    );
                                }
                            },
                            Expression::WithBlock(e) => {
                                statements.push(
                                    Statement::Expression(Expression::WithBlock(e)),
                                );
                            },
                        }
                    }
                },
            }
        }
        Result::Ok(BlockExpression { statements, expr: tail })
    }

    /// Parse an `if` expression; the `if` keyword has just been consumed.
    /// The condition is parsed inside the if-condition context, which
    /// disables struct-literal interpretation of identifier-brace
    /// sequences: a condition that is an identifier followed at once by
    /// `{` becomes a bare variable reference, and the brace opens the
    /// body.
    fn if_expression(&mut self) -> (r: Result<ExpressionWithBlock, ParseError>)
        requires
            old(self).wf(),
        ensures
            final(self).wf(),
            final(self).toks() == old(self).toks(),
            old(self).cur() <= final(self).cur(),
            r is Ok ==> final(self).ctx() == old(self).ctx(),
            r is Ok ==> r matches Result::Ok(ExpressionWithBlock::If { .. }),
            r is Ok && old(self).peek_type_s() == TokenType::Identifier && old(self).toks()[old(
                self,
            ).cur() + 1].token_type == TokenType::LeftBrace ==> (r matches Result::Ok(
                ExpressionWithBlock::If { expr, .. },
            ) && (*expr) matches Expression::WithoutBlock(ExpressionWithoutBlock::Variable(t))
                && t@ == old(self).peek_s()@),
        decreases old(self).rem(), 21int,
    {
        self.push_context(ParseContext::IfCondition);
        let condition = match self.expression() {
            Result::Ok(e) => e,
            Result::Err(e) => {
                return Result::Err(e);
            },
        };
        self.pop_context();
        match self.consume(TokenType::LeftBrace, "Expect '{'") {
            Result::Ok(_) => {},
            Result::Err(e) => {
                return Result::Err(e);
            },
        }
        let then = match self.block_expression() {
            Result::Ok(b) => b,
            Result::Err(e) => {
                return Result::Err(e);
            },
        };
        let else_branch: Option<Box<ExpressionWithBlock>> = if self.check(TokenType::Else) {
            self.advance();
            if !self.match_token(&[TokenType::LeftBrace, TokenType::If]) {
                return Result::Err(self.error_prev("Expect block expression or if expression"));
            }
            match self.expression_with_block() {
                Result::Ok(e) => Option::Some(Box::new(e)),
                Result::Err(e) => {
                    return Result::Err(e);
                },
            }
        } else {
            Option::None
        };
        Result::Ok(
            ExpressionWithBlock::If {
                expr: Box::new(condition),
                then: Box::new(then),
                else_branch,
            },
        )
    }

    /// Parse a block-free expression: the top of the precedence ladder.
    fn expression_without_block(&mut self) -> (r: Result<ExpressionWithoutBlock, ParseError>)
        requires
            old(self).wf(),
        ensures
            final(self).wf(),
            final(self).toks() == old(self).toks(),
            old(self).cur() <= final(self).cur(),
            r is Ok ==> old(self).cur() < final(self).cur(),
            r is Ok ==> final(self).ctx() == old(self).ctx(),
            r is Ok && old(self).if_head_variable_case() ==> (r matches Result::Ok(
                ExpressionWithoutBlock::Variable(t),
            ) && t@ == old(self).peek_s()@ && final(self).cur() == old(self).cur() + 1),
            r matches Result::Ok(ExpressionWithoutBlock::Variable(t)) ==> t.token_type
                == TokenType::Identifier,
            r matches Result::Ok(ExpressionWithoutBlock::Assignment { name, operator, .. })
                ==> name.token_type == TokenType::Identifier && (operator.token_type
                == TokenType::Equal || operator.token_type == TokenType::PlusEqual),
        decreases old(self).rem(), 18int,
    {
        self.assignment()
    }

    /// Parse assignment: right-associative, and only legal when the
    /// left-hand side is a bare variable reference; any other target
    /// before `=` or `+=` is a syntax error.  Supports `=` and `+=` only.
    fn assignment(&mut self) -> (r: Result<ExpressionWithoutBlock, ParseError>)
        requires
            old(self).wf(),
        ensures
            final(self).wf(),
            final(self).toks() == old(self).toks(),
            old(self).cur() <= final(self).cur(),
            r is Ok ==> old(self).cur() < final(self).cur(),
            r is Ok ==> final(self).ctx() == old(self).ctx(),
            r is Ok && old(self).if_head_variable_case() ==> (r matches Result::Ok(
                ExpressionWithoutBlock::Variable(t),
            ) && t@ == old(self).peek_s()@ && final(self).cur() == old(self).cur() + 1),
            r matches Result::Ok(ExpressionWithoutBlock::Variable(t)) ==> t.token_type
                == TokenType::Identifier,
            r matches Result::Ok(ExpressionWithoutBlock::Assignment { name, operator, .. })
                ==> name.token_type == TokenType::Identifier && (operator.token_type
                == TokenType::Equal || operator.token_type == TokenType::PlusEqual),
        decreases old(self).rem(), 17int,
    {
        let expr = match self.equality() {
            Result::Ok(e) => e,
            Result::Err(e) => {
                return Result::Err(e);
            },
        };
        if self.match_token(&[TokenType::Equal, TokenType::PlusEqual]) {
            let operator = self.previous().duplicate();
            let value = match self.assignment() {
                Result::Ok(v) => v,
                Result::Err(e) => {
                    return Result::Err(e);
                },
            };
            match expr {
                ExpressionWithoutBlock::Variable(name) => {
                    return Result::Ok(
                        ExpressionWithoutBlock::Assignment {
                            name,
                            value: Box::new(value),
                            operator,
                        },
                    );
                },
                _ => {
                    return Result::Err(
                        ParseError::SyntaxError(
                            operator,
                            String::from_str("Invalid assignment target"),
                        ),
                    );
                },
            }
        }
        Result::Ok(expr)
    }

    /// Parse equality comparisons (`==`, `!=`).
    fn equality(&mut self) -> (r: Result<ExpressionWithoutBlock, ParseError>)
        requires
            old(self).wf(),
        ensures
            final(self).wf(),
            final(self).toks() == old(self).toks(),
            old(self).cur() <= final(self).cur(),
            r is Ok ==> old(self).cur() < final(self).cur(),
            r is Ok ==> final(self).ctx() == old(self).ctx(),
            r is Ok && old(self).if_head_variable_case() ==> (r matches Result::Ok(
                ExpressionWithoutBlock::Variable(t),
            ) && t@ == old(self).peek_s()@ && final(self).cur() == old(self).cur() + 1),
            r is Ok ==> !(r matches Result::Ok(ExpressionWithoutBlock::Assignment { .. })),
            r matches Result::Ok(ExpressionWithoutBlock::Variable(t)) ==> t.token_type
                == TokenType::Identifier,
        decreases old(self).rem(), 16int,
    {
        let mut expr = match self.comparison() {
            Result::Ok(e) => e,
            Result::Err(e) => {
                return Result::Err(e);
            },
        };
        while self.match_token(&[TokenType::BangEqual, TokenType::EqualEqual])
            invariant
                self.wf(),
                self.toks() == old(self).toks(),
                old(self).cur() < self.cur(),
                self.ctx() == old(self).ctx(),
                old(self).if_head_variable_case() ==> (expr matches
                ExpressionWithoutBlock::Variable(t) && t@ == old(self).peek_s()@ && self.cur()
                    == old(self).cur() + 1),
                !(expr matches ExpressionWithoutBlock::Assignment { .. }),
                expr matches ExpressionWithoutBlock::Variable(t) ==> t.token_type
                    == TokenType::Identifier,
            decreases self.rem(),
        {
            let operator = self.previous().duplicate();
            let right = match self.expression_without_block() {
                Result::Ok(e) => e,
                Result::Err(e) => {
                    return Result::Err(e);
                },
            };
            expr = ExpressionWithoutBlock::Binary {
                left: Box::new(expr),
                operator,
                right: Box::new(right),
            };
        }
        Result::Ok(expr)
    }

    /// Parse ordering comparisons (`<`, `<=`, `>`, `>=`).  A parsed tag
    /// expression stands alone and takes no comparison suffix.
    fn comparison(&mut self) -> (r: Result<ExpressionWithoutBlock, ParseError>)
        requires
            old(self).wf(),
        ensures
            final(self).wf(),
            final(self).toks() == old(self).toks(),
            old(self).cur() <= final(self).cur(),
            r is Ok ==> old(self).cur() < final(self).cur(),
            r is Ok ==> final(self).ctx() == old(self).ctx(),
            r is Ok && old(self).if_head_variable_case() ==> (r matches Result::Ok(
                ExpressionWithoutBlock::Variable(t),
            ) && t@ == old(self).peek_s()@ && final(self).cur() == old(self).cur() + 1),
            r is Ok ==> !(r matches Result::Ok(ExpressionWithoutBlock::Assignment { .. })),
            r matches Result::Ok(ExpressionWithoutBlock::Variable(t)) ==> t.token_type
                == TokenType::Identifier,
        decreases old(self).rem(), 15int,
    {
        let mut expr = match self.term() {
            Result::Ok(e) => e,
            Result::Err(e) => {
                return Result::Err(e);
            },
        };
        if let ExpressionWithoutBlock::Html { .. } = expr {
            return Result::Ok(expr);
        }
        while self.match_token(
            &[TokenType::Greater, TokenType::GreaterEqual, TokenType::Less, TokenType::LessEqual],
        )
            invariant
                self.wf(),
                self.toks() == old(self).toks(),
                old(self).cur() < self.cur(),
                self.ctx() == old(self).ctx(),
                old(self).if_head_variable_case() ==> (expr matches
                ExpressionWithoutBlock::Variable(t) && t@ == old(self).peek_s()@ && self.cur()
                    == old(self).cur() + 1),
                !(expr matches ExpressionWithoutBlock::Assignment { .. }),
                expr matches ExpressionWithoutBlock::Variable(t) ==> t.token_type
                    == TokenType::Identifier,
            decreases self.rem(),
        {
            let operator = self.previous().duplicate();
            let right = match self.term() {
                Result::Ok(e) => e,
                Result::Err(e) => {
                    return Result::Err(e);
                },
            };
            expr = ExpressionWithoutBlock::Binary {
                left: Box::new(expr),
                operator,
                right: Box::new(right),
            };
        }
        Result::Ok(expr)
    }

    /// Parse additive expressions (`+`, `-`).
    fn term(&mut self) -> (r: Result<ExpressionWithoutBlock, ParseError>)
        requires
            old(self).wf(),
        ensures
            final(self).wf(),
            final(self).toks() == old(self).toks(),
            old(self).cur() <= final(self).cur(),
            r is Ok ==> old(self).cur() < final(self).cur(),
            r is Ok ==> final(self).ctx() == old(self).ctx(),
            r is Ok && old(self).if_head_variable_case() ==> (r matches Result::Ok(
                ExpressionWithoutBlock::Variable(t),
            ) && t@ == old(self).peek_s()@ && final(self).cur() == old(self).cur() + 1),
            r is Ok ==> !(r matches Result::Ok(ExpressionWithoutBlock::Assignment { .. })),
            r matches Result::Ok(ExpressionWithoutBlock::Variable(t)) ==> t.token_type
                == TokenType::Identifier,
        decreases old(self).rem(), 14int,
    {
        let mut expr = match self.factor() {
            Result::Ok(e) => e,
            Result::Err(e) => {
                return Result::Err(e);
            },
        };
        while self.match_token(&[TokenType::Minus, TokenType::Plus])
            invariant
                self.wf(),
                self.toks() == old(self).toks(),
                old(self).cur() < self.cur(),
                self.ctx() == old(self).ctx(),
                old(self).if_head_variable_case() ==> (expr matches
                ExpressionWithoutBlock::Variable(t) && t@ == old(self).peek_s()@ && self.cur()
                    == old(self).cur() + 1),
                !(expr matches ExpressionWithoutBlock::Assignment { .. }),
                expr matches ExpressionWithoutBlock::Variable(t) ==> t.token_type
                    == TokenType::Identifier,
            decreases self.rem(),
        {
            let operator = self.previous().duplicate();
            let right = match self.factor() {
                Result::Ok(e) => e,
                Result::Err(e) => {
                    return Result::Err(e);
                },
            };
            expr = ExpressionWithoutBlock::Binary {
                left: Box::new(expr),
                operator,
                right: Box::new(right),
            };
        }
        Result::Ok(expr)
    }

    /// Parse multiplicative expressions (`*`, `/`).
    fn factor(&mut self) -> (r: Result<ExpressionWithoutBlock, ParseError>)
        requires
            old(self).wf(),
        ensures
            final(self).wf(),
            final(self).toks() == old(self).toks(),
            old(self).cur() <= final(self).cur(),
            r is Ok ==> old(self).cur() < final(self).cur(),
            r is Ok ==> final(self).ctx() == old(self).ctx(),
            r is Ok && old(self).if_head_variable_case() ==> (r matches Result::Ok(
                ExpressionWithoutBlock::Variable(t),
            ) && t@ == old(self).peek_s()@ && final(self).cur() == old(self).cur() + 1),
            r is Ok ==> !(r matches Result::Ok(ExpressionWithoutBlock::Assignment { .. })),
            r matches Result::Ok(ExpressionWithoutBlock::Variable(t)) ==> t.token_type
                == TokenType::Identifier,
        decreases old(self).rem(), 13int,
    {
        let mut expr = match self.unary() {
            Result::Ok(e) => e,
            Result::Err(e) => {
                return Result::Err(e);
            },
        };
        while self.match_token(&[TokenType::Slash, TokenType::Star])
            invariant
                self.wf(),
                self.toks() == old(self).toks(),
                old(self).cur() < self.cur(),
                self.ctx() == old(self).ctx(),
                old(self).if_head_variable_case() ==> (expr matches
                ExpressionWithoutBlock::Variable(t) && t@ == old(self).peek_s()@ && self.cur()
                    == old(self).cur() + 1),
                !(expr matches ExpressionWithoutBlock::Assignment { .. }),
                expr matches ExpressionWithoutBlock::Variable(t) ==> t.token_type
                    == TokenType::Identifier,
            decreases self.rem(),
        {
            let operator = self.previous().duplicate();
            let right = match self.unary() {
                Result::Ok(e) => e,
                Result::Err(e) => {
                    return Result::Err(e);
                },
            };
            expr = ExpressionWithoutBlock::Binary {
                left: Box::new(expr),
                operator,
                right: Box::new(right),
            };
        }
        Result::Ok(expr)
    }

    /// Parse unary prefix operators (`!`, `-`).
    fn unary(&mut self) -> (r: Result<ExpressionWithoutBlock, ParseError>)
        requires
            old(self).wf(),
        ensures
            final(self).wf(),
            final(self).toks() == old(self).toks(),
            old(self).cur() <= final(self).cur(),
            r is Ok ==> old(self).cur() < final(self).cur(),
            r is Ok ==> final(self).ctx() == old(self).ctx(),
            r is Ok && old(self).if_head_variable_case() ==> (r matches Result::Ok(
                ExpressionWithoutBlock::Variable(t),
            ) && t@ == old(self).peek_s()@ && final(self).cur() == old(self).cur() + 1),
            r is Ok ==> !(r matches Result::Ok(ExpressionWithoutBlock::Assignment { .. })),
            r matches Result::Ok(ExpressionWithoutBlock::Variable(t)) ==> t.token_type
                == TokenType::Identifier,
        decreases old(self).rem(), 12int,
    {
        if self.match_token(&[TokenType::Bang, TokenType::Minus]) {
            let operator = self.previous().duplicate();
            let right = match self.unary() {
                Result::Ok(e) => e,
                Result::Err(e) => {
                    return Result::Err(e);
                },
            };
            return Result::Ok(
                ExpressionWithoutBlock::Unary { operator, right: Box::new(right) },
            );
        }
        self.call()
    }

    /// Parse call chains: a postfix `(...)` applies the expression so far.
    fn call(&mut self) -> (r: Result<ExpressionWithoutBlock, ParseError>)
        requires
            old(self).wf(),
        ensures
            final(self).wf(),
            final(self).toks() == old(self).toks(),
            old(self).cur() <= final(self).cur(),
            r is Ok ==> old(self).cur() < final(self).cur(),
            r is Ok ==> final(self).ctx() == old(self).ctx(),
            r is Ok && old(self).if_head_variable_case() ==> (r matches Result::Ok(
                ExpressionWithoutBlock::Variable(t),
            ) && t@ == old(self).peek_s()@ && final(self).cur() == old(self).cur() + 1),
            r is Ok ==> !(r matches Result::Ok(ExpressionWithoutBlock::Assignment { .. })),
            r matches Result::Ok(ExpressionWithoutBlock::Variable(t)) ==> t.token_type
                == TokenType::Identifier,
        decreases old(self).rem(), 11int,
    {
        let mut expr = match self.index() {
            Result::Ok(e) => e,
            Result::Err(e) => {
                return Result::Err(e);
            },
        };
        while self.match_token(&[TokenType::LeftParen])
            invariant
                self.wf(),
                self.toks() == old(self).toks(),
                old(self).cur() < self.cur(),
                self.ctx() == old(self).ctx(),
                old(self).if_head_variable_case() ==> (expr matches
                ExpressionWithoutBlock::Variable(t) && t@ == old(self).peek_s()@ && self.cur()
                    == old(self).cur() + 1),
                !(expr matches ExpressionWithoutBlock::Assignment { .. }),
                expr matches ExpressionWithoutBlock::Variable(t) ==> t.token_type
                    == TokenType::Identifier,
            decreases self.rem(),
        {
            expr = match self.finish_call(expr) {
                Result::Ok(e) => e,
                Result::Err(e) => {
                    return Result::Err(e);
                },
            };
        }
        Result::Ok(expr)
    }

    /// Parse the arguments of a call; the `(` has just been consumed.
    fn finish_call(&mut self, callee: ExpressionWithoutBlock) -> (r: Result<
        ExpressionWithoutBlock,
        ParseError,
    >)
        requires
            old(self).wf(),
        ensures
            final(self).wf(),
            final(self).toks() == old(self).toks(),
            old(self).cur() <= final(self).cur(),
            r is Ok ==> final(self).ctx() == old(self).ctx(),
            r is Ok ==> !(r matches Result::Ok(ExpressionWithoutBlock::Assignment { .. })),
            r matches Result::Ok(ExpressionWithoutBlock::Variable(t)) ==> t.token_type
                == TokenType::Identifier,
        decreases old(self).rem(), 25int,
    {
        let mut arguments: Vec<Expression> = Vec::new();
        if !self.check(TokenType::RightParen) {
            let first = match self.expression() {
                Result::Ok(e) => e,
                Result::Err(e) => {
                    return Result::Err(e);
                },
            };
            arguments.push(first);
            while self.match_token(&[TokenType::Comma])
                invariant
                    self.wf(),
                    self.toks() == old(self).toks(),
                    old(self).cur() < self.cur(),
                    self.ctx() == old(self).ctx(),
                decreases self.rem(),
            {
                let next = match self.expression() {
                    Result::Ok(e) => e,
                    Result::Err(e) => {
                        return Result::Err(e);
                    },
                };
                arguments.push(next);
            }
        }
        match self.consume(TokenType::RightParen, "Expect ')' after arguments") {
            Result::Ok(_) => Result::Ok(
                ExpressionWithoutBlock::Call { callee: Box::new(callee), arguments },
            ),
            Result::Err(e) => Result::Err(e),
        }
    }

    /// Parse indexing chains: postfix `[...]`.
    fn index(&mut self) -> (r: Result<ExpressionWithoutBlock, ParseError>)
        requires
            old(self).wf(),
        ensures
            final(self).wf(),
            final(self).toks() == old(self).toks(),
            old(self).cur() <= final(self).cur(),
            r is Ok ==> old(self).cur() < final(self).cur(),
            r is Ok ==> final(self).ctx() == old(self).ctx(),
            r is Ok && old(self).if_head_variable_case() ==> (r matches Result::Ok(
                ExpressionWithoutBlock::Variable(t),
            ) && t@ == old(self).peek_s()@ && final(self).cur() == old(self).cur() + 1),
            r is Ok ==> !(r matches Result::Ok(ExpressionWithoutBlock::Assignment { .. })),
            r matches Result::Ok(ExpressionWithoutBlock::Variable(t)) ==> t.token_type
                == TokenType::Identifier,
        decreases old(self).rem(), 10int,
    {
        let mut expr = match self.field() {
            Result::Ok(e) => e,
            Result::Err(e) => {
                return Result::Err(e);
            },
        };
        while self.match_token(&[TokenType::LeftSquareBracket])
            invariant
                self.wf(),
                self.toks() == old(self).toks(),
                old(self).cur() < self.cur(),
                self.ctx() == old(self).ctx(),
                old(self).if_head_variable_case() ==> (expr matches
                ExpressionWithoutBlock::Variable(t) && t@ == old(self).peek_s()@ && self.cur()
                    == old(self).cur() + 1),
                !(expr matches ExpressionWithoutBlock::Assignment { .. }),
                expr matches ExpressionWithoutBlock::Variable(t) ==> t.token_type
                    == TokenType::Identifier,
            decreases self.rem(),
        {
            let index_expr = match self.expression() {
                Result::Ok(e) => e,
                Result::Err(e) => {
                    return Result::Err(e);
                },
            };
            expr = ExpressionWithoutBlock::Index {
                callee: Box::new(expr),
                index: Box::new(index_expr),
            };
            match self.consume(TokenType::RightSquareBracket, "Expect ']' after index") {
                Result::Ok(_) => {},
                Result::Err(e) => {
                    return Result::Err(e);
                },
            }
        }
        Result::Ok(expr)
    }

    /// Parse one step of field access: postfix `.name`, applied once.
    fn field(&mut self) -> (r: Result<ExpressionWithoutBlock, ParseError>)
        requires
            old(self).wf(),
        ensures
            final(self).wf(),
            final(self).toks() == old(self).toks(),
            old(self).cur() <= final(self).cur(),
            r is Ok ==> old(self).cur() < final(self).cur(),
            r is Ok ==> final(self).ctx() == old(self).ctx(),
            r is Ok && old(self).if_head_variable_case() ==> (r matches Result::Ok(
                ExpressionWithoutBlock::Variable(t),
            ) && t@ == old(self).peek_s()@ && final(self).cur() == old(self).cur() + 1),
            r is Ok ==> !(r matches Result::Ok(ExpressionWithoutBlock::Assignment { .. })),
            r matches Result::Ok(ExpressionWithoutBlock::Variable(t)) ==> t.token_type
                == TokenType::Identifier,
        decreases old(self).rem(), 9int,
    {
        let mut expr = match self.primary() {
            Result::Ok(e) => e,
            Result::Err(e) => {
                return Result::Err(e);
            },
        };
        if self.match_token(&[TokenType::Dot]) {
            let field_token = match self.consume(TokenType::Identifier, "Expect field name") {
                Result::Ok(t) => t,
                Result::Err(e) => {
                    return Result::Err(e);
                },
            };
            expr = ExpressionWithoutBlock::Field { callee: Box::new(expr), field: field_token };
        }
        Result::Ok(expr)
    }

    /// Parse a primary expression.
    ///
    /// An identifier followed by `{` is a struct literal, except directly
    /// inside an `if` condition, where the identifier stands alone and the
    /// brace opens the `if` body.
    fn primary(&mut self) -> (r: Result<ExpressionWithoutBlock, ParseError>)
        requires
            old(self).wf(),
        ensures
            final(self).wf(),
            final(self).toks() == old(self).toks(),
            old(self).cur() <= final(self).cur(),
            r is Ok ==> old(self).cur() < final(self).cur(),
            r is Ok ==> final(self).ctx() == old(self).ctx(),
            r is Ok && old(self).peek_type_s() == TokenType::Identifier && old(self).in_if_ctx()
                ==> (r matches Result::Ok(ExpressionWithoutBlock::Variable(t)) && t@ == old(
                self,
            ).peek_s()@ && final(self).cur() == old(self).cur() + 1),
            r is Ok && old(self).peek_type_s() == TokenType::Identifier && !old(self).in_if_ctx()
                && old(self).toks()[old(self).cur() + 1].token_type == TokenType::LeftBrace ==> (
            r matches Result::Ok(ExpressionWithoutBlock::Struct { name, .. }) && name@ == old(
                self,
            ).peek_s()@),
            r is Ok && old(self).peek_type_s() == TokenType::False ==> r matches Result::Ok(
                ExpressionWithoutBlock::Literal(Literal::False),
            ),
            r is Ok && old(self).peek_type_s() == TokenType::True ==> r matches Result::Ok(
                ExpressionWithoutBlock::Literal(Literal::True),
            ),
            r is Ok && (old(self).peek_type_s() == TokenType::Number || old(self).peek_type_s()
                == TokenType::String) ==> (r matches Result::Ok(
                ExpressionWithoutBlock::Literal(v),
            ) && Option::Some(v@) == old(self).peek_s()@.value),
            r is Ok && old(self).peek_type_s() == TokenType::LeftParen && old(self).cur() + 2 < old(
                self,
            ).toks().len() && old(self).toks()[old(self).cur() + 2].token_type == TokenType::Comma
                ==> r matches Result::Ok(ExpressionWithoutBlock::Tuple { .. }),
            r is Ok && old(self).peek_type_s() == TokenType::LeftParen && !(old(self).cur() + 2
                < old(self).toks().len() && old(self).toks()[old(self).cur() + 2].token_type
                == TokenType::Comma) ==> (r matches Result::Ok(
                ExpressionWithoutBlock::Grouping(_),
            ) && final(self).cur() >= 1 && final(self).prev_type() == TokenType::RightParen),
            r matches Result::Ok(ExpressionWithoutBlock::Struct { fields, .. }) ==> (forall|
                i: int,
            |
                0 <= i < fields@.len() ==> (#[trigger] fields@[i]).0.token_type
                    == TokenType::Identifier),
            r is Ok ==> !(r matches Result::Ok(ExpressionWithoutBlock::Assignment { .. })),
            r matches Result::Ok(ExpressionWithoutBlock::Variable(t)) ==> t.token_type
                == TokenType::Identifier,
        decreases old(self).rem(), 8int,
    {
        if self.match_token(&[TokenType::False]) {
            return Result::Ok(ExpressionWithoutBlock::Literal(Literal::False));
        }
        if self.match_token(&[TokenType::True]) {
            return Result::Ok(ExpressionWithoutBlock::Literal(Literal::True));
        }
        if self.match_token(&[TokenType::Number, TokenType::String]) {
            match &self.previous().value {
                Option::Some(v) => {
                    return Result::Ok(ExpressionWithoutBlock::Literal(v.duplicate()));
                },
                Option::None => {
                    return Result::Err(self.error_prev("Expect literal value"));
                },
            }
        }
        if self.match_token(&[TokenType::Identifier]) {
            if self.check(TokenType::LeftBrace) && !self.in_if_condition() {
                return self.struct_expression();
            }
            return Result::Ok(ExpressionWithoutBlock::Variable(self.previous().duplicate()));
        }
        if self.match_token(&[TokenType::LeftParen]) {
            let n = self.tokens.len();
            let is_tuple = self.current + 1 < n && self.tokens[self.current + 1].token_type
                == TokenType::Comma;
            if is_tuple {
                return self.tuple();
            }
            let expr = match self.expression_without_block() {
                Result::Ok(e) => e,
                Result::Err(e) => {
                    return Result::Err(e);
                },
            };
            match self.consume(TokenType::RightParen, "Expect ')' after expression.") {
                Result::Ok(_) => {},
                Result::Err(e) => {
                    return Result::Err(e);
                },
            }
            return Result::Ok(ExpressionWithoutBlock::Grouping(Box::new(expr)));
        }
        if self.match_token(&[TokenType::RawJs]) {
            match self.raw_code_argument() {
                Result::Ok(code) => {
                    return Result::Ok(ExpressionWithoutBlock::RawJs(code));
                },
                Result::Err(e) => {
                    return Result::Err(e);
                },
            }
        }
        if self.match_token(&[TokenType::RawGo]) {
            match self.raw_code_argument() {
                Result::Ok(code) => {
                    return Result::Ok(ExpressionWithoutBlock::RawGo(code));
                },
                Result::Err(e) => {
                    return Result::Err(e);
                },
            }
        }
        if self.match_token(&[TokenType::FString]) {
            return self.fstring();
        }
        if self.match_token(&[TokenType::Less]) {
            if self.check(TokenType::Identifier) {
                return self.html();
            }
        }
        if self.match_token(&[TokenType::Pipe]) {
            return self.lambda();
        }
        if self.match_token(&[TokenType::LeftSquareBracket]) {
            return self.array();
        }
        Result::Err(self.error_here("Expect expression."))
    }

    /// Parse the parenthesized string payload of a raw-code escape; the
    /// sigil has just been consumed.
    fn raw_code_argument(&mut self) -> (r: Result<String, ParseError>)
        requires
            old(self).wf(),
        ensures
            final(self).wf(),
            final(self).toks() == old(self).toks(),
            old(self).cur() <= final(self).cur(),
            r is Ok ==> final(self).ctx() == old(self).ctx(),
    {
        match self.consume(TokenType::LeftParen, "Expect '(' opening raw code") {
            Result::Ok(_) => {},
            Result::Err(e) => {
                return Result::Err(e);
            },
        }
        let code = match self.consume(TokenType::String, "Expect raw code as a string") {
            Result::Ok(t) => match t.value {
                Option::Some(Literal::String(s)) => s,
                _ => {
                    return Result::Err(self.error_prev("Expect raw code as a string"));
                },
            },
            Result::Err(e) => {
                return Result::Err(e);
            },
        };
        match self.consume(TokenType::RightParen, "Expect ')' after code") {
            Result::Ok(_) => Result::Ok(code),
            Result::Err(e) => Result::Err(e),
        }
    }

    /// Parse an array literal; the `[` has just been consumed.
    fn array(&mut self) -> (r: Result<ExpressionWithoutBlock, ParseError>)
        requires
            old(self).wf(),
        ensures
            final(self).wf(),
            final(self).toks() == old(self).toks(),
            old(self).cur() <= final(self).cur(),
            r is Ok ==> final(self).ctx() == old(self).ctx(),
            r is Ok ==> r matches Result::Ok(ExpressionWithoutBlock::Array { .. }),
            r is Ok ==> final(self).cur() >= 1 && final(self).prev_type()
                == TokenType::RightSquareBracket,
        decreases old(self).rem(), 25int,
    {
        let mut elements: Vec<Expression> = Vec::new();
        if !self.check(TokenType::RightSquareBracket) {
            let first = match self.expression() {
                Result::Ok(e) => e,
                Result::Err(e) => {
                    return Result::Err(e);
                },
            };
            elements.push(first);
            while self.match_token(&[TokenType::Comma])
                invariant
                    self.wf(),
                    self.toks() == old(self).toks(),
                    old(self).cur() < self.cur(),
                    self.ctx() == old(self).ctx(),
                decreases self.rem(),
            {
                let next = match self.expression() {
                    Result::Ok(e) => e,
                    Result::Err(e) => {
                        return Result::Err(e);
                    },
                };
                elements.push(next);
            }
        }
        match self.consume(TokenType::RightSquareBracket, "Expect ']' after array elements") {
            Result::Ok(_) => Result::Ok(ExpressionWithoutBlock::Array { elements }),
            Result::Err(e) => Result::Err(e),
        }
    }

    /// Parse a tuple literal; the `(` has just been consumed.
    fn tuple(&mut self) -> (r: Result<ExpressionWithoutBlock, ParseError>)
        requires
            old(self).wf(),
        ensures
            final(self).wf(),
            final(self).toks() == old(self).toks(),
            old(self).cur() <= final(self).cur(),
            r is Ok ==> final(self).ctx() == old(self).ctx(),
            r is Ok ==> r matches Result::Ok(ExpressionWithoutBlock::Tuple { .. }),
            r is Ok ==> final(self).cur() >= 1 && final(self).prev_type()
                == TokenType::RightParen,
        decreases old(self).rem(), 25int,
    {
        let mut elements: Vec<Expression> = Vec::new();
        if !self.check(TokenType::RightParen) {
            let first = match self.expression() {
                Result::Ok(e) => e,
                Result::Err(e) => {
                    return Result::Err(e);
                },
            };
            elements.push(first);
            while self.match_token(&[TokenType::Comma])
                invariant
                    self.wf(),
                    self.toks() == old(self).toks(),
                    old(self).cur() < self.cur(),
                    self.ctx() == old(self).ctx(),
                decreases self.rem(),
            {
                let next = match self.expression() {
                    Result::Ok(e) => e,
                    Result::Err(e) => {
                        return Result::Err(e);
                    },
                };
                elements.push(next);
            }
        }
        match self.consume(TokenType::RightParen, "Expect ')' after tuple elements") {
            Result::Ok(_) => Result::Ok(ExpressionWithoutBlock::Tuple { elements }),
            Result::Err(e) => Result::Err(e),
        }
    }

    /// Parse a struct literal; the name has just been consumed and the `{`
    /// is next.  Fields are comma-separated; a trailing comma before the
    /// closing brace is allowed but not required.
    fn struct_expression(&mut self) -> (r: Result<ExpressionWithoutBlock, ParseError>)
        requires
            old(self).wf(),
            old(self).cur() >= 1,
        ensures
            final(self).wf(),
            final(self).toks() == old(self).toks(),
            old(self).cur() <= final(self).cur(),
            r is Ok ==> final(self).ctx() == old(self).ctx(),
            r is Ok ==> (r matches Result::Ok(ExpressionWithoutBlock::Struct { name, .. })
                && name@ == old(self).toks()[old(self).cur() - 1]@),
            r matches Result::Ok(ExpressionWithoutBlock::Struct { fields, .. }) ==> (forall|
                i: int,
            |
                0 <= i < fields@.len() ==> (#[trigger] fields@[i]).0.token_type
                    == TokenType::Identifier),
        decreases old(self).rem(), 25int,
    {
        let name = self.previous().duplicate();
        match self.consume(TokenType::LeftBrace, "Expect '{' after struct") {
            Result::Ok(_) => {},
            Result::Err(e) => {
                return Result::Err(e);
            },
        }
        let mut fields: Vec<(Token, Expression)> = Vec::new();
        while !self.match_token(&[TokenType::RightBrace])
            invariant
                self.wf(),
                self.toks() == old(self).toks(),
                old(self).cur() < self.cur(),
                self.ctx() == old(self).ctx(),
                forall|i: int|
                    0 <= i < fields@.len() ==> (#[trigger] fields@[i]).0.token_type
                        == TokenType::Identifier,
            decreases self.rem(),
        {
            let f_name = match self.consume(TokenType::Identifier, "Expect name") {
                Result::Ok(t) => t,
                Result::Err(e) => {
                    return Result::Err(e);
                },
            };
            match self.consume(TokenType::Colon, "Expect ':' after name") {
                Result::Ok(_) => {},
                Result::Err(e) => {
                    return Result::Err(e);
                },
            }
            let value = match self.expression() {
                Result::Ok(e) => e,
                Result::Err(e) => {
                    return Result::Err(e);
                },
            };
            fields.push((f_name, value));
            // A comma separates fields; the last field needs none before
            // the closing brace.
            if self.check(TokenType::Comma) {
                self.advance();
            } else if !self.check(TokenType::RightBrace) {
                return Result::Err(self.error_here("Expect ',' after field initialisation"));
            }
        }
        Result::Ok(ExpressionWithoutBlock::Struct { name, fields })
    }

    /// Re-lex a backtick string into interpolation chunks; the string
    /// token has just been consumed.
    fn fstring(&mut self) -> (r: Result<ExpressionWithoutBlock, ParseError>)
        requires
            old(self).wf(),
            old(self).cur() >= 1,
        ensures
            final(self).wf(),
            final(self).toks() == old(self).toks(),
            old(self).cur() <= final(self).cur(),
            r is Ok ==> final(self).ctx() == old(self).ctx(),
            r is Ok ==> r matches Result::Ok(ExpressionWithoutBlock::FString { .. }),
        decreases old(self).rem(), 25int,
    {
        let chunks: Vec<FStringChunk> = match &self.previous().value {
            Option::Some(Literal::String(s)) => split_fstring(s.as_str()),
            _ => {
                return Result::Err(self.error_prev("fstring needs a literal string value"));
            },
        };
        Result::Ok(ExpressionWithoutBlock::FString { chunks })
    }

    /// Parse a tag expression; the `<` has just been consumed and the tag
    /// name is next.  The closing tag name must match the opening one
    /// (checked by lexeme; a mismatch is a syntax error).
    fn html(&mut self) -> (r: Result<ExpressionWithoutBlock, ParseError>)
        requires
            old(self).wf(),
        ensures
            final(self).wf(),
            final(self).toks() == old(self).toks(),
            old(self).cur() <= final(self).cur(),
            r is Ok ==> final(self).ctx() == old(self).ctx(),
            r is Ok ==> r matches Result::Ok(ExpressionWithoutBlock::Html { .. }),
            old(self).peek_type_s() != TokenType::Identifier ==> r is Err,
            r matches Result::Ok(ExpressionWithoutBlock::Html { name, .. }) ==> name@ == old(
                self,
            ).peek_s()@ && name.token_type == TokenType::Identifier,
        decreases old(self).rem(), 25int,
    {
        let name = match self.consume(TokenType::Identifier, "Expect identifier") {
            Result::Ok(t) => t,
            Result::Err(e) => {
                return Result::Err(e);
            },
        };
        let mut attributes: Vec<(Token, Expression)> = Vec::new();
        while self.match_token(&[TokenType::Identifier])
            invariant
                self.wf(),
                self.toks() == old(self).toks(),
                old(self).cur() < self.cur(),
                self.ctx() == old(self).ctx(),
            decreases self.rem(),
        {
            let attribute_name = self.previous().duplicate();
            match self.consume(TokenType::Equal, "Expect =") {
                Result::Ok(_) => {},
                Result::Err(e) => {
                    return Result::Err(e);
                },
            }
            match self.consume(TokenType::LeftBrace, "Expect braces '{}' around attribute values")
            {
                Result::Ok(_) => {},
                Result::Err(e) => {
                    return Result::Err(e);
                },
            }
            let value = match self.expression() {
                Result::Ok(e) => e,
                Result::Err(e) => {
                    return Result::Err(e);
                },
            };
            attributes.push((attribute_name, value));
            match self.consume(TokenType::RightBrace, "Expect braces '{}' around attribute values")
            {
                Result::Ok(_) => {},
                Result::Err(e) => {
                    return Result::Err(e);
                },
            }
        }
        match self.consume(TokenType::Greater, "Expect to close html tag") {
            Result::Ok(_) => {},
            Result::Err(e) => {
                return Result::Err(e);
            },
        }
        let mut inner: Vec<Expression> = Vec::new();
        while !self.match_token(&[TokenType::LessSlash])
            invariant
                self.wf(),
                self.toks() == old(self).toks(),
                old(self).cur() < self.cur(),
                self.ctx() == old(self).ctx(),
            decreases self.rem(),
        {
            let expression = match self.expression() {
                Result::Ok(e) => e,
                Result::Err(e) => {
                    return Result::Err(e);
                },
            };
            inner.push(expression);
        }
        let closing_name = match self.consume(TokenType::Identifier, "Expect identifier") {
            Result::Ok(t) => t,
            Result::Err(e) => {
                return Result::Err(e);
            },
        };
        if !str_eq(name.lexeme.as_str(), closing_name.lexeme.as_str()) {
            return Result::Err(
                ParseError::SyntaxError(
                    closing_name,
                    String::from_str("Closing tag does not match opening tag"),
                ),
            );
        }
        match self.consume(TokenType::Greater, "Expect to close html tag") {
            Result::Ok(_) => Result::Ok(ExpressionWithoutBlock::Html { name, inner, attributes }),
            Result::Err(e) => Result::Err(e),
        }
    }

    /// Parse a lambda; the opening `|` has just been consumed.  The body
    /// is one expression.
    fn lambda(&mut self) -> (r: Result<ExpressionWithoutBlock, ParseError>)
        requires
            old(self).wf(),
        ensures
            final(self).wf(),
            final(self).toks() == old(self).toks(),
            old(self).cur() <= final(self).cur(),
            r is Ok ==> final(self).ctx() == old(self).ctx(),
            r is Ok ==> r matches Result::Ok(ExpressionWithoutBlock::Lambda { .. }),
        decreases old(self).rem(), 25int,
    {
        let mut parameters: Vec<LambdaParameter> = Vec::new();
        if !self.check(TokenType::Pipe) {
            loop
                invariant
                    self.wf(),
                    self.toks() == old(self).toks(),
                    old(self).cur() <= self.cur(),
                    self.ctx() == old(self).ctx(),
                decreases self.rem(),
            {
                let p_name = match self.consume(TokenType::Identifier, "Expect parameter name") {
                    Result::Ok(t) => t.lexeme,
                    Result::Err(e) => {
                        return Result::Err(e);
                    },
                };
                let p_type: Option<String> = if self.match_token(&[TokenType::Colon]) {
                    match self.consume(TokenType::Identifier, "Expect type annotation") {
                        Result::Ok(t) => Some(t.lexeme),
                        Result::Err(e) => {
                            return Result::Err(e);
                        },
                    }
                } else {
                    Option::None
                };
                parameters.push(LambdaParameter { name: p_name, type_annotation: p_type });
                if !self.match_token(&[TokenType::Comma]) {
                    break;
                }
            }
        }
        match self.consume(TokenType::Pipe, "Expected '|'") {
            Result::Ok(_) => {},
            Result::Err(e) => {
                return Result::Err(e);
            },
        }
        let body = match self.expression() {
            Result::Ok(e) => e,
            Result::Err(e) => {
                return Result::Err(e);
            },
        };
        Result::Ok(ExpressionWithoutBlock::Lambda { parameters, body: Box::new(body) })
    }

    /// A syntax error at the current token, carrying that token and the
    /// given message.
    fn error_here(&self, message: &str) -> (e: ParseError)
        requires
            self.wf(),
        ensures
            e matches ParseError::SyntaxError(t, m) && t@ == self.peek_s()@ && m@ == message@,
    {
        ParseError::SyntaxError(self.peek().duplicate(), message.to_owned())
    }

    /// A syntax error at the most recently consumed token, carrying that
    /// token and the given message.
    fn error_prev(&self, message: &str) -> (e: ParseError)
        requires
            self.wf(),
            self.cur() >= 1,
        ensures
            e matches ParseError::SyntaxError(t, m) && t@ == self.toks()[self.cur() - 1]@ && m@
                == message@,
    {
        ParseError::SyntaxError(self.previous().duplicate(), message.to_owned())
    }

    /// Consume the next token if it has the wanted kind, else a syntax
    /// error carrying the offending token and `message`.
    fn consume(&mut self, token_type: TokenType, message: &str) -> (r: Result<Token, ParseError>)
        requires
            old(self).wf(),
            token_type != TokenType::EOF,
        ensures
            final(self).wf(),
            final(self).toks() == old(self).toks(),
            final(self).ctx() == old(self).ctx(),
            r is Ok <==> old(self).peek_type_s() == token_type,
            r is Ok ==> final(self).cur() == old(self).cur() + 1,
            r matches Result::Ok(t) ==> t@ == old(self).peek_s()@,
            r is Err ==> final(self).cur() == old(self).cur(),
            r matches Result::Err(ParseError::SyntaxError(t, m)) ==> t@ == old(self).peek_s()@
                && m@ == message@,
    {
        if self.check(token_type) {
            self.advance();
            Result::Ok(self.previous().duplicate())
        } else {
            Result::Err(self.error_here(message))
        }
    }

    /// Consume the next token if its kind is among `token_types`.
    fn match_token(&mut self, token_types: &[TokenType]) -> (r: bool)
        requires
            old(self).wf(),
            !token_types@.contains(TokenType::EOF),
        ensures
            final(self).wf(),
            final(self).toks() == old(self).toks(),
            final(self).ctx() == old(self).ctx(),
            r <==> (token_types@.contains(old(self).peek_type_s()) && old(self).peek_type_s()
                != TokenType::EOF),
            r ==> final(self).cur() == old(self).cur() + 1,
            !r ==> final(self).cur() == old(self).cur(),
    {
        let n = token_types.len();
        let mut i: usize = 0;
        while i < n
            invariant
                self.wf(),
                self == old(self),
                n == token_types@.len(),
                i <= n,
                forall|k: int|
                    0 <= k < i ==> (#[trigger] token_types@[k]) != old(self).peek_type_s()
                        || old(self).peek_type_s() == TokenType::EOF,
            decreases n - i,
        {
            if self.check(token_types[i]) {
                self.advance();
                return true;
            }
            i = i + 1;
        }
        false
    }

    /// Whether the next token has the given kind (never true at the end
    /// of input).
    fn check(&self, token_type: TokenType) -> (r: bool)
        requires
            self.wf(),
        ensures
            r == (self.peek_type_s() == token_type && self.peek_type_s() != TokenType::EOF),
    {
        if self.is_at_end() {
            false
        } else {
            self.peek().token_type == token_type
        }
    }

    /// Move past the next token (does nothing at the end of input).
    fn advance(&mut self)
        requires
            old(self).wf(),
        ensures
            final(self).wf(),
            final(self).toks() == old(self).toks(),
            final(self).ctx() == old(self).ctx(),
            final(self).cur() == if old(self).peek_type_s() == TokenType::EOF {
                old(self).cur()
            } else {
                old(self).cur() + 1
            },
    {
        let n = self.tokens.len();
        if !self.is_at_end() {
            self.current = self.current + 1;
        }
    }

    /// The next token.
    fn peek(&self) -> (t: &Token)
        requires
            self.wf(),
        ensures
            *t == self.peek_s(),
    {
        &self.tokens[self.current]
    }

    /// The most recently consumed token.
    fn previous(&self) -> (t: &Token)
        requires
            self.wf(),
            self.cur() >= 1,
        ensures
            *t == self.toks()[self.cur() - 1],
    {
        &self.tokens[self.current - 1]
    }

    /// Whether the next token ends the input.
    fn is_at_end(&self) -> (r: bool)
        requires
            self.wf(),
        ensures
            r == (self.peek_type_s() == TokenType::EOF),
    {
        self.peek().token_type == TokenType::EOF
    }

    /// Whether parsing currently sits directly inside an `if` condition.
    fn in_if_condition(&self) -> (r: bool)
        ensures
            r == self.in_if_ctx(),
    {
        let n = self.context_stack.len();
        if n == 0 {
            false
        } else {
            self.context_stack[n - 1] == ParseContext::IfCondition
        }
    }

    /// Enter a parsing context.
    fn push_context(&mut self, context: ParseContext)
        ensures
            final(self).ctx() == old(self).ctx().push(context),
            final(self).toks() == old(self).toks(),
            final(self).cur() == old(self).cur(),
            old(self).wf() ==> final(self).wf(),
    {
        self.context_stack.push(context);
    }

    /// Leave the innermost parsing context.
    fn pop_context(&mut self)
        ensures
            final(self).ctx() == if old(self).ctx().len() == 0 {
                old(self).ctx()
            } else {
                old(self).ctx().drop_last()
            },
            final(self).toks() == old(self).toks(),
            final(self).cur() == old(self).cur(),
            old(self).wf() ==> final(self).wf(),
    {
        let _ = self.context_stack.pop();
    }
}

} // verus!
