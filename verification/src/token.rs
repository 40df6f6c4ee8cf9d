//! Lexical tokens produced by the scanner.

use vstd::prelude::*;

verus! {

/// A literal value carried by a token or a literal expression.
///
/// Number literals keep their exact source spelling; the language treats
/// values loosely and every consumer of a number only ever reprints it.
#[derive(Clone, Debug)]
pub enum Literal {
    True,
    False,
    Identifier(String),
    String(String),
    Number(String),
}

/// The lexical category of a token.
#[derive(Eq, PartialEq, Clone, Copy, Debug, Structural)]
pub enum TokenType {
    // Single-character tokens.
    LeftParen,
    RightParen,
    LeftBrace,
    RightBrace,
    LeftSquareBracket,
    RightSquareBracket,
    Comma,
    Dot,
    Minus,
    Pipe,
    Plus,
    Colon,
    Semicolon,
    Slash,
    Star,
    // One or two character tokens.
    Bang,
    BangEqual,
    Equal,
    EqualEqual,
    Less,
    LessEqual,
    LessSlash,
    Greater,
    GreaterEqual,
    PlusEqual,
    SlashGreater,
    MinusGreater,
    ColonColon,
    // Literals.
    Identifier,
    String,
    Number,
    FString,
    // Keywords.
    Let,
    Mut,
    False,
    True,
    Print,
    Fn,
    Cmpnt,
    If,
    Else,
    AssertEq,
    Import,
    Struct,
    // Builtins.
    RunTest,
    TestRunner,
    // Escape hatches.
    RawJs,
    RawGo,
    EOF,
}

/// The mathematical value of a `Literal`: its text as a character sequence.
#[verifier::ext_equal]
pub ghost enum LiteralV {
    True,
    False,
    Identifier(Seq<char>),
    String(Seq<char>),
    Number(Seq<char>),
}

impl View for Literal {
    type V = LiteralV;

    open spec fn view(&self) -> LiteralV {
        match self {
            Literal::True => LiteralV::True,
            Literal::False => LiteralV::False,
            Literal::Identifier(s) => LiteralV::Identifier(s@),
            Literal::String(s) => LiteralV::String(s@),
            Literal::Number(s) => LiteralV::Number(s@),
        }
    }
}

impl DeepView for Literal {
    type V = LiteralV;

    open spec fn deep_view(&self) -> LiteralV {
        self.view()
    }
}

impl Literal {
    /// A copy whose value equals this one's.
    pub fn duplicate(&self) -> (r: Literal)
        ensures
            r@ == self@,
    {
        match self {
            Literal::True => Literal::True,
            Literal::False => Literal::False,
            Literal::Identifier(s) => Literal::Identifier(s.clone()),
            Literal::String(s) => Literal::String(s.clone()),
            Literal::Number(s) => Literal::Number(s.clone()),
        }
    }
}

/// One lexical token: its category, the exact source text it covers, an
/// optional literal value, and the source line it starts on.
#[derive(Clone, Debug)]
pub struct Token {
    pub token_type: TokenType,
    pub lexeme: String,
    pub value: Option<Literal>,
    pub line: usize,
}

/// The mathematical value of a `Token`.
#[verifier::ext_equal]
pub ghost struct TokenV {
    pub token_type: TokenType,
    pub lexeme: Seq<char>,
    pub value: Option<LiteralV>,
    pub line: nat,
}

impl View for Token {
    type V = TokenV;

    open spec fn view(&self) -> TokenV {
        TokenV {
            token_type: self.token_type,
            lexeme: self.lexeme@,
            value: match self.value {
                Option::Some(l) => Option::Some(l@),
                Option::None => Option::None,
            },
            line: self.line as nat,
        }
    }
}

impl DeepView for Token {
    type V = TokenV;

    open spec fn deep_view(&self) -> TokenV {
        self.view()
    }
}

impl Token {
    pub fn new(token_type: TokenType, lexeme: String, value: Option<Literal>, line: usize) -> (t:
        Token)
        ensures
            t.token_type == token_type,
            t.lexeme == lexeme,
            t.value == value,
            t.line == line,
    {
        Token { token_type, lexeme, value, line }
    }

    /// A copy whose value equals this one's.
    pub fn duplicate(&self) -> (r: Token)
        ensures
            r@ == self@,
    {
        Token {
            token_type: self.token_type,
            lexeme: self.lexeme.clone(),
            value: match &self.value {
                Option::Some(l) => Option::Some(l.duplicate()),
                Option::None => Option::None,
            },
            line: self.line,
        }
    }
}

/// The views of a sequence of strings.
pub open spec fn view_strings(s: Seq<String>) -> Seq<Seq<char>> {
    Seq::new(
        s.len(),
        |i: int|
            if 0 <= i < s.len() {
                s[i]@
            } else {
                arbitrary()
            },
    )
}

/// The views of a sequence of tokens.
pub open spec fn view_tokens(s: Seq<Token>) -> Seq<TokenV> {
    Seq::new(
        s.len(),
        |i: int|
            if 0 <= i < s.len() {
                s[i].view()
            } else {
                arbitrary()
            },
    )
}

} // verus!
