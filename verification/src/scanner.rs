//! The lexical scanner: one left-to-right pass over the source text that
//! produces a flat token sequence ending in an end-of-input token.
//!
//! Two guarantees are stated and proved.  First, the emitted lexemes are
//! ordered, non-overlapping slices of the source text, and every character
//! between two neighbouring lexemes belongs to discarded whitespace or a
//! line comment: concatenating the lexemes in order reproduces exactly the
//! significant characters of the source (see [`tokens_tile_source`]).
//! Second, each token is classified from its own slice (see
//! [`token_classified`]): its category, its literal value, the keyword
//! table, and the greedy extent of number, identifier and string lexemes
//! all follow from the characters alone, and each lexical error comes
//! exactly on its own condition.

use vstd::prelude::*;

use crate::strutil::str_eq;
use crate::token::Literal;
use crate::token::LiteralV;
use crate::token::Token;
use crate::token::TokenType;
use crate::token::TokenV;

verus! {

use vstd::string::StrSliceExecFns;
use vstd::string::StringExecFns;

/// A lexical error.  The scanner refuses to drop input silently: an
/// unterminated string literal, an unknown character and an unknown raw-code
/// sigil are each hard errors.
#[derive(Debug)]
pub enum ScanError {
    UnterminatedString { line: usize },
    UnexpectedCharacter { character: char, line: usize },
    UnknownRawEscape { lexeme: String, line: usize },
}

/// Whitespace that the scanner discards between tokens.
pub open spec fn is_scan_whitespace(c: char) -> bool {
    c == ' ' || c == '\r' || c == '\t' || c == '\n'
}

/// Text the scanner may discard without emitting a token: any mix of
/// whitespace and `//` line comments (a comment runs to the next newline or
/// to the end of input).
pub open spec fn insignificant(s: Seq<char>) -> bool
    decreases s.len(),
{
    if s.len() == 0 {
        true
    } else if is_scan_whitespace(s[0]) {
        insignificant(s.drop_first())
    } else if s.len() >= 2 && s[0] == '/' && s[1] == '/' {
        exists|k: int|
            2 <= k <= s.len() && (forall|j: int| 2 <= j < k ==> s[j] != '\n') && (k == s.len()
                || s[k] == '\n') && insignificant(#[trigger] s.subrange(k, s.len() as int))
    } else {
        false
    }
}

/// The start of the gap that precedes cut `i`.
pub open spec fn gap_start(cuts: Seq<(int, int)>, i: int) -> int {
    if i == 0 {
        0
    } else {
        cuts[i - 1].1
    }
}

/// Where the last cut ends (the start of the trailing gap).
pub open spec fn cuts_end(cuts: Seq<(int, int)>) -> int {
    if cuts.len() == 0 {
        0
    } else {
        cuts[cuts.len() - 1].1
    }
}

/// The lexemes are ordered, non-overlapping slices: each token's lexeme is
/// exactly the slice of the source given by its cut, the cuts appear in
/// source order, and every gap between neighbouring cuts (and before the
/// first) holds only insignificant text.
pub open spec fn tokens_are_slices(
    tokens: Seq<Token>,
    src: Seq<char>,
    cuts: Seq<(int, int)>,
) -> bool {
    &&& cuts.len() == tokens.len()
    &&& forall|i: int|
        0 <= i < cuts.len() ==> {
            &&& 0 <= (#[trigger] cuts[i]).0 <= cuts[i].1 <= src.len()
            &&& tokens[i].lexeme@ == src.subrange(cuts[i].0, cuts[i].1)
        }
    &&& forall|i: int|
        0 <= i < cuts.len() ==> {
            &&& gap_start(cuts, i) <= (#[trigger] cuts[i]).0
            &&& insignificant(src.subrange(gap_start(cuts, i), cuts[i].0))
        }
}

/// The token sequence tiles the whole source: ordered, non-overlapping
/// lexeme slices whose gaps, including the trailing one, hold only
/// insignificant text.  Concatenating the lexemes in order therefore
/// reproduces exactly the significant characters of the source.
pub open spec fn tokens_tile_source(
    tokens: Seq<Token>,
    src: Seq<char>,
    cuts: Seq<(int, int)>,
) -> bool {
    &&& tokens_are_slices(tokens, src, cuts)
    &&& cuts_end(cuts) <= src.len()
    &&& insignificant(src.subrange(cuts_end(cuts), src.len() as int))
}

/// The scanner never produces overlapping or reordered lexemes: some cut
/// sequence tiles the source.
pub open spec fn scan_output_tiles(tokens: Seq<Token>, src: Seq<char>) -> bool {
    exists|cuts: Seq<(int, int)>| tokens_tile_source(tokens, src, cuts)
}

/// Whether `c` may start an identifier: an ASCII letter or an underscore.
pub open spec fn spec_is_identifier_start(c: char) -> bool {
    ('a' <= c && c <= 'z') || ('A' <= c && c <= 'Z') || c == '_'
}

/// Whether `c` may continue an identifier, a keyword or a raw-code sigil.
pub open spec fn is_word_char(c: char) -> bool {
    alphanumeric_of(c) || c == '_'
}

/// Every character of `src` in `[a, b)` is a decimal digit.
pub open spec fn digits_range(src: Seq<char>, a: int, b: int) -> bool {
    forall|j: int| a <= j < b ==> spec_is_ascii_digit(#[trigger] src[j])
}

/// The slice `[a, b)` of `src` is a maximal number lexeme beginning at
/// `a`: a run of digits, optionally followed by a dot and at least one
/// more digit.  The run is greedy: no digit follows `b`, and in the
/// integral form no dot-digit pair follows either.
pub open spec fn number_token_shape(src: Seq<char>, a: int, b: int) -> bool {
    &&& a < b <= src.len()
    &&& ({
        ||| {
            &&& digits_range(src, a, b)
            &&& (b == src.len() || !spec_is_ascii_digit(src[b]))
            &&& !(b + 1 < src.len() && src[b] == '.' && spec_is_ascii_digit(src[b + 1]))
        }
        ||| exists|d: int|
            {
                &&& a < d
                &&& d + 1 < b
                &&& (#[trigger] src[d]) == '.'
                &&& digits_range(src, a, d)
                &&& digits_range(src, d + 1, b)
                &&& (b == src.len() || !spec_is_ascii_digit(src[b]))
            }
    })
}

/// A string or interpolation token over the slice `[a, b)`: the matching
/// terminator closes the slice and occurs nowhere inside, and the token
/// carries the text strictly between the delimiters.
pub open spec fn string_token(src: Seq<char>, a: int, b: int, t: TokenV, is_fstring: bool) -> bool {
    let q = if is_fstring {
        '`'
    } else {
        '"'
    };
    &&& b >= a + 2
    &&& src[b - 1] == q
    &&& forall|j: int| a + 1 <= j < b - 1 ==> (#[trigger] src[j]) != q
    &&& t.token_type == (if is_fstring {
        TokenType::FString
    } else {
        TokenType::String
    })
    &&& t.value == Some(LiteralV::String(src.subrange(a + 1, b - 1)))
}

/// The keyword table: what category an identifier lexeme is reclassified
/// to.  Everything outside the table (`true` and `false` included) stays
/// a plain identifier.
pub open spec fn spec_keyword_type(s: Seq<char>) -> TokenType {
    if s == "let"@ {
        TokenType::Let
    } else if s == "mut"@ {
        TokenType::Mut
    } else if s == "print"@ {
        TokenType::Print
    } else if s == "fn"@ {
        TokenType::Fn
    } else if s == "cmpnt"@ {
        TokenType::Cmpnt
    } else if s == "if"@ {
        TokenType::If
    } else if s == "else"@ {
        TokenType::Else
    } else if s == "assert_eq"@ {
        TokenType::AssertEq
    } else if s == "import"@ {
        TokenType::Import
    } else if s == "struct"@ {
        TokenType::Struct
    } else if s == "__RUN_TEST"@ {
        TokenType::RunTest
    } else if s == "__TEST_RUNNER"@ {
        TokenType::TestRunner
    } else {
        TokenType::Identifier
    }
}

/// The characters the scanner recognizes as the start of a token or of
/// discarded text; anything else is a hard lexical error.
pub open spec fn recognized_char(c: char) -> bool {
    ||| c == '(' || c == ')' || c == '{' || c == '}' || c == '[' || c == ']'
    ||| c == '|' || c == ',' || c == '.' || c == ';' || c == '*' || c == '-'
    ||| c == '+' || c == ':' || c == '!' || c == '=' || c == '<' || c == '>' || c == '/'
    ||| is_scan_whitespace(c)
    ||| c == '"' || c == '`' || c == '@'
    ||| spec_is_ascii_digit(c)
    ||| spec_is_identifier_start(c)
}

/// The token the scanner emits for the significant slice `[a, b)` of the
/// source: its category, its value and the greedy extent of the slice
/// follow from the characters alone, keyed by the slice's first
/// character.
#[verifier::opaque]
pub open spec fn token_classified(src: Seq<char>, a: int, b: int, t: TokenV) -> bool {
    &&& 0 <= a < b <= src.len()
    &&& t.lexeme == src.subrange(a, b)
    &&& ({
        let c = src[a];
        if c == '(' {
            b == a + 1 && t.token_type == TokenType::LeftParen && t.value is None
        } else if c == ')' {
            b == a + 1 && t.token_type == TokenType::RightParen && t.value is None
        } else if c == '{' {
            b == a + 1 && t.token_type == TokenType::LeftBrace && t.value is None
        } else if c == '}' {
            b == a + 1 && t.token_type == TokenType::RightBrace && t.value is None
        } else if c == '[' {
            b == a + 1 && t.token_type == TokenType::LeftSquareBracket && t.value is None
        } else if c == ']' {
            b == a + 1 && t.token_type == TokenType::RightSquareBracket && t.value is None
        } else if c == '|' {
            b == a + 1 && t.token_type == TokenType::Pipe && t.value is None
        } else if c == ',' {
            b == a + 1 && t.token_type == TokenType::Comma && t.value is None
        } else if c == '.' {
            b == a + 1 && t.token_type == TokenType::Dot && t.value is None
        } else if c == ';' {
            b == a + 1 && t.token_type == TokenType::Semicolon && t.value is None
        } else if c == '*' {
            b == a + 1 && t.token_type == TokenType::Star && t.value is None
        } else if c == '-' {
            t.value is None && if b == a + 2 {
                src[a + 1] == '>' && t.token_type == TokenType::MinusGreater
            } else {
                b == a + 1 && t.token_type == TokenType::Minus && (b == src.len() || src[b] != '>')
            }
        } else if c == '+' {
            t.value is None && if b == a + 2 {
                src[a + 1] == '=' && t.token_type == TokenType::PlusEqual
            } else {
                b == a + 1 && t.token_type == TokenType::Plus && (b == src.len() || src[b] != '=')
            }
        } else if c == ':' {
            t.value is None && if b == a + 2 {
                src[a + 1] == ':' && t.token_type == TokenType::ColonColon
            } else {
                b == a + 1 && t.token_type == TokenType::Colon && (b == src.len() || src[b] != ':')
            }
        } else if c == '!' {
            t.value is None && if b == a + 2 {
                src[a + 1] == '=' && t.token_type == TokenType::BangEqual
            } else {
                b == a + 1 && t.token_type == TokenType::Bang && (b == src.len() || src[b] != '=')
            }
        } else if c == '=' {
            t.value is None && if b == a + 2 {
                src[a + 1] == '=' && t.token_type == TokenType::EqualEqual
            } else {
                b == a + 1 && t.token_type == TokenType::Equal && (b == src.len() || src[b] != '=')
            }
        } else if c == '<' {
            t.value is None && if b == a + 2 {
                (src[a + 1] == '=' && t.token_type == TokenType::LessEqual) || (src[a + 1] == '/'
                    && t.token_type == TokenType::LessSlash)
            } else {
                b == a + 1 && t.token_type == TokenType::Less && (b == src.len() || (src[b] != '='
                    && src[b] != '/'))
            }
        } else if c == '>' {
            t.value is None && if b == a + 2 {
                src[a + 1] == '=' && t.token_type == TokenType::GreaterEqual
            } else {
                b == a + 1 && t.token_type == TokenType::Greater && (b == src.len() || src[b]
                    != '=')
            }
        } else if c == '/' {
            t.value is None && if b == a + 2 {
                src[a + 1] == '>' && t.token_type == TokenType::SlashGreater
            } else {
                b == a + 1 && t.token_type == TokenType::Slash && (b == src.len() || (src[b] != '/'
                    && src[b] != '>'))
            }
        } else if c == '"' {
            string_token(src, a, b, t, false)
        } else if c == '`' {
            string_token(src, a, b, t, true)
        } else if spec_is_ascii_digit(c) {
            &&& number_token_shape(src, a, b)
            &&& t.token_type == TokenType::Number
            &&& t.value == Some(LiteralV::Number(src.subrange(a, b)))
        } else if spec_is_identifier_start(c) {
            &&& forall|j: int| a + 1 <= j < b ==> is_word_char(#[trigger] src[j])
            &&& (b == src.len() || !is_word_char(src[b]))
            &&& t.token_type == spec_keyword_type(src.subrange(a, b))
            &&& t.value == Some(LiteralV::Identifier(src.subrange(a, b)))
        } else if c == '@' {
            &&& ((t.lexeme == "@js"@ && t.token_type == TokenType::RawJs) || (t.lexeme == "@go"@
                && t.token_type == TokenType::RawGo))
            &&& t.value is None
            &&& (b == src.len() || !is_word_char(src[b]))
        } else {
            false
        }
    })
}

/// Every token before the final end-of-input token is classified from its
/// own cut of the source.
pub open spec fn tokens_classified_under(
    tokens: Seq<Token>,
    src: Seq<char>,
    cuts: Seq<(int, int)>,
) -> bool {
    forall|i: int|
        0 <= i < tokens.len() - 1 ==> token_classified(
            src,
            (#[trigger] cuts[i]).0,
            cuts[i].1,
            tokens[i]@,
        )
}

/// The scanner's full output guarantee: one cut sequence both tiles the
/// source and classifies every token from its slice.
pub open spec fn scan_output_classified(tokens: Seq<Token>, src: Seq<char>) -> bool {
    exists|cuts: Seq<(int, int)>|
        tokens_tile_source(tokens, src, cuts) && tokens_classified_under(tokens, src, cuts)
}

/// How many newline characters a character sequence holds.
pub open spec fn newline_count(s: Seq<char>) -> nat
    decreases s.len(),
{
    if s.len() == 0 {
        0
    } else {
        newline_count(s.drop_last()) + if s.last() == '\n' {
            1nat
        } else {
            0nat
        }
    }
}

/// Appending one character raises the newline count by one exactly when
/// the character is a newline.
proof fn lemma_newline_count_push(s: Seq<char>, c: char)
    ensures
        newline_count(s.push(c)) == newline_count(s) + if c == '\n' {
            1nat
        } else {
            0nat
        },
{
    assert(s.push(c).drop_last() =~= s);
    assert(s.push(c).last() == c);
}

/// A comment head (`//` followed by anything but a newline) absorbs any
/// insignificant continuation.
proof fn lemma_comment_absorbs(a: Seq<char>, b: Seq<char>)
    requires
        a.len() >= 2,
        a[0] == '/',
        a[1] == '/',
        forall|j: int| 0 <= j < a.len() ==> a[j] != '\n',
        insignificant(b),
    ensures
        insignificant(a + b),
    decreases b.len(),
{
    let s = a + b;
    if b.len() == 0 {
        let k = a.len() as int;
        assert(s =~= a);
        assert(s.subrange(k, s.len() as int) =~= Seq::<char>::empty());
        assert(2 <= k <= s.len() && (forall|j: int| 2 <= j < k ==> s[j] != '\n') && (k == s.len()
            || s[k] == '\n') && insignificant(#[trigger] s.subrange(k, s.len() as int)));
    } else if b[0] == '\n' {
        let k = a.len() as int;
        assert(s.subrange(k, s.len() as int) =~= b);
        assert(2 <= k <= s.len() && (forall|j: int| 2 <= j < k ==> s[j] != '\n') && (k == s.len()
            || s[k] == '\n') && insignificant(#[trigger] s.subrange(k, s.len() as int)));
    } else if is_scan_whitespace(b[0]) {
        lemma_comment_absorbs(a.push(b[0]), b.drop_first());
        assert(s =~= a.push(b[0]) + b.drop_first());
    } else {
        // `b` itself starts with a comment head; splice it onto `a`.
        let kb = choose|kb: int|
            2 <= kb <= b.len() && (forall|j: int| 2 <= j < kb ==> b[j] != '\n') && (kb == b.len()
                || b[kb] == '\n') && insignificant(#[trigger] b.subrange(kb, b.len() as int));
        let head = a + b.subrange(0, kb);
        assert(forall|j: int| 0 <= j < head.len() ==> head[j] != '\n');
        lemma_comment_absorbs(head, b.subrange(kb, b.len() as int));
        assert(s =~= head + b.subrange(kb, b.len() as int));
    }
}

/// Discarding insignificant text is closed under concatenation.
pub proof fn lemma_insignificant_concat(a: Seq<char>, b: Seq<char>)
    requires
        insignificant(a),
        insignificant(b),
    ensures
        insignificant(a + b),
    decreases a.len(),
{
    if a.len() == 0 {
        assert(a + b =~= b);
    } else if is_scan_whitespace(a[0]) {
        lemma_insignificant_concat(a.drop_first(), b);
        assert((a + b).drop_first() =~= a.drop_first() + b);
        assert((a + b)[0] == a[0]);
    } else {
        let k = choose|k: int|
            2 <= k <= a.len() && (forall|j: int| 2 <= j < k ==> a[j] != '\n') && (k == a.len()
                || a[k] == '\n') && insignificant(#[trigger] a.subrange(k, a.len() as int));
        if k == a.len() {
            // The comment ran to the end of `a`: it absorbs `b` up to the
            // next newline.
            if forall|j: int| 0 <= j < a.len() ==> a[j] != '\n' {
                lemma_comment_absorbs(a, b);
            } else {
                // A newline inside `a` contradicts the choice of `k`.
                let j = choose|j: int| 0 <= j < a.len() && a[j] == '\n';
                assert(a[0] != '\n' && a[1] != '\n');
                assert(2 <= j < k && a[j] != '\n');
                assert(false);
            }
        } else {
            let s = a + b;
            lemma_insignificant_concat(a.subrange(k, a.len() as int), b);
            assert(s.subrange(k, s.len() as int) =~= a.subrange(k, a.len() as int) + b);
            assert(2 <= k <= s.len() && (forall|j: int| 2 <= j < k ==> s[j] != '\n') && (k
                == s.len() || s[k] == '\n') && insignificant(
                #[trigger] s.subrange(k, s.len() as int),
            ));
        }
    }
}

/// A line comment with no newline inside it is insignificant.
proof fn lemma_comment_insignificant(s: Seq<char>)
    requires
        s.len() >= 2,
        s[0] == '/',
        s[1] == '/',
        forall|j: int| 2 <= j < s.len() ==> s[j] != '\n',
    ensures
        insignificant(s),
{
    let k = s.len() as int;
    assert(s.subrange(k, s.len() as int) =~= Seq::<char>::empty());
    assert(2 <= k <= s.len() && (forall|j: int| 2 <= j < k ==> s[j] != '\n') && (k == s.len()
        || s[k] == '\n') && insignificant(#[trigger] s.subrange(k, s.len() as int)));
}

/// The lexical scanner.  `start` marks where the token being scanned began;
/// `current` is the next character to read; `line` counts newlines seen so
/// far, starting at one.
pub struct Scanner {
    source: String,
    length: usize,
    start: usize,
    current: usize,
    line: usize,
}

impl Scanner {
    /// The scanner's internal consistency.
    pub closed spec fn wf(&self) -> bool {
        &&& self.length == self.source@.len()
        &&& self.length < usize::MAX
        &&& self.start <= self.current <= self.length
        &&& 1 <= self.line <= 1 + self.current
    }

    /// The text being scanned.
    pub closed spec fn src(&self) -> Seq<char> {
        self.source@
    }

    /// The position of the next character to read.
    pub closed spec fn pos(&self) -> int {
        self.current as int
    }

    /// The position where the token being scanned began.
    pub closed spec fn tok_start(&self) -> int {
        self.start as int
    }

    /// The current source line, counted from one.
    pub closed spec fn line_s(&self) -> nat {
        self.line as nat
    }

    /// A fresh scanner positioned at the start of `source`, with line
    /// numbering starting at one.  The length bound is a machine limit:
    /// one more line than characters must still be countable in `usize`.
    pub fn new(source: String) -> (s: Scanner)
        requires
            source@.len() < usize::MAX,
        ensures
            s.wf(),
            s.src() == source@,
            s.pos() == 0,
            s.tok_start() == 0,
            s.line_s() == 1,
    {
        let length = source.as_str().unicode_len();
        Scanner { source, length, start: 0, current: 0, line: 1 }
    }

    fn is_at_end(&self) -> (r: bool)
        requires
            self.wf(),
        ensures
            r == (self.pos() == self.src().len()),
    {
        self.current >= self.length
    }

    /// Consume and return the next character.
    fn advance(&mut self) -> (c: char)
        requires
            old(self).wf(),
            old(self).pos() < old(self).src().len(),
        ensures
            final(self).wf(),
            final(self).src() == old(self).src(),
            final(self).tok_start() == old(self).tok_start(),
            final(self).pos() == old(self).pos() + 1,
            final(self).line == old(self).line,
            c == final(self).src()[old(self).pos()],
    {
        let c = self.source.as_str().get_char(self.current);
        self.current = self.current + 1;
        c
    }

    /// Consume the next character only if it equals `expected`.
    fn match_char(&mut self, expected: char) -> (r: bool)
        requires
            old(self).wf(),
        ensures
            final(self).wf(),
            final(self).src() == old(self).src(),
            final(self).tok_start() == old(self).tok_start(),
            final(self).line == old(self).line,
            r == (old(self).pos() < old(self).src().len() && old(self).src()[old(self).pos()]
                == expected),
            final(self).pos() == if r {
                old(self).pos() + 1
            } else {
                old(self).pos()
            },
    {
        if self.is_at_end() {
            return false;
        }
        if self.source.as_str().get_char(self.current) != expected {
            return false;
        }
        self.current = self.current + 1;
        true
    }

    /// The next character, or the null character at the end of input.
    fn peek(&self) -> (c: char)
        requires
            self.wf(),
        ensures
            c == if self.pos() < self.src().len() {
                self.src()[self.pos()]
            } else {
                '\0'
            },
    {
        if self.is_at_end() {
            return '\0';
        }
        self.source.as_str().get_char(self.current)
    }

    /// The character after the next one, or the null character.
    fn peek_next(&self) -> (c: char)
        requires
            self.wf(),
        ensures
            c == if self.pos() + 1 < self.src().len() {
                self.src()[self.pos() + 1]
            } else {
                '\0'
            },
    {
        if self.current + 1 >= self.length {
            return '\0';
        }
        self.source.as_str().get_char(self.current + 1)
    }

    /// Append a token whose lexeme is the slice scanned so far and whose
    /// value is `value`.
    fn push_token(&self, tokens: &mut Vec<Token>, token_type: TokenType, value: Option<Literal>)
        requires
            self.wf(),
            self.tok_start() < self.pos(),
        ensures
            final(tokens)@ == old(tokens)@.push(final(tokens)@.last()),
            final(tokens)@.last().lexeme@ == self.src().subrange(self.tok_start(), self.pos()),
            final(tokens)@.last().token_type == token_type,
            final(tokens)@.last().value == value,
    {
        let lexeme = self.source.as_str().substring_char(self.start, self.current).to_owned();
        tokens.push(Token::new(token_type, lexeme, value, self.line));
        proof {
            assert(tokens@ =~= old(tokens)@.push(final(tokens)@.last()));
        }
    }

    /// Scan all of `source` into tokens, ending with an end-of-input token.
    ///
    /// On success the returned tokens tile the source — their lexemes are
    /// ordered, non-overlapping slices of the source text, and everything
    /// between them is discarded whitespace or comment text — and every
    /// token before the final one is classified from its own slice (see
    /// [`token_classified`]).  The end-of-input token occurs exactly
    /// once, in the last position.
    #[verifier::rlimit(100)]
    pub fn scan_tokens(&mut self) -> (r: Result<Vec<Token>, ScanError>)
        requires
            old(self).wf(),
            old(self).pos() == 0,
        ensures
            final(self).wf(),
            final(self).src() == old(self).src(),
            match r {
                Result::Ok(tokens) => {
                    &&& tokens@.len() >= 1
                    &&& tokens@.last().token_type == TokenType::EOF
                    &&& tokens@.last().lexeme@ == Seq::<char>::empty()
                    &&& forall|i: int|
                        0 <= i < tokens@.len() - 1 ==> (#[trigger] tokens@[i]).token_type
                            != TokenType::EOF
                    &&& final(self).pos() == final(self).src().len()
                    &&& scan_output_tiles(tokens@, final(self).src())
                    &&& scan_output_classified(tokens@, final(self).src())
                },
                Result::Err(_) => true,
            },
            r matches Result::Err(ScanError::UnexpectedCharacter { character, .. })
                ==> !recognized_char(character) && (exists|p: int|
                0 <= p < final(self).src().len() && (#[trigger] final(self).src()[p])
                    == character),
            r matches Result::Err(ScanError::UnterminatedString { .. }) ==> (exists|p: int|
                {
                    &&& 0 <= p < final(self).src().len()
                    &&& (((#[trigger] final(self).src()[p]) == '"' && (forall|j: int|
                        p < j < final(self).src().len() ==> final(self).src()[j] != '"')) || (
                    final(self).src()[p] == '`' && (forall|j: int|
                        p < j < final(self).src().len() ==> final(self).src()[j] != '`')))
                }),
            r matches Result::Err(ScanError::UnknownRawEscape { lexeme, .. }) ==> lexeme@
                != "@js"@ && lexeme@ != "@go"@ && (exists|p: int, q: int|
                0 <= p < q <= final(self).src().len() && final(self).src()[p] == '@' && lexeme@
                    == #[trigger] final(self).src().subrange(p, q)),
    {
        let mut tokens: Vec<Token> = Vec::new();
        let ghost mut cuts: Seq<(int, int)> = Seq::empty();
        proof {
            assert(self.src().subrange(0, 0) =~= Seq::<char>::empty());
        }
        while !self.is_at_end()
            invariant
                self.wf(),
                self.src() == old(self).src(),
                tokens_are_slices(tokens@, self.src(), cuts),
                cuts_end(cuts) <= self.pos(),
                insignificant(self.src().subrange(cuts_end(cuts), self.pos())),
                forall|i: int|
                    0 <= i < tokens@.len() ==> token_classified(
                        self.src(),
                        (#[trigger] cuts[i]).0,
                        cuts[i].1,
                        tokens@[i]@,
                    ),
                forall|i: int|
                    0 <= i < tokens@.len() ==> (#[trigger] tokens@[i]).token_type
                        != TokenType::EOF,
            decreases self.src().len() - self.pos(),
        {
            self.start = self.current;
            let ghost pre_tokens = tokens@;
            let ghost pre_pos = self.pos();
            let ghost pre_cuts = cuts;
            match self.scan_token(&mut tokens) {
                Result::Ok(()) => {},
                Result::Err(e) => {
                    return Result::Err(e);
                },
            }
            proof {
                if tokens@.len() == pre_tokens.len() + 1 {
                    cuts = cuts.push((pre_pos, self.pos()));
                    assert(self.src().subrange(self.pos(), self.pos()) =~= Seq::<char>::empty());
                    assert forall|i: int| 0 <= i < cuts.len() implies {
                        &&& gap_start(cuts, i) <= (#[trigger] cuts[i]).0
                        &&& insignificant(self.src().subrange(gap_start(cuts, i), cuts[i].0))
                    } by {
                        if i < cuts.len() - 1 {
                            assert(cuts[i] == pre_cuts[i]);
                            assert(gap_start(cuts, i) == gap_start(pre_cuts, i));
                        } else {
                            assert(gap_start(cuts, i) == cuts_end(pre_cuts));
                        }
                    }
                    assert forall|i: int| 0 <= i < tokens@.len() implies token_classified(
                        self.src(),
                        (#[trigger] cuts[i]).0,
                        cuts[i].1,
                        tokens@[i]@,
                    ) by {
                        if i < tokens@.len() - 1 {
                            assert(cuts[i] == pre_cuts[i]);
                            assert(tokens@[i] == pre_tokens[i]);
                        }
                    }
                    assert forall|i: int| 0 <= i < tokens@.len() implies (#[trigger] tokens@[i]).token_type
                        != TokenType::EOF by {
                        if i < tokens@.len() - 1 {
                            assert(tokens@[i] == pre_tokens[i]);
                        }
                    }
                } else {
                    assert(tokens@ =~= pre_tokens);
                    let a = self.src().subrange(cuts_end(cuts), pre_pos);
                    let b = self.src().subrange(pre_pos, self.pos());
                    lemma_insignificant_concat(a, b);
                    assert(self.src().subrange(cuts_end(cuts), self.pos()) =~= a + b);
                }
            }
        }
        let line = self.line;
        tokens.push(Token::new(TokenType::EOF, String::new(), None, line));
        proof {
            let ghost final_cut = (self.src().len() as int, self.src().len() as int);
            let pre_cuts = cuts;
            cuts = cuts.push(final_cut);
            assert(self.src().subrange(self.src().len() as int, self.src().len() as int)
                =~= Seq::<char>::empty());
            assert forall|i: int| 0 <= i < cuts.len() implies {
                &&& gap_start(cuts, i) <= (#[trigger] cuts[i]).0
                &&& insignificant(self.src().subrange(gap_start(cuts, i), cuts[i].0))
            } by {
                if i < cuts.len() - 1 {
                    assert(cuts[i] == pre_cuts[i]);
                    assert(gap_start(cuts, i) == gap_start(pre_cuts, i));
                } else {
                    assert(gap_start(cuts, i) == cuts_end(pre_cuts));
                }
            }
            assert(tokens_tile_source(tokens@, self.src(), cuts));
            assert forall|i: int| 0 <= i < tokens@.len() - 1 implies token_classified(
                self.src(),
                (#[trigger] cuts[i]).0,
                cuts[i].1,
                tokens@[i]@,
            ) by {
                assert(cuts[i] == pre_cuts[i]);
            }
            assert(tokens_classified_under(tokens@, self.src(), cuts));
        }
        Result::Ok(tokens)
    }

    /// Scan one token (or discard one run of insignificant text) starting
    /// at the current position.
    ///
    /// On success, at most one token is appended; an appended token is
    /// classified from the consumed slice of the source (its category,
    /// value and greedy extent, see [`token_classified`]), and a step that
    /// appends nothing consumed only insignificant text.  The three
    /// lexical errors each come exactly on their own condition: an
    /// unrecognized character, a string whose terminator never follows,
    /// and a raw-code sigil other than `@js` or `@go`; an error appends
    /// nothing.
    pub fn scan_token(&mut self, tokens: &mut Vec<Token>) -> (r: Result<(), ScanError>)
        requires
            old(self).wf(),
            old(self).pos() < old(self).src().len(),
            old(self).tok_start() == old(self).pos(),
        ensures
            final(self).wf(),
            final(self).src() == old(self).src(),
            old(self).pos() < final(self).pos(),
            old(tokens)@.is_prefix_of(final(tokens)@),
            final(tokens)@.len() <= old(tokens)@.len() + 1,
            r is Ok ==> {
                &&& (final(tokens)@.len() == old(tokens)@.len() + 1
                    ==> final(tokens)@.last().lexeme@ == final(self).src().subrange(
                    old(self).pos(),
                    final(self).pos(),
                ))
                &&& (final(tokens)@.len() == old(tokens)@.len() + 1 ==> token_classified(
                    final(self).src(),
                    old(self).pos(),
                    final(self).pos(),
                    final(tokens)@.last()@,
                ) && final(tokens)@.last()@.token_type != TokenType::EOF)
                &&& (final(tokens)@.len() == old(tokens)@.len() ==> insignificant(
                    final(self).src().subrange(old(self).pos(), final(self).pos()),
                ))
            },
            r is Err ==> final(tokens)@ == old(tokens)@,
            r matches Result::Err(ScanError::UnexpectedCharacter { character, .. }) ==> character
                == old(self).src()[old(self).pos()] && !recognized_char(character),
            !recognized_char(old(self).src()[old(self).pos()]) ==> r matches Result::Err(
                ScanError::UnexpectedCharacter { .. },
            ),
            r matches Result::Err(ScanError::UnterminatedString { .. }) ==> ({
                let src = old(self).src();
                let a = old(self).pos();
                ||| (src[a] == '"' && (forall|j: int|
                    a < j < src.len() ==> (#[trigger] src[j]) != '"'))
                ||| (src[a] == '`' && (forall|j: int|
                    a < j < src.len() ==> (#[trigger] src[j]) != '`'))
            }),
            (old(self).src()[old(self).pos()] == '"' && (forall|j: int|
                old(self).pos() < j < old(self).src().len() ==> (#[trigger] old(self).src()[j])
                    != '"')) ==> r matches Result::Err(ScanError::UnterminatedString { .. }),
            (old(self).src()[old(self).pos()] == '`' && (forall|j: int|
                old(self).pos() < j < old(self).src().len() ==> (#[trigger] old(self).src()[j])
                    != '`')) ==> r matches Result::Err(ScanError::UnterminatedString { .. }),
            r matches Result::Err(ScanError::UnknownRawEscape { lexeme, .. }) ==> old(
                self,
            ).src()[old(self).pos()] == '@' && lexeme@ == old(self).src().subrange(
                old(self).pos(),
                final(self).pos(),
            ) && lexeme@ != "@js"@ && lexeme@ != "@go"@,
    {
        proof {
            reveal(token_classified);
        }
        let c = self.advance();
        if c == '(' {
            self.push_token(tokens, TokenType::LeftParen, None);
            Result::Ok(())
        } else if c == ')' {
            self.push_token(tokens, TokenType::RightParen, None);
            Result::Ok(())
        } else if c == '{' {
            self.push_token(tokens, TokenType::LeftBrace, None);
            Result::Ok(())
        } else if c == '}' {
            self.push_token(tokens, TokenType::RightBrace, None);
            Result::Ok(())
        } else if c == '[' {
            self.push_token(tokens, TokenType::LeftSquareBracket, None);
            Result::Ok(())
        } else if c == ']' {
            self.push_token(tokens, TokenType::RightSquareBracket, None);
            Result::Ok(())
        } else if c == '|' {
            self.push_token(tokens, TokenType::Pipe, None);
            Result::Ok(())
        } else if c == ',' {
            self.push_token(tokens, TokenType::Comma, None);
            Result::Ok(())
        } else if c == '.' {
            self.push_token(tokens, TokenType::Dot, None);
            Result::Ok(())
        } else if c == ';' {
            self.push_token(tokens, TokenType::Semicolon, None);
            Result::Ok(())
        } else if c == '*' {
            self.push_token(tokens, TokenType::Star, None);
            Result::Ok(())
        } else if c == '-' {
            if self.match_char('>') {
                self.push_token(tokens, TokenType::MinusGreater, None);
            } else {
                self.push_token(tokens, TokenType::Minus, None);
            }
            Result::Ok(())
        } else if c == '+' {
            if self.match_char('=') {
                self.push_token(tokens, TokenType::PlusEqual, None);
            } else {
                self.push_token(tokens, TokenType::Plus, None);
            }
            Result::Ok(())
        } else if c == ':' {
            if self.match_char(':') {
                self.push_token(tokens, TokenType::ColonColon, None);
            } else {
                self.push_token(tokens, TokenType::Colon, None);
            }
            Result::Ok(())
        } else if c == '!' {
            if self.match_char('=') {
                self.push_token(tokens, TokenType::BangEqual, None);
            } else {
                self.push_token(tokens, TokenType::Bang, None);
            }
            Result::Ok(())
        } else if c == '=' {
            if self.match_char('=') {
                self.push_token(tokens, TokenType::EqualEqual, None);
            } else {
                self.push_token(tokens, TokenType::Equal, None);
            }
            Result::Ok(())
        } else if c == '<' {
            if self.match_char('=') {
                self.push_token(tokens, TokenType::LessEqual, None);
            } else if self.match_char('/') {
                self.push_token(tokens, TokenType::LessSlash, None);
            } else {
                self.push_token(tokens, TokenType::Less, None);
            }
            Result::Ok(())
        } else if c == '>' {
            if self.match_char('=') {
                self.push_token(tokens, TokenType::GreaterEqual, None);
            } else {
                self.push_token(tokens, TokenType::Greater, None);
            }
            Result::Ok(())
        } else if c == '/' {
            if self.match_char('/') {
                while self.peek() != '\n' && !self.is_at_end()
                    invariant
                        self.wf(),
                        self.src() == old(self).src(),
                        self.tok_start() == old(self).tok_start(),
                        self.line == old(self).line,
                        old(self).pos() + 2 <= self.pos(),
                        forall|j: int| old(self).pos() + 2 <= j < self.pos() ==> self.src()[j]
                            != '\n',
                    decreases self.src().len() - self.pos(),
                {
                    self.advance();
                }
                proof {
                    let g = self.src().subrange(old(self).pos(), self.pos());
                    assert(g.len() >= 2);
                    assert(g[0] == '/' && g[1] == '/');
                    assert(forall|j: int| 2 <= j < g.len() ==> g[j] != '\n');
                    lemma_comment_insignificant(g);
                }
                Result::Ok(())
            } else if self.match_char('>') {
                self.push_token(tokens, TokenType::SlashGreater, None);
                Result::Ok(())
            } else {
                self.push_token(tokens, TokenType::Slash, None);
                Result::Ok(())
            }
        } else if c == ' ' || c == '\r' || c == '\t' {
            proof {
                let g = self.src().subrange(old(self).pos(), self.pos());
                assert(g =~= seq![c]);
                assert(g.drop_first() =~= Seq::<char>::empty());
                assert(insignificant(g.drop_first()));
                assert(insignificant(g));
            }
            Result::Ok(())
        } else if c == '\n' {
            self.line = self.line + 1;
            proof {
                let g = self.src().subrange(old(self).pos(), self.pos());
                assert(g =~= seq![c]);
                assert(g.drop_first() =~= Seq::<char>::empty());
                assert(insignificant(g.drop_first()));
                assert(insignificant(g));
            }
            Result::Ok(())
        } else if c == '"' {
            self.string(tokens, false)
        } else if c == '`' {
            self.string(tokens, true)
        } else if is_ascii_digit(c) {
            self.number(tokens);
            Result::Ok(())
        } else if is_identifier_start(c) {
            self.identifier(tokens);
            Result::Ok(())
        } else if c == '@' {
            self.raw_code(tokens)
        } else {
            let line = self.line;
            Result::Err(ScanError::UnexpectedCharacter { character: c, line })
        }
    }

    /// Scan the remainder of a quoted string; `is_fstring` selects the
    /// backtick (interpolated) form.  The opening quote has already been
    /// consumed.  The emitted token carries the text strictly between the
    /// delimiters; the line count advances by the newlines inside; a
    /// string that never meets its terminator is a hard error and emits
    /// nothing.
    fn string(&mut self, tokens: &mut Vec<Token>, is_fstring: bool) -> (r: Result<
        (),
        ScanError,
    >)
        requires
            old(self).wf(),
            old(self).pos() == old(self).tok_start() + 1,
        ensures
            final(self).wf(),
            final(self).src() == old(self).src(),
            old(self).pos() <= final(self).pos(),
            old(tokens)@.is_prefix_of(final(tokens)@),
            final(tokens)@.len() <= old(tokens)@.len() + 1,
            final(self).line == old(self).line + newline_count(
                final(self).src().subrange(old(self).pos(), final(self).pos()),
            ),
            r is Err <==> (forall|j: int|
                old(self).pos() <= j < old(self).src().len() ==> (#[trigger] old(self).src()[j])
                    != (if is_fstring {
                        '`'
                    } else {
                        '"'
                    })),
            r is Err ==> final(tokens)@ == old(tokens)@ && (r matches Result::Err(
                ScanError::UnterminatedString { .. },
            )),
            r is Ok ==> ({
                let src = final(self).src();
                let a = old(self).tok_start();
                let b = final(self).pos();
                &&& final(tokens)@.len() == old(tokens)@.len() + 1
                &&& final(tokens)@.last().lexeme@ == src.subrange(a, b)
                &&& string_token(src, a, b, final(tokens)@.last()@, is_fstring)
            }),
    {
        let terminator = if is_fstring {
            '`'
        } else {
            '"'
        };
        while self.peek() != terminator && !self.is_at_end()
            invariant
                self.wf(),
                self.src() == old(self).src(),
                self.tok_start() == old(self).tok_start(),
                old(self).pos() <= self.pos(),
                terminator == if is_fstring {
                    '`'
                } else {
                    '"'
                },
                forall|j: int|
                    old(self).pos() <= j < self.pos() ==> (#[trigger] self.src()[j]) != terminator,
                self.line == old(self).line + newline_count(
                    self.src().subrange(old(self).pos(), self.pos()),
                ),
            decreases self.src().len() - self.pos(),
        {
            let ch = self.advance();
            if ch == '\n' {
                self.line = self.line + 1;
            }
            proof {
                let pre = self.src().subrange(old(self).pos(), self.pos() - 1);
                assert(self.src().subrange(old(self).pos(), self.pos()) =~= pre.push(
                    self.src()[self.pos() - 1],
                ));
                lemma_newline_count_push(pre, self.src()[self.pos() - 1]);
            }
        }
        if self.is_at_end() {
            let line = self.line;
            return Result::Err(ScanError::UnterminatedString { line });
        }
        // Consume the closing quote.
        self.advance();
        proof {
            let pre = self.src().subrange(old(self).pos(), self.pos() - 1);
            assert(self.src().subrange(old(self).pos(), self.pos()) =~= pre.push(
                self.src()[self.pos() - 1],
            ));
            lemma_newline_count_push(pre, self.src()[self.pos() - 1]);
        }
        let value = self.source.as_str().substring_char(self.start + 1, self.current - 1)
            .to_owned();
        let token_type = if is_fstring {
            TokenType::FString
        } else {
            TokenType::String
        };
        self.push_token(tokens, token_type, Some(Literal::String(value)));
        proof {
            assert(!(forall|j: int|
                old(self).pos() <= j < old(self).src().len() ==> (#[trigger] old(self).src()[j])
                    != terminator)) by {
                assert(old(self).src()[self.pos() - 1] == terminator);
            }
        }
        Result::Ok(())
    }

    /// Scan the remainder of a number literal: the maximal run of further
    /// digits and an optional fractional part (a dot consumed only when a
    /// digit follows it at once).  The first digit has already been
    /// consumed.
    fn number(&mut self, tokens: &mut Vec<Token>)
        requires
            old(self).wf(),
            old(self).pos() == old(self).tok_start() + 1,
            spec_is_ascii_digit(old(self).src()[old(self).tok_start()]),
        ensures
            final(self).wf(),
            final(self).src() == old(self).src(),
            final(self).line == old(self).line,
            old(self).pos() <= final(self).pos(),
            final(tokens)@.len() == old(tokens)@.len() + 1,
            old(tokens)@.is_prefix_of(final(tokens)@),
            final(tokens)@.last().lexeme@ == final(self).src().subrange(
                old(self).tok_start(),
                final(self).pos(),
            ),
            final(tokens)@.last()@.token_type == TokenType::Number,
            final(tokens)@.last()@.value == Some(
                LiteralV::Number(
                    final(self).src().subrange(old(self).tok_start(), final(self).pos()),
                ),
            ),
            number_token_shape(final(self).src(), old(self).tok_start(), final(self).pos()),
    {
        while is_ascii_digit(self.peek())
            invariant
                self.wf(),
                self.src() == old(self).src(),
                self.tok_start() == old(self).tok_start(),
                self.line == old(self).line,
                old(self).pos() <= self.pos(),
                digits_range(self.src(), old(self).pos(), self.pos()),
            decreases self.src().len() - self.pos(),
        {
            self.advance();
        }
        // A fractional part needs a digit right after the dot.
        if self.peek() == '.' && is_ascii_digit(self.peek_next()) {
            let ghost dot = self.pos();
            self.advance();
            while is_ascii_digit(self.peek())
                invariant
                    self.wf(),
                    self.src() == old(self).src(),
                    self.tok_start() == old(self).tok_start(),
                    self.line == old(self).line,
                    dot + 1 <= self.pos(),
                    dot < self.src().len(),
                    self.src()[dot] == '.',
                    old(self).tok_start() < dot,
                    digits_range(self.src(), old(self).pos(), dot),
                    digits_range(self.src(), dot + 1, self.pos()),
                    spec_is_ascii_digit(self.src()[dot + 1]),
                    dot + 1 < self.src().len(),
                decreases self.src().len() - self.pos(),
            {
                self.advance();
            }
            proof {
                let s = self.src();
                let a = old(self).tok_start();
                let b = self.pos();
                assert(spec_is_ascii_digit(s[dot + 1]));
                assert(b != dot + 1);
                assert(digits_range(s, a, dot));
                assert(number_token_shape(s, a, b));
            }
        } else {
            proof {
                let s = self.src();
                let a = old(self).tok_start();
                let b = self.pos();
                assert(digits_range(s, a, b));
                assert(number_token_shape(s, a, b));
            }
        }
        let text = self.source.as_str().substring_char(self.start, self.current).to_owned();
        self.push_token(tokens, TokenType::Number, Some(Literal::Number(text)));
    }

    /// Scan the remainder of an identifier (the maximal word-character
    /// run) and reclassify it against the keyword table.  The first
    /// character has already been consumed.
    fn identifier(&mut self, tokens: &mut Vec<Token>)
        requires
            old(self).wf(),
            old(self).pos() == old(self).tok_start() + 1,
        ensures
            final(self).wf(),
            final(self).src() == old(self).src(),
            final(self).line == old(self).line,
            old(self).pos() <= final(self).pos(),
            final(tokens)@.len() == old(tokens)@.len() + 1,
            old(tokens)@.is_prefix_of(final(tokens)@),
            final(tokens)@.last().lexeme@ == final(self).src().subrange(
                old(self).tok_start(),
                final(self).pos(),
            ),
            final(tokens)@.last()@.token_type == spec_keyword_type(
                final(self).src().subrange(old(self).tok_start(), final(self).pos()),
            ),
            final(tokens)@.last()@.value == Some(
                LiteralV::Identifier(
                    final(self).src().subrange(old(self).tok_start(), final(self).pos()),
                ),
            ),
            forall|j: int|
                old(self).pos() <= j < final(self).pos() ==> is_word_char(
                    #[trigger] final(self).src()[j],
                ),
            final(self).pos() == final(self).src().len() || !is_word_char(
                final(self).src()[final(self).pos()],
            ),
    {
        self.consume_word_characters();
        let text = self.source.as_str().substring_char(self.start, self.current).to_owned();
        let token_type = keyword_type(text.as_str());
        self.push_token(tokens, token_type, Some(Literal::Identifier(text)));
    }

    /// Consume the maximal run of alphanumeric characters and
    /// underscores.
    fn consume_word_characters(&mut self)
        requires
            old(self).wf(),
        ensures
            final(self).wf(),
            final(self).src() == old(self).src(),
            final(self).tok_start() == old(self).tok_start(),
            final(self).line == old(self).line,
            old(self).pos() <= final(self).pos(),
            forall|j: int|
                old(self).pos() <= j < final(self).pos() ==> is_word_char(
                    #[trigger] final(self).src()[j],
                ),
            final(self).pos() == final(self).src().len() || !is_word_char(
                final(self).src()[final(self).pos()],
            ),
    {
        loop
            invariant
                self.wf(),
                self.src() == old(self).src(),
                self.tok_start() == old(self).tok_start(),
                self.line == old(self).line,
                old(self).pos() <= self.pos(),
                forall|j: int|
                    old(self).pos() <= j < self.pos() ==> is_word_char(#[trigger] self.src()[j]),
            decreases self.src().len() - self.pos(),
        {
            if self.is_at_end() {
                return;
            }
            let c = self.peek();
            if is_alphanumeric_char(c) || c == '_' {
                self.advance();
            } else {
                return;
            }
        }
    }

    /// Scan a raw-code sigil (`@js` or `@go`).  The `@` has already been
    /// consumed; any other sigil is a hard error and emits nothing.
    fn raw_code(&mut self, tokens: &mut Vec<Token>) -> (r: Result<(), ScanError>)
        requires
            old(self).wf(),
            old(self).pos() == old(self).tok_start() + 1,
        ensures
            final(self).wf(),
            final(self).src() == old(self).src(),
            final(self).line == old(self).line,
            old(self).pos() <= final(self).pos(),
            old(tokens)@.is_prefix_of(final(tokens)@),
            final(tokens)@.len() <= old(tokens)@.len() + 1,
            r is Ok ==> ({
                let src = final(self).src();
                let a = old(self).tok_start();
                let b = final(self).pos();
                let t = final(tokens)@.last()@;
                &&& final(tokens)@.len() == old(tokens)@.len() + 1
                &&& t.lexeme == src.subrange(a, b)
                &&& ((t.lexeme == "@js"@ && t.token_type == TokenType::RawJs) || (t.lexeme
                    == "@go"@ && t.token_type == TokenType::RawGo))
                &&& t.value is None
                &&& (b == src.len() || !is_word_char(src[b]))
            }),
            r is Err ==> final(tokens)@ == old(tokens)@,
            r is Err ==> r matches Result::Err(ScanError::UnknownRawEscape { .. }),
            r matches Result::Err(ScanError::UnknownRawEscape { lexeme, .. }) ==> lexeme@
                == final(self).src().subrange(old(self).tok_start(), final(self).pos()) && lexeme@
                != "@js"@ && lexeme@ != "@go"@,
    {
        if self.is_at_end() {
            let line = self.line;
            let text = self.source.as_str().substring_char(self.start, self.current).to_owned();
            proof {
                reveal_strlit("@js");
                reveal_strlit("@go");
                assert(text@.len() == 1);
            }
            return Result::Err(ScanError::UnknownRawEscape { lexeme: text, line });
        }
        // The character right after the sigil is always taken.
        self.advance();
        self.consume_word_characters();
        let text = self.source.as_str().substring_char(self.start, self.current).to_owned();
        if str_eq(text.as_str(), "@js") {
            self.push_token(tokens, TokenType::RawJs, None);
            Result::Ok(())
        } else if str_eq(text.as_str(), "@go") {
            self.push_token(tokens, TokenType::RawGo, None);
            Result::Ok(())
        } else {
            let line = self.line;
            Result::Err(ScanError::UnknownRawEscape { lexeme: text, line })
        }
    }
}

/// Whether `c` is a decimal digit.
pub open spec fn spec_is_ascii_digit(c: char) -> bool {
    '0' <= c && c <= '9'
}

/// Whether `c` is a decimal digit.
fn is_ascii_digit(c: char) -> (r: bool)
    ensures
        r == spec_is_ascii_digit(c),
{
    '0' <= c && c <= '9'
}

/// Whether `c` may start an identifier: an ASCII letter or an underscore.
fn is_identifier_start(c: char) -> (r: bool)
    ensures
        r == spec_is_identifier_start(c),
{
    ('a' <= c && c <= 'z') || ('A' <= c && c <= 'Z') || c == '_'
}

/// What `char::is_alphanumeric` returns on `c`: a fixed Unicode character
/// class, a function of the character alone.
pub uninterp spec fn alphanumeric_of(c: char) -> bool;

/// Relies on `char::is_alphanumeric` from std: a pure Unicode
/// character-class test.
#[verifier::external_body]
fn is_alphanumeric_char(c: char) -> (r: bool)
    ensures
        r == alphanumeric_of(c),
{
    c.is_alphanumeric()
}

/// Reclassify identifier text against the keyword table.
fn keyword_type(text: &str) -> (t: TokenType)
    ensures
        t == spec_keyword_type(text@),
{
    if str_eq(text, "let") {
        TokenType::Let
    } else if str_eq(text, "mut") {
        TokenType::Mut
    } else if str_eq(text, "print") {
        TokenType::Print
    } else if str_eq(text, "fn") {
        TokenType::Fn
    } else if str_eq(text, "cmpnt") {
        TokenType::Cmpnt
    } else if str_eq(text, "if") {
        TokenType::If
    } else if str_eq(text, "else") {
        TokenType::Else
    } else if str_eq(text, "assert_eq") {
        TokenType::AssertEq
    } else if str_eq(text, "import") {
        TokenType::Import
    } else if str_eq(text, "struct") {
        TokenType::Struct
    } else if str_eq(text, "__RUN_TEST") {
        TokenType::RunTest
    } else if str_eq(text, "__TEST_RUNNER") {
        TokenType::TestRunner
    } else {
        TokenType::Identifier
    }
}

} // verus!
