//! Re-lexing of backtick strings into interpolation chunks.
//!
//! The text is split on matching `{`...`}` pairs into alternating literal
//! chunks and identifier chunks; no empty chunks are produced.  An
//! unterminated `{` is folded back into the literal text (and scanning of
//! the string stops there) rather than raising an error.

use vstd::prelude::*;

use crate::expression::FStringChunk;
use crate::expression::FStringChunkV;

verus! {

use vstd::string::StrSliceExecFns;
use vstd::string::StringExecFns;

/// The position of the first closing brace at or after `i`, or the length
/// if there is none.
pub open spec fn spec_find_rbrace(s: Seq<char>, i: int) -> int
    decreases s.len() - i,
    when 0 <= i <= s.len()
{
    if i >= s.len() {
        s.len() as int
    } else if s[i] == '}' {
        i
    } else {
        spec_find_rbrace(s, i + 1)
    }
}

/// `spec_find_rbrace` stays within bounds.
pub proof fn lemma_find_rbrace_bounds(s: Seq<char>, i: int)
    requires
        0 <= i <= s.len(),
    ensures
        i <= spec_find_rbrace(s, i) <= s.len(),
    decreases s.len() - i,
{
    if i < s.len() && s[i] != '}' {
        lemma_find_rbrace_bounds(s, i + 1);
    }
}

/// The chunks of the backtick string `s`, from position `pos` on, with the
/// pending literal text `lit` and the chunks already produced `acc`.
///
/// At a `{`, the pending literal (if non-empty) is flushed and the text up
/// to the matching `}` becomes an identifier chunk (if non-empty).  A `{`
/// with no closing brace is kept as literal text and splitting stops.
pub open spec fn spec_split_fstring(
    s: Seq<char>,
    pos: int,
    lit: Seq<char>,
    acc: Seq<FStringChunkV>,
) -> Seq<FStringChunkV>
    decreases s.len() - pos,
    when 0 <= pos <= s.len()
{
    if pos >= s.len() {
        if lit.len() == 0 {
            acc
        } else {
            acc.push(FStringChunkV::Literal(lit))
        }
    } else if s[pos] == '{' {
        let acc1 = if lit.len() > 0 {
            acc.push(FStringChunkV::Literal(lit))
        } else {
            acc
        };
        let close = spec_find_rbrace(s, pos + 1);
        if close < s.len() {
            let ident = s.subrange(pos + 1, close);
            let acc2 = if ident.len() > 0 {
                acc1.push(FStringChunkV::Identifier(ident))
            } else {
                acc1
            };
            proof {
                lemma_find_rbrace_bounds(s, pos + 1);
            }
            spec_split_fstring(s, close + 1, Seq::empty(), acc2)
        } else {
            spec_split_fstring(s, s.len() as int, seq!['{'], acc1)
        }
    } else {
        spec_split_fstring(s, pos + 1, lit.push(s[pos]), acc)
    }
}

/// The chunk values of a chunk vector.
pub open spec fn chunk_views(chunks: Seq<FStringChunk>) -> Seq<FStringChunkV> {
    chunks.map_values(|c: FStringChunk| c@)
}

/// Split a backtick string into its interpolation chunks.
pub fn split_fstring(s: &str) -> (chunks: Vec<FStringChunk>)
    ensures
        chunk_views(chunks@) == spec_split_fstring(s@, 0, Seq::empty(), Seq::empty()),
{
    let n = s.unicode_len();
    let mut chunks: Vec<FStringChunk> = Vec::new();
    let mut pos: usize = 0;
    let mut lit = String::new();
    proof {
        assert(chunk_views(chunks@) =~= Seq::<FStringChunkV>::empty());
    }
    while pos < n
        invariant
            n == s@.len(),
            pos <= n,
            spec_split_fstring(s@, 0, Seq::empty(), Seq::empty()) == spec_split_fstring(
                s@,
                pos as int,
                lit@,
                chunk_views(chunks@),
            ),
        decreases n - pos,
    {
        let ghost pre_pos = pos as int;
        let ghost pre_lit = lit@;
        let ghost pre_acc = chunk_views(chunks@);
        let c = s.get_char(pos);
        proof {
            assert(s@[pre_pos] == c);
        }
        if c == '{' {
            if lit.as_str().unicode_len() > 0 {
                let flushed = lit;
                lit = String::new();
                chunks.push(FStringChunk::Literal(flushed));
                proof {
                    assert(chunk_views(chunks@) =~= pre_acc.push(FStringChunkV::Literal(pre_lit)));
                }
            }
            let ghost acc1 = chunk_views(chunks@);
            proof {
                assert(acc1 == if pre_lit.len() > 0 {
                    pre_acc.push(FStringChunkV::Literal(pre_lit))
                } else {
                    pre_acc
                });
            }
            let mut close = pos + 1;
            while close < n && s.get_char(close) != '}'
                invariant
                    n == s@.len(),
                    pre_pos + 1 <= close <= n,
                    spec_find_rbrace(s@, pre_pos + 1) == spec_find_rbrace(s@, close as int),
                decreases n - close,
            {
                close = close + 1;
            }
            proof {
                assert(spec_find_rbrace(s@, pre_pos + 1) == if close < n {
                    close as int
                } else {
                    n as int
                });
            }
            if close < n {
                let ident = s.substring_char(pos + 1, close).to_owned();
                let ghost ident_v = s@.subrange(pre_pos + 1, close as int);
                if ident.as_str().unicode_len() > 0 {
                    chunks.push(FStringChunk::Identifier(ident));
                    proof {
                        assert(chunk_views(chunks@) =~= acc1.push(
                            FStringChunkV::Identifier(ident_v),
                        ));
                    }
                }
                pos = close + 1;
                proof {
                    assert(chunk_views(chunks@) == if ident_v.len() > 0 {
                        acc1.push(FStringChunkV::Identifier(ident_v))
                    } else {
                        acc1
                    });
                    assert(spec_split_fstring(s@, pre_pos, pre_lit, pre_acc)
                        == spec_split_fstring(
                        s@,
                        pos as int,
                        Seq::empty(),
                        chunk_views(chunks@),
                    ));
                    assert(lit@ =~= Seq::<char>::empty());
                }
            } else {
                proof {
                    reveal_strlit("{");
                }
                lit.append("{");
                proof {
                    assert(lit@ =~= seq!['{']);
                }
                pos = n;
                proof {
                    assert(spec_split_fstring(s@, pre_pos, pre_lit, pre_acc)
                        == spec_split_fstring(s@, pos as int, seq!['{'], acc1));
                }
            }
        } else {
            let piece = s.substring_char(pos, pos + 1);
            proof {
                assert(piece@ =~= seq![c]);
            }
            lit.append(piece);
            proof {
                assert(lit@ =~= pre_lit.push(c));
            }
            pos = pos + 1;
            proof {
                assert(spec_split_fstring(s@, pre_pos, pre_lit, pre_acc) == spec_split_fstring(
                    s@,
                    pos as int,
                    pre_lit.push(c),
                    pre_acc,
                ));
            }
        }
    }
    if lit.as_str().unicode_len() > 0 {
        let ghost pre_acc = chunk_views(chunks@);
        let ghost pre_lit = lit@;
        chunks.push(FStringChunk::Literal(lit));
        proof {
            assert(chunk_views(chunks@) =~= pre_acc.push(FStringChunkV::Literal(pre_lit)));
        }
    }
    chunks
}

} // verus!
