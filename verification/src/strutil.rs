//! Small verified string utilities shared by the scanner, the transform
//! passes and the code generators, together with the one outside call the
//! generators lean on (joining rendered pieces with a separator).

use vstd::prelude::*;

verus! {

use vstd::string::StrSliceExecFns;
use vstd::string::StringExecFns;
use itertools::Itertools;

/// The sequences `strs` joined with the separator `sep` between neighbours.
pub open spec fn spec_join(parts: Seq<Seq<char>>, sep: Seq<char>) -> Seq<char>
    decreases parts.len(),
{
    if parts.len() == 0 {
        Seq::empty()
    } else if parts.len() == 1 {
        parts[0]
    } else {
        parts[0] + sep + spec_join(parts.drop_first(), sep)
    }
}

/// Relies on itertools' `Itertools::join`: it concatenates the `Display`
/// form of each element (for `String`, the string itself) with `sep`
/// between consecutive elements.
#[verifier::external_body]
pub fn join_strings(parts: &Vec<String>, sep: &str) -> (r: String)
    ensures
        r@ == spec_join(parts@.map_values(|s: String| s@), sep@),
{
    parts.iter().join(sep)
}

/// Appending one more part to a join appends a separator (when the join
/// was non-empty) and the part.
pub proof fn lemma_spec_join_push(parts: Seq<Seq<char>>, x: Seq<char>, sep: Seq<char>)
    ensures
        spec_join(parts.push(x), sep) == if parts.len() == 0 {
            x
        } else {
            spec_join(parts, sep) + sep + x
        },
    decreases parts.len(),
{
    let whole = parts.push(x);
    if parts.len() == 0 {
        assert(whole.len() == 1);
        assert(whole[0] == x);
    } else {
        assert(whole.drop_first() =~= parts.drop_first().push(x));
        lemma_spec_join_push(parts.drop_first(), x, sep);
        if parts.len() == 1 {
            assert(parts.drop_first().len() == 0);
            assert(spec_join(whole, sep) == whole[0] + sep + spec_join(whole.drop_first(), sep));
            assert(spec_join(parts, sep) == parts[0]);
            assert(whole[0] == parts[0]);
        } else {
            assert(spec_join(whole, sep) == whole[0] + sep + spec_join(whole.drop_first(), sep));
            assert(spec_join(parts, sep) == parts[0] + sep + spec_join(parts.drop_first(), sep));
            assert(whole[0] + sep + (spec_join(parts.drop_first(), sep) + sep + x) =~= (parts[0]
                + sep + spec_join(parts.drop_first(), sep)) + sep + x);
        }
    }
}

/// Whether `p` is a prefix of `s`.
pub open spec fn spec_is_prefix(p: Seq<char>, s: Seq<char>) -> bool {
    p.len() <= s.len() && s.subrange(0, p.len() as int) == p
}

/// Character-by-character string equality.
pub fn str_eq(a: &str, b: &str) -> (r: bool)
    ensures
        r == (a@ == b@),
{
    let a_len = a.unicode_len();
    let b_len = b.unicode_len();
    if a_len != b_len {
        return false;
    }
    let mut i: usize = 0;
    while i < a_len
        invariant
            a_len == a@.len(),
            a_len == b@.len(),
            i <= a_len,
            forall|j: int| 0 <= j < i ==> a@[j] == b@[j],
        decreases a_len - i,
    {
        if a.get_char(i) != b.get_char(i) {
            return false;
        }
        i = i + 1;
    }
    proof {
        assert(a@ =~= b@);
    }
    true
}

/// Whether the string `s` starts with the prefix `p`.
pub fn has_prefix(s: &str, p: &str) -> (r: bool)
    ensures
        r == spec_is_prefix(p@, s@),
{
    let s_len = s.unicode_len();
    let p_len = p.unicode_len();
    if p_len > s_len {
        return false;
    }
    let mut i: usize = 0;
    while i < p_len
        invariant
            s_len == s@.len(),
            p_len == p@.len(),
            p_len <= s_len,
            i <= p_len,
            forall|j: int| 0 <= j < i ==> s@[j] == p@[j],
        decreases p_len - i,
    {
        if s.get_char(i) != p.get_char(i) {
            return false;
        }
        i = i + 1;
    }
    proof {
        assert(s@.subrange(0, p@.len() as int) =~= p@);
    }
    true
}

/// Whether `pat` occurs as a contiguous run inside `text`.
pub open spec fn spec_contains_sub(text: Seq<char>, pat: Seq<char>) -> bool {
    exists|i: int|
        0 <= i && i + pat.len() <= text.len() && #[trigger] text.subrange(i, i + pat.len() as int)
            == pat
}

/// Substring search: whether `pat` occurs anywhere inside `text`.
pub fn contains_sub(text: &str, pat: &str) -> (r: bool)
    ensures
        r == spec_contains_sub(text@, pat@),
{
    let t_len = text.unicode_len();
    let p_len = pat.unicode_len();
    if p_len > t_len {
        return false;
    }
    if p_len == 0 {
        proof {
            assert(text@.subrange(0, 0 + pat@.len() as int) =~= pat@);
        }
        return true;
    }
    let mut i: usize = 0;
    while i <= t_len - p_len
        invariant
            t_len == text@.len(),
            p_len == pat@.len(),
            1 <= p_len <= t_len,
            i <= t_len - p_len + 1,
            forall|k: int|
                0 <= k < i ==> #[trigger] text@.subrange(k, k + pat@.len() as int) != pat@,
        decreases t_len - i,
    {
        let window = text.substring_char(i, i + p_len);
        if str_eq(window, pat) {
            proof {
                assert(text@.subrange(i as int, i + pat@.len() as int) == pat@);
            }
            return true;
        }
        i = i + 1;
    }
    proof {
        assert forall|k: int| 0 <= k && k + pat@.len() <= text@.len() implies #[trigger] text@
            .subrange(k, k + pat@.len() as int) != pat@ by {
            assert(k < i);
        }
    }
    false
}

/// `s` with every newline character removed.
pub open spec fn without_newlines(s: Seq<char>) -> Seq<char>
    decreases s.len(),
{
    if s.len() == 0 {
        Seq::empty()
    } else if s.last() == '\n' {
        without_newlines(s.drop_last())
    } else {
        without_newlines(s.drop_last()).push(s.last())
    }
}

/// Remove every newline character from `s`.
pub fn strip_newlines(s: &str) -> (r: String)
    ensures
        r@ == without_newlines(s@),
{
    let n = s.unicode_len();
    let mut out = String::new();
    let mut i: usize = 0;
    proof {
        assert(s@.subrange(0, 0) =~= Seq::<char>::empty());
    }
    while i < n
        invariant
            n == s@.len(),
            i <= n,
            out@ == without_newlines(s@.subrange(0, i as int)),
        decreases n - i,
    {
        let c = s.get_char(i);
        if c != '\n' {
            let piece = s.substring_char(i, i + 1);
            proof {
                assert(piece@ =~= seq![c]);
            }
            out.append(piece);
        }
        proof {
            assert(s@.subrange(0, i + 1).drop_last() =~= s@.subrange(0, i as int));
            assert(s@.subrange(0, i + 1).last() == s@[i as int]);
        }
        i = i + 1;
    }
    proof {
        assert(s@.subrange(0, n as int) =~= s@);
    }
    out
}

/// The character for one decimal digit.
pub open spec fn digit_char(d: nat) -> char {
    if d == 0 {
        '0'
    } else if d == 1 {
        '1'
    } else if d == 2 {
        '2'
    } else if d == 3 {
        '3'
    } else if d == 4 {
        '4'
    } else if d == 5 {
        '5'
    } else if d == 6 {
        '6'
    } else if d == 7 {
        '7'
    } else if d == 8 {
        '8'
    } else {
        '9'
    }
}

/// The decimal digits of `n`, most significant first.
pub open spec fn spec_decimal(n: nat) -> Seq<char>
    decreases n,
{
    if n < 10 {
        seq![digit_char(n)]
    } else {
        spec_decimal(n / 10) + seq![digit_char(n % 10)]
    }
}

/// A one-character string for one decimal digit (`d` is taken modulo ten).
fn digit_str(d: usize) -> (r: &'static str)
    ensures
        r@ == seq![digit_char(d as nat % 10)],
{
    let m = d % 10;
    if m == 0 {
        proof {
            reveal_strlit("0");
        }
        "0"
    } else if m == 1 {
        proof {
            reveal_strlit("1");
        }
        "1"
    } else if m == 2 {
        proof {
            reveal_strlit("2");
        }
        "2"
    } else if m == 3 {
        proof {
            reveal_strlit("3");
        }
        "3"
    } else if m == 4 {
        proof {
            reveal_strlit("4");
        }
        "4"
    } else if m == 5 {
        proof {
            reveal_strlit("5");
        }
        "5"
    } else if m == 6 {
        proof {
            reveal_strlit("6");
        }
        "6"
    } else if m == 7 {
        proof {
            reveal_strlit("7");
        }
        "7"
    } else if m == 8 {
        proof {
            reveal_strlit("8");
        }
        "8"
    } else {
        proof {
            reveal_strlit("9");
        }
        "9"
    }
}

/// Renders `n` in decimal.
pub fn usize_to_string(n: usize) -> (r: String)
    ensures
        r@ == spec_decimal(n as nat),
    decreases n,
{
    let mut s = if n < 10 {
        String::new()
    } else {
        proof {
            assert(n / 10 < n) by (nonlinear_arith)
                requires
                    n >= 10,
            ;
        }
        usize_to_string(n / 10)
    };
    s.append(digit_str(n));
    proof {
        assert(n as nat % 10 == (n % 10) as nat);
    }
    s
}

} // verus!
