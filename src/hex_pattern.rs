//! Compiles a textual byte pattern such as `"41 ?? 43"` or `"\x41\x??\x43"`
//! into a sequence of byte matchers.
use vstd::prelude::*;

verus! {

/// One element of a byte pattern: an exact byte, or a wildcard that matches
/// (and, in a replacement, keeps) any byte.
#[derive(Debug, Clone, Copy, PartialEq, Eq, Structural)]
pub struct ByteMatcher {
    pub value: u8,
    pub is_wildcard: bool,
}

pub open spec fn is_hex_digit(c: char) -> bool {
    ('0' <= c && c <= '9') || ('a' <= c && c <= 'f') || ('A' <= c && c <= 'F')
}

pub open spec fn hex_digit_value(c: char) -> int {
    if '0' <= c && c <= '9' {
        c as int - '0' as int
    } else if 'a' <= c && c <= 'f' {
        c as int - 'a' as int + 10
    } else {
        c as int - 'A' as int + 10
    }
}

/// The matcher a single token stands for, if it is a valid token: one of the
/// wildcard spellings `*`, `?`, `??`, or exactly two hex digits.
pub open spec fn token_matcher(t: Seq<char>) -> Option<ByteMatcher> {
    if t == seq!['*'] || t == seq!['?'] || t == seq!['?', '?'] {
        Some(ByteMatcher { value: 0, is_wildcard: true })
    } else if t.len() == 2 && is_hex_digit(t[0]) && is_hex_digit(t[1]) {
        Some(
            ByteMatcher {
                value: (hex_digit_value(t[0]) * 16 + hex_digit_value(t[1])) as u8,
                is_wildcard: false,
            },
        )
    } else {
        None
    }
}

fn hex_digit(c: char) -> (r: Option<u8>)
    ensures
        r is Some <==> is_hex_digit(c),
        r matches Some(v) ==> v == hex_digit_value(c),
{
    if '0' <= c && c <= '9' {
        Some((c as u32 - '0' as u32) as u8)
    } else if 'a' <= c && c <= 'f' {
        Some((c as u32 - 'a' as u32 + 10) as u8)
    } else if 'A' <= c && c <= 'F' {
        Some((c as u32 - 'A' as u32 + 10) as u8)
    } else {
        None
    }
}


pub open spec fn is_blank(c: char) -> bool {
    c == ' ' || c == '\t' || c == '\n' || c == '\r' || c == '\x0C'
}

/// Whether the escape form `\x` occurs in `s`.
pub open spec fn has_escape(s: Seq<char>) -> bool {
    exists|i: int| 0 <= i && i + 1 < s.len() && #[trigger] s[i] == '\\' && s[i + 1] == 'x'
}

/// The token read so far, as a list of zero or one tokens: empty tokens are dropped.
pub open spec fn flush(cur: Seq<char>) -> Seq<Seq<char>> {
    if cur.len() == 0 {
        seq![]
    } else {
        seq![cur]
    }
}

/// The non-empty tokens of `s` separated by blanks, where `cur` is the
/// token read before `s` starts.
pub open spec fn blank_tokens(s: Seq<char>, cur: Seq<char>) -> Seq<Seq<char>>
    decreases s.len(),
{
    if s.len() == 0 {
        flush(cur)
    } else if is_blank(s[0]) {
        flush(cur) + blank_tokens(s.drop_first(), seq![])
    } else {
        blank_tokens(s.drop_first(), cur.push(s[0]))
    }
}

/// The non-empty tokens of `s` separated by `\x`, where `cur` is the token
/// read before `s` starts.
pub open spec fn escape_tokens(s: Seq<char>, cur: Seq<char>) -> Seq<Seq<char>>
    decreases s.len(),
{
    if s.len() == 0 {
        flush(cur)
    } else if s.len() >= 2 && s[0] == '\\' && s[1] == 'x' {
        flush(cur) + escape_tokens(s.skip(2), seq![])
    } else {
        escape_tokens(s.drop_first(), cur.push(s[0]))
    }
}

/// The tokens of a pattern: split at `\x` when that form occurs in it, at
/// blanks otherwise.
pub open spec fn pattern_tokens(s: Seq<char>) -> Seq<Seq<char>> {
    if has_escape(s) {
        escape_tokens(s, seq![])
    } else {
        blank_tokens(s, seq![])
    }
}

/// The matchers of the tokens in order, or the first token that is not valid.
pub open spec fn compile_tokens(ts: Seq<Seq<char>>) -> Result<Seq<ByteMatcher>, Seq<char>>
    decreases ts.len(),
{
    if ts.len() == 0 {
        Ok(seq![])
    } else {
        match token_matcher(ts[0]) {
            None => Err(ts[0]),
            Some(m) => match compile_tokens(ts.drop_first()) {
                Ok(rest) => Ok(seq![m] + rest),
                Err(t) => Err(t),
            },
        }
    }
}

/// What a pattern string compiles to: its matchers, or the offending token.
pub open spec fn compiled_pattern(s: Seq<char>) -> Result<Seq<ByteMatcher>, Seq<char>> {
    compile_tokens(pattern_tokens(s))
}

/// The tokens that the spans pick out of `s`.
pub open spec fn span_tokens(s: Seq<char>, spans: Seq<(usize, usize)>) -> Seq<Seq<char>> {
    spans.map_values(|p: (usize, usize)| s.subrange(p.0 as int, p.1 as int))
}

pub(crate) fn chars_of(s: &str) -> (r: Vec<char>)
    ensures
        r@ == s@,
{
    let mut r: Vec<char> = Vec::new();
    for c in it: s.chars()
        invariant
            r@ == it.seq().take(it.index() as int),
    {
        r.push(c);
    }
    r
}


proof fn lemma_span_tokens_push(s: Seq<char>, spans: Seq<(usize, usize)>, p: (usize, usize))
    ensures
        span_tokens(s, spans.push(p)) == span_tokens(s, spans) + seq![
            s.subrange(p.0 as int, p.1 as int),
        ],
{
    assert(span_tokens(s, spans.push(p)) =~= span_tokens(s, spans) + seq![
        s.subrange(p.0 as int, p.1 as int),
    ]);
}

/// The spans of the blank-separated tokens of `cs`.
fn blank_spans(cs: &Vec<char>) -> (r: Vec<(usize, usize)>)
    ensures
        span_tokens(cs@, r@) == blank_tokens(cs@, seq![]),
        forall|k: int| 0 <= k < r@.len() ==> (#[trigger] r@[k]).0 < r@[k].1 <= cs@.len(),
{
    let n = cs.len();
    let mut r: Vec<(usize, usize)> = Vec::new();
    let mut start: usize = 0;
    let mut i: usize = 0;
    assert(cs@.skip(0) =~= cs@);
    assert(cs@.subrange(0, 0) =~= Seq::<char>::empty());
    while i < n
        invariant
            n == cs@.len(),
            start <= i <= n,
            span_tokens(cs@, r@) + blank_tokens(cs@.skip(i as int), cs@.subrange(
                start as int,
                i as int,
            )) == blank_tokens(cs@, seq![]),
            forall|k: int| 0 <= k < r@.len() ==> (#[trigger] r@[k]).0 < r@[k].1 <= start,
        decreases n - i,
    {
        let ghost rest = cs@.skip(i as int);
        let ghost cur = cs@.subrange(start as int, i as int);
        assert(rest.drop_first() =~= cs@.skip(i + 1));
        assert(rest[0] == cs@[i as int]);
        if is_blank_char(cs[i]) {
            proof {
                lemma_span_tokens_push(cs@, r@, (start, i));
                assert(cs@.subrange((i + 1) as int, (i + 1) as int) =~= Seq::<char>::empty());
            }
            if start < i {
                r.push((start, i));
                assert(span_tokens(cs@, r@) + blank_tokens(cs@.skip(i + 1), seq![])
                    =~= span_tokens(cs@, r@.drop_last()) + (flush(cur) + blank_tokens(
                    cs@.skip(i + 1),
                    seq![],
                )));
            } else {
                assert(span_tokens(cs@, r@) + blank_tokens(cs@.skip(i + 1), seq![])
                    =~= span_tokens(cs@, r@) + (flush(cur) + blank_tokens(
                    cs@.skip(i + 1),
                    seq![],
                )));
            }
            start = i + 1;
        } else {
            assert(cur.push(cs@[i as int]) =~= cs@.subrange(start as int, i + 1));
        }
        i = i + 1;
    }
    proof {
        let cur = cs@.subrange(start as int, n as int);
        assert(cs@.skip(n as int).len() == 0);
        lemma_span_tokens_push(cs@, r@, (start, n));
    }
    if start < n {
        r.push((start, n));
    }
    assert(span_tokens(cs@, r@) =~= blank_tokens(cs@, seq![]));
    r
}

pub(crate) fn is_blank_char(c: char) -> (r: bool)
    ensures
        r == is_blank(c),
{
    c == ' ' || c == '\t' || c == '\n' || c == '\r' || c == '\x0C'
}


/// The spans of the `\x`-separated tokens of `cs`.
fn escape_spans(cs: &Vec<char>) -> (r: Vec<(usize, usize)>)
    ensures
        span_tokens(cs@, r@) == escape_tokens(cs@, seq![]),
        forall|k: int| 0 <= k < r@.len() ==> (#[trigger] r@[k]).0 < r@[k].1 <= cs@.len(),
{
    let n = cs.len();
    let mut r: Vec<(usize, usize)> = Vec::new();
    let mut start: usize = 0;
    let mut i: usize = 0;
    assert(cs@.skip(0) =~= cs@);
    assert(cs@.subrange(0, 0) =~= Seq::<char>::empty());
    while i < n
        invariant
            n == cs@.len(),
            start <= i <= n,
            span_tokens(cs@, r@) + escape_tokens(cs@.skip(i as int), cs@.subrange(
                start as int,
                i as int,
            )) == escape_tokens(cs@, seq![]),
            forall|k: int| 0 <= k < r@.len() ==> (#[trigger] r@[k]).0 < r@[k].1 <= start,
        decreases n - i,
    {
        let ghost rest = cs@.skip(i as int);
        let ghost cur = cs@.subrange(start as int, i as int);
        assert(rest[0] == cs@[i as int]);
        if i + 1 < n && cs[i] == '\\' && cs[i + 1] == 'x' {
            proof {
                assert(rest[1] == cs@[i + 1]);
                assert(rest.skip(2) =~= cs@.skip(i + 2));
                lemma_span_tokens_push(cs@, r@, (start, i));
                assert(cs@.subrange((i + 2) as int, (i + 2) as int) =~= Seq::<char>::empty());
            }
            if start < i {
                r.push((start, i));
                assert(span_tokens(cs@, r@) + escape_tokens(cs@.skip(i + 2), seq![])
                    =~= span_tokens(cs@, r@.drop_last()) + (flush(cur) + escape_tokens(
                    cs@.skip(i + 2),
                    seq![],
                )));
            } else {
                assert(span_tokens(cs@, r@) + escape_tokens(cs@.skip(i + 2), seq![])
                    =~= span_tokens(cs@, r@) + (flush(cur) + escape_tokens(
                    cs@.skip(i + 2),
                    seq![],
                )));
            }
            i = i + 2;
            start = i;
        } else {
            proof {
                assert(rest.drop_first() =~= cs@.skip(i + 1));
                if i + 1 < n {
                    assert(rest[1] == cs@[i + 1]);
                }
                assert(cur.push(cs@[i as int]) =~= cs@.subrange(start as int, i + 1));
            }
            i = i + 1;
        }
    }
    proof {
        assert(cs@.skip(n as int).len() == 0);
        lemma_span_tokens_push(cs@, r@, (start, n));
    }
    if start < n {
        r.push((start, n));
    }
    assert(span_tokens(cs@, r@) =~= escape_tokens(cs@, seq![]));
    r
}

fn find_escape(cs: &Vec<char>) -> (r: bool)
    ensures
        r == has_escape(cs@),
{
    let n = cs.len();
    let mut i: usize = 0;
    while i < n
        invariant
            n == cs@.len(),
            i <= n,
            forall|j: int| 0 <= j < i && j + 1 < n ==> !(#[trigger] cs@[j] == '\\' && cs@[j + 1] == 'x'),
        decreases n - i,
    {
        if i + 1 < n && cs[i] == '\\' && cs[i + 1] == 'x' {
            return true;
        }
        i = i + 1;
    }
    false
}

/// The matcher of the token `cs[start..end]`, if the token is valid.
fn token_at(cs: &Vec<char>, start: usize, end: usize) -> (r: Option<ByteMatcher>)
    requires
        start <= end <= cs@.len(),
    ensures
        r == token_matcher(cs@.subrange(start as int, end as int)),
{
    let ghost t = cs@.subrange(start as int, end as int);
    if end - start == 1 && (cs[start] == '*' || cs[start] == '?') {
        assert(t =~= seq![cs@[start as int]]);
        return Some(ByteMatcher { value: 0, is_wildcard: true });
    }
    if end - start == 2 {
        assert(t[0] == cs@[start as int] && t[1] == cs@[start + 1]);
        if cs[start] == '?' && cs[start + 1] == '?' {
            assert(t =~= seq!['?', '?']);
            return Some(ByteMatcher { value: 0, is_wildcard: true });
        }
        match (hex_digit(cs[start]), hex_digit(cs[start + 1])) {
            (Some(hi), Some(lo)) => {
                return Some(ByteMatcher { value: hi * 16 + lo, is_wildcard: false });
            },
            _ => {
                assert(t != seq!['*'] && t != seq!['?'] && t != seq!['?', '?']) by {
                    assert(seq!['*'].len() == 1 && seq!['?'].len() == 1);
                    assert(seq!['?', '?'][0] == '?' && seq!['?', '?'][1] == '?');
                }
                return None;
            },
        }
    }
    assert(t != seq!['*'] && t != seq!['?'] && t != seq!['?', '?']) by {
        assert(seq!['*'].len() == 1 && seq!['?'].len() == 1 && seq!['?', '?'].len() == 2);
        assert(seq!['*'][0] == '*' && seq!['?'][0] == '?');
        if t.len() == 1 {
            assert(t[0] == cs@[start as int]);
        }
    }
    None
}

/// Compiles a byte pattern. Tokens are separated by `\x` when that form occurs
/// in the pattern and by blanks otherwise; empty tokens are skipped. Each token
/// is two hex digits or one of the wildcards `*`, `?`, `??`. On failure the
/// first token that is neither comes back as the error.
pub fn compile_pattern(s: &str) -> (r: Result<Vec<ByteMatcher>, String>)
    ensures
        match r {
            Ok(v) => compiled_pattern(s@) == Ok::<Seq<ByteMatcher>, Seq<char>>(v@),
            Err(t) => compiled_pattern(s@) == Err::<Seq<ByteMatcher>, Seq<char>>(t@),
        },
{
    let cs = chars_of(s);
    let spans = if find_escape(&cs) {
        escape_spans(&cs)
    } else {
        blank_spans(&cs)
    };
    let ghost tokens = span_tokens(cs@, spans@);
    let mut out: Vec<ByteMatcher> = Vec::new();
    let mut j: usize = 0;
    assert(tokens.skip(0) =~= tokens);
    while j < spans.len()
        invariant
            0 <= j <= spans@.len(),
            cs@ == s@,
            tokens == span_tokens(cs@, spans@),
            tokens == pattern_tokens(s@),
            forall|k: int| 0 <= k < spans@.len() ==> (#[trigger] spans@[k]).0 < spans@[k].1 <= cs@.len(),
            compiled_pattern(s@) == match compile_tokens(tokens.skip(j as int)) {
                Ok(rest) => Ok(out@ + rest),
                Err(t) => Err::<Seq<ByteMatcher>, Seq<char>>(t),
            },
        decreases spans@.len() - j,
    {
        let (a, b) = spans[j];
        let ghost rest = tokens.skip(j as int);
        assert(rest[0] == tokens[j as int]);
        assert(rest.drop_first() =~= tokens.skip(j + 1));
        match token_at(&cs, a, b) {
            None => {
                let t = s.substring_char(a, b).to_owned();
                assert(rest[0] == cs@.subrange(a as int, b as int));
                assert(compile_tokens(rest) == Err::<Seq<ByteMatcher>, Seq<char>>(rest[0]));
                return Err(t);
            },
            Some(m) => {
                proof {
                    match compile_tokens(tokens.skip(j + 1)) {
                        Ok(v) => {
                            assert(out@.push(m) + v =~= out@ + (seq![m] + v));
                        },
                        Err(_) => {},
                    }
                }
                out.push(m);
            },
        }
        j = j + 1;
    }
    assert(tokens.skip(j as int).len() == 0);
    assert(out@ + Seq::<ByteMatcher>::empty() =~= out@);
    Ok(out)
}

} // verus!
