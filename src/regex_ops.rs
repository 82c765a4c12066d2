//! The calls into the regex engine, each behind a small trusted wrapper. A
//! pattern is compiled from its source text in each wrapper, so every result
//! is a function of the strings passed in.
use vstd::prelude::*;
use vstd::utf8::is_char_boundary;
use vstd::string::StringSliceAdditionalSpecFns;

verus! {

/// Whether the regex engine accepts `pattern` (its syntax and size limits).
pub uninterp spec fn regex_accepts(pattern: Seq<char>) -> bool;

/// The successive non-overlapping matches of `pattern` in `text`, as
/// half-open byte ranges of the UTF-8 form of `text`.
pub uninterp spec fn regex_spans(pattern: Seq<char>, text: Seq<char>) -> Seq<(int, int)>;

/// `text` with every match of `pattern` replaced by the expansion of the
/// template `rep` (`$1`, `${name}` refer to capture groups).
pub uninterp spec fn regex_replace_all(pattern: Seq<char>, text: Seq<char>, rep: Seq<char>) -> Seq<
    char,
>;

pub open spec fn spans_view(v: Seq<(usize, usize)>) -> Seq<(int, int)> {
    v.map_values(|p: (usize, usize)| (p.0 as int, p.1 as int))
}

/// Spans that lie in `bytes`, start and end on character boundaries, and
/// follow each other without overlap.
pub open spec fn well_placed(v: Seq<(usize, usize)>, bytes: Seq<u8>) -> bool {
    &&& forall|k: int|
        0 <= k < v.len() ==> {
            &&& (#[trigger] v[k]).0 <= v[k].1 <= bytes.len()
            &&& is_char_boundary(bytes, v[k].0 as int)
            &&& is_char_boundary(bytes, v[k].1 as int)
        }
    &&& forall|k: int| 0 < k < v.len() ==> v[k - 1].1 <= (#[trigger] v[k]).0
}

/// Relies on `regex::Regex::new`: whether a pattern compiles depends on the
/// pattern alone.
#[verifier::external_body]
pub(crate) fn regex_compiles(pattern: &str) -> (r: bool)
    ensures
        r == regex_accepts(pattern@),
{
    regex::Regex::new(pattern).is_ok()
}

/// Relies on `regex::Regex::find_iter` and `Match::start`/`Match::end`: the
/// matches come in order without overlap, `start <= end`, and both are
/// character boundaries of the haystack.
#[verifier::external_body]
pub(crate) fn regex_find_spans(pattern: &str, text: &str) -> (r: Vec<(usize, usize)>)
    requires
        regex_accepts(pattern@),
    ensures
        spans_view(r@) == regex_spans(pattern@, text@),
        well_placed(r@, text.spec_bytes()),
{
    let re = regex::Regex::new(pattern).unwrap();
    re.find_iter(text).map(|m| (m.start(), m.end())).collect()
}

/// Relies on `regex::Regex::replace_all` with a `&str` template: when no
/// match is found the haystack comes back unchanged.
#[verifier::external_body]
pub(crate) fn regex_replace(pattern: &str, text: &str, rep: &str) -> (r: String)
    requires
        regex_accepts(pattern@),
    ensures
        r@ == regex_replace_all(pattern@, text@, rep@),
        regex_spans(pattern@, text@).len() == 0 ==> r@ == text@,
{
    let re = regex::Regex::new(pattern).unwrap();
    re.replace_all(text, rep).into_owned()
}

} // verus!
