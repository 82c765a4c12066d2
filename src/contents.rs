//! The content engines. Each turns a file's bytes into a plan: the report of
//! every match and the edit to make. The caller performs the edit and hands
//! the outcome to [`finish_contents`], which settles the final report.
use vstd::prelude::*;
use vstd::utf8::*;
use vstd::string::*;
use crate::binary::{
    ByteWrite, all_match_offsets, planned_writes, scan_binary, window_matches, writes_view,
    match_offsets,
};
use crate::decode::{decode_text, decoded_text};
use crate::hex_pattern::{ByteMatcher, compile_pattern, compiled_pattern};
use crate::regex_ops::{
    regex_accepts, regex_compiles, regex_find_spans, regex_replace, regex_replace_all,
    regex_spans, spans_view,
};
use crate::report::{
    ContentReplacementInfo, FileReplacementInfo, FileView, ReplacementView, replacements_view,
};

verus! {

/// Why the contents of a file could not be searched or rewritten.
#[derive(Debug)]
pub enum DoContentError {
    /// The file is empty.
    EmptyFile,
    /// The file (named here) is not text in a supported encoding.
    ReadDecodingError(String),
    /// Nothing in the file matched.
    NoMatchesFound,
    /// Writing the new contents (first field) failed.
    WriteError(String, std::io::Error),
    /// A byte pattern (first field) holds a token (second field) that is
    /// neither two hex digits nor a wildcard.
    HexDecodeError(String, String),
    /// The search and replacement byte patterns differ in length.
    PatternLengthMismatch(usize, usize),
    /// The search regex (after an empty one stands for everything) does not
    /// compile.
    InvalidRegex(String),
}

pub ghost enum ContentErrorView {
    EmptyFile,
    ReadDecodingError(Seq<char>),
    NoMatchesFound,
    WriteError(Seq<char>, std::io::Error),
    HexDecodeError(Seq<char>, Seq<char>),
    PatternLengthMismatch(int, int),
    InvalidRegex(Seq<char>),
}

impl View for DoContentError {
    type V = ContentErrorView;

    open spec fn view(&self) -> ContentErrorView {
        match self {
            DoContentError::EmptyFile => ContentErrorView::EmptyFile,
            DoContentError::ReadDecodingError(p) => ContentErrorView::ReadDecodingError(p@),
            DoContentError::NoMatchesFound => ContentErrorView::NoMatchesFound,
            DoContentError::WriteError(o, e) => ContentErrorView::WriteError(o@, *e),
            DoContentError::HexDecodeError(p, t) => ContentErrorView::HexDecodeError(p@, t@),
            DoContentError::PatternLengthMismatch(a, b) => ContentErrorView::PatternLengthMismatch(
                *a as int,
                *b as int,
            ),
            DoContentError::InvalidRegex(p) => ContentErrorView::InvalidRegex(p@),
        }
    }
}

/// The edit a plan asks of the caller.
#[derive(Debug)]
pub enum ContentEdit {
    /// Leave the file as it is.
    Untouched,
    /// Write each window in place; `pattern` names the replacement in an error.
    Patch { writes: Vec<ByteWrite>, pattern: String },
    /// Replace the whole file by this text, encoded as UTF-8.
    Rewrite(String),
}

pub ghost enum EditView {
    Untouched,
    Patch(Seq<(int, Seq<u8>)>, Seq<char>),
    Rewrite(Seq<char>),
}

impl View for ContentEdit {
    type V = EditView;

    open spec fn view(&self) -> EditView {
        match self {
            ContentEdit::Untouched => EditView::Untouched,
            ContentEdit::Patch { writes, pattern } => EditView::Patch(
                writes_view(writes@),
                pattern@,
            ),
            ContentEdit::Rewrite(t) => EditView::Rewrite(t@),
        }
    }
}

/// What the engine found in one file and what it asks to be written.
#[derive(Debug)]
pub struct ContentPlan {
    pub path: String,
    pub edit: ContentEdit,
    pub replacements: Vec<ContentReplacementInfo>,
}

pub ghost struct PlanView {
    pub path: Seq<char>,
    pub edit: EditView,
    pub replacements: Seq<ReplacementView>,
}

impl View for ContentPlan {
    type V = PlanView;

    open spec fn view(&self) -> PlanView {
        PlanView {
            path: self.path@,
            edit: self.edit@,
            replacements: replacements_view(self.replacements@),
        }
    }
}

pub open spec fn outcome_view(r: Result<ContentPlan, DoContentError>) -> Result<
    PlanView,
    ContentErrorView,
> {
    match r {
        Ok(p) => Ok(p@),
        Err(e) => Err(e@),
    }
}

/// The regex that stands for an empty search: everything, newlines included,
/// as one match.
pub open spec fn match_all() -> Seq<char> {
    seq!['(', '?', 's', ')', '.', '*']
}

pub open spec fn effective_search(search: Seq<char>) -> Seq<char> {
    if search.len() == 0 {
        match_all()
    } else {
        search
    }
}

/// The text between byte offsets `s` and `e` of the UTF-8 form of `t`.
pub open spec fn matched_text(t: Seq<char>, s: int, e: int) -> Seq<char> {
    decode_utf8(encode_utf8(t).subrange(s, e))
}

/// One report entry per match of `p` in `t`, in order; each replacement is
/// the template applied to the matched text alone.
pub open spec fn text_replacements(p: Seq<char>, t: Seq<char>, rep: Seq<char>) -> Seq<
    ReplacementView,
> {
    regex_spans(p, t).map_values(
        |se: (int, int)|
            ReplacementView {
                start: se.0,
                end: se.1,
                length: se.1 - se.0,
                original: matched_text(t, se.0, se.1),
                new: regex_replace_all(p, matched_text(t, se.0, se.1), rep),
            },
    )
}

/// The text engine on decoded text `t`.
pub open spec fn text_outcome(
    path: Seq<char>,
    t: Seq<char>,
    search: Seq<char>,
    rep: Seq<char>,
    dry: bool,
) -> Result<PlanView, ContentErrorView> {
    let p = effective_search(search);
    if !regex_accepts(p) {
        Err(ContentErrorView::InvalidRegex(search))
    } else {
        Ok(
            PlanView {
                path,
                edit: if dry || regex_spans(p, t).len() == 0 {
                    EditView::Untouched
                } else {
                    EditView::Rewrite(regex_replace_all(p, t, rep))
                },
                replacements: text_replacements(p, t, rep),
            },
        )
    }
}

/// Both byte patterns compiled, or the first configuration error.
pub open spec fn compiled_pair(search: Seq<char>, rep: Seq<char>) -> Result<
    (Seq<ByteMatcher>, Seq<ByteMatcher>),
    ContentErrorView,
> {
    match compiled_pattern(search) {
        Err(t) => Err(ContentErrorView::HexDecodeError(search, t)),
        Ok(s) => match compiled_pattern(rep) {
            Err(t) => Err(ContentErrorView::HexDecodeError(rep, t)),
            Ok(r) => if s.len() != r.len() {
                Err(ContentErrorView::PatternLengthMismatch(s.len() as int, r.len() as int))
            } else {
                Ok((s, r))
            },
        },
    }
}

/// One report entry per matched window; binary entries carry the pattern
/// strings themselves.
pub open spec fn binary_replacements(
    search: Seq<char>,
    rep: Seq<char>,
    offsets: Seq<int>,
    k: int,
) -> Seq<ReplacementView> {
    offsets.map_values(
        |i: int| ReplacementView { start: i, end: i + k, length: k, new: rep, original: search },
    )
}

/// The binary engine on `data`.
pub open spec fn binary_outcome(
    path: Seq<char>,
    data: Seq<u8>,
    search: Seq<char>,
    rep: Seq<char>,
    dry: bool,
) -> Result<PlanView, ContentErrorView> {
    match compiled_pair(search, rep) {
        Err(e) => Err(e),
        Ok((s, r)) => Ok(
            PlanView {
                path,
                edit: if dry || all_match_offsets(data, s).len() == 0 {
                    EditView::Untouched
                } else {
                    EditView::Patch(planned_writes(data, s, r), rep)
                },
                replacements: binary_replacements(
                    search,
                    rep,
                    all_match_offsets(data, s),
                    s.len() as int,
                ),
            },
        ),
    }
}

/// A content engine on a file's bytes: binary, or text after decoding.
pub open spec fn contents_outcome(
    path: Seq<char>,
    data: Seq<u8>,
    search: Seq<char>,
    rep: Seq<char>,
    dry: bool,
    bin: bool,
) -> Result<PlanView, ContentErrorView> {
    if bin {
        binary_outcome(path, data, search, rep, dry)
    } else if !regex_accepts(effective_search(search)) {
        Err(ContentErrorView::InvalidRegex(search))
    } else {
        match decoded_text(data) {
            None => Err(ContentErrorView::ReadDecodingError(path)),
            Some(t) => text_outcome(path, t, search, rep, dry),
        }
    }
}

/// The configuration error of a pair of patterns, if any.
pub open spec fn config_error(search: Seq<char>, rep: Seq<char>, bin: bool) -> Option<
    ContentErrorView,
> {
    if bin {
        match compiled_pair(search, rep) {
            Err(e) => Some(e),
            Ok(_) => None,
        }
    } else if !regex_accepts(effective_search(search)) {
        Some(ContentErrorView::InvalidRegex(search))
    } else {
        None
    }
}

fn text_pattern(search: &str) -> (r: &str)
    ensures
        r@ == effective_search(search@),
{
    if search.is_empty() {
        proof {
            reveal_strlit("(?s).*");
        }
        let all = "(?s).*";
        assert(all@ =~= match_all());
        all
    } else {
        search
    }
}

/// The text between two boundaries of the UTF-8 form of `text`.
fn text_between(text: &str, a: usize, b: usize) -> (r: &str)
    requires
        a <= b <= text.spec_bytes().len(),
        is_char_boundary(text.spec_bytes(), a as int),
        is_char_boundary(text.spec_bytes(), b as int),
    ensures
        r@ == matched_text(text@, a as int, b as int),
{
    let ghost bytes = text.spec_bytes();
    proof {
        encode_utf8_valid_utf8(text@);
        valid_utf8_split(bytes, b as int);
    }
    let (head, _) = text.split_at(b);
    proof {
        let hb = head.spec_bytes();
        assert(hb =~= bytes.subrange(0, b as int));
        if a < b {
            is_char_boundary_iff_not_is_continuation_byte(bytes, a as int);
            is_char_boundary_iff_not_is_continuation_byte(hb, a as int);
        } else {
            is_char_boundary_start_end_of_seq(hb);
        }
    }
    let (_, piece) = head.split_at(a);
    proof {
        assert(piece.spec_bytes() =~= bytes.subrange(a as int, b as int));
        encode_utf8_decode_utf8(piece@);
    }
    piece
}

/// The text engine on decoded text: every match of the search regex (an
/// empty search stands for the whole text) is reported with its offsets, the
/// matched text and the template applied to that text; unless `b_dry`, the
/// plan rewrites the file with the whole text's replacement when anything
/// matched.
pub fn plan_text(path: &str, text: &str, str_search: &str, str_replace: &str, b_dry: bool) -> (r:
    Result<ContentPlan, DoContentError>)
    ensures
        outcome_view(r) == text_outcome(path@, text@, str_search@, str_replace@, b_dry),
{
    let pattern = text_pattern(str_search);
    if !regex_compiles(pattern) {
        return Err(DoContentError::InvalidRegex(str_search.to_owned()));
    }
    let spans = regex_find_spans(pattern, text);
    let ghost p = pattern@;
    let ghost expected = text_replacements(p, text@, str_replace@);
    let mut replacements: Vec<ContentReplacementInfo> = Vec::new();
    let mut j: usize = 0;
    while j < spans.len()
        invariant
            p == pattern@,
            regex_accepts(p),
            spans_view(spans@) == regex_spans(p, text@),
            crate::regex_ops::well_placed(spans@, text.spec_bytes()),
            expected == text_replacements(p, text@, str_replace@),
            j <= spans@.len(),
            replacements_view(replacements@) == expected.take(j as int),
        decreases spans@.len() - j,
    {
        let (a, b) = spans[j];
        assert(spans_view(spans@)[j as int] == (a as int, b as int));
        let piece = text_between(text, a, b);
        let new = regex_replace(pattern, piece, str_replace);
        let info = ContentReplacementInfo {
            start: a,
            end: b,
            length: b - a,
            new,
            original: piece.to_owned(),
        };
        let ghost before = replacements@;
        replacements.push(info);
        assert(replacements_view(replacements@) =~= replacements_view(before).push(info@));
        assert(replacements_view(replacements@) =~= expected.take(j + 1));
        j = j + 1;
    }
    assert(replacements_view(replacements@) =~= expected);
    let edit = if b_dry || spans.len() == 0 {
        ContentEdit::Untouched
    } else {
        ContentEdit::Rewrite(regex_replace(pattern, text, str_replace))
    };
    Ok(ContentPlan { path: path.to_owned(), edit, replacements })
}


pub open spec fn pair_view(r: Result<(Vec<ByteMatcher>, Vec<ByteMatcher>), DoContentError>) -> Result<
    (Seq<ByteMatcher>, Seq<ByteMatcher>),
    ContentErrorView,
> {
    match r {
        Ok((s, p)) => Ok((s@, p@)),
        Err(e) => Err(e@),
    }
}

fn compile_pair(str_search: &str, str_replace: &str) -> (r: Result<
    (Vec<ByteMatcher>, Vec<ByteMatcher>),
    DoContentError,
>)
    ensures
        pair_view(r) == compiled_pair(str_search@, str_replace@),
{
    let search = match compile_pattern(str_search) {
        Ok(v) => v,
        Err(t) => {
            return Err(DoContentError::HexDecodeError(str_search.to_owned(), t));
        },
    };
    let replace = match compile_pattern(str_replace) {
        Ok(v) => v,
        Err(t) => {
            return Err(DoContentError::HexDecodeError(str_replace.to_owned(), t));
        },
    };
    if search.len() != replace.len() {
        return Err(DoContentError::PatternLengthMismatch(search.len(), replace.len()));
    }
    Ok((search, replace))
}

proof fn lemma_offsets_match(data: Seq<u8>, search: Seq<ByteMatcher>, m: int)
    ensures
        forall|j: int|
            0 <= j < match_offsets(data, search, m).len() ==> window_matches(
                data,
                search,
                #[trigger] match_offsets(data, search, m)[j],
            ),
    decreases m,
{
    if m > 0 {
        lemma_offsets_match(data, search, m - 1);
        let prev = match_offsets(data, search, m - 1);
        let cur = match_offsets(data, search, m);
        assert forall|j: int| 0 <= j < cur.len() implies window_matches(
            data,
            search,
            #[trigger] cur[j],
        ) by {
            if j < prev.len() {
                assert(cur[j] == prev[j]);
            }
        }
    }
}

/// The binary engine: both patterns are compiled (a bad token, or patterns of
/// different lengths, is an error); every window of the data that matches the
/// search pattern is reported with its offsets and the two pattern strings;
/// unless `b_dry`, the plan writes each matched window in place.
pub fn plan_binary(
    path: &str,
    data: &Vec<u8>,
    str_search: &str,
    str_replace: &str,
    b_dry: bool,
) -> (r: Result<ContentPlan, DoContentError>)
    ensures
        outcome_view(r) == binary_outcome(path@, data@, str_search@, str_replace@, b_dry),
{
    let (search, replace) = match compile_pair(str_search, str_replace) {
        Ok(p) => p,
        Err(e) => {
            return Err(e);
        },
    };
    let writes = scan_binary(data, &search, &replace);
    let k = search.len();
    let n = data.len();
    let ghost offsets = all_match_offsets(data@, search@);
    let ghost expected = binary_replacements(str_search@, str_replace@, offsets, k as int);
    proof {
        lemma_offsets_match(data@, search@, data@.len() - search@.len() + 1);
        assert(writes_view(writes@).len() == offsets.len());
    }
    let mut replacements: Vec<ContentReplacementInfo> = Vec::new();
    let mut j: usize = 0;
    while j < writes.len()
        invariant
            k == search@.len(),
            n == data@.len(),
            offsets == all_match_offsets(data@, search@),
            writes_view(writes@) == planned_writes(data@, search@, replace@),
            writes@.len() == offsets.len(),
            forall|i: int|
                0 <= i < offsets.len() ==> window_matches(data@, search@, #[trigger] offsets[i]),
            expected == binary_replacements(str_search@, str_replace@, offsets, k as int),
            j <= writes@.len(),
            replacements_view(replacements@) == expected.take(j as int),
        decreases writes@.len() - j,
    {
        let off = writes[j].offset;
        assert(writes_view(writes@)[j as int].0 == offsets[j as int]);
        assert(window_matches(data@, search@, offsets[j as int]));
        let info = ContentReplacementInfo {
            start: off,
            end: off + k,
            length: k,
            new: str_replace.to_owned(),
            original: str_search.to_owned(),
        };
        let ghost before = replacements@;
        replacements.push(info);
        assert(replacements_view(replacements@) =~= replacements_view(before).push(info@));
        assert(replacements_view(replacements@) =~= expected.take(j + 1));
        j = j + 1;
    }
    assert(replacements_view(replacements@) =~= expected);
    let edit = if b_dry || writes.len() == 0 {
        ContentEdit::Untouched
    } else {
        ContentEdit::Patch { writes, pattern: str_replace.to_owned() }
    };
    Ok(ContentPlan { path: path.to_owned(), edit, replacements })
}

/// Plans the content edit of one file from its bytes: the binary engine when
/// `b_bin`, else the text engine once the regex compiles and the bytes decode
/// as text.
pub fn do_contents(
    path: &str,
    contents: &Vec<u8>,
    str_search: &str,
    str_replace: &str,
    b_dry: bool,
    b_bin: bool,
) -> (r: Result<ContentPlan, DoContentError>)
    ensures
        outcome_view(r) == contents_outcome(
            path@,
            contents@,
            str_search@,
            str_replace@,
            b_dry,
            b_bin,
        ),
{
    if b_bin {
        return plan_binary(path, contents, str_search, str_replace, b_dry);
    }
    if !regex_compiles(text_pattern(str_search)) {
        return Err(DoContentError::InvalidRegex(str_search.to_owned()));
    }
    match decode_text(contents.as_slice()) {
        None => Err(DoContentError::ReadDecodingError(path.to_owned())),
        Some(text) => plan_text(path, text.as_str(), str_search, str_replace, b_dry),
    }
}

/// Checks the patterns before any file is read: in binary mode both must
/// compile to byte patterns of one length, otherwise the search must compile
/// as a regex.
pub fn check_patterns(str_search: &str, str_replace: &str, b_bin: bool) -> (r: Result<
    (),
    DoContentError,
>)
    ensures
        match r {
            Ok(_) => config_error(str_search@, str_replace@, b_bin) is None,
            Err(e) => config_error(str_search@, str_replace@, b_bin) == Some(e@),
        },
{
    if b_bin {
        match compile_pair(str_search, str_replace) {
            Ok(_) => Ok(()),
            Err(e) => Err(e),
        }
    } else if !regex_compiles(text_pattern(str_search)) {
        Err(DoContentError::InvalidRegex(str_search.to_owned()))
    } else {
        Ok(())
    }
}

/// What a failed write reports as its attempted output.
pub open spec fn attempted_output(edit: EditView) -> Seq<char> {
    match edit {
        EditView::Rewrite(t) => t,
        EditView::Patch(_, pattern) => pattern,
        EditView::Untouched => seq![],
    }
}

/// The error of a write that the plan asked for and that failed.
pub open spec fn write_failure(edit: EditView, written: Option<Result<(), std::io::Error>>) -> Option<
    std::io::Error,
> {
    match written {
        Some(Err(e)) => if edit is Untouched {
            None
        } else {
            Some(e)
        },
        _ => None,
    }
}

/// Whether a write that the plan asked for succeeded.
pub open spec fn wrote(edit: EditView, written: Option<Result<(), std::io::Error>>) -> bool {
    match written {
        Some(Ok(_)) => !(edit is Untouched),
        _ => false,
    }
}

/// The final report of a plan, given what writing its edit gave.
pub open spec fn finished(plan: PlanView, written: Option<Result<(), std::io::Error>>) -> Result<
    Seq<FileView>,
    ContentErrorView,
> {
    if plan.replacements.len() == 0 {
        Ok(seq![])
    } else {
        match write_failure(plan.edit, written) {
            Some(e) => Err(ContentErrorView::WriteError(attempted_output(plan.edit), e)),
            None => Ok(
                seq![
                    FileView {
                        did_change: wrote(plan.edit, written),
                        path: plan.path,
                        replacements: plan.replacements,
                    },
                ],
            ),
        }
    }
}

pub open spec fn finished_view(r: Result<Vec<FileReplacementInfo>, DoContentError>) -> Result<
    Seq<FileView>,
    ContentErrorView,
> {
    match r {
        Ok(v) => Ok(v@.map_values(|f: FileReplacementInfo| f@)),
        Err(e) => Err(e@),
    }
}

/// Settles the report of a plan once its edit was performed. `written` is
/// what writing the edit gave (`None` when nothing was attempted); it counts
/// only when the plan asked for an edit. A plan without matches reports
/// nothing; a failed write is an error carrying the attempted output; else
/// the file is reported with `did_change` telling whether a write succeeded.
pub fn finish_contents(plan: ContentPlan, written: Option<Result<(), std::io::Error>>) -> (r:
    Result<Vec<FileReplacementInfo>, DoContentError>)
    ensures
        finished_view(r) == finished(plan@, written),
{
    if plan.replacements.len() == 0 {
        let v: Vec<FileReplacementInfo> = Vec::new();
        assert(v@.map_values(|f: FileReplacementInfo| f@) =~= Seq::<FileView>::empty());
        return Ok(v);
    }
    let ContentPlan { path, edit, replacements } = plan;
    let did_change = match (edit, written) {
        (ContentEdit::Untouched, _) => false,
        (_, None) => false,
        (_, Some(Ok(_))) => true,
        (ContentEdit::Rewrite(t), Some(Err(e))) => {
            return Err(DoContentError::WriteError(t, e));
        },
        (ContentEdit::Patch { writes: _, pattern }, Some(Err(e))) => {
            return Err(DoContentError::WriteError(pattern, e));
        },
    };
    let mut v: Vec<FileReplacementInfo> = Vec::new();
    v.push(FileReplacementInfo { did_change, path, replacements });
    assert(v@.map_values(|f: FileReplacementInfo| f@) =~= seq![v@[0]@]);
    Ok(v)
}


/// A dry run asks for no edit, so it leaves the file as it is, and it
/// reports the same path and matches (or the same error) as a real run on
/// the same input; settled, its report says that nothing changed.
pub proof fn lemma_dry_run_contents(
    path: Seq<char>,
    data: Seq<u8>,
    search: Seq<char>,
    rep: Seq<char>,
    bin: bool,
    written: Option<Result<(), std::io::Error>>,
)
    ensures
        match (
            contents_outcome(path, data, search, rep, true, bin),
            contents_outcome(path, data, search, rep, false, bin),
        ) {
            (Ok(dry), Ok(live)) => {
                &&& dry.edit is Untouched
                &&& dry.path == live.path
                &&& dry.replacements == live.replacements
                &&& match finished(dry, written) {
                    Ok(files) => forall|i: int| 0 <= i < files.len() ==> !(#[trigger] files[i]).did_change,
                    Err(_) => false,
                }
            },
            (Err(dry), Err(live)) => dry == live,
            _ => false,
        },
{
}

/// When the text a run writes holds no match of the search regex, a second
/// run over that text finds no match and asks for no edit.
pub proof fn lemma_second_pass_idle(
    path: Seq<char>,
    t: Seq<char>,
    search: Seq<char>,
    rep: Seq<char>,
    dry: bool,
)
    requires
        regex_accepts(effective_search(search)),
        regex_spans(
            effective_search(search),
            regex_replace_all(effective_search(search), t, rep),
        ).len() == 0,
    ensures
        text_outcome(
            path,
            regex_replace_all(effective_search(search), t, rep),
            search,
            rep,
            dry,
        ) == Ok::<PlanView, ContentErrorView>(
            PlanView { path, edit: EditView::Untouched, replacements: seq![] },
        ),
{
    let p = effective_search(search);
    let out = regex_replace_all(p, t, rep);
    assert(text_replacements(p, out, rep) =~= Seq::<ReplacementView>::empty());
}

} // verus!
