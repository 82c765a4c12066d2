//! The decisions of the loop that drives the engines over a directory tree:
//! which engines run, which entries are skipped, and which errors end the run.
use vstd::prelude::*;
use crate::contents::DoContentError;
use crate::hex_pattern::{chars_of, is_blank, is_blank_char};

verus! {

/// The engines a run uses, and whether it only reports.
#[derive(Debug, Clone, Copy, PartialEq, Eq)]
pub struct RunModes {
    pub names: bool,
    pub contents: bool,
    pub dry: bool,
}

/// Settles the modes of a run: asking for neither names nor contents means
/// both; a run without a replacement only reports.
pub fn run_modes(replace_filenames: bool, replace_contents: bool, b_dry: bool, has_replacer: bool) -> (r:
    RunModes)
    ensures
        r.names == (replace_filenames || !replace_contents),
        r.contents == (replace_contents || !replace_filenames),
        r.dry == (b_dry || !has_replacer),
{
    let both = !replace_filenames && !replace_contents;
    RunModes {
        names: replace_filenames || both,
        contents: replace_contents || both,
        dry: b_dry || !has_replacer,
    }
}

/// The engines to run on one entry.
#[derive(Debug, Clone, Copy, PartialEq, Eq)]
pub struct EntryActions {
    pub contents: bool,
    pub names: bool,
}

/// Contents are processed only for regular files and only with a search
/// pattern; names whenever the run processes names.
pub fn entry_actions(modes: &RunModes, is_file: bool, has_search: bool) -> (r: EntryActions)
    ensures
        r.contents == (modes.contents && is_file && has_search),
        r.names == modes.names,
{
    EntryActions { contents: modes.contents && is_file && has_search, names: modes.names }
}

/// A path that names no entry of its own: empty or blank, or a bare marker
/// of the current or parent directory.
pub open spec fn is_degenerate(p: Seq<char>) -> bool {
    ||| (forall|i: int| 0 <= i < p.len() ==> is_blank(#[trigger] p[i]))
    ||| p == seq!['.']
    ||| p == seq!['.', '.']
    ||| p == seq!['.', '/']
    ||| p == seq!['.', '.', '/']
}

pub fn is_degenerate_path(path: &str) -> (r: bool)
    ensures
        r == is_degenerate(path@),
{
    let cs = chars_of(path);
    let n = cs.len();
    let mut all_blank = true;
    let mut i: usize = 0;
    while i < n
        invariant
            n == cs@.len(),
            cs@ == path@,
            i <= n,
            all_blank == (forall|j: int| 0 <= j < i ==> is_blank(#[trigger] cs@[j])),
        decreases n - i,
    {
        all_blank = all_blank && is_blank_char(cs[i]);
        i = i + 1;
    }
    if all_blank {
        return true;
    }
    let dots = n >= 1 && n <= 3 && cs[0] == '.';
    let r = if !dots {
        false
    } else if n == 1 {
        true
    } else if n == 2 {
        cs[1] == '.' || cs[1] == '/'
    } else {
        cs[1] == '.' && cs[2] == '/'
    };
    proof {
        let p = path@;
        if p.len() == 1 {
            assert(r == (p =~= seq!['.']));
        } else if p.len() == 2 {
            assert(r == (p =~= seq!['.', '.'] || p =~= seq!['.', '/']));
        } else if p.len() == 3 {
            assert(r == (p =~= seq!['.', '.', '/']));
        }
        assert(seq!['.'].len() == 1 && seq!['.', '.'].len() == 2 && seq!['.', '/'].len() == 2);
        assert(seq!['.', '.', '/'].len() == 3);
    }
    r
}

/// What the run does with a content error of one file.
#[derive(Debug, Clone, Copy, PartialEq, Eq)]
pub enum ErrorAction {
    /// An expected condition: mentioned only when verbose; the run goes on.
    Quiet,
    /// A failure of this file: reported; the run goes on.
    Report,
    /// A configuration error: reported; the run ends.
    Abort,
}

pub open spec fn content_error_action(e: &DoContentError) -> ErrorAction {
    match e {
        DoContentError::EmptyFile => ErrorAction::Quiet,
        DoContentError::NoMatchesFound => ErrorAction::Quiet,
        DoContentError::ReadDecodingError(_) => ErrorAction::Quiet,
        DoContentError::WriteError(_, _) => ErrorAction::Report,
        DoContentError::HexDecodeError(_, _) => ErrorAction::Abort,
        DoContentError::PatternLengthMismatch(_, _) => ErrorAction::Abort,
        DoContentError::InvalidRegex(_) => ErrorAction::Abort,
    }
}

/// Classifies a content error: empty files, missing matches and text that
/// does not decode are expected; a failed write concerns its file alone; an
/// error in the patterns ends the run.
pub fn classify_content_error(e: &DoContentError) -> (r: ErrorAction)
    ensures
        r == content_error_action(e),
{
    match e {
        DoContentError::EmptyFile => ErrorAction::Quiet,
        DoContentError::NoMatchesFound => ErrorAction::Quiet,
        DoContentError::ReadDecodingError(_) => ErrorAction::Quiet,
        DoContentError::WriteError(_, _) => ErrorAction::Report,
        DoContentError::HexDecodeError(_, _) => ErrorAction::Abort,
        DoContentError::PatternLengthMismatch(_, _) => ErrorAction::Abort,
        DoContentError::InvalidRegex(_) => ErrorAction::Abort,
    }
}

} // verus!
