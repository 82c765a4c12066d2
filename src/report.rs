//! The structured results that the engines hand to the reporting layer.
use vstd::prelude::*;

verus! {

#[verifier::external_type_specification]
#[verifier::external_body]
pub struct ExIoError(std::io::Error);

/// One located match: a half-open offset range `[start, end)`, its length,
/// the text that was matched and the text that replaces it.
#[derive(Debug)]
pub struct ContentReplacementInfo {
    pub start: usize,
    pub end: usize,
    pub length: usize,
    pub new: String,
    pub original: String,
}

/// The result for one file's contents. `did_change` holds only when the new
/// contents were actually written.
#[derive(Debug)]
pub struct FileReplacementInfo {
    pub did_change: bool,
    pub path: String,
    pub replacements: Vec<ContentReplacementInfo>,
}

/// The result for one rename. `did_change` holds only when the entry was
/// actually renamed.
#[derive(Debug)]
pub struct NameReplacementInfo {
    pub did_change: bool,
    pub path: String,
    pub old_name: String,
    pub new_name: String,
}

/// The abstract value of a [`ContentReplacementInfo`].
pub ghost struct ReplacementView {
    pub start: int,
    pub end: int,
    pub length: int,
    pub new: Seq<char>,
    pub original: Seq<char>,
}

impl View for ContentReplacementInfo {
    type V = ReplacementView;

    open spec fn view(&self) -> ReplacementView {
        ReplacementView {
            start: self.start as int,
            end: self.end as int,
            length: self.length as int,
            new: self.new@,
            original: self.original@,
        }
    }
}

/// The text of an optional string.
pub open spec fn text_view(t: Option<String>) -> Option<Seq<char>> {
    match t {
        Some(s) => Some(s@),
        None => None,
    }
}

pub open spec fn replacements_view(v: Seq<ContentReplacementInfo>) -> Seq<ReplacementView> {
    v.map_values(|r: ContentReplacementInfo| r@)
}

/// The abstract value of a [`FileReplacementInfo`].
pub ghost struct FileView {
    pub did_change: bool,
    pub path: Seq<char>,
    pub replacements: Seq<ReplacementView>,
}

impl View for FileReplacementInfo {
    type V = FileView;

    open spec fn view(&self) -> FileView {
        FileView {
            did_change: self.did_change,
            path: self.path@,
            replacements: replacements_view(self.replacements@),
        }
    }
}

/// The abstract value of a [`NameReplacementInfo`].
pub ghost struct NameView {
    pub did_change: bool,
    pub path: Seq<char>,
    pub old_name: Seq<char>,
    pub new_name: Seq<char>,
}

impl View for NameReplacementInfo {
    type V = NameView;

    open spec fn view(&self) -> NameView {
        NameView {
            did_change: self.did_change,
            path: self.path@,
            old_name: self.old_name@,
            new_name: self.new_name@,
        }
    }
}

} // verus!
