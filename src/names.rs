//! The name engine: the search regex runs over an entry's final path
//! component, and the entry is renamed in place when the result differs.
use vstd::prelude::*;
use crate::contents::match_all;
use crate::regex_ops::{regex_accepts, regex_compiles, regex_replace, regex_replace_all};
use crate::report::{NameReplacementInfo, NameView, text_view};

verus! {

/// Why an entry could not be renamed.
#[derive(Debug)]
pub enum DoNamesError {
    /// An I/O failure around the entry.
    IoError(std::io::Error),
    /// Renaming to the new name (first field) failed.
    RenameError(String, std::io::Error),
    /// The path (named here) has no final component that is text.
    InvalidFilename(String),
    /// The search regex does not compile.
    InvalidRegex(String),
}

pub ghost enum NamesErrorView {
    IoError(std::io::Error),
    RenameError(Seq<char>, std::io::Error),
    InvalidFilename(Seq<char>),
    InvalidRegex(Seq<char>),
}

impl View for DoNamesError {
    type V = NamesErrorView;

    open spec fn view(&self) -> NamesErrorView {
        match self {
            DoNamesError::IoError(e) => NamesErrorView::IoError(*e),
            DoNamesError::RenameError(n, e) => NamesErrorView::RenameError(n@, *e),
            DoNamesError::InvalidFilename(p) => NamesErrorView::InvalidFilename(p@),
            DoNamesError::InvalidRegex(p) => NamesErrorView::InvalidRegex(p@),
        }
    }
}

/// The rename the engine found for one entry, if any, and whether the caller
/// is to perform it.
#[derive(Debug)]
pub struct NamePlan {
    pub pending: Option<NameReplacementInfo>,
    pub rename: bool,
}

pub ghost struct NamePlanView {
    pub pending: Option<NameView>,
    pub rename: bool,
}

impl View for NamePlan {
    type V = NamePlanView;

    open spec fn view(&self) -> NamePlanView {
        NamePlanView {
            pending: match self.pending {
                Some(i) => Some(i@),
                None => None,
            },
            rename: self.rename,
        }
    }
}

pub open spec fn name_outcome_view(r: Result<NamePlan, DoNamesError>) -> Result<
    NamePlanView,
    NamesErrorView,
> {
    match r {
        Ok(p) => Ok(p@),
        Err(e) => Err(e@),
    }
}

/// The regex of the name engine: the search, or everything when there is none.
pub open spec fn name_pattern(search: Option<Seq<char>>) -> Seq<char> {
    match search {
        Some(s) => s,
        None => match_all(),
    }
}

/// The name engine on an entry at `path` whose final component is `name`.
pub open spec fn names_outcome(
    path: Seq<char>,
    name: Option<Seq<char>>,
    search: Option<Seq<char>>,
    rep: Seq<char>,
    dry: bool,
) -> Result<NamePlanView, NamesErrorView> {
    let p = name_pattern(search);
    if !regex_accepts(p) {
        Err(NamesErrorView::InvalidRegex(p))
    } else {
        match name {
            None => Err(NamesErrorView::InvalidFilename(path)),
            Some(old) => {
                let new = regex_replace_all(p, old, rep);
                if new == old {
                    Ok(NamePlanView { pending: None, rename: false })
                } else {
                    Ok(
                        NamePlanView {
                            pending: Some(
                                NameView { did_change: false, path, old_name: old, new_name: new },
                            ),
                            rename: !dry,
                        },
                    )
                }
            },
        }
    }
}

fn name_regex(str_search: &Option<String>) -> (r: &str)
    ensures
        r@ == name_pattern(text_view(*str_search)),
{
    match str_search {
        Some(s) => s.as_str(),
        None => {
            proof {
                reveal_strlit("(?s).*");
            }
            let all = "(?s).*";
            assert(all@ =~= match_all());
            all
        },
    }
}

/// Plans the rename of the entry at `source_path`, whose final component is
/// `file_name` (`None` when it has none that is text). The new name is the
/// whole name with every match of the search regex (everything, when there
/// is none) replaced by the template. An unchanged name plans nothing;
/// otherwise the rename is reported, and performed unless `b_dry`.
pub fn do_names(
    source_path: &str,
    file_name: Option<&str>,
    str_search: Option<String>,
    str_replace: &str,
    b_dry: bool,
) -> (r: Result<NamePlan, DoNamesError>)
    ensures
        name_outcome_view(r) == names_outcome(
            source_path@,
            match file_name {
                Some(n) => Some(n@),
                None => None,
            },
            text_view(str_search),
            str_replace@,
            b_dry,
        ),
{
    let pattern = name_regex(&str_search);
    if !regex_compiles(pattern) {
        return Err(DoNamesError::InvalidRegex(pattern.to_owned()));
    }
    let old_name = match file_name {
        Some(n) => n,
        None => {
            return Err(DoNamesError::InvalidFilename(source_path.to_owned()));
        },
    };
    let new_name = regex_replace(pattern, old_name, str_replace);
    let old_owned = old_name.to_owned();
    if new_name == old_owned {
        return Ok(NamePlan { pending: None, rename: false });
    }
    let info = NameReplacementInfo {
        did_change: false,
        path: source_path.to_owned(),
        old_name: old_owned,
        new_name,
    };
    Ok(NamePlan { pending: Some(info), rename: !b_dry })
}

/// The final report of a name plan, given what the rename gave.
pub open spec fn names_finished(
    plan: NamePlanView,
    renamed: Option<Result<(), std::io::Error>>,
) -> Result<Seq<NameView>, NamesErrorView> {
    match plan.pending {
        None => Ok(seq![]),
        Some(info) => if !plan.rename {
            Ok(seq![NameView { did_change: false, ..info }])
        } else {
            match renamed {
                Some(Err(e)) => Err(NamesErrorView::RenameError(info.new_name, e)),
                Some(Ok(_)) => Ok(seq![NameView { did_change: true, ..info }]),
                None => Ok(seq![NameView { did_change: false, ..info }]),
            }
        },
    }
}

pub open spec fn names_finished_view(r: Result<Vec<NameReplacementInfo>, DoNamesError>) -> Result<
    Seq<NameView>,
    NamesErrorView,
> {
    match r {
        Ok(v) => Ok(v@.map_values(|i: NameReplacementInfo| i@)),
        Err(e) => Err(e@),
    }
}

/// Settles the report of a name plan. `renamed` is what the rename gave
/// (`None` when it was not attempted); it counts only when the plan asked
/// for the rename. A failed rename is an error carrying the new name.
pub fn finish_names(plan: NamePlan, renamed: Option<Result<(), std::io::Error>>) -> (r: Result<
    Vec<NameReplacementInfo>,
    DoNamesError,
>)
    ensures
        names_finished_view(r) == names_finished(plan@, renamed),
{
    let NamePlan { pending, rename } = plan;
    let mut v: Vec<NameReplacementInfo> = Vec::new();
    match pending {
        None => {},
        Some(info) => {
            let NameReplacementInfo { did_change: _, path, old_name, new_name } = info;
            let did_change = if !rename {
                false
            } else {
                match renamed {
                    Some(Err(e)) => {
                        return Err(DoNamesError::RenameError(new_name, e));
                    },
                    Some(Ok(_)) => true,
                    None => false,
                }
            };
            v.push(NameReplacementInfo { did_change, path, old_name, new_name });
        },
    }
    assert(v@.map_values(|i: NameReplacementInfo| i@) =~= match names_finished(plan@, renamed) {
        Ok(s) => s,
        Err(_) => seq![],
    });
    Ok(v)
}


/// A dry run asks for no rename and plans the same report (or the same
/// error) as a real run; settled, its report says that nothing changed.
pub proof fn lemma_dry_run_names(
    path: Seq<char>,
    name: Option<Seq<char>>,
    search: Option<Seq<char>>,
    rep: Seq<char>,
    renamed: Option<Result<(), std::io::Error>>,
)
    ensures
        match (
            names_outcome(path, name, search, rep, true),
            names_outcome(path, name, search, rep, false),
        ) {
            (Ok(dry), Ok(live)) => {
                &&& !dry.rename
                &&& dry.pending == live.pending
                &&& match names_finished(dry, renamed) {
                    Ok(infos) => forall|i: int| 0 <= i < infos.len() ==> !(#[trigger] infos[i]).did_change,
                    Err(_) => false,
                }
            },
            (Err(dry), Err(live)) => dry == live,
            _ => false,
        },
{
}

/// When the new name equals the old one, nothing is renamed and nothing is
/// reported.
pub proof fn lemma_unchanged_name(
    path: Seq<char>,
    old: Seq<char>,
    search: Option<Seq<char>>,
    rep: Seq<char>,
    dry: bool,
    renamed: Option<Result<(), std::io::Error>>,
)
    requires
        regex_accepts(name_pattern(search)),
        regex_replace_all(name_pattern(search), old, rep) == old,
    ensures
        names_outcome(path, Some(old), search, rep, dry) == Ok::<NamePlanView, NamesErrorView>(
            NamePlanView { pending: None, rename: false },
        ),
        names_finished(NamePlanView { pending: None, rename: false }, renamed) == Ok::<
            Seq<NameView>,
            NamesErrorView,
        >(seq![]),
{
}

} // verus!
