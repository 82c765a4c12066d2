//! Search and replace over file contents and file names: a binary engine
//! with byte-level wildcards, a regex-driven text engine, and a name engine,
//! together with the decisions of the loop that drives them over a tree.

pub mod binary;
pub mod contents;
pub mod decode;
pub mod hex_pattern;
pub mod names;
pub mod regex_ops;
pub mod report;
pub mod walk;

pub use binary::ByteWrite;
pub use contents::{do_contents, finish_contents, ContentEdit, ContentPlan, DoContentError};
pub use hex_pattern::ByteMatcher;
pub use names::{do_names, finish_names, DoNamesError, NamePlan};
pub use report::{ContentReplacementInfo, FileReplacementInfo, NameReplacementInfo};
pub use walk::{EntryActions, ErrorAction, RunModes};
