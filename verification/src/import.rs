//! A module brought in by an `import` statement: its name, its path and its
//! source text without comments.

use vstd::prelude::*;
use crate::source::{strip_comments, strip_comments_spec};

verus! {

/// `std::path::PathBuf`, carried through as it is.
#[verifier::external_type_specification]
#[verifier::external_body]
pub struct ExPathBuf(std::path::PathBuf);

/// An imported module.
#[derive(Debug)]
pub struct ImportObject {
    pub name: String,
    pub path: std::path::PathBuf,
    pub source: String,
}

impl ImportObject {
    pub fn new(name: String, path: std::path::PathBuf, source: String) -> (r: Self)
        ensures
            r.name == name,
            r.path == path,
            r.source == source,
    {
        Self { name, path, source }
    }

    /// The module read from `path` under the file name `name`: its source
    /// `text` with the comments removed.
    pub fn loaded(name: String, path: std::path::PathBuf, text: String) -> (r: Self)
        ensures
            r.name == name,
            r.path == path,
            r.source@ == strip_comments_spec(text@),
    {
        let source = strip_comments(text.as_str());
        Self { name, path, source }
    }
}

} // verus!
