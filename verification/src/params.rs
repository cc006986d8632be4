//! The parameters of the two operations.

use vstd::prelude::*;

verus! {

/// The parameters of a replace call.
#[derive(Debug)]
pub struct ReplaceParams {
    /// The pattern to match.
    pub pattern: String,
    /// The replacement template: `$1`, `$2` stand for capture groups, `$0`
    /// for the whole match.
    pub replacement: String,
    /// The glob pattern that selects the files.
    pub files: String,
    /// Whether to report the changes without writing them. Absent means no.
    pub dry_run: Option<bool>,
}

/// The parameters of a search call.
#[derive(Debug)]
pub struct SearchParams {
    /// The pattern to search for.
    pub pattern: String,
    /// The glob pattern that selects the files.
    pub files: String,
    /// The greatest number of matching lines to return. Absent means 50.
    pub limit: Option<usize>,
}

/// The limit of a search whose parameters give none.
pub const DEFAULT_LIMIT: usize = 50;

impl ReplaceParams {
    /// Whether the call is a dry run.
    pub open spec fn is_dry_run(&self) -> bool {
        match self.dry_run {
            Some(dry_run) => dry_run,
            None => false,
        }
    }

    /// Whether the call is a dry run.
    pub fn dry_run_or_default(&self) -> (dry_run: bool)
        ensures
            dry_run == self.is_dry_run(),
    {
        match self.dry_run {
            Some(dry_run) => dry_run,
            None => false,
        }
    }
}

impl SearchParams {
    /// The limit of the call.
    pub open spec fn effective_limit(&self) -> usize {
        match self.limit {
            Some(limit) => limit,
            None => DEFAULT_LIMIT,
        }
    }

    /// The limit of the call.
    pub fn limit_or_default(&self) -> (limit: usize)
        ensures
            limit == self.effective_limit(),
    {
        match self.limit {
            Some(limit) => limit,
            None => DEFAULT_LIMIT,
        }
    }
}

} // verus!
