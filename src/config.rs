//! Configuration: the rules of a repository's policy, and the per-repository
//! settings of the fixed checks.
use vstd::prelude::*;

verus! {

/// A named boolean expression over a pull request.
#[derive(Debug)]
pub struct Rule {
    pub name: String,
    pub description: String,
    pub expression: String,
}

/// The ordered rules of one repository. A repository without a policy file
/// has no rules.
#[derive(Debug)]
pub struct Policy {
    pub rules: Vec<Rule>,
}

impl Policy {
    /// The policy of a repository that has no policy file.
    pub fn empty() -> (r: Policy)
        ensures
            r.rules@.len() == 0,
    {
        Policy { rules: Vec::new() }
    }
}

/// A repository and the settings of its fixed checks.
#[derive(Debug)]
pub struct Repo {
    pub owner: String,
    pub repo: String,
    pub checks: Checks,
}

/// Settings of the fixed checks; an absent setting leaves its check off.
#[derive(Debug)]
pub struct Checks {
    pub no_capitalize_summary: Option<bool>,
    pub max_summary_length: Option<usize>,
    pub summary_scope: Option<bool>,
    pub max_body_line_length: Option<usize>,
    pub requires_body: Option<bool>,
    pub no_wip: Option<bool>,
    pub no_fixup: Option<bool>,
    pub no_squash: Option<bool>,
}

} // verus!
