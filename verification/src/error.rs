//! The error taxonomy of the decision engine.  Configuration problems are
//! reported as `ConfigParse`; guardrail rejections as `ForbiddenToolAccess`.
//! An insufficient-data classification is not an error and never appears
//! here.

use vstd::prelude::*;

verus! {

#[derive(Debug)]
pub enum HarnessError {
    NotGitRepo(String),
    ConfigNotFound(String),
    ConfigParse(String),
    PathNotFound(String),
    InvalidProfileTarget(String),
    BucketPenaltyExceeded(String),
    ForbiddenToolAccess(String),
}

impl HarnessError {
    /// The rendered form of the error, one fixed prefix per variant.
    pub open spec fn message_spec(&self) -> Seq<char> {
        match self {
            HarnessError::NotGitRepo(s) => "not a git repository: "@ + s@,
            HarnessError::ConfigNotFound(s) => "config file not found: "@ + s@,
            HarnessError::ConfigParse(s) => "config parse error: "@ + s@,
            HarnessError::PathNotFound(s) => "path does not exist: "@ + s@,
            HarnessError::InvalidProfileTarget(s) => "invalid profile target: "@ + s@,
            HarnessError::BucketPenaltyExceeded(s) => "bucket penalty exceeded maximum: "@ + s@,
            HarnessError::ForbiddenToolAccess(s) => "forbidden tool access attempt: "@ + s@,
        }
    }

    /// Renders the error as text.
    pub fn message(&self) -> (r: String)
        ensures
            r@ == self.message_spec(),
    {
        let mut out = String::new();
        match self {
            HarnessError::NotGitRepo(s) => {
                out.append("not a git repository: ");
                out.append(s.as_str());
            },
            HarnessError::ConfigNotFound(s) => {
                out.append("config file not found: ");
                out.append(s.as_str());
            },
            HarnessError::ConfigParse(s) => {
                out.append("config parse error: ");
                out.append(s.as_str());
            },
            HarnessError::PathNotFound(s) => {
                out.append("path does not exist: ");
                out.append(s.as_str());
            },
            HarnessError::InvalidProfileTarget(s) => {
                out.append("invalid profile target: ");
                out.append(s.as_str());
            },
            HarnessError::BucketPenaltyExceeded(s) => {
                out.append("bucket penalty exceeded maximum: ");
                out.append(s.as_str());
            },
            HarnessError::ForbiddenToolAccess(s) => {
                out.append("forbidden tool access attempt: ");
                out.append(s.as_str());
            },
        }
        out
    }
}

} // verus!
