//! The failures that end a run.

use crate::roles::DirType;
use vstd::prelude::*;
use vstd::string::StringExecFns;

verus! {

/// Why a run could not start or go on.
#[derive(Debug)]
pub enum LintError {
    /// No feature name was given on the command line.
    MissingFeature,
    /// Every subdirectory was found, but the feature name, once normalized,
    /// is empty.
    EmptyFeature,
    /// No path segment is configured for a role.
    MissingSegment(DirType),
    /// A required subdirectory does not exist; the path is the one looked for.
    MissingPath(String),
    /// The version-control command could not be run.
    CommandFailed,
    /// The version-control command wrote something that is not text.
    InvalidOutput,
    /// The version-control command reported an error; the text is its report.
    Command(String),
    /// The version-control command printed nothing.
    EmptyOutput,
    /// No repository name is configured.
    MissingRepositoryName,
    /// The working tree does not belong to the configured repository.
    WrongRepository,
    /// No development root is configured.
    MissingDevelopmentRoot,
}

/// What a `LintError` stands for in contracts.
pub enum LintErrorView {
    MissingFeature,
    EmptyFeature,
    MissingSegment(DirType),
    MissingPath(Seq<char>),
    CommandFailed,
    InvalidOutput,
    Command(Seq<char>),
    EmptyOutput,
    MissingRepositoryName,
    WrongRepository,
    MissingDevelopmentRoot,
}

impl View for LintError {
    type V = LintErrorView;

    open spec fn view(&self) -> LintErrorView {
        match self {
            LintError::MissingFeature => LintErrorView::MissingFeature,
            LintError::EmptyFeature => LintErrorView::EmptyFeature,
            LintError::MissingSegment(role) => LintErrorView::MissingSegment(*role),
            LintError::MissingPath(path) => LintErrorView::MissingPath(path@),
            LintError::CommandFailed => LintErrorView::CommandFailed,
            LintError::InvalidOutput => LintErrorView::InvalidOutput,
            LintError::Command(report) => LintErrorView::Command(report@),
            LintError::EmptyOutput => LintErrorView::EmptyOutput,
            LintError::MissingRepositoryName => LintErrorView::MissingRepositoryName,
            LintError::WrongRepository => LintErrorView::WrongRepository,
            LintError::MissingDevelopmentRoot => LintErrorView::MissingDevelopmentRoot,
        }
    }
}

impl LintErrorView {
    /// The text that describes the failure to a person.
    pub open spec fn message(self) -> Seq<char> {
        match self {
            LintErrorView::MissingFeature => "Didn't get a feature to test"@,
            LintErrorView::EmptyFeature => "The feature name is empty"@,
            LintErrorView::MissingSegment(_) => "environment variable not found"@,
            LintErrorView::MissingPath(path) => "Could not locate "@ + path,
            LintErrorView::CommandFailed => "Could not run command 'git rev-parse --show-toplevel'"@,
            LintErrorView::InvalidOutput => "invalid utf-8 sequence"@,
            LintErrorView::Command(report) => report,
            LintErrorView::EmptyOutput => "'git rev-parse --show-toplevel' output is empty"@,
            LintErrorView::MissingRepositoryName => "environment variable not found"@,
            LintErrorView::WrongRepository => "Not in the correct repository"@,
            LintErrorView::MissingDevelopmentRoot => "environment variable not found"@,
        }
    }
}

impl LintError {
    /// The text that describes the failure to a person.
    pub fn message(&self) -> (text: String)
        ensures
            text@ == self@.message(),
    {
        match self {
            LintError::MissingFeature => String::from_str("Didn't get a feature to test"),
            LintError::EmptyFeature => String::from_str("The feature name is empty"),
            LintError::MissingSegment(_) => String::from_str("environment variable not found"),
            LintError::MissingPath(path) => String::from_str("Could not locate ").concat(
                path.as_str(),
            ),
            LintError::CommandFailed => String::from_str(
                "Could not run command 'git rev-parse --show-toplevel'",
            ),
            LintError::InvalidOutput => String::from_str("invalid utf-8 sequence"),
            LintError::Command(report) => report.clone(),
            LintError::EmptyOutput => String::from_str(
                "'git rev-parse --show-toplevel' output is empty",
            ),
            LintError::MissingRepositoryName => String::from_str("environment variable not found"),
            LintError::WrongRepository => String::from_str("Not in the correct repository"),
            LintError::MissingDevelopmentRoot => String::from_str(
                "environment variable not found",
            ),
        }
    }
}

} // verus!
