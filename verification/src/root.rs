//! The choice of the project root from what the version-control command
//! printed and from the run's settings.

use crate::error::{LintError, LintErrorView};
use crate::text::{chars_of, ends_with, line_ends_with, trim_end_len, trimmed_end};
use vstd::prelude::*;
use vstd::string::{StrSliceExecFns, StringExecFns};

verus! {

/// What is known when the project root is chosen.
#[derive(Debug)]
pub struct RootProbe {
    /// Whether the command that asks for the top level of the working tree
    /// could be run.
    pub ran: bool,
    /// What the command wrote to its error stream; `None` where that is not
    /// text.
    pub stderr: Option<String>,
    /// What the command wrote to its output stream; `None` where that is not
    /// text.
    pub stdout: Option<String>,
    /// The configured name of the repository, if any.
    pub repository_name: Option<String>,
    /// The configured root for development builds, if any.
    pub development_root: Option<String>,
    /// Whether this is a development build.
    pub debug_build: bool,
}

/// The project root that a probe gives, or why it gives none. The command's
/// report of an error comes first; then its output, without trailing white
/// space, must not be empty and, outside development builds, must end with
/// the repository's name. A development build takes the configured
/// development root, any other build the command's output.
pub open spec fn project_root_of(probe: RootProbe) -> Result<Seq<char>, LintErrorView> {
    if !probe.ran {
        Err(LintErrorView::CommandFailed)
    } else if probe.stderr is None {
        Err(LintErrorView::InvalidOutput)
    } else if probe.stderr->Some_0@.len() > 0 {
        Err(LintErrorView::Command(probe.stderr->Some_0@))
    } else if probe.stdout is None {
        Err(LintErrorView::InvalidOutput)
    } else {
        let top_level = trimmed_end(probe.stdout->Some_0@);
        if top_level.len() == 0 {
            Err(LintErrorView::EmptyOutput)
        } else if probe.repository_name is None {
            Err(LintErrorView::MissingRepositoryName)
        } else if !probe.debug_build && !ends_with(top_level, probe.repository_name->Some_0@) {
            Err(LintErrorView::WrongRepository)
        } else if probe.development_root is None {
            Err(LintErrorView::MissingDevelopmentRoot)
        } else if probe.debug_build {
            Ok(probe.development_root->Some_0@)
        } else {
            Ok(top_level)
        }
    }
}

/// What the result of the choice stands for in contracts.
pub open spec fn root_view(r: Result<String, LintError>) -> Result<Seq<char>, LintErrorView> {
    match r {
        Ok(root) => Ok(root@),
        Err(e) => Err(e@),
    }
}

/// Chooses the project root.
pub fn get_project_root(probe: &RootProbe) -> (r: Result<String, LintError>)
    ensures
        root_view(r) == project_root_of(*probe),
{
    if !probe.ran {
        return Err(LintError::CommandFailed);
    }
    let stderr = match &probe.stderr {
        Some(stderr) => stderr,
        None => return Err(LintError::InvalidOutput),
    };
    if stderr.as_str().unicode_len() > 0 {
        return Err(LintError::Command(stderr.clone()));
    }
    let stdout = match &probe.stdout {
        Some(stdout) => stdout,
        None => return Err(LintError::InvalidOutput),
    };
    let printed = chars_of(stdout.as_str());
    let kept = trim_end_len(&printed);
    if kept == 0 {
        return Err(LintError::EmptyOutput);
    }
    let top_level = stdout.as_str().substring_char(0, kept);
    let repository_name = match &probe.repository_name {
        Some(name) => name,
        None => return Err(LintError::MissingRepositoryName),
    };
    if !probe.debug_build {
        let name = chars_of(repository_name.as_str());
        let found = chars_of(top_level);
        if !line_ends_with(&found, &name) {
            return Err(LintError::WrongRepository);
        }
    }
    let development_root = match &probe.development_root {
        Some(root) => root,
        None => return Err(LintError::MissingDevelopmentRoot),
    };
    if probe.debug_build {
        Ok(development_root.clone())
    } else {
        Ok(String::from_str(top_level))
    }
}

} // verus!
