//! The closed set of directory roles.

use vstd::prelude::*;

verus! {

/// The purpose of a feature's subdirectory. A rule names the roles it applies
/// to, and a subdirectory carries exactly one.
#[derive(Clone, Copy, Debug, PartialEq, Eq, Structural)]
pub enum DirType {
    Features,
    Interactions,
    Pages,
    Steps,
}

impl DirType {
    /// The position of a role in the fixed order in which subdirectories are
    /// resolved and scanned.
    pub open spec fn position(self) -> int {
        match self {
            DirType::Features => 0,
            DirType::Interactions => 1,
            DirType::Pages => 2,
            DirType::Steps => 3,
        }
    }

    /// The role at a position of the fixed order.
    pub open spec fn at(position: int) -> DirType {
        if position == 0 {
            DirType::Features
        } else if position == 1 {
            DirType::Interactions
        } else if position == 2 {
            DirType::Pages
        } else {
            DirType::Steps
        }
    }

    /// The role's name as it is written in a report.
    pub open spec fn spec_label(self) -> Seq<char> {
        match self {
            DirType::Features => "Features"@,
            DirType::Interactions => "Interactions"@,
            DirType::Pages => "Pages"@,
            DirType::Steps => "Steps"@,
        }
    }

    /// The role's name as it is written in a report.
    pub fn label(&self) -> (s: &'static str)
        ensures
            s@ == self.spec_label(),
    {
        match self {
            DirType::Features => "Features",
            DirType::Interactions => "Interactions",
            DirType::Pages => "Pages",
            DirType::Steps => "Steps",
        }
    }

    /// The four roles, in the fixed order.
    pub fn all() -> (roles: Vec<DirType>)
        ensures
            roles@.len() == 4,
            forall|i: int| 0 <= i < 4 ==> roles@[i] == DirType::at(i),
    {
        vec![DirType::Features, DirType::Interactions, DirType::Pages, DirType::Steps]
    }
}

} // verus!
