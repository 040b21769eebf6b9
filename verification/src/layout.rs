//! The layout of a project: the run's configuration, and the resolution of a
//! feature's four role-tagged subdirectories.

use crate::error::{LintError, LintErrorView};
use crate::roles::DirType;
use vstd::prelude::*;
use vstd::string::StringExecFns;

verus! {

/// What `str::to_lowercase` returns for a text, by the Unicode case mapping.
pub uninterp spec fn lowercase_of(text: Seq<char>) -> Seq<char>;

/// Calls `str::to_lowercase`. The result is the lowercase form of the text
/// as std defines it; the contract gives that form a name and says no more.
#[verifier::external_body]
fn to_lowercase(text: &str) -> (lower: String)
    ensures
        lower@ == lowercase_of(text@),
{
    text.to_lowercase()
}

/// The normalized form of a feature name: its lowercase form.
pub fn normalize_feature(feature: &str) -> (normalized: String)
    ensures
        normalized@ == lowercase_of(feature@),
{
    to_lowercase(feature)
}

/// The path of a feature's subdirectory: the project root, the path segment
/// configured for the role, and the normalized feature name, one after the
/// other with nothing in between.
pub open spec fn subdir_path(root: Seq<char>, segment: Seq<char>, feature: Seq<char>) -> Seq<
    char,
> {
    root + segment + feature
}

/// The command line of a run: the feature to test and the directory to start
/// from.
#[derive(Debug)]
pub struct Config {
    current_dir: String,
    feature: String,
}

/// What a `Config` stands for in contracts.
pub struct ConfigView {
    pub current_dir: Seq<char>,
    pub feature: Seq<char>,
}

impl View for Config {
    type V = ConfigView;

    closed spec fn view(&self) -> ConfigView {
        ConfigView { current_dir: self.current_dir@, feature: self.feature@ }
    }
}

impl Config {
    /// Reads the command line. `args[0]` is the program's name, `args[1]` the
    /// feature and `args[2]`, where given, the directory to start from, which
    /// otherwise is `working_dir`. Fails if and only if no feature is given.
    pub fn build(args: Vec<String>, working_dir: String) -> (r: Result<Config, LintError>)
        ensures
            args@.len() < 2 <==> r is Err,
            r is Err ==> r->Err_0@ == LintErrorView::MissingFeature,
            r is Ok ==> r->Ok_0@.feature == args@[1]@,
            r is Ok ==> r->Ok_0@.current_dir == (if args@.len() >= 3 {
                args@[2]@
            } else {
                working_dir@
            }),
    {
        if args.len() < 2 {
            return Err(LintError::MissingFeature);
        }
        let feature = args[1].clone();
        let current_dir = if args.len() >= 3 {
            args[2].clone()
        } else {
            working_dir
        };
        Ok(Config { current_dir, feature })
    }

    /// The directory to start from.
    pub fn get_current_dir(&self) -> (dir: &str)
        ensures
            dir@ == self@.current_dir,
    {
        self.current_dir.as_str()
    }

    /// The feature to test, as it was given.
    pub fn get_feature(&self) -> (feature: &str)
        ensures
            feature@ == self@.feature,
    {
        self.feature.as_str()
    }
}

/// One subdirectory of a feature: where it is, and what it is for.
#[derive(Debug)]
pub struct Subdir {
    path: String,
    subdir_type: DirType,
}

/// What a `Subdir` stands for in contracts.
pub struct SubdirView {
    pub path: Seq<char>,
    pub role: DirType,
}

impl View for Subdir {
    type V = SubdirView;

    closed spec fn view(&self) -> SubdirView {
        SubdirView { path: self.path@, role: self.subdir_type }
    }
}

impl Subdir {
    /// A subdirectory at `subdir_path_string`, where `exists` tells whether
    /// that path was found on disk. Fails, naming the path, if and only if it
    /// was not.
    pub fn new(subdir_path_string: String, subdir_type: DirType, exists: bool) -> (r: Result<
        Subdir,
        LintError,
    >)
        ensures
            exists <==> r is Ok,
            r is Ok ==> r->Ok_0@ == (SubdirView { path: subdir_path_string@, role: subdir_type }),
            r is Err ==> r->Err_0@ == LintErrorView::MissingPath(subdir_path_string@),
    {
        if exists {
            Ok(Subdir { path: subdir_path_string, subdir_type })
        } else {
            Err(LintError::MissingPath(subdir_path_string))
        }
    }

    /// Where the subdirectory is.
    pub fn get_path(&self) -> (path: &str)
        ensures
            path@ == self@.path,
    {
        self.path.as_str()
    }

    /// What the subdirectory is for.
    pub fn get_subdir_type(&self) -> (role: &DirType)
        ensures
            *role == self@.role,
    {
        &self.subdir_type
    }
}

/// The path segment configured for each role; `None` where none is
/// configured.
#[derive(Debug)]
pub struct LayoutConfig {
    pub features_path: Option<String>,
    pub interactions_path: Option<String>,
    pub pages_path: Option<String>,
    pub steps_path: Option<String>,
}

impl LayoutConfig {
    /// The segment configured for a role.
    pub open spec fn segment(&self, role: DirType) -> Option<Seq<char>> {
        let configured = match role {
            DirType::Features => self.features_path,
            DirType::Interactions => self.interactions_path,
            DirType::Pages => self.pages_path,
            DirType::Steps => self.steps_path,
        };
        match configured {
            Some(segment) => Some(segment@),
            None => None,
        }
    }

    /// Whether a segment is configured for every role.
    pub open spec fn complete(&self) -> bool {
        forall|i: int| 0 <= i < 4 ==> (#[trigger] self.segment(DirType::at(i))) is Some
    }

    /// The path at which the subdirectory of a role is looked for: `None`
    /// where no segment is configured for the role.
    pub fn candidate_path(&self, role: DirType, project_root: &str, feature: &str) -> (path:
        Option<String>)
        ensures
            self.segment(role) is Some <==> path is Some,
            path is Some ==> path->Some_0@ == subdir_path(
                project_root@,
                self.segment(role)->Some_0,
                feature@,
            ),
    {
        let configured = match role {
            DirType::Features => &self.features_path,
            DirType::Interactions => &self.interactions_path,
            DirType::Pages => &self.pages_path,
            DirType::Steps => &self.steps_path,
        };
        match configured {
            Some(segment) => Some(
                String::from_str(project_root).concat(segment.as_str()).concat(feature),
            ),
            None => None,
        }
    }
}

/// For each role, whether the path at which its subdirectory is looked for
/// exists.
#[derive(Clone, Copy, Debug)]
pub struct LayoutPresence {
    pub features: bool,
    pub interactions: bool,
    pub pages: bool,
    pub steps: bool,
}

impl LayoutPresence {
    /// Whether the subdirectory of a role exists.
    pub open spec fn present(&self, role: DirType) -> bool {
        match role {
            DirType::Features => self.features,
            DirType::Interactions => self.interactions,
            DirType::Pages => self.pages,
            DirType::Steps => self.steps,
        }
    }

    /// Whether the subdirectory of every role exists.
    pub open spec fn complete(&self) -> bool {
        self.features && self.interactions && self.pages && self.steps
    }

    /// The first role, in the fixed order, whose subdirectory does not
    /// exist (the last role where all exist).
    pub open spec fn first_missing(&self) -> DirType {
        if !self.features {
            DirType::Features
        } else if !self.interactions {
            DirType::Interactions
        } else if !self.pages {
            DirType::Pages
        } else {
            DirType::Steps
        }
    }

    /// Whether the subdirectory of a role exists.
    pub fn is_present(&self, role: DirType) -> (found: bool)
        ensures
            found == self.present(role),
    {
        match role {
            DirType::Features => self.features,
            DirType::Interactions => self.interactions,
            DirType::Pages => self.pages,
            DirType::Steps => self.steps,
        }
    }
}

/// What stops the resolution of one role's subdirectory, if anything does:
/// no segment is configured for it, or the path looked for does not exist.
pub open spec fn role_failure(
    root: Seq<char>,
    feature: Seq<char>,
    config: LayoutConfig,
    presence: LayoutPresence,
    role: DirType,
) -> Option<LintErrorView> {
    match config.segment(role) {
        None => Some(LintErrorView::MissingSegment(role)),
        Some(segment) => if presence.present(role) {
            None
        } else {
            Some(LintErrorView::MissingPath(subdir_path(root, segment, feature)))
        },
    }
}

/// The failure of the first role, from position `from` on in the fixed order,
/// whose subdirectory cannot be resolved.
pub open spec fn first_failure(
    root: Seq<char>,
    feature: Seq<char>,
    config: LayoutConfig,
    presence: LayoutPresence,
    from: int,
) -> Option<LintErrorView>
    decreases 4 - from,
{
    if from < 0 || from >= 4 {
        None
    } else {
        match role_failure(root, feature, config, presence, DirType::at(from)) {
            Some(failure) => Some(failure),
            None => first_failure(root, feature, config, presence, from + 1),
        }
    }
}

/// What stops the resolution of a layout, if anything does: the first role,
/// in the fixed order, that cannot be resolved; or else, where every role
/// resolves, a feature name that is empty.
pub open spec fn resolution_failure(
    root: Seq<char>,
    feature: Seq<char>,
    config: LayoutConfig,
    presence: LayoutPresence,
) -> Option<LintErrorView> {
    match first_failure(root, feature, config, presence, 0) {
        Some(failure) => Some(failure),
        None => if feature.len() == 0 {
            Some(LintErrorView::EmptyFeature)
        } else {
            None
        },
    }
}

/// The path whose absence stops the resolution where a segment is
/// configured for every role: that of the first role, in the fixed order,
/// whose subdirectory is missing.
pub open spec fn first_missing_path(
    root: Seq<char>,
    feature: Seq<char>,
    config: LayoutConfig,
    presence: LayoutPresence,
) -> Seq<char> {
    subdir_path(root, config.segment(presence.first_missing())->Some_0, feature)
}

/// With a feature name that is not empty, a segment configured for every
/// role and every subdirectory in place, nothing stops the resolution.
pub proof fn lemma_complete_layout_resolves(
    root: Seq<char>,
    feature: Seq<char>,
    config: LayoutConfig,
    presence: LayoutPresence,
)
    requires
        feature.len() > 0,
        config.complete(),
        presence.complete(),
    ensures
        resolution_failure(root, feature, config, presence) is None,
{
    reveal_with_fuel(first_failure, 5);
    assert(config.segment(DirType::at(0)) is Some);
    assert(config.segment(DirType::at(1)) is Some);
    assert(config.segment(DirType::at(2)) is Some);
    assert(config.segment(DirType::at(3)) is Some);
}

/// Where the subdirectory of some role is missing, the resolution fails,
/// whatever the feature's name. With a segment configured for every role,
/// the failure names the path of the first subdirectory, in the fixed
/// order, that is missing, and its message holds that path.
pub proof fn lemma_missing_subdir_fails(
    root: Seq<char>,
    feature: Seq<char>,
    config: LayoutConfig,
    presence: LayoutPresence,
)
    requires
        !presence.complete(),
    ensures
        resolution_failure(root, feature, config, presence) is Some,
        !presence.present(presence.first_missing()),
        config.complete() ==> resolution_failure(root, feature, config, presence) == Some(
            LintErrorView::MissingPath(first_missing_path(root, feature, config, presence)),
        ),
        config.complete() ==> resolution_failure(root, feature, config, presence)->Some_0.message()
            == "Could not locate "@ + first_missing_path(root, feature, config, presence),
{
    reveal_with_fuel(first_failure, 5);
    if config.complete() {
        assert(config.segment(DirType::at(0)) is Some);
        assert(config.segment(DirType::at(1)) is Some);
        assert(config.segment(DirType::at(2)) is Some);
        assert(config.segment(DirType::at(3)) is Some);
    }
}

/// A well-formed layout holds exactly one subdirectory per role: that of a
/// role stands at the role's position, and nowhere else.
pub proof fn lemma_one_subdir_per_role(layout: ProjectView, role: DirType)
    requires
        layout.wf(),
    ensures
        layout.subdirs[role.position()].role == role,
        forall|i: int|
            0 <= i < layout.subdirs.len() && (#[trigger] layout.subdirs[i]).role == role ==> i
                == role.position(),
{
    assert(DirType::at(role.position()) == role);
    assert forall|i: int|
        0 <= i < layout.subdirs.len() && (#[trigger] layout.subdirs[i]).role == role implies i
        == role.position() by {
        assert(layout.subdirs[i].role == DirType::at(i));
    }
}

/// The resolved layout of one feature: its normalized name and one
/// subdirectory per role.
#[derive(Debug)]
pub struct Project {
    feature_being_tested: String,
    features_subdir: Subdir,
    interactions_subdir: Subdir,
    pages_subdir: Subdir,
    steps_subdir: Subdir,
}

/// What a `Project` stands for in contracts: the feature's normalized name,
/// and its subdirectories in the fixed order.
pub struct ProjectView {
    pub feature: Seq<char>,
    pub subdirs: Seq<SubdirView>,
}

impl View for Project {
    type V = ProjectView;

    closed spec fn view(&self) -> ProjectView {
        ProjectView {
            feature: self.feature_being_tested@,
            subdirs: seq![
                self.features_subdir@,
                self.interactions_subdir@,
                self.pages_subdir@,
                self.steps_subdir@,
            ],
        }
    }
}

impl ProjectView {
    /// The layout's invariant: the feature's name is not empty, and there is
    /// exactly one subdirectory per role, in the fixed order.
    pub open spec fn wf(self) -> bool {
        &&& self.feature.len() > 0
        &&& self.subdirs.len() == 4
        &&& forall|i: int| 0 <= i < 4 ==> (#[trigger] self.subdirs[i]).role == DirType::at(i)
    }

    /// Whether the layout is the one that a root, a normalized feature name
    /// and a configuration describe.
    pub open spec fn describes(
        self,
        root: Seq<char>,
        feature: Seq<char>,
        config: LayoutConfig,
    ) -> bool {
        &&& self.feature == feature
        &&& self.subdirs.len() == 4
        &&& forall|i: int|
            0 <= i < 4 ==> {
                &&& config.segment(DirType::at(i)) is Some
                &&& #[trigger] self.subdirs[i] == (SubdirView {
                    path: subdir_path(root, config.segment(DirType::at(i))->Some_0, feature),
                    role: DirType::at(i),
                })
            }
    }
}

impl Project {
    /// Resolves the layout of a feature: normalizes its name to lowercase and
    /// resolves the subdirectory of each role, as `resolve` does.
    pub fn init(
        project_root: &str,
        feature_being_tested: &str,
        config: &LayoutConfig,
        presence: &LayoutPresence,
    ) -> (r: Result<Project, LintError>)
        ensures
            resolution_failure(
                project_root@,
                lowercase_of(feature_being_tested@),
                *config,
                *presence,
            ) is None <==> r is Ok,
            lowercase_of(feature_being_tested@).len() > 0 && config.complete()
                && presence.complete() ==> r is Ok,
            !presence.complete() ==> r is Err,
            config.complete() && !presence.complete() ==> r->Err_0@ == LintErrorView::MissingPath(
                first_missing_path(
                    project_root@,
                    lowercase_of(feature_being_tested@),
                    *config,
                    *presence,
                ),
            ),
            r is Ok ==> r->Ok_0@.wf() && r->Ok_0@.describes(
                project_root@,
                lowercase_of(feature_being_tested@),
                *config,
            ),
            r is Err ==> Some(r->Err_0@) == resolution_failure(
                project_root@,
                lowercase_of(feature_being_tested@),
                *config,
                *presence,
            ),
    {
        let normalized = normalize_feature(feature_being_tested);
        Project::resolve(project_root, normalized, config, presence)
    }

    /// Resolves the layout of a feature whose name is already normalized.
    /// Succeeds if and only if, for every role, a segment is configured and
    /// the subdirectory's path exists, and the name is not empty; the layout
    /// then holds the four subdirectories in the fixed order. Where a role
    /// cannot be resolved, the error is that of the first such role in that
    /// order, whatever the name: it names the missing path. An empty name is
    /// refused only where every role resolves.
    pub fn resolve(
        project_root: &str,
        feature: String,
        config: &LayoutConfig,
        presence: &LayoutPresence,
    ) -> (r: Result<Project, LintError>)
        ensures
            resolution_failure(project_root@, feature@, *config, *presence) is None <==> r is Ok,
            feature@.len() > 0 && config.complete() && presence.complete() ==> r is Ok,
            !presence.complete() ==> r is Err,
            config.complete() && !presence.complete() ==> r->Err_0@ == LintErrorView::MissingPath(
                first_missing_path(project_root@, feature@, *config, *presence),
            ),
            r is Ok ==> r->Ok_0@.wf() && r->Ok_0@.describes(project_root@, feature@, *config),
            r is Err ==> Some(r->Err_0@) == resolution_failure(
                project_root@,
                feature@,
                *config,
                *presence,
            ),
    {
        proof {
            if feature@.len() > 0 && config.complete() && presence.complete() {
                lemma_complete_layout_resolves(project_root@, feature@, *config, *presence);
            }
            if !presence.complete() {
                lemma_missing_subdir_fails(project_root@, feature@, *config, *presence);
            }
        }
        proof {
            reveal_with_fuel(first_failure, 5);
        }
        let features_subdir = match Project::resolve_role(
            project_root,
            &feature,
            config,
            presence,
            DirType::Features,
        ) {
            Ok(subdir) => subdir,
            Err(e) => return Err(e),
        };
        let interactions_subdir = match Project::resolve_role(
            project_root,
            &feature,
            config,
            presence,
            DirType::Interactions,
        ) {
            Ok(subdir) => subdir,
            Err(e) => return Err(e),
        };
        let pages_subdir = match Project::resolve_role(
            project_root,
            &feature,
            config,
            presence,
            DirType::Pages,
        ) {
            Ok(subdir) => subdir,
            Err(e) => return Err(e),
        };
        let steps_subdir = match Project::resolve_role(
            project_root,
            &feature,
            config,
            presence,
            DirType::Steps,
        ) {
            Ok(subdir) => subdir,
            Err(e) => return Err(e),
        };
        if feature.as_str().unicode_len() == 0 {
            return Err(LintError::EmptyFeature);
        }
        Ok(
            Project {
                feature_being_tested: feature,
                features_subdir,
                interactions_subdir,
                pages_subdir,
                steps_subdir,
            },
        )
    }

    /// Resolves the subdirectory of one role.
    fn resolve_role(
        project_root: &str,
        feature: &String,
        config: &LayoutConfig,
        presence: &LayoutPresence,
        role: DirType,
    ) -> (r: Result<Subdir, LintError>)
        ensures
            role_failure(project_root@, feature@, *config, *presence, role) is None <==> r is Ok,
            r is Ok ==> r->Ok_0@ == (SubdirView {
                path: subdir_path(project_root@, config.segment(role)->Some_0, feature@),
                role,
            }),
            r is Err ==> Some(r->Err_0@) == role_failure(
                project_root@,
                feature@,
                *config,
                *presence,
                role,
            ),
    {
        match config.candidate_path(role, project_root, feature.as_str()) {
            None => Err(LintError::MissingSegment(role)),
            Some(path) => Subdir::new(path, role, presence.is_present(role)),
        }
    }

    /// The feature's normalized name.
    pub fn get_feature_being_tested(&self) -> (feature: &str)
        ensures
            feature@ == self@.feature,
    {
        self.feature_being_tested.as_str()
    }

    /// The four subdirectories, in the fixed order.
    pub fn get_subdirs(&self) -> (subdirs: Vec<&Subdir>)
        ensures
            subdirs@.len() == self@.subdirs.len(),
            forall|i: int| 0 <= i < subdirs@.len() ==> (#[trigger] subdirs@[i])@ == self@.subdirs[i],
    {
        vec![
            &self.features_subdir,
            &self.interactions_subdir,
            &self.pages_subdir,
            &self.steps_subdir,
        ]
    }
}

} // verus!
