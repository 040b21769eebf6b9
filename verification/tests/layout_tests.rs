use lint_apptester::layout::normalize_feature;
use lint_apptester::{Config, DirType, LayoutConfig, LayoutPresence, LintError, Project, Subdir};

fn args(items: &[&str]) -> Vec<String> {
    items.iter().map(|item| item.to_string()).collect()
}

fn full_config() -> LayoutConfig {
    LayoutConfig {
        features_path: Some("/src/test/resources/features/".to_string()),
        interactions_path: Some("/src/test/java/interactions/".to_string()),
        pages_path: Some("/src/test/java/pages/".to_string()),
        steps_path: Some("/src/test/java/steps/".to_string()),
    }
}

fn all_present() -> LayoutPresence {
    LayoutPresence { features: true, interactions: true, pages: true, steps: true }
}

#[test]
fn config_needs_a_feature() {
    let err = Config::build(args(&["prog"]), "/cwd".to_string()).unwrap_err();
    assert!(matches!(err, LintError::MissingFeature));
    assert_eq!(err.message(), "Didn't get a feature to test");
    let err = Config::build(args(&[]), "/cwd".to_string()).unwrap_err();
    assert!(matches!(err, LintError::MissingFeature));
}

#[test]
fn config_takes_the_working_directory_by_default() {
    let config = Config::build(args(&["prog", "Files"]), "/cwd".to_string()).unwrap();
    assert_eq!(config.get_feature(), "Files");
    assert_eq!(config.get_current_dir(), "/cwd");
}

#[test]
fn config_prefers_the_directory_given() {
    let config =
        Config::build(args(&["prog", "Files", "/elsewhere", "more"]), "/cwd".to_string()).unwrap();
    assert_eq!(config.get_feature(), "Files");
    assert_eq!(config.get_current_dir(), "/elsewhere");
}

#[test]
fn subdir_exists_or_names_the_missing_path() {
    let subdir = Subdir::new("/p/steps/files".to_string(), DirType::Steps, true).unwrap();
    assert_eq!(subdir.get_path(), "/p/steps/files");
    assert_eq!(*subdir.get_subdir_type(), DirType::Steps);
    let err = Subdir::new("/p/steps/files".to_string(), DirType::Steps, false).unwrap_err();
    assert!(matches!(&err, LintError::MissingPath(path) if path == "/p/steps/files"));
    assert_eq!(err.message(), "Could not locate /p/steps/files");
}

#[test]
fn feature_names_are_normalized_to_lowercase() {
    assert_eq!(normalize_feature("Files"), "files");
    assert_eq!(normalize_feature("LOGIN Flow"), "login flow");
    assert_eq!(normalize_feature("already"), "already");
    assert_eq!(normalize_feature("\u{c9}T\u{c9}"), "\u{e9}t\u{e9}");
}

#[test]
fn candidate_paths_join_root_segment_and_feature() {
    let config = full_config();
    assert_eq!(
        config.candidate_path(DirType::Pages, "/repo", "files"),
        Some("/repo/src/test/java/pages/files".to_string())
    );
    let partial = LayoutConfig { pages_path: None, ..full_config() };
    assert_eq!(partial.candidate_path(DirType::Pages, "/repo", "files"), None);
    assert_eq!(
        partial.candidate_path(DirType::Steps, "/repo", "files"),
        Some("/repo/src/test/java/steps/files".to_string())
    );
}

#[test]
fn a_complete_layout_resolves_to_one_subdirectory_per_role() {
    let project = Project::init("/repo", "Files", &full_config(), &all_present()).unwrap();
    assert_eq!(project.get_feature_being_tested(), "files");
    let subdirs = project.get_subdirs();
    assert_eq!(subdirs.len(), 4);
    let roles: Vec<DirType> = subdirs.iter().map(|s| *s.get_subdir_type()).collect();
    assert_eq!(
        roles,
        vec![DirType::Features, DirType::Interactions, DirType::Pages, DirType::Steps]
    );
    let paths: Vec<&str> = subdirs.iter().map(|s| s.get_path()).collect();
    assert_eq!(
        paths,
        vec![
            "/repo/src/test/resources/features/files",
            "/repo/src/test/java/interactions/files",
            "/repo/src/test/java/pages/files",
            "/repo/src/test/java/steps/files",
        ]
    );
}

#[test]
fn a_missing_subdirectory_fails_and_is_named() {
    let presence = LayoutPresence { pages: false, ..all_present() };
    let err = Project::init("/repo", "Files", &full_config(), &presence).unwrap_err();
    assert!(matches!(&err, LintError::MissingPath(p) if p == "/repo/src/test/java/pages/files"));
    assert_eq!(err.message(), "Could not locate /repo/src/test/java/pages/files");
}

#[test]
fn the_first_missing_subdirectory_is_the_one_reported() {
    let presence =
        LayoutPresence { features: true, interactions: false, pages: false, steps: false };
    let err = Project::init("/repo", "Files", &full_config(), &presence).unwrap_err();
    assert!(
        matches!(&err, LintError::MissingPath(p) if p == "/repo/src/test/java/interactions/files")
    );
    let none = LayoutPresence { features: false, interactions: false, pages: false, steps: false };
    let err = Project::init("/repo", "Files", &full_config(), &none).unwrap_err();
    assert!(
        matches!(&err, LintError::MissingPath(p) if p == "/repo/src/test/resources/features/files")
    );
}

#[test]
fn every_single_missing_role_fails() {
    for missing in [DirType::Features, DirType::Interactions, DirType::Pages, DirType::Steps] {
        let presence = LayoutPresence {
            features: missing != DirType::Features,
            interactions: missing != DirType::Interactions,
            pages: missing != DirType::Pages,
            steps: missing != DirType::Steps,
        };
        let expected = full_config().candidate_path(missing, "/r", "f").unwrap();
        let err = Project::init("/r", "F", &full_config(), &presence).unwrap_err();
        assert!(matches!(&err, LintError::MissingPath(p) if *p == expected));
    }
}

#[test]
fn a_role_without_a_segment_fails_before_later_roles() {
    let config = LayoutConfig { interactions_path: None, ..full_config() };
    let presence = LayoutPresence { pages: false, ..all_present() };
    let err = Project::init("/repo", "Files", &config, &presence).unwrap_err();
    assert!(matches!(err, LintError::MissingSegment(DirType::Interactions)));
    assert_eq!(err.message(), "environment variable not found");
    let presence = LayoutPresence { features: false, ..all_present() };
    let err = Project::init("/repo", "Files", &config, &presence).unwrap_err();
    assert!(
        matches!(&err, LintError::MissingPath(p) if p == "/repo/src/test/resources/features/files")
    );
}

#[test]
fn an_empty_feature_name_is_refused() {
    let err = Project::init("/repo", "", &full_config(), &all_present()).unwrap_err();
    assert!(matches!(err, LintError::EmptyFeature));
    assert_eq!(err.message(), "The feature name is empty");
    let err =
        Project::resolve("/repo", String::new(), &full_config(), &all_present()).unwrap_err();
    assert!(matches!(err, LintError::EmptyFeature));
}

#[test]
fn an_empty_feature_name_does_not_hide_a_missing_path() {
    let presence = LayoutPresence { pages: false, ..all_present() };
    let err = Project::init("/repo", "", &full_config(), &presence).unwrap_err();
    assert!(matches!(&err, LintError::MissingPath(p) if p == "/repo/src/test/java/pages/"));
    assert_eq!(err.message(), "Could not locate /repo/src/test/java/pages/");
    let none = LayoutPresence { features: false, interactions: false, pages: false, steps: false };
    let err = Project::resolve("/repo", String::new(), &full_config(), &none).unwrap_err();
    assert_eq!(err.message(), "Could not locate /repo/src/test/resources/features/");
    let config = LayoutConfig { features_path: None, ..full_config() };
    let err = Project::init("/repo", "", &config, &all_present()).unwrap_err();
    assert!(matches!(err, LintError::MissingSegment(DirType::Features)));
}

#[test]
fn the_message_of_a_missing_path_holds_the_path() {
    for feature in ["Files", "", "A b"] {
        let presence = LayoutPresence { steps: false, ..all_present() };
        let expected = format!("/repo/src/test/java/steps/{}", feature.to_lowercase());
        let err = Project::init("/repo", feature, &full_config(), &presence).unwrap_err();
        assert!(err.message().contains(&expected));
        assert_eq!(err.message(), format!("Could not locate {expected}"));
    }
}

#[test]
fn resolve_takes_the_name_as_it_is() {
    let project =
        Project::resolve("/repo", "Files".to_string(), &full_config(), &all_present()).unwrap();
    assert_eq!(project.get_feature_being_tested(), "Files");
    assert_eq!(project.get_subdirs()[3].get_path(), "/repo/src/test/java/steps/Files");
}

#[test]
fn presence_is_read_by_role() {
    let presence = LayoutPresence { features: true, interactions: false, pages: true, steps: false };
    assert!(presence.is_present(DirType::Features));
    assert!(!presence.is_present(DirType::Interactions));
    assert!(presence.is_present(DirType::Pages));
    assert!(!presence.is_present(DirType::Steps));
}

#[test]
fn roles_have_their_labels_and_order() {
    assert_eq!(DirType::Features.label(), "Features");
    assert_eq!(DirType::Interactions.label(), "Interactions");
    assert_eq!(DirType::Pages.label(), "Pages");
    assert_eq!(DirType::Steps.label(), "Steps");
    assert_eq!(
        DirType::all(),
        vec![DirType::Features, DirType::Interactions, DirType::Pages, DirType::Steps]
    );
}
