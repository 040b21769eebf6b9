use lint_apptester::report::{header_line, no_rules_line, result_line, status_label};
use lint_apptester::rules::get_rules;
use lint_apptester::{print_results, DirType, Rule, StatusMap, Subdir};

#[test]
fn labels_are_pass_and_fail() {
    assert_eq!(status_label(true), "PASS");
    assert_eq!(status_label(false), "FAIL");
}

#[test]
fn a_result_line_names_the_rule_and_its_label() {
    assert_eq!(result_line("No assert calls", "PASS"), "  - No assert calls: PASS");
    assert_eq!(result_line("x", "FAIL"), "  - x: FAIL");
    assert_eq!(result_line("", ""), "  - : ");
}

#[test]
fn a_header_names_the_role_and_the_path() {
    let subdir = Subdir::new("/repo/steps/files".to_string(), DirType::Steps, true).unwrap();
    assert_eq!(header_line(&subdir), "Steps (/repo/steps/files):");
    let subdir = Subdir::new(String::new(), DirType::Interactions, true).unwrap();
    assert_eq!(header_line(&subdir), "Interactions ():");
}

#[test]
fn the_line_for_no_rules() {
    assert_eq!(no_rules_line(), "  # No rules for this directory");
}

#[test]
fn results_follow_the_rules_in_order() {
    colored::control::set_override(false);
    let rules = get_rules(None);
    let listed: Vec<&Rule> = rules.get_rules().iter().collect();
    let mut statuses = StatusMap::new();
    statuses.insert("Log instead of sout", true);
    statuses.insert("No assert calls", false);
    statuses.insert("No locator calls", false);
    statuses.insert("Use platform Locator methods", true);
    statuses.insert("Unrelated", false);
    assert_eq!(
        print_results(&listed, &statuses),
        vec![
            "  - Log instead of sout: PASS",
            "  - No assert calls: FAIL",
            "  - No locator calls: FAIL",
            "  - Use platform Locator methods: PASS",
        ]
    );
    assert_eq!(print_results(&Vec::new(), &statuses), Vec::<String>::new());
}
