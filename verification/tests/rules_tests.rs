use lint_apptester::rules::{
    get_log_instead_of_sout, get_no_assert_calls, get_no_locator_calls,
    get_platform_locator_methods, get_rules,
};
use lint_apptester::{Check, DirType, Rule, Rules};

fn qualifier() -> Option<String> {
    Some("com.app.Locator".to_string())
}

#[test]
fn log_instead_of_print_fails_on_a_console_print() {
    let rule = get_log_instead_of_sout();
    assert!(!rule.evaluate("public class X {\nSystem.out.println(\"x\");\n"));
}

#[test]
fn log_instead_of_print_passes_on_a_commented_print() {
    let rule = get_log_instead_of_sout();
    assert!(rule.evaluate("public class X {\n//System.out.println(\"x\");\n"));
    assert!(rule.evaluate("public class X {\n    // System.out.println(\"x\");\n}\n"));
}

#[test]
fn log_instead_of_print_ignores_the_header() {
    let rule = get_log_instead_of_sout();
    assert!(rule.evaluate("System.out.println(\"x\");\npublic class X {\n}\n"));
    assert!(rule.evaluate("System.out.println(\"x\");\n"));
    assert!(rule.evaluate(""));
}

#[test]
fn log_instead_of_print_looks_at_the_start_of_the_trimmed_line() {
    let rule = get_log_instead_of_sout();
    assert!(!rule.evaluate("public class X {\r\n\t\tSystem.out.print(1);\r\n}\r\n"));
    assert!(rule.evaluate("public class X {\nint x; System.out.println(1);\n}\n"));
    assert!(!rule.evaluate("public class X {\n}\npublic class Y {\nSystem.out.printf(\"\");"));
}

#[test]
fn the_declaration_must_start_the_trimmed_line() {
    let rule = get_log_instead_of_sout();
    assert!(rule.evaluate("final public class X {\nSystem.out.println(1);\n"));
    assert!(!rule.evaluate("   public class X {\nSystem.out.println(1);\n"));
    assert!(rule.evaluate("// public class X {\nSystem.out.println(1);\n"));
}

#[test]
fn no_assert_calls_fails_on_an_assertion_in_the_body() {
    let rule = get_no_assert_calls();
    assert!(!rule.evaluate("public class X {\n  assertEquals(1, 2);\n}\n"));
    assert!(!rule.evaluate("public class X {\n  Assert.assertTrue(x);\n}\n"));
    assert!(!rule.evaluate("public class X {\n  int y = 1; assert y > 0;\n}\n"));
}

#[test]
fn no_assert_calls_passes_without_one() {
    let rule = get_no_assert_calls();
    assert!(rule.evaluate("import static org.junit.Assert.assertTrue;\npublic class X {\n}\n"));
    assert!(rule.evaluate("public class X {\n  // assertTrue(x);\n}\n"));
    assert!(rule.evaluate("public class X {\n  Assert.that(x);\n}\n"));
    assert!(rule.evaluate(""));
}

#[test]
fn no_locator_calls_fails_on_the_qualifier_in_the_header() {
    let rule = get_no_locator_calls(qualifier());
    assert!(!rule.evaluate("com.app.Locator.find(\"id\");\npublic class X {\n"));
    assert!(!rule.evaluate("  com.app.Locator\n"));
}

#[test]
fn no_locator_calls_fails_closed_without_a_qualifier() {
    let rule = get_no_locator_calls(None);
    assert!(!rule.evaluate("com.app.Locator.find(\"id\");\npublic class X {\n"));
    assert!(!rule.evaluate("public class X {\n}\n"));
    assert!(!rule.evaluate(""));
    assert!(!rule.get_rule().is_configured());
    assert!(get_no_locator_calls(qualifier()).get_rule().is_configured());
}

#[test]
fn no_locator_calls_looks_at_the_header_only() {
    let rule = get_no_locator_calls(qualifier());
    assert!(rule.evaluate("import a.b;\npublic class X {\ncom.app.Locator.find(\"id\");\n}\n"));
    assert!(rule.evaluate("// com.app.Locator\npublic class X {\n"));
    assert!(rule.evaluate("//com.app.Locator\n"));
    assert!(rule.evaluate("import com.app.Locator;\npublic class X {\n"));
    assert!(rule.evaluate(""));
}

#[test]
fn no_locator_calls_with_an_empty_qualifier_fails_on_any_header_line() {
    let rule = get_no_locator_calls(Some(String::new()));
    assert!(!rule.evaluate("import a.b;\npublic class X {\n"));
    assert!(!rule.evaluate("\npublic class X {\n"));
    assert!(rule.evaluate("public class X {\nint x;\n"));
    assert!(rule.evaluate("// note\npublic class X {\n"));
}

#[test]
fn platform_locator_methods_fails_on_a_plain_factory_call() {
    let rule = get_platform_locator_methods();
    assert!(!rule.evaluate("public class X {\nLocator.find(\"id\")\n"));
}

#[test]
fn platform_locator_methods_passes_on_a_platform_call() {
    let rule = get_platform_locator_methods();
    assert!(rule.evaluate("public class X {\nLocator.findPlatform(\"id\")\n"));
    assert!(rule.evaluate("public class X {\nLocator.findChildren(\"id\")\n"));
    assert!(rule.evaluate("public class X {\n// Locator.find(\"id\")\n"));
    assert!(rule.evaluate("Locator.find(\"id\")\npublic class X {\n"));
    assert!(rule.evaluate("public class X {\nint x = 1;\n}\n"));
}

#[test]
fn platform_locator_methods_needs_every_line_to_comply() {
    let rule = get_platform_locator_methods();
    assert!(!rule
        .evaluate("public class X {\nLocator.findPlatform(\"a\");\nBy b = Locator.find(\"b\");\n}"));
    assert!(rule.evaluate("public class X {\nBy b = Locator.find(\"b\"); // Platform\n}"));
}

#[test]
fn the_catalog_holds_the_four_rules_in_order() {
    let rules = get_rules(qualifier());
    let names: Vec<&str> = rules.get_rules().iter().map(|r| r.get_name()).collect();
    assert_eq!(
        names,
        vec![
            "Log instead of sout",
            "No assert calls",
            "No locator calls",
            "Use platform Locator methods",
        ]
    );
    let all = rules.get_rules();
    assert_eq!(
        *all[0].get_dir_types(),
        vec![DirType::Interactions, DirType::Pages, DirType::Steps]
    );
    assert_eq!(*all[1].get_dir_types(), vec![DirType::Steps]);
    assert_eq!(*all[2].get_dir_types(), vec![DirType::Steps, DirType::Interactions]);
    assert_eq!(*all[3].get_dir_types(), vec![DirType::Pages]);
    assert!(matches!(all[0].get_rule(), Check::LogInsteadOfPrint));
    assert!(matches!(all[1].get_rule(), Check::NoAssertCalls));
    assert!(matches!(all[2].get_rule(), Check::NoLocatorCalls(Some(q)) if q == "com.app.Locator"));
    assert!(matches!(all[3].get_rule(), Check::PlatformLocatorMethods));
}

#[test]
fn the_catalog_keeps_a_missing_qualifier() {
    let rules = get_rules(None);
    assert!(matches!(rules.get_rules()[2].get_rule(), Check::NoLocatorCalls(None)));
    assert_eq!(rules.get_rules().len(), 4);
}

#[test]
fn rules_apply_to_their_roles_only() {
    let rule = get_no_locator_calls(qualifier());
    assert!(rule.applies_to(&DirType::Steps));
    assert!(rule.applies_to(&DirType::Interactions));
    assert!(!rule.applies_to(&DirType::Pages));
    assert!(!rule.applies_to(&DirType::Features));
}

#[test]
fn applicable_rules_keep_the_catalog_order() {
    let rules = get_rules(qualifier());
    let names = |role: DirType| -> Vec<String> {
        rules.applicable_to(&role).iter().map(|r| r.get_name().to_string()).collect()
    };
    assert_eq!(names(DirType::Features), Vec::<String>::new());
    assert_eq!(names(DirType::Interactions), vec!["Log instead of sout", "No locator calls"]);
    assert_eq!(names(DirType::Pages), vec!["Log instead of sout", "Use platform Locator methods"]);
    assert_eq!(
        names(DirType::Steps),
        vec!["Log instead of sout", "No assert calls", "No locator calls"]
    );
}

#[test]
fn a_collection_keeps_insertion_order() {
    let mut rules = Rules::init();
    assert!(rules.get_rules().is_empty());
    rules.add_rule(Rule::new("second", Check::NoAssertCalls, vec![DirType::Pages]));
    rules.add_rule(Rule::new("first", Check::LogInsteadOfPrint, vec![DirType::Pages]));
    let names: Vec<&str> = rules.get_rules().iter().map(|r| r.get_name()).collect();
    assert_eq!(names, vec!["second", "first"]);
}

#[test]
fn a_rule_keeps_what_it_was_made_of() {
    let rule = Rule::new("mine", Check::NoAssertCalls, vec![DirType::Features, DirType::Steps]);
    assert_eq!(rule.get_name(), "mine");
    assert!(matches!(rule.get_rule(), Check::NoAssertCalls));
    assert_eq!(*rule.get_dir_types(), vec![DirType::Features, DirType::Steps]);
}

#[test]
fn checks_evaluate_lines_as_they_evaluate_text() {
    let lines: Vec<Vec<char>> = vec![
        "public class X {".chars().collect(),
        "System.out.println(1);".chars().collect(),
    ];
    assert!(!Check::LogInsteadOfPrint.evaluate_lines(&lines));
    assert!(Check::NoAssertCalls.evaluate_lines(&lines));
    assert!(Check::LogInsteadOfPrint.evaluate_lines(&Vec::new()));
    assert!(!Check::NoLocatorCalls(None).evaluate_lines(&Vec::new()));
}
