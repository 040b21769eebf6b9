//! The built-in rules.

use crate::roles::DirType;
use crate::rule::{Check, CheckView, Rule, RuleView, Rules};
use vstd::prelude::*;

verus! {

/// The body of a file logs instead of printing to the console. Applies to
/// interactions, pages and steps.
pub open spec fn log_instead_of_sout() -> RuleView {
    RuleView {
        name: "Log instead of sout"@,
        check: CheckView::LogInsteadOfPrint,
        roles: seq![DirType::Interactions, DirType::Pages, DirType::Steps],
    }
}

/// The body of a file holds no assertion call. Applies to steps.
pub open spec fn no_assert_calls() -> RuleView {
    RuleView {
        name: "No assert calls"@,
        check: CheckView::NoAssertCalls,
        roles: seq![DirType::Steps],
    }
}

/// The header of a file names nothing of the locator class, whose qualifier
/// is `locator_class_path`. Applies to steps and interactions.
pub open spec fn no_locator_calls(locator_class_path: Option<Seq<char>>) -> RuleView {
    RuleView {
        name: "No locator calls"@,
        check: CheckView::NoLocatorCalls(locator_class_path),
        roles: seq![DirType::Steps, DirType::Interactions],
    }
}

/// The body of a file invokes only the platform and children methods of the
/// locator factory. Applies to pages.
pub open spec fn platform_locator_methods() -> RuleView {
    RuleView {
        name: "Use platform Locator methods"@,
        check: CheckView::PlatformLocatorMethods,
        roles: seq![DirType::Pages],
    }
}

/// The built-in rules, in the order in which they are reported.
pub open spec fn catalog(locator_class_path: Option<Seq<char>>) -> Seq<RuleView> {
    seq![
        log_instead_of_sout(),
        no_assert_calls(),
        no_locator_calls(locator_class_path),
        platform_locator_methods(),
    ]
}

/// What an optional text stands for in contracts.
pub open spec fn optional_text(text: Option<String>) -> Option<Seq<char>> {
    match text {
        Some(text) => Some(text@),
        None => None,
    }
}

/// The rule that asks for logging in place of console prints.
pub fn get_log_instead_of_sout() -> (rule: Rule)
    ensures
        rule@ == log_instead_of_sout(),
{
    Rule::new(
        "Log instead of sout",
        Check::LogInsteadOfPrint,
        vec![DirType::Interactions, DirType::Pages, DirType::Steps],
    )
}

/// The rule that forbids assertion calls.
pub fn get_no_assert_calls() -> (rule: Rule)
    ensures
        rule@ == no_assert_calls(),
{
    let roles = vec![DirType::Steps];
    assert(roles@ =~= seq![DirType::Steps]);
    Rule::new("No assert calls", Check::NoAssertCalls, roles)
}

/// The rule that keeps the locator class out of a file's header. With no
/// qualifier configured the rule fails closed: no file complies.
pub fn get_no_locator_calls(locator_class_path: Option<String>) -> (rule: Rule)
    ensures
        rule@ == no_locator_calls(optional_text(locator_class_path)),
{
    Rule::new(
        "No locator calls",
        Check::NoLocatorCalls(locator_class_path),
        vec![DirType::Steps, DirType::Interactions],
    )
}

/// The rule that asks for the platform and children methods of the locator
/// factory.
pub fn get_platform_locator_methods() -> (rule: Rule)
    ensures
        rule@ == platform_locator_methods(),
{
    let roles = vec![DirType::Pages];
    assert(roles@ =~= seq![DirType::Pages]);
    Rule::new("Use platform Locator methods", Check::PlatformLocatorMethods, roles)
}

/// The built-in rules, with the qualifier of the locator class as it is
/// configured (`None` where it is not).
pub fn get_rules(locator_class_path: Option<String>) -> (rules: Rules)
    ensures
        rules@ == catalog(optional_text(locator_class_path)),
{
    let mut rules = Rules::init();
    rules.add_rule(get_log_instead_of_sout());
    rules.add_rule(get_no_assert_calls());
    rules.add_rule(get_no_locator_calls(locator_class_path));
    rules.add_rule(get_platform_locator_methods());
    assert(rules@ =~= catalog(optional_text(locator_class_path)));
    rules
}

} // verus!
