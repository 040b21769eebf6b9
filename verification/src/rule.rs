//! Rules: a named check on a file's text, and the roles it applies to.

use crate::roles::DirType;
use crate::text::{
    chars_of, contains, line_contains, line_starts_with, lines_view, split_trimmed_lines,
    starts_with, trimmed_lines,
};
use vstd::prelude::*;
use vstd::string::StringExecFns;

verus! {

/// The text with which the declaration of a top-level type begins.
pub open spec fn type_marker() -> Seq<char> {
    "public class"@
}

/// The text with which a comment line begins.
pub open spec fn comment_marker() -> Seq<char> {
    "//"@
}

/// The text with which a direct print to the console begins.
pub open spec fn print_call() -> Seq<char> {
    "System.out.print"@
}

/// The text of an assertion call.
pub open spec fn assert_call() -> Seq<char> {
    "assert"@
}

/// The text with which a locator factory is invoked.
pub open spec fn locator_factory() -> Seq<char> {
    "Locator."@
}

/// The qualifier of a locator method for platforms.
pub open spec fn platform_qualifier() -> Seq<char> {
    "Platform"@
}

/// The qualifier of a locator method for children.
pub open spec fn children_qualifier() -> Seq<char> {
    "Children"@
}

/// Whether a trimmed line declares a top-level type.
pub open spec fn is_declaration(line: Seq<char>) -> bool {
    starts_with(line, type_marker())
}

/// Whether a trimmed line is a comment.
pub open spec fn is_comment(line: Seq<char>) -> bool {
    starts_with(line, comment_marker())
}

/// Whether line `i` lies in the body of the file: the first declaration of a
/// top-level type is at line `i` or before it. The other lines are the
/// header.
pub open spec fn in_body(lines: Seq<Seq<char>>, i: int) -> bool {
    exists|j: int| 0 <= j <= i && j < lines.len() && #[trigger] is_declaration(lines[j])
}

/// A line lies in the body if and only if it declares a top-level type or
/// the line before it lies in the body.
pub proof fn lemma_in_body_step(lines: Seq<Seq<char>>, i: int)
    requires
        0 <= i < lines.len(),
    ensures
        in_body(lines, i) == (is_declaration(lines[i]) || (i > 0 && in_body(lines, i - 1))),
{
    if in_body(lines, i) {
        let j = choose|j: int| 0 <= j <= i && j < lines.len() && #[trigger] is_declaration(lines[j]);
        if j < i {
            assert(in_body(lines, i - 1));
        }
    }
    if i > 0 && in_body(lines, i - 1) {
        let j = choose|j: int|
            0 <= j <= i - 1 && j < lines.len() && #[trigger] is_declaration(lines[j]);
        assert(is_declaration(lines[j]));
    }
}

/// What a rule checks.
#[derive(Debug)]
pub enum Check {
    /// The body prints nothing to the console directly.
    LogInsteadOfPrint,
    /// The body holds no assertion call.
    NoAssertCalls,
    /// No line of the header begins with the qualifier of the locator class.
    /// Where no qualifier is configured, no file complies.
    NoLocatorCalls(Option<String>),
    /// Every line of the body that invokes a locator factory names a
    /// platform or children method.
    PlatformLocatorMethods,
}

/// What a `Check` stands for in contracts.
pub enum CheckView {
    LogInsteadOfPrint,
    NoAssertCalls,
    NoLocatorCalls(Option<Seq<char>>),
    PlatformLocatorMethods,
}

impl View for Check {
    type V = CheckView;

    open spec fn view(&self) -> CheckView {
        match self {
            Check::LogInsteadOfPrint => CheckView::LogInsteadOfPrint,
            Check::NoAssertCalls => CheckView::NoAssertCalls,
            Check::NoLocatorCalls(Some(qualifier)) => CheckView::NoLocatorCalls(Some(qualifier@)),
            Check::NoLocatorCalls(None) => CheckView::NoLocatorCalls(None),
            Check::PlatformLocatorMethods => CheckView::PlatformLocatorMethods,
        }
    }
}

impl CheckView {
    /// Whether the check has the configuration it needs. A check without it
    /// fails closed: no file complies.
    pub open spec fn configured(self) -> bool {
        self != CheckView::NoLocatorCalls(None)
    }

    /// Whether a trimmed line breaks the check, given whether the line lies
    /// in the body of its file. A comment line breaks none.
    pub open spec fn violated_by(self, line: Seq<char>, in_body: bool) -> bool {
        !is_comment(line) && match self {
            CheckView::LogInsteadOfPrint => in_body && starts_with(line, print_call()),
            CheckView::NoAssertCalls => in_body && contains(line, assert_call()),
            CheckView::NoLocatorCalls(qualifier) => !in_body && qualifier is Some && starts_with(
                line,
                qualifier->Some_0,
            ),
            CheckView::PlatformLocatorMethods => in_body && contains(line, locator_factory())
                && !contains(line, platform_qualifier()) && !contains(
                line,
                children_qualifier(),
            ),
        }
    }

    /// Whether the trimmed lines of a file comply: the check is configured,
    /// and no line breaks it.
    pub open spec fn holds_of(self, lines: Seq<Seq<char>>) -> bool {
        self.configured() && forall|i: int|
            0 <= i < lines.len() ==> !#[trigger] self.violated_by(lines[i], in_body(lines, i))
    }

    /// Whether a file's text complies.
    pub open spec fn compliant(self, content: Seq<char>) -> bool {
        self.holds_of(trimmed_lines(content))
    }
}

/// The texts that the checks look for, as characters.
struct Patterns {
    type_marker: Vec<char>,
    comment_marker: Vec<char>,
    print_call: Vec<char>,
    assert_call: Vec<char>,
    locator_factory: Vec<char>,
    platform_qualifier: Vec<char>,
    children_qualifier: Vec<char>,
    locator_qualifier: Vec<char>,
}

impl Patterns {
    spec fn wf(&self, check: CheckView) -> bool {
        &&& self.type_marker@ == type_marker()
        &&& self.comment_marker@ == comment_marker()
        &&& self.print_call@ == print_call()
        &&& self.assert_call@ == assert_call()
        &&& self.locator_factory@ == locator_factory()
        &&& self.platform_qualifier@ == platform_qualifier()
        &&& self.children_qualifier@ == children_qualifier()
        &&& check matches CheckView::NoLocatorCalls(Some(qualifier)) ==> self.locator_qualifier@
            == qualifier
    }

    fn new(check: &Check) -> (patterns: Patterns)
        ensures
            patterns.wf(check@),
    {
        let locator_qualifier = match check {
            Check::NoLocatorCalls(Some(qualifier)) => chars_of(qualifier.as_str()),
            _ => Vec::new(),
        };
        Patterns {
            type_marker: chars_of("public class"),
            comment_marker: chars_of("//"),
            print_call: chars_of("System.out.print"),
            assert_call: chars_of("assert"),
            locator_factory: chars_of("Locator."),
            platform_qualifier: chars_of("Platform"),
            children_qualifier: chars_of("Children"),
            locator_qualifier,
        }
    }
}

impl Check {
    /// Whether the check has the configuration it needs.
    pub fn is_configured(&self) -> (b: bool)
        ensures
            b == self@.configured(),
    {
        match self {
            Check::NoLocatorCalls(None) => false,
            _ => true,
        }
    }

    /// Tells whether a trimmed line breaks the check.
    fn line_violates(&self, line: &Vec<char>, in_body: bool, patterns: &Patterns) -> (b: bool)
        requires
            patterns.wf(self@),
        ensures
            b == self@.violated_by(line@, in_body),
    {
        if line_starts_with(line, &patterns.comment_marker) {
            return false;
        }
        match self {
            Check::LogInsteadOfPrint => in_body && line_starts_with(line, &patterns.print_call),
            Check::NoAssertCalls => in_body && line_contains(line, &patterns.assert_call),
            Check::NoLocatorCalls(qualifier) => !in_body && qualifier.is_some()
                && line_starts_with(line, &patterns.locator_qualifier),
            Check::PlatformLocatorMethods => in_body && line_contains(
                line,
                &patterns.locator_factory,
            ) && !line_contains(line, &patterns.platform_qualifier) && !line_contains(
                line,
                &patterns.children_qualifier,
            ),
        }
    }

    /// Evaluates the check on the trimmed lines of a file.
    pub fn evaluate_lines(&self, lines: &Vec<Vec<char>>) -> (ok: bool)
        ensures
            ok == self@.holds_of(lines_view(lines@)),
    {
        if !self.is_configured() {
            return false;
        }
        let patterns = Patterns::new(self);
        let ghost all = lines_view(lines@);
        let mut seen = false;
        let mut i: usize = 0;
        while i < lines.len()
            invariant
                i <= lines.len(),
                all == lines_view(lines@),
                patterns.wf(self@),
                seen == (i > 0 && in_body(all, i - 1)),
                forall|k: int|
                    0 <= k < i ==> !#[trigger] self@.violated_by(all[k], in_body(all, k)),
            decreases lines.len() - i,
        {
            let line = &lines[i];
            assert(all[i as int] == line@);
            if !seen && line_starts_with(line, &patterns.type_marker) {
                seen = true;
            }
            proof {
                lemma_in_body_step(all, i as int);
            }
            if self.line_violates(line, seen, &patterns) {
                assert(self@.violated_by(all[i as int], in_body(all, i as int)));
                return false;
            }
            i += 1;
        }
        true
    }

    /// Evaluates the check on a file's text.
    pub fn evaluate(&self, content: &str) -> (ok: bool)
        ensures
            ok == self@.compliant(content@),
    {
        let chars = chars_of(content);
        let lines = split_trimmed_lines(&chars);
        self.evaluate_lines(&lines)
    }
}

/// A named check, and the roles of the subdirectories it applies to.
#[derive(Debug)]
pub struct Rule {
    name: String,
    rule: Check,
    dir_types: Vec<DirType>,
}

/// What a `Rule` stands for in contracts.
pub struct RuleView {
    pub name: Seq<char>,
    pub check: CheckView,
    pub roles: Seq<DirType>,
}

impl View for Rule {
    type V = RuleView;

    closed spec fn view(&self) -> RuleView {
        RuleView { name: self.name@, check: self.rule@, roles: self.dir_types@ }
    }
}

impl RuleView {
    /// Whether the rule applies to subdirectories of a role.
    pub open spec fn applies_to(self, role: DirType) -> bool {
        self.roles.contains(role)
    }
}

/// The rules of a sequence that apply to a role, as a predicate.
pub open spec fn applies(role: DirType) -> spec_fn(RuleView) -> bool {
    |rule: RuleView| rule.applies_to(role)
}

/// The rules that apply to a role, in their order.
pub open spec fn applicable(rules: Seq<RuleView>, role: DirType) -> Seq<RuleView> {
    rules.filter(applies(role))
}

/// What a vector of rules stands for.
pub open spec fn rule_views(rules: Seq<Rule>) -> Seq<RuleView> {
    rules.map_values(|rule: Rule| rule@)
}

/// What a vector of borrowed rules stands for.
pub open spec fn borrowed_views(rules: Seq<&Rule>) -> Seq<RuleView> {
    rules.map_values(|rule: &Rule| rule@)
}

impl Rule {
    /// A rule with a name, a check and the roles it applies to, of which
    /// there is at least one.
    pub fn new(name: &str, rule: Check, dir_types: Vec<DirType>) -> (r: Rule)
        requires
            dir_types@.len() > 0,
        ensures
            r@ == (RuleView { name: name@, check: rule@, roles: dir_types@ }),
    {
        Rule { name: String::from_str(name), rule, dir_types }
    }

    /// The rule's name.
    pub fn get_name(&self) -> (name: &str)
        ensures
            name@ == self@.name,
    {
        self.name.as_str()
    }

    /// The rule's check.
    pub fn get_rule(&self) -> (check: &Check)
        ensures
            check@ == self@.check,
    {
        &self.rule
    }

    /// The roles the rule applies to.
    pub fn get_dir_types(&self) -> (roles: &Vec<DirType>)
        ensures
            roles@ == self@.roles,
    {
        &self.dir_types
    }

    /// Tells whether the rule applies to subdirectories of a role.
    pub fn applies_to(&self, role: &DirType) -> (b: bool)
        ensures
            b == self@.applies_to(*role),
    {
        let mut i: usize = 0;
        while i < self.dir_types.len()
            invariant
                i <= self.dir_types.len(),
                forall|k: int| 0 <= k < i ==> self.dir_types@[k] != *role,
            decreases self.dir_types.len() - i,
        {
            if self.dir_types[i] == *role {
                return true;
            }
            i += 1;
        }
        false
    }

    /// Evaluates the rule on a file's text: whether the text complies.
    pub fn evaluate(&self, content: &str) -> (ok: bool)
        ensures
            ok == self@.check.compliant(content@),
    {
        self.rule.evaluate(content)
    }
}

/// An ordered collection of rules; the order is that of insertion.
#[derive(Debug)]
pub struct Rules {
    rules: Vec<Rule>,
}

impl View for Rules {
    type V = Seq<RuleView>;

    closed spec fn view(&self) -> Seq<RuleView> {
        rule_views(self.rules@)
    }
}

impl Rules {
    /// A collection without rules.
    pub fn init() -> (rules: Rules)
        ensures
            rules@ == Seq::<RuleView>::empty(),
    {
        let rules = Rules { rules: Vec::new() };
        assert(rules@ =~= Seq::<RuleView>::empty());
        rules
    }

    /// Adds a rule after those already there.
    pub fn add_rule(&mut self, rule: Rule)
        ensures
            final(self)@ == old(self)@.push(rule@),
    {
        self.rules.push(rule);
        assert(self@ =~= old(self)@.push(rule@));
    }

    /// The rules, in their order.
    pub fn get_rules(&self) -> (rules: &Vec<Rule>)
        ensures
            rule_views(rules@) == self@,
    {
        &self.rules
    }

    /// The rules that apply to a role, in their order.
    pub fn applicable_to(&self, role: &DirType) -> (found: Vec<&Rule>)
        ensures
            borrowed_views(found@) == applicable(self@, *role),
    {
        let mut found: Vec<&Rule> = Vec::new();
        let mut i: usize = 0;
        proof {
            reveal(Seq::filter);
            assert(self@.take(0) =~= Seq::<RuleView>::empty());
            assert(borrowed_views(found@) =~= Seq::<RuleView>::empty());
        }
        while i < self.rules.len()
            invariant
                i <= self.rules.len(),
                self@ == rule_views(self.rules@),
                borrowed_views(found@) == applicable(self@.take(i as int), *role),
            decreases self.rules.len() - i,
        {
            let rule = &self.rules[i];
            let ghost before = borrowed_views(found@);
            proof {
                reveal(Seq::filter);
                assert(self@.take(i + 1).drop_last() =~= self@.take(i as int));
                assert(self@.take(i + 1).last() == rule@);
            }
            if rule.applies_to(role) {
                found.push(rule);
                assert(borrowed_views(found@) =~= before.push(rule@));
            }
            i += 1;
        }
        assert(self@.take(i as int) =~= self@);
        found
    }
}

} // verus!
