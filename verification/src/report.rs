//! The report of one subdirectory, line by line.

use crate::layout::{Subdir, SubdirView};
use crate::rule::Rule;
use crate::status::StatusMap;
use colored::Colorize;
use vstd::prelude::*;
use vstd::string::StringExecFns;

verus! {

/// The label of an outcome.
pub open spec fn status_text(passed: bool) -> Seq<char> {
    if passed {
        "PASS"@
    } else {
        "FAIL"@
    }
}

/// The terminal code that switches to the colour of an outcome: green for a
/// pass, red for a failure.
pub open spec fn status_code(passed: bool) -> Seq<char> {
    if passed {
        "\u{1b}[32m"@
    } else {
        "\u{1b}[31m"@
    }
}

/// The terminal code that switches colours off.
pub open spec fn reset_code() -> Seq<char> {
    "\u{1b}[0m"@
}

/// Whether `painted` is `text` as a terminal shows it in a colour: the text
/// alone where colours are off; the text between the colour's code and the
/// reset code where they are on; the text before the reset code where they
/// are switched off while the text is being painted.
pub open spec fn is_painted(painted: Seq<char>, text: Seq<char>, code: Seq<char>) -> bool {
    ||| painted == text
    ||| painted == code + text + reset_code()
    ||| painted == text + reset_code()
}

/// The line that reports a rule's outcome under a label.
pub open spec fn spec_result_line(name: Seq<char>, label: Seq<char>) -> Seq<char> {
    "  - "@ + name + ": "@ + label
}

/// Whether `line` reports the outcome of the rule `name`, with the label
/// plain or painted.
pub open spec fn is_result_line(line: Seq<char>, name: Seq<char>, passed: bool) -> bool {
    exists|label: Seq<char>|
        is_painted(label, status_text(passed), status_code(passed)) && line == #[trigger] spec_result_line(
            name,
            label,
        )
}

/// The line that heads a subdirectory's report: its role, and its path in
/// round brackets.
pub open spec fn spec_header_line(subdir: SubdirView) -> Seq<char> {
    subdir.role.spec_label() + " ("@ + subdir.path + "):"@
}

/// The line that stands for a subdirectory to which no rule applies.
pub open spec fn spec_no_rules_line() -> Seq<char> {
    "  # No rules for this directory"@
}

/// Calls `Colorize::green` of the crate colored on a text and formats the
/// result. The crate decides by the environment, or by an override, whether
/// colours are on, so the contract allows each form that its formatter can
/// write for a text that holds no escape character.
#[verifier::external_body]
fn paint_green(text: &str) -> (painted: String)
    requires
        forall|i: int| 0 <= i < text@.len() ==> text@[i] != '\u{1b}',
    ensures
        is_painted(painted@, text@, status_code(true)),
{
    text.green().to_string()
}

/// Calls `Colorize::red` of the crate colored on a text and formats the
/// result; the contract is that of `paint_green`, with the code for red.
#[verifier::external_body]
fn paint_red(text: &str) -> (painted: String)
    requires
        forall|i: int| 0 <= i < text@.len() ==> text@[i] != '\u{1b}',
    ensures
        is_painted(painted@, text@, status_code(false)),
{
    text.red().to_string()
}

/// The label of an outcome: `PASS` or `FAIL`.
pub fn status_label(passed: bool) -> (label: &'static str)
    ensures
        label@ == status_text(passed),
{
    if passed {
        "PASS"
    } else {
        "FAIL"
    }
}

/// The label of an outcome in its colour, as far as colours are on.
pub fn paint_status(passed: bool) -> (label: String)
    ensures
        is_painted(label@, status_text(passed), status_code(passed)),
{
    proof {
        reveal_strlit("PASS");
        reveal_strlit("FAIL");
    }
    if passed {
        paint_green(status_label(true))
    } else {
        paint_red(status_label(false))
    }
}

/// The line that reports a rule's outcome under a label.
pub fn result_line(name: &str, label: &str) -> (line: String)
    ensures
        line@ == spec_result_line(name@, label@),
{
    String::from_str("  - ").concat(name).concat(": ").concat(label)
}

/// The line that heads a subdirectory's report.
pub fn header_line(subdir: &Subdir) -> (line: String)
    ensures
        line@ == spec_header_line(subdir@),
{
    String::from_str(subdir.get_subdir_type().label()).concat(" (").concat(
        subdir.get_path(),
    ).concat("):")
}

/// The line that stands for a subdirectory to which no rule applies.
pub fn no_rules_line() -> (line: String)
    ensures
        line@ == spec_no_rules_line(),
{
    String::from_str("  # No rules for this directory")
}

/// The report lines of the rules, in their order: for each rule its name and
/// the label of the outcome that the map holds for that name. Every rule's
/// name must have an outcome.
pub fn print_results(rules: &Vec<&Rule>, rule_status_map: &StatusMap) -> (lines: Vec<String>)
    requires
        forall|i: int|
            0 <= i < rules@.len() ==> rule_status_map@.dom().contains((#[trigger] rules@[i])@.name),
    ensures
        lines@.len() == rules@.len(),
        forall|i: int|
            0 <= i < rules@.len() ==> is_result_line(
                (#[trigger] lines@[i])@,
                rules@[i]@.name,
                rule_status_map@[rules@[i]@.name],
            ),
{
    let mut lines: Vec<String> = Vec::new();
    let mut i: usize = 0;
    while i < rules.len()
        invariant
            i <= rules.len(),
            lines@.len() == i,
            forall|k: int|
                0 <= k < rules@.len() ==> rule_status_map@.dom().contains(
                    (#[trigger] rules@[k])@.name,
                ),
            forall|k: int|
                0 <= k < i ==> is_result_line(
                    (#[trigger] lines@[k])@,
                    rules@[k]@.name,
                    rule_status_map@[rules@[k]@.name],
                ),
        decreases rules.len() - i,
    {
        let rule = rules[i];
        let name = rule.get_name();
        let passed = rule_status_map.get(name).unwrap();
        let label = paint_status(passed);
        let line = result_line(name, label.as_str());
        lines.push(line);
        i += 1;
    }
    lines
}

} // verus!
