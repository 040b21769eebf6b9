//! The scan of one subdirectory: which files are looked at, which rules are
//! evaluated on them, and what the outcome of each rule is.

use crate::layout::{Subdir, SubdirView};
use crate::report::{
    header_line, is_result_line, no_rules_line, print_results, spec_header_line,
    spec_no_rules_line,
};
use crate::rule::{applicable, borrowed_views, Rule, RuleView, Rules};
use crate::status::StatusMap;
use crate::text::{chars_of, ends_with, line_ends_with};
use vstd::prelude::*;
use vstd::string::StringExecFns;

verus! {

/// A file of a subdirectory: its name, without any directory, and its text.
#[derive(Debug)]
pub struct SourceFile {
    pub name: String,
    pub content: String,
}

/// Whether a file name has an extension, given with its dot: the name ends
/// with it, and something stands before the dot.
pub open spec fn has_extension(name: Seq<char>, dotted: Seq<char>) -> bool {
    name.len() > dotted.len() && ends_with(name, dotted)
}

/// Whether a file is looked at: its extension is `feature`, `java` or `js`.
pub open spec fn eligible(name: Seq<char>) -> bool {
    ||| has_extension(name, ".feature"@)
    ||| has_extension(name, ".java"@)
    ||| has_extension(name, ".js"@)
}

/// The files that are looked at, as a predicate.
pub open spec fn is_eligible() -> spec_fn(SourceFile) -> bool {
    |file: SourceFile| eligible(file.name@)
}

/// The rules that lack their configuration, as a predicate.
pub open spec fn is_unconfigured() -> spec_fn(RuleView) -> bool {
    |rule: RuleView| !rule.check.configured()
}

/// Whether a rule fails on a file: the file is looked at, and its text does
/// not comply.
pub open spec fn fails(rule: RuleView, file: SourceFile) -> bool {
    eligible(file.name@) && !rule.check.compliant(file.content@)
}

/// Whether a rule name passes: no rule of that name fails on any file.
pub open spec fn name_passes(rules: Seq<RuleView>, name: Seq<char>, files: Seq<SourceFile>) -> bool {
    forall|k: int, j: int|
        0 <= k < rules.len() && 0 <= j < files.len() && rules[k].name == name ==> !#[trigger] fails(
            rules[k],
            files[j],
        )
}

/// Whether a rule of the sequence has the name.
pub open spec fn has_rule_named(rules: Seq<RuleView>, name: Seq<char>) -> bool {
    exists|k: int| 0 <= k < rules.len() && (#[trigger] rules[k]).name == name
}

/// The outcome of each rule name after a scan of the files.
pub open spec fn outcomes(rules: Seq<RuleView>, files: Seq<SourceFile>) -> Map<Seq<char>, bool> {
    Map::new(
        |name: Seq<char>| has_rule_named(rules, name),
        |name: Seq<char>| name_passes(rules, name, files),
    )
}

/// The diagnostic of a rule that lacks the qualifier of the locator class.
pub open spec fn spec_missing_qualifier() -> Seq<char> {
    "Could not find variable LOCATOR_CLASS_PATH"@
}

/// The number of diagnostics of a scan: one for each evaluation of a rule
/// that lacks its configuration, so one per such rule and file looked at.
pub open spec fn diagnostic_count(rules: Seq<RuleView>, files: Seq<SourceFile>) -> nat {
    files.filter(is_eligible()).len() * rules.filter(is_unconfigured()).len()
}

/// What the scan of a subdirectory reports.
pub struct SubdirReport {
    /// The lines for the output stream: the header, then one line per rule,
    /// or the line that says that no rule applies.
    pub lines: Vec<String>,
    /// The lines for the error stream.
    pub diagnostics: Vec<String>,
    /// The outcome of each rule, by name.
    pub outcomes: StatusMap,
}

impl SubdirReport {
    /// Whether the report is that of a subdirectory, given the rules that
    /// apply to it and its files.
    pub open spec fn describes(
        &self,
        subdir: SubdirView,
        rules: Seq<RuleView>,
        files: Seq<SourceFile>,
    ) -> bool {
        &&& self.lines@.len() >= 2
        &&& self.lines@[0]@ == spec_header_line(subdir)
        &&& self.outcomes@ == outcomes(rules, files)
        &&& rules.len() == 0 ==> {
            &&& self.lines@.len() == 2
            &&& self.lines@[1]@ == spec_no_rules_line()
            &&& self.outcomes@ == Map::<Seq<char>, bool>::empty()
            &&& self.diagnostics@.len() == 0
        }
        &&& rules.len() > 0 ==> {
            &&& self.lines@.len() == 1 + rules.len()
            &&& forall|i: int|
                0 <= i < rules.len() ==> is_result_line(
                    (#[trigger] self.lines@[1 + i])@,
                    rules[i].name,
                    name_passes(rules, rules[i].name, files),
                )
            &&& self.diagnostics@.len() == diagnostic_count(rules, files)
            &&& forall|i: int|
                0 <= i < self.diagnostics@.len() ==> (#[trigger] self.diagnostics@[i])@
                    == spec_missing_qualifier()
        }
    }
}

/// Tells whether a file is looked at, by its name.
pub fn is_eligible_file(name: &str) -> (b: bool)
    ensures
        b == eligible(name@),
{
    let chars = chars_of(name);
    let feature = chars_of(".feature");
    let java = chars_of(".java");
    let js = chars_of(".js");
    (chars.len() > feature.len() && line_ends_with(&chars, &feature)) || (chars.len() > java.len()
        && line_ends_with(&chars, &java)) || (chars.len() > js.len() && line_ends_with(
        &chars,
        &js,
    ))
}

/// Tells whether the scan of a subdirectory looks at its files at all: it
/// does if and only if some rule applies to the subdirectory's role.
pub fn reads_files(subdir: &Subdir, rules: &Rules) -> (b: bool)
    ensures
        b == (applicable(rules@, subdir@.role).len() > 0),
{
    let found = rules.applicable_to(subdir.get_subdir_type());
    assert(borrowed_views(found@).len() == found@.len());
    found.len() > 0
}

/// Whether the pair of file `j` and rule `k` has been examined when the scan
/// stands before rule `nrules` of file `nfiles`.
spec fn examined(j: int, k: int, nfiles: int, nrules: int) -> bool {
    j < nfiles || (j == nfiles && k < nrules)
}

/// Whether no rule of a name has failed among the pairs examined so far.
spec fn passes_within(
    rules: Seq<RuleView>,
    name: Seq<char>,
    files: Seq<SourceFile>,
    nfiles: int,
    nrules: int,
) -> bool {
    forall|k: int, j: int|
        0 <= k < rules.len() && 0 <= j < files.len() && rules[k].name == name && examined(
            j,
            k,
            nfiles,
            nrules,
        ) ==> !#[trigger] fails(rules[k], files[j])
}

/// The outcome of each rule name when the scan stands before rule `nrules`
/// of file `nfiles`.
spec fn outcomes_within(
    rules: Seq<RuleView>,
    files: Seq<SourceFile>,
    nfiles: int,
    nrules: int,
) -> Map<Seq<char>, bool> {
    Map::new(
        |name: Seq<char>| has_rule_named(rules, name),
        |name: Seq<char>| passes_within(rules, name, files, nfiles, nrules),
    )
}

/// The outcomes before anything has been examined: every rule's name passes.
spec fn untouched(rules: Seq<RuleView>) -> Map<Seq<char>, bool> {
    Map::new(|name: Seq<char>| has_rule_named(rules, name), |name: Seq<char>| true)
}

/// The evaluation of one rule on one file changes the outcome of the rule's
/// name to a failure if the rule fails, and nothing else.
proof fn lemma_step_rule(rules: Seq<RuleView>, files: Seq<SourceFile>, j: int, k: int)
    requires
        0 <= j < files.len(),
        0 <= k < rules.len(),
    ensures
        outcomes_within(rules, files, j, k + 1) == (if fails(rules[k], files[j]) {
            outcomes_within(rules, files, j, k).insert(rules[k].name, false)
        } else {
            outcomes_within(rules, files, j, k)
        }),
{
    let before = outcomes_within(rules, files, j, k);
    let after = outcomes_within(rules, files, j, k + 1);
    let failed = fails(rules[k], files[j]);
    assert(has_rule_named(rules, rules[k].name));
    assert forall|name: Seq<char>| has_rule_named(rules, name) implies passes_within(
        rules,
        name,
        files,
        j,
        k + 1,
    ) == (passes_within(rules, name, files, j, k) && !(failed && rules[k].name == name)) by {
        if passes_within(rules, name, files, j, k + 1) {
            assert forall|k2: int, j2: int|
                0 <= k2 < rules.len() && 0 <= j2 < files.len() && rules[k2].name == name
                    && examined(j2, k2, j, k) implies !#[trigger] fails(rules[k2], files[j2]) by {
                assert(examined(j2, k2, j, k + 1));
            }
            if rules[k].name == name {
                assert(examined(j, k, j, k + 1));
                assert(!fails(rules[k], files[j]));
            }
        }
        if passes_within(rules, name, files, j, k) && !(failed && rules[k].name == name) {
            assert forall|k2: int, j2: int|
                0 <= k2 < rules.len() && 0 <= j2 < files.len() && rules[k2].name == name
                    && examined(j2, k2, j, k + 1) implies !#[trigger] fails(
                rules[k2],
                files[j2],
            ) by {
                if !(j2 == j && k2 == k) {
                    assert(examined(j2, k2, j, k));
                }
            }
        }
    }
    if failed {
        assert(after =~= before.insert(rules[k].name, false));
    } else {
        assert(after =~= before);
    }
}

/// Once every rule has been evaluated on a file, the scan stands before the
/// next file.
proof fn lemma_next_file(rules: Seq<RuleView>, files: Seq<SourceFile>, j: int)
    requires
        0 <= j < files.len(),
    ensures
        outcomes_within(rules, files, j, rules.len() as int) == outcomes_within(
            rules,
            files,
            j + 1,
            0,
        ),
{
    let n = rules.len() as int;
    assert forall|name: Seq<char>| has_rule_named(rules, name) implies passes_within(
        rules,
        name,
        files,
        j,
        n,
    ) == passes_within(rules, name, files, j + 1, 0) by {
        if passes_within(rules, name, files, j, n) {
            assert forall|k2: int, j2: int|
                0 <= k2 < rules.len() && 0 <= j2 < files.len() && rules[k2].name == name
                    && examined(j2, k2, j + 1, 0) implies !#[trigger] fails(rules[k2], files[j2]) by {
                assert(examined(j2, k2, j, n));
            }
        }
        if passes_within(rules, name, files, j + 1, 0) {
            assert forall|k2: int, j2: int|
                0 <= k2 < rules.len() && 0 <= j2 < files.len() && rules[k2].name == name
                    && examined(j2, k2, j, n) implies !#[trigger] fails(rules[k2], files[j2]) by {
                assert(examined(j2, k2, j + 1, 0));
            }
        }
    }
    assert(outcomes_within(rules, files, j, n) =~= outcomes_within(rules, files, j + 1, 0));
}

/// A file that is not looked at changes no outcome.
proof fn lemma_skip_file(rules: Seq<RuleView>, files: Seq<SourceFile>, j: int)
    requires
        0 <= j < files.len(),
        !eligible(files[j].name@),
    ensures
        outcomes_within(rules, files, j, 0) == outcomes_within(rules, files, j + 1, 0),
{
    assert forall|name: Seq<char>| has_rule_named(rules, name) implies passes_within(
        rules,
        name,
        files,
        j,
        0,
    ) == passes_within(rules, name, files, j + 1, 0) by {
        if passes_within(rules, name, files, j, 0) {
            assert forall|k2: int, j2: int|
                0 <= k2 < rules.len() && 0 <= j2 < files.len() && rules[k2].name == name
                    && examined(j2, k2, j + 1, 0) implies !#[trigger] fails(rules[k2], files[j2]) by {
                if j2 < j {
                    assert(examined(j2, k2, j, 0));
                }
            }
        }
        if passes_within(rules, name, files, j + 1, 0) {
            assert forall|k2: int, j2: int|
                0 <= k2 < rules.len() && 0 <= j2 < files.len() && rules[k2].name == name
                    && examined(j2, k2, j, 0) implies !#[trigger] fails(rules[k2], files[j2]) by {
                assert(examined(j2, k2, j + 1, 0));
            }
        }
    }
    assert(outcomes_within(rules, files, j, 0) =~= outcomes_within(rules, files, j + 1, 0));
}

/// At the end of the scan the outcomes are those of all the files.
proof fn lemma_scan_done(rules: Seq<RuleView>, files: Seq<SourceFile>)
    ensures
        outcomes_within(rules, files, files.len() as int, 0) == outcomes(rules, files),
{
    let n = files.len() as int;
    assert forall|name: Seq<char>| has_rule_named(rules, name) implies passes_within(
        rules,
        name,
        files,
        n,
        0,
    ) == name_passes(rules, name, files) by {
        if passes_within(rules, name, files, n, 0) {
            assert forall|k2: int, j2: int|
                0 <= k2 < rules.len() && 0 <= j2 < files.len() && rules[k2].name
                    == name implies !#[trigger] fails(rules[k2], files[j2]) by {
                assert(examined(j2, k2, n, 0));
            }
        }
    }
    assert(outcomes_within(rules, files, n, 0) =~= outcomes(rules, files));
}

/// Before the scan every rule's name passes.
proof fn lemma_scan_start(rules: Seq<RuleView>, files: Seq<SourceFile>)
    ensures
        outcomes_within(rules, files, 0, 0) == untouched(rules),
{
    assert(outcomes_within(rules, files, 0, 0) =~= untouched(rules));
}

/// The map in which every rule's name has the outcome `true`.
fn initial_statuses(rules: &Vec<&Rule>) -> (map: StatusMap)
    ensures
        map@ == untouched(borrowed_views(rules@)),
{
    let ghost all = borrowed_views(rules@);
    let mut map = StatusMap::new();
    let mut i: usize = 0;
    while i < rules.len()
        invariant
            i <= rules.len(),
            all == borrowed_views(rules@),
            forall|name: Seq<char>|
                map@.dom().contains(name) <==> has_rule_named(all.take(i as int), name),
            forall|name: Seq<char>| map@.dom().contains(name) ==> map@[name],
        decreases rules.len() - i,
    {
        let name = rules[i].get_name();
        let ghost before = map@;
        map.insert(name, true);
        proof {
            assert(all[i as int].name == name@);
            assert forall|n: Seq<char>| map@.dom().contains(n) <==> has_rule_named(
                all.take(i + 1),
                n,
            ) by {
                if has_rule_named(all.take(i + 1), n) {
                    let k = choose|k: int|
                        0 <= k < all.take(i + 1).len() && (#[trigger] all.take(i + 1)[k]).name == n;
                    if k < i {
                        assert(all.take(i as int)[k].name == n);
                    }
                }
                if has_rule_named(all.take(i as int), n) {
                    let k = choose|k: int|
                        0 <= k < all.take(i as int).len() && (#[trigger] all.take(i as int)[k]).name
                            == n;
                    assert(all.take(i + 1)[k].name == n);
                }
                assert(all.take(i + 1)[i as int].name == name@);
            }
        }
        i += 1;
    }
    proof {
        assert(all.take(i as int) =~= all);
        assert(map@ =~= untouched(all));
    }
    map
}

/// Scans a subdirectory. The rules that apply to the subdirectory's role are
/// evaluated on each of `files` that is looked at; a rule name passes if and
/// only if no rule of that name fails on any such file. Where no rule
/// applies, no file is evaluated and the report says so.
pub fn process_subdir(subdir: &Subdir, rules: &Rules, files: &Vec<SourceFile>) -> (report:
    SubdirReport)
    ensures
        report.describes(subdir@, applicable(rules@, subdir@.role), files@),
{
    let found = rules.applicable_to(subdir.get_subdir_type());
    let ghost all = borrowed_views(found@);
    let mut lines: Vec<String> = Vec::new();
    lines.push(header_line(subdir));
    let mut diagnostics: Vec<String> = Vec::new();
    if found.len() == 0 {
        lines.push(no_rules_line());
        let statuses = StatusMap::new();
        proof {
            assert(statuses@ =~= outcomes(all, files@));
        }
        return SubdirReport { lines, diagnostics, outcomes: statuses };
    }
    let mut statuses = initial_statuses(&found);
    let mut j: usize = 0;
    proof {
        lemma_scan_start(all, files@);
        reveal(Seq::filter);
        assert(files@.take(0) =~= Seq::<SourceFile>::empty());
        assert(files@.take(0).filter(is_eligible()).len() == 0);
    }
    while j < files.len()
        invariant
            j <= files.len(),
            all == borrowed_views(found@),
            statuses@ == outcomes_within(all, files@, j as int, 0),
            diagnostics@.len() == diagnostic_count(all, files@.take(j as int)),
            forall|i: int|
                0 <= i < diagnostics@.len() ==> (#[trigger] diagnostics@[i])@
                    == spec_missing_qualifier(),
        decreases files.len() - j,
    {
        let file = &files[j];
        proof {
            reveal(Seq::filter);
            assert(files@.take(j + 1).drop_last() =~= files@.take(j as int));
            assert(files@.take(j + 1).last() == files@[j as int]);
        }
        if is_eligible_file(file.name.as_str()) {
            let ghost base = diagnostics@.len();
            let mut k: usize = 0;
            proof {
                assert(all.take(0) =~= Seq::<RuleView>::empty());
            }
            while k < found.len()
                invariant
                    k <= found.len(),
                    j < files.len(),
                    file == &files[j as int],
                    eligible(file.name@),
                    all == borrowed_views(found@),
                    statuses@ == outcomes_within(all, files@, j as int, k as int),
                    diagnostics@.len() == base + all.take(k as int).filter(is_unconfigured()).len(),
                    forall|i: int|
                        0 <= i < diagnostics@.len() ==> (#[trigger] diagnostics@[i])@
                            == spec_missing_qualifier(),
                decreases found.len() - k,
            {
                let rule = found[k];
                proof {
                    reveal(Seq::filter);
                    assert(all.take(k + 1).drop_last() =~= all.take(k as int));
                    assert(all.take(k + 1).last() == rule@);
                    lemma_step_rule(all, files@, j as int, k as int);
                }
                if !rule.get_rule().is_configured() {
                    diagnostics.push(String::from_str("Could not find variable LOCATOR_CLASS_PATH"));
                }
                if !rule.evaluate(file.content.as_str()) {
                    statuses.insert(rule.get_name(), false);
                }
                k += 1;
            }
            proof {
                assert(all.take(k as int) =~= all);
                lemma_next_file(all, files@, j as int);
                let e = files@.take(j as int).filter(is_eligible()).len();
                let u = all.filter(is_unconfigured()).len();
                assert((e + 1) * u == e * u + u) by (nonlinear_arith);
            }
        } else {
            proof {
                lemma_skip_file(all, files@, j as int);
            }
        }
        j += 1;
    }
    proof {
        assert(files@.take(j as int) =~= files@);
        lemma_scan_done(all, files@);
        assert forall|i: int| 0 <= i < found@.len() implies statuses@.dom().contains(
            (#[trigger] found@[i])@.name,
        ) by {
            assert(all[i].name == found@[i]@.name);
        }
    }
    let mut results = print_results(&found, &statuses);
    lines.append(&mut results);
    SubdirReport { lines, diagnostics, outcomes: statuses }
}

/// An outcome only ever moves from pass to failure: a rule name that fails
/// on some files fails on them with any further files, whatever these hold.
pub proof fn lemma_outcome_monotonic(
    rules: Seq<RuleView>,
    name: Seq<char>,
    files: Seq<SourceFile>,
    more: Seq<SourceFile>,
)
    requires
        !name_passes(rules, name, files),
    ensures
        !name_passes(rules, name, files + more),
        has_rule_named(rules, name) ==> outcomes(rules, files + more)[name] == false,
{
    let (k, j) = choose|k: int, j: int|
        0 <= k < rules.len() && 0 <= j < files.len() && rules[k].name == name && #[trigger] fails(
            rules[k],
            files[j],
        );
    assert((files + more)[j] == files[j]);
    assert(fails(rules[k], (files + more)[j]));
}

/// Filtering twice is filtering once.
proof fn lemma_eligible_twice(files: Seq<SourceFile>)
    ensures
        files.filter(is_eligible()).filter(is_eligible()) == files.filter(is_eligible()),
    decreases files.len(),
{
    reveal(Seq::filter);
    if files.len() > 0 {
        let rest = files.drop_last();
        lemma_eligible_twice(rest);
        if is_eligible()(files.last()) {
            let kept = rest.filter(is_eligible()).push(files.last());
            assert(kept.drop_last() =~= rest.filter(is_eligible()));
            assert(kept.last() == files.last());
        }
    }
}

/// Files that are not looked at count for nothing: the outcomes and the
/// diagnostics of a scan are those of the scan without them.
pub proof fn lemma_ineligible_files_ignored(rules: Seq<RuleView>, files: Seq<SourceFile>)
    ensures
        outcomes(rules, files) == outcomes(rules, files.filter(is_eligible())),
        diagnostic_count(rules, files) == diagnostic_count(rules, files.filter(is_eligible())),
{
    let kept = files.filter(is_eligible());
    broadcast use vstd::seq_lib::group_filter_ensures;
    lemma_eligible_twice(files);
    assert forall|name: Seq<char>| has_rule_named(rules, name) implies name_passes(
        rules,
        name,
        files,
    ) == name_passes(rules, name, kept) by {
        if name_passes(rules, name, files) {
            assert forall|k: int, j: int|
                0 <= k < rules.len() && 0 <= j < kept.len() && rules[k].name
                    == name implies !#[trigger] fails(rules[k], kept[j]) by {
                assert(kept.contains(kept[j]));
                files.lemma_filter_contains_rev(is_eligible(), kept[j]);
                let i = choose|i: int| 0 <= i < files.len() && files[i] == kept[j];
                assert(!fails(rules[k], files[i]));
            }
        }
        if name_passes(rules, name, kept) {
            assert forall|k: int, j: int|
                0 <= k < rules.len() && 0 <= j < files.len() && rules[k].name
                    == name implies !#[trigger] fails(rules[k], files[j]) by {
                if eligible(files[j].name@) {
                    assert(is_eligible()(files[j]));
                    assert(kept.contains(files[j]));
                    let i = choose|i: int| 0 <= i < kept.len() && kept[i] == files[j];
                    assert(!fails(rules[k], kept[i]));
                }
            }
        }
    }
    assert(outcomes(rules, files) =~= outcomes(rules, kept));
}

} // verus!
