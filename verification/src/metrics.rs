//! The sample recorder's rules: what a line of input must look like, how
//! the values of a sample are ordered, and how a sample is written down.

use crate::text::chars_of;
use vstd::prelude::*;
use vstd::string::{StrSliceExecFns, StringExecFns};

verus! {

/// Why a line of input is refused.
#[derive(Clone, Copy, Debug, PartialEq, Eq, Structural)]
pub enum MetricsError {
    /// No path for the recording was given on the command line.
    MissingOutputPath,
    /// The recording would replace a file that is already there.
    OutputExists,
    /// The remote end knows of no session.
    SessionNotStarted,
    /// The line holds no space between a feature and a stage.
    MissingSeparator,
    /// The line holds more than one space.
    ExtraSeparator,
    /// The stage is neither `start` nor `stop`.
    UnknownStage,
}

impl MetricsError {
    /// The text that describes the refusal to a person.
    pub open spec fn spec_message(self) -> Seq<char> {
        match self {
            MetricsError::MissingOutputPath => "Argument for output file path required"@,
            MetricsError::OutputExists => "File already exists"@,
            MetricsError::SessionNotStarted => "Session not started"@,
            MetricsError::MissingSeparator => "Cannot split input into feature and stage"@,
            MetricsError::ExtraSeparator => "Input must be of the format FEATURE STAGE"@,
            MetricsError::UnknownStage => "Stage must be either 'start' or 'stop'"@,
        }
    }

    /// The text that describes the refusal to a person.
    pub fn message(&self) -> (text: &'static str)
        ensures
            text@ == self.spec_message(),
    {
        match self {
            MetricsError::MissingOutputPath => "Argument for output file path required",
            MetricsError::OutputExists => "File already exists",
            MetricsError::SessionNotStarted => "Session not started",
            MetricsError::MissingSeparator => "Cannot split input into feature and stage",
            MetricsError::ExtraSeparator => "Input must be of the format FEATURE STAGE",
            MetricsError::UnknownStage => "Stage must be either 'start' or 'stop'",
        }
    }
}

/// The path of the recording: the first argument after the program's name.
/// Fails if and only if there is none.
pub fn output_path(args: &Vec<String>) -> (r: Result<String, MetricsError>)
    ensures
        args@.len() < 2 <==> r is Err,
        r is Err ==> r->Err_0 == MetricsError::MissingOutputPath,
        r is Ok ==> r->Ok_0@ == args@[1]@,
{
    if args.len() < 2 {
        Err(MetricsError::MissingOutputPath)
    } else {
        Ok(args[1].clone())
    }
}

/// A recording never replaces a file: fails if and only if one `exists` at
/// its path.
pub fn check_output_is_new(exists: bool) -> (r: Result<(), MetricsError>)
    ensures
        exists <==> r is Err,
        r is Err ==> r->Err_0 == MetricsError::OutputExists,
{
    if exists {
        Err(MetricsError::OutputExists)
    } else {
        Ok(())
    }
}

/// The session to measure: the first of those that the remote end lists.
/// Fails if and only if it lists none.
pub fn first_session(sessions: &Vec<String>) -> (r: Result<String, MetricsError>)
    ensures
        sessions@.len() == 0 <==> r is Err,
        r is Err ==> r->Err_0 == MetricsError::SessionNotStarted,
        r is Ok ==> r->Ok_0@ == sessions@[0]@,
{
    if sessions.len() == 0 {
        Err(MetricsError::SessionNotStarted)
    } else {
        Ok(sessions[0].clone())
    }
}

/// The address at which the remote end lists its sessions.
pub fn sessions_url(client_url: &str) -> (url: String)
    ensures
        url@ == client_url@ + "/sessions"@,
{
    String::from_str(client_url).concat("/sessions")
}

/// The address at which a session reports its use of memory.
pub fn performance_url(client_url: &str, session_id: &str) -> (url: String)
    ensures
        url@ == client_url@ + "/session/"@ + session_id@ + "/appium/getPerformanceData"@,
{
    String::from_str(client_url).concat("/session/").concat(session_id).concat(
        "/appium/getPerformanceData",
    )
}

/// The request for a package's use of memory.
pub fn performance_request(package_name: &str) -> (body: String)
    ensures
        body@ == "{\"packageName\":\""@ + package_name@ + "\",\"dataType\":\"memoryinfo\"}"@,
{
    String::from_str("{\"packageName\":\"").concat(package_name).concat(
        "\",\"dataType\":\"memoryinfo\"}",
    )
}

/// The number of characters from index `from` up to the next space, or up
/// to the end of `s` where no space follows.
pub open spec fn word_len(s: Seq<char>, from: int) -> nat
    decreases s.len() - from,
{
    if 0 <= from < s.len() && s[from] != ' ' {
        1 + word_len(s, from + 1)
    } else {
        0
    }
}

/// What a line of input holds: the feature before the first space and the
/// stage after it, or why the line is refused. The stage holds no further
/// space and is `start` or `stop`.
pub open spec fn parsed_line(line: Seq<char>) -> Result<(Seq<char>, Seq<char>), MetricsError> {
    let at = word_len(line, 0) as int;
    if at >= line.len() {
        Err(MetricsError::MissingSeparator)
    } else if at + 1 + word_len(line, at + 1) < line.len() {
        Err(MetricsError::ExtraSeparator)
    } else {
        let stage = line.subrange(at + 1, line.len() as int);
        if stage != "start"@ && stage != "stop"@ {
            Err(MetricsError::UnknownStage)
        } else {
            Ok((line.subrange(0, at), stage))
        }
    }
}

/// One line of input: a feature and the stage of its measurement.
#[derive(Debug)]
pub struct Sample {
    pub feature: String,
    pub stage: String,
}

/// What the result of reading a line stands for in contracts.
pub open spec fn sample_view(r: Result<Sample, MetricsError>) -> Result<
    (Seq<char>, Seq<char>),
    MetricsError,
> {
    match r {
        Ok(sample) => Ok((sample.feature@, sample.stage@)),
        Err(e) => Err(e),
    }
}

/// The index of the next space in `line` from `from` on, or the length of
/// `line` where no space follows.
fn next_space(line: &Vec<char>, from: usize) -> (at: usize)
    requires
        from <= line@.len(),
    ensures
        at == from + word_len(line@, from as int),
        from <= at <= line@.len(),
{
    let mut at: usize = from;
    while at < line.len() && line[at] != ' '
        invariant
            from <= at <= line.len(),
            word_len(line@, from as int) == (at - from) + word_len(line@, at as int),
        decreases line.len() - at,
    {
        at += 1;
    }
    at
}

/// Reads a line of input.
pub fn parse_input(line: &str) -> (r: Result<Sample, MetricsError>)
    ensures
        sample_view(r) == parsed_line(line@),
{
    let chars = chars_of(line);
    let n = chars.len();
    let at = next_space(&chars, 0);
    if at >= n {
        return Err(MetricsError::MissingSeparator);
    }
    let end = next_space(&chars, at + 1);
    if end < n {
        return Err(MetricsError::ExtraSeparator);
    }
    let stage = String::from_str(line.substring_char(at + 1, n));
    if stage != String::from_str("start") && stage != String::from_str("stop") {
        return Err(MetricsError::UnknownStage);
    }
    let feature = String::from_str(line.substring_char(0, at));
    Ok(Sample { feature, stage })
}

/// Whether `a` comes before `b` in the order of strings: at the first index
/// where they differ `a` has the smaller character, or `a` ends there and
/// `b` goes on. The comparison starts at index `from`.
pub open spec fn lex_less_from(a: Seq<char>, b: Seq<char>, from: int) -> bool
    decreases a.len() - from,
{
    if from < 0 || from >= b.len() {
        false
    } else if from >= a.len() {
        true
    } else if a[from] != b[from] {
        a[from] < b[from]
    } else {
        lex_less_from(a, b, from + 1)
    }
}

/// Whether `a` comes before `b` in the order of strings.
pub open spec fn lex_less(a: Seq<char>, b: Seq<char>) -> bool {
    lex_less_from(a, b, 0)
}

/// Two strings that agree before `from`, neither of which comes before the
/// other from there on, are equal.
proof fn lemma_lex_total(a: Seq<char>, b: Seq<char>, from: int)
    requires
        0 <= from <= a.len(),
        from <= b.len(),
        a.subrange(0, from) == b.subrange(0, from),
        !lex_less_from(a, b, from),
        !lex_less_from(b, a, from),
    ensures
        a == b,
    decreases a.len() - from,
{
    if from >= a.len() || from >= b.len() {
        assert(a.len() == b.len());
        assert(a =~= a.subrange(0, from));
        assert(b =~= b.subrange(0, from));
    } else {
        assert(a[from] == b[from]);
        assert(a.subrange(0, from + 1) =~= a.subrange(0, from).push(a[from]));
        assert(b.subrange(0, from + 1) =~= b.subrange(0, from).push(b[from]));
        lemma_lex_total(a, b, from + 1);
    }
}

/// The order of strings is transitive.
proof fn lemma_lex_transitive(a: Seq<char>, b: Seq<char>, c: Seq<char>, from: int)
    requires
        0 <= from,
        lex_less_from(a, b, from),
        lex_less_from(b, c, from),
    ensures
        lex_less_from(a, c, from),
    decreases a.len() - from,
{
    if from < a.len() && a[from] == b[from] && b[from] == c[from] {
        lemma_lex_transitive(a, b, c, from + 1);
    }
}

/// No string comes before itself.
proof fn lemma_lex_irreflexive(a: Seq<char>, from: int)
    requires
        0 <= from,
    ensures
        !lex_less_from(a, a, from),
    decreases a.len() - from,
{
    if from < a.len() {
        lemma_lex_irreflexive(a, from + 1);
    }
}

/// Tells whether one character comes before another.
fn char_less(x: char, y: char) -> (less: bool)
    ensures
        less == (x < y),
{
    x < y
}

/// Of two strings one comes before the other, or they are equal.
proof fn lemma_lex_trichotomy(a: Seq<char>, b: Seq<char>)
    ensures
        lex_less(a, b) || a == b || lex_less(b, a),
{
    if !lex_less(a, b) && !lex_less(b, a) {
        assert(a.subrange(0, 0) =~= b.subrange(0, 0));
        lemma_lex_total(a, b, 0);
    }
}

/// Tells whether `a` comes before `b` in the order of strings.
pub fn string_less(a: &str, b: &str) -> (less: bool)
    ensures
        less == lex_less(a@, b@),
{
    let left = chars_of(a);
    let right = chars_of(b);
    let mut i: usize = 0;
    while i < left.len() && i < right.len()
        invariant
            i <= left.len(),
            i <= right.len(),
            left@ == a@,
            right@ == b@,
            lex_less(a@, b@) == lex_less_from(a@, b@, i as int),
        decreases left.len() - i,
    {
        if left[i] != right[i] {
            return char_less(left[i], right[i]);
        }
        i += 1;
    }
    i < right.len()
}

/// One key with its value.
#[derive(Debug)]
struct Pair {
    key: String,
    value: String,
}

/// A map from names to values that keeps its names in the order of strings.
#[derive(Debug)]
pub struct ValMap {
    entries: Vec<Pair>,
}

/// Whether the keys of the entries strictly increase.
spec fn increasing(entries: Seq<Pair>) -> bool {
    forall|i: int, j: int|
        0 <= i < j < entries.len() ==> lex_less(
            (#[trigger] entries[i]).key@,
            (#[trigger] entries[j]).key@,
        )
}

/// Whether `key` is the key of one of the entries.
spec fn has_key(entries: Seq<Pair>, key: Seq<char>) -> bool {
    exists|i: int| 0 <= i < entries.len() && (#[trigger] entries[i]).key@ == key
}

/// The index of the entry with a key.
spec fn index_of_key(entries: Seq<Pair>, key: Seq<char>) -> int {
    choose|i: int| 0 <= i < entries.len() && (#[trigger] entries[i]).key@ == key
}

/// The map that a sequence of entries stands for.
spec fn pairs_map(entries: Seq<Pair>) -> Map<Seq<char>, Seq<char>> {
    Map::new(
        |key: Seq<char>| has_key(entries, key),
        |key: Seq<char>| entries[index_of_key(entries, key)].value@,
    )
}

/// With increasing keys, each entry is found under its own key.
proof fn lemma_pair_lookup(entries: Seq<Pair>, i: int)
    requires
        increasing(entries),
        0 <= i < entries.len(),
    ensures
        pairs_map(entries).dom().contains(entries[i].key@),
        pairs_map(entries)[entries[i].key@] == entries[i].value@,
        index_of_key(entries, entries[i].key@) == i,
{
    let key = entries[i].key@;
    assert(has_key(entries, key));
    let j = index_of_key(entries, key);
    lemma_lex_irreflexive(key, 0);
    if j < i {
        assert(lex_less(entries[j].key@, entries[i].key@));
    }
    if i < j {
        assert(lex_less(entries[i].key@, entries[j].key@));
    }
}

/// What a listing of names and values stands for.
pub open spec fn listing_view(listing: Seq<(String, String)>) -> Seq<(Seq<char>, Seq<char>)> {
    listing.map_values(|pair: (String, String)| (pair.0@, pair.1@))
}

/// What a vector of texts stands for.
pub open spec fn texts_view(texts: Seq<String>) -> Seq<Seq<char>> {
    texts.map_values(|text: String| text@)
}

/// Whether a listing holds exactly what a map holds, with its names in the
/// order of strings. A map has one such listing.
pub open spec fn is_sorted_listing(
    listing: Seq<(Seq<char>, Seq<char>)>,
    map: Map<Seq<char>, Seq<char>>,
) -> bool {
    &&& forall|i: int, j: int|
        0 <= i < j < listing.len() ==> lex_less(
            (#[trigger] listing[i]).0,
            (#[trigger] listing[j]).0,
        )
    &&& forall|i: int|
        0 <= i < listing.len() ==> map.dom().contains((#[trigger] listing[i]).0) && map[listing[i].0]
            == listing[i].1
    &&& forall|name: Seq<char>| #[trigger]
        map.dom().contains(name) ==> exists|i: int|
            0 <= i < listing.len() && (#[trigger] listing[i]).0 == name
}

impl View for ValMap {
    type V = Map<Seq<char>, Seq<char>>;

    closed spec fn view(&self) -> Map<Seq<char>, Seq<char>> {
        pairs_map(self.entries@)
    }
}

impl ValMap {
    #[verifier::type_invariant]
    spec fn inv(self) -> bool {
        increasing(self.entries@)
    }

    /// A map without entries.
    pub fn new() -> (map: ValMap)
        ensures
            map@ == Map::<Seq<char>, Seq<char>>::empty(),
    {
        let map = ValMap { entries: Vec::new() };
        assert(map@ =~= Map::<Seq<char>, Seq<char>>::empty());
        map
    }

    /// Sets the value of a name, whether or not it had one.
    pub fn insert(&mut self, key: String, value: String)
        ensures
            final(self)@ == old(self)@.insert(key@, value@),
    {
        proof {
            use_type_invariant(&*self);
        }
        let ghost before = self.entries@;
        let mut at: usize = 0;
        while at < self.entries.len() && string_less(self.entries[at].key.as_str(), key.as_str())
            invariant
                at <= self.entries.len(),
                self.entries@ == before,
                forall|i: int| 0 <= i < at ==> lex_less((#[trigger] before[i]).key@, key@),
            decreases self.entries.len() - at,
        {
            at += 1;
        }
        let found = at < self.entries.len() && self.entries[at].key == key;
        let mut entries: Vec<Pair> = Vec::new();
        core::mem::swap(&mut self.entries, &mut entries);
        proof {
            lemma_lex_irreflexive(key@, 0);
            assert forall|i: int| 0 <= i < before.len() && i != at implies (
            #[trigger] before[i]).key@ != key@ by {
                if i > at {
                    lemma_lex_trichotomy(key@, before[at as int].key@);
                    assert(lex_less(before[at as int].key@, before[i].key@));
                    if lex_less(key@, before[at as int].key@) {
                        lemma_lex_transitive(key@, before[at as int].key@, before[i].key@, 0);
                    }
                }
            }
        }
        if found {
            entries.set(at, Pair { key, value });
            proof {
                let after = entries@;
                assert(increasing(after)) by {
                    assert forall|i: int, j: int| 0 <= i < j < after.len() implies lex_less(
                        (#[trigger] after[i]).key@,
                        (#[trigger] after[j]).key@,
                    ) by {
                        assert(after[i].key@ == before[i].key@);
                        assert(after[j].key@ == before[j].key@);
                    }
                }
                assert forall|k: Seq<char>|
                    pairs_map(before).insert(key@, value@).dom().contains(k) == #[trigger] pairs_map(
                        after,
                    ).dom().contains(k) by {
                    if has_key(before, k) {
                        let j = index_of_key(before, k);
                        assert(after[j].key@ == k);
                    }
                    if has_key(after, k) {
                        let j = index_of_key(after, k);
                        assert(before[j].key@ == k);
                    }
                    assert(after[at as int].key@ == key@);
                }
                assert forall|k: Seq<char>| #[trigger]
                    pairs_map(after).dom().contains(k) implies pairs_map(after)[k] == pairs_map(
                    before,
                ).insert(key@, value@)[k] by {
                    let j = index_of_key(after, k);
                    lemma_pair_lookup(after, j);
                    if j != at {
                        assert(before[j] == after[j]);
                        lemma_pair_lookup(before, j);
                    }
                }
                assert(pairs_map(after) =~= pairs_map(before).insert(key@, value@));
            }
        } else {
            entries.insert(at, Pair { key, value });
            proof {
                let after = entries@;
                assert forall|j: int| at <= j < before.len() implies lex_less(
                    key@,
                    (#[trigger] before[j]).key@,
                ) by {
                    lemma_lex_trichotomy(key@, before[at as int].key@);
                    if j > at {
                        lemma_lex_transitive(key@, before[at as int].key@, before[j].key@, 0);
                    }
                }
                assert(increasing(after)) by {
                    assert forall|i: int, j: int| 0 <= i < j < after.len() implies lex_less(
                        (#[trigger] after[i]).key@,
                        (#[trigger] after[j]).key@,
                    ) by {
                        if i < at {
                            assert(after[i] == before[i]);
                        } else if i > at {
                            assert(after[i] == before[i - 1]);
                        }
                        if j < at {
                            assert(after[j] == before[j]);
                        } else if j > at {
                            assert(after[j] == before[j - 1]);
                        }
                    }
                }
                assert forall|k: Seq<char>|
                    pairs_map(before).insert(key@, value@).dom().contains(k) == #[trigger] pairs_map(
                        after,
                    ).dom().contains(k) by {
                    if has_key(before, k) {
                        let j = index_of_key(before, k);
                        if j < at {
                            assert(after[j].key@ == k);
                        } else {
                            assert(after[j + 1].key@ == k);
                        }
                    }
                    if has_key(after, k) {
                        let j = index_of_key(after, k);
                        if j < at {
                            assert(before[j].key@ == k);
                        } else if j > at {
                            assert(before[j - 1].key@ == k);
                        }
                    }
                    assert(after[at as int].key@ == key@);
                }
                assert forall|k: Seq<char>| #[trigger]
                    pairs_map(after).dom().contains(k) implies pairs_map(after)[k] == pairs_map(
                    before,
                ).insert(key@, value@)[k] by {
                    let j = index_of_key(after, k);
                    lemma_pair_lookup(after, j);
                    if j < at {
                        assert(before[j] == after[j]);
                        lemma_pair_lookup(before, j);
                    } else if j > at {
                        assert(before[j - 1] == after[j]);
                        lemma_pair_lookup(before, j - 1);
                    }
                }
                assert(pairs_map(after) =~= pairs_map(before).insert(key@, value@));
            }
        }
        core::mem::swap(&mut self.entries, &mut entries);
    }
}

/// The names and values of a map, with the names in the order of strings.
pub fn sorted_val_vec_from_val_map(val_map: ValMap) -> (val_vec: Vec<(String, String)>)
    ensures
        is_sorted_listing(listing_view(val_vec@), val_map@),
{
    proof {
        use_type_invariant(&val_map);
    }
    let ghost entries = val_map.entries@;
    let mut val_vec: Vec<(String, String)> = Vec::new();
    let mut i: usize = 0;
    while i < val_map.entries.len()
        invariant
            i <= val_map.entries.len(),
            entries == val_map.entries@,
            val_vec@.len() == i,
            forall|k: int|
                0 <= k < i ==> (#[trigger] val_vec@[k]).0@ == entries[k].key@ && val_vec@[k].1@
                    == entries[k].value@,
        decreases val_map.entries.len() - i,
    {
        let pair = &val_map.entries[i];
        val_vec.push((pair.key.clone(), pair.value.clone()));
        i += 1;
    }
    proof {
        let listing = listing_view(val_vec@);
        assert forall|k: int| 0 <= k < listing.len() implies val_map@.dom().contains(
            (#[trigger] listing[k]).0,
        ) && val_map@[listing[k].0] == listing[k].1 by {
            lemma_pair_lookup(entries, k);
        }
        assert forall|k: int, j: int| 0 <= k < j < listing.len() implies lex_less(
            (#[trigger] listing[k]).0,
            (#[trigger] listing[j]).0,
        ) by {
            assert(lex_less(entries[k].key@, entries[j].key@));
        }
        assert forall|name: Seq<char>| #[trigger] val_map@.dom().contains(name) implies exists|
            k: int,
        |
            0 <= k < listing.len() && (#[trigger] listing[k]).0 == name by {
            let k = index_of_key(entries, name);
            assert(listing[k].0 == name);
        }
    }
    val_vec
}

/// The values of a listing, in its order.
pub fn vals_from_sorted_val_vec(val_vec: Vec<(String, String)>) -> (vals: Vec<String>)
    ensures
        vals@.len() == val_vec@.len(),
        forall|i: int| 0 <= i < vals@.len() ==> (#[trigger] vals@[i])@ == val_vec@[i].1@,
{
    let mut vals: Vec<String> = Vec::new();
    let mut i: usize = 0;
    while i < val_vec.len()
        invariant
            i <= val_vec.len(),
            vals@.len() == i,
            forall|k: int| 0 <= k < i ==> (#[trigger] vals@[k])@ == val_vec@[k].1@,
        decreases val_vec.len() - i,
    {
        vals.push(val_vec[i].1.clone());
        i += 1;
    }
    vals
}

/// The text of a value: empty where the value is not a text.
pub open spec fn value_text(value: Option<String>) -> Seq<char> {
    match value {
        Some(text) => text@,
        None => Seq::empty(),
    }
}

/// The map of the first `count` names to the texts of their values; where a
/// name occurs more than once, its last value stands.
pub open spec fn zipped(names: Seq<String>, values: Seq<Option<String>>, count: int) -> Map<
    Seq<char>,
    Seq<char>,
>
    decreases count,
{
    if count <= 0 {
        Map::empty()
    } else {
        zipped(names, values, count - 1).insert(names[count - 1]@, value_text(values[count - 1]))
    }
}

/// The number of names that have a value.
pub open spec fn paired(names: Seq<String>, values: Seq<Option<String>>) -> int {
    if names.len() <= values.len() {
        names.len() as int
    } else {
        values.len() as int
    }
}

/// Whether `vals` are the values of a map in the order of their names.
pub open spec fn is_values_by_name(vals: Seq<Seq<char>>, map: Map<Seq<char>, Seq<char>>) -> bool {
    exists|listing: Seq<(Seq<char>, Seq<char>)>|
        {
            &&& #[trigger] is_sorted_listing(listing, map)
            &&& listing.len() == vals.len()
            &&& forall|i: int| 0 <= i < vals.len() ==> #[trigger] vals[i] == listing[i].1
        }
}

/// The values of a sample, in the order of their names. A name beyond the
/// last value, or a value beyond the last name, is left out; a value that is
/// not a text counts as the empty text.
pub fn vals_from_arrays(names: &Vec<String>, values: &Vec<Option<String>>) -> (vals: Vec<String>)
    ensures
        is_values_by_name(texts_view(vals@), zipped(names@, values@, paired(names@, values@))),
{
    let mut val_map = ValMap::new();
    let mut i: usize = 0;
    while i < names.len() && i < values.len()
        invariant
            i <= names.len(),
            i <= values.len(),
            val_map@ == zipped(names@, values@, i as int),
        decreases names.len() - i,
    {
        let value = match &values[i] {
            Some(text) => text.clone(),
            None => String::new(),
        };
        val_map.insert(names[i].clone(), value);
        i += 1;
    }
    let ghost map = val_map@;
    let val_vec = sorted_val_vec_from_val_map(val_map);
    let ghost listing = listing_view(val_vec@);
    let vals = vals_from_sorted_val_vec(val_vec);
    proof {
        assert(i == paired(names@, values@));
        assert(is_sorted_listing(listing, zipped(names@, values@, paired(names@, values@))));
        assert forall|k: int| 0 <= k < texts_view(vals@).len() implies #[trigger] texts_view(
            vals@,
        )[k] == listing[k].1 by {}
    }
    vals
}

/// The texts joined by commas.
pub open spec fn joined(texts: Seq<Seq<char>>) -> Seq<char>
    decreases texts.len(),
{
    if texts.len() == 0 {
        Seq::empty()
    } else if texts.len() == 1 {
        texts[0]
    } else {
        joined(texts.drop_last()) + ","@ + texts.last()
    }
}

/// The row of a sample: the feature, the stage and the values, with a comma
/// after the feature, after the stage and between the values, and a line
/// feed at the end.
pub open spec fn spec_csv_row(feature: Seq<char>, stage: Seq<char>, vals: Seq<Seq<char>>) -> Seq<
    char,
> {
    feature + ","@ + stage + ","@ + joined(vals) + "\n"@
}

/// The values joined by commas.
pub fn join_vals(vals: &Vec<String>) -> (text: String)
    ensures
        text@ == joined(texts_view(vals@)),
{
    let mut text = String::new();
    let ghost all = texts_view(vals@);
    let mut i: usize = 0;
    while i < vals.len()
        invariant
            i <= vals.len(),
            all == texts_view(vals@),
            text@ == joined(all.take(i as int)),
        decreases vals.len() - i,
    {
        proof {
            assert(all.take(i + 1).drop_last() =~= all.take(i as int));
            assert(all.take(i + 1).last() == vals@[i as int]@);
        }
        if i > 0 {
            text.append(",");
        } else {
            assert(text@ + vals@[i as int]@ =~= vals@[i as int]@);
        }
        text.append(vals[i].as_str());
        i += 1;
    }
    assert(all.take(i as int) =~= all);
    text
}

/// The row of a sample.
pub fn csv_row(sample: &Sample, vals: &Vec<String>) -> (row: String)
    ensures
        row@ == spec_csv_row(sample.feature@, sample.stage@, texts_view(vals@)),
{
    let values = join_vals(vals);
    String::from_str(sample.feature.as_str()).concat(",").concat(sample.stage.as_str()).concat(
        ",",
    ).concat(values.as_str()).concat("\n")
}

/// The first row of a recording: the names of the columns.
pub fn csv_header() -> (row: &'static str)
    ensures
        row@
            == "feature,stage,dalvikPrivateDirty,dalvikPss,dalvikRss,eglPrivateDirty,eglPss,glPrivateDirty,glPss,nativeHeapAllocatedSize,nativeHeapSize,nativePrivateDirty,nativePss,nativeRss,totalPrivateDirty,totalPss,totalRss\n"@,
{
    "feature,stage,dalvikPrivateDirty,dalvikPss,dalvikRss,eglPrivateDirty,eglPss,glPrivateDirty,glPss,nativeHeapAllocatedSize,nativeHeapSize,nativePrivateDirty,nativePss,nativeRss,totalPrivateDirty,totalPss,totalRss\n"
}

/// What the remote end answered to a request for a sample.
#[derive(Debug)]
pub enum Reply {
    /// It reported an error; the text is its report.
    Failed(String),
    /// It sent the names of the values, and the values.
    Values(Vec<String>, Vec<Option<String>>),
    /// It sent something else.
    Other,
}

/// Whether `r` is what is recorded for a sample and a reply: for an error,
/// nothing, and the error is handed on; for values, the row of the sample
/// with the values in the order of their names; for anything else, the row
/// without values.
pub open spec fn is_record_of(r: Result<String, String>, sample: Sample, reply: Reply) -> bool {
    match reply {
        Reply::Failed(report) => r is Err && r->Err_0@ == report@,
        Reply::Values(names, values) => r is Ok && exists|vals: Seq<Seq<char>>|
            {
                &&& #[trigger] is_values_by_name(
                    vals,
                    zipped(names@, values@, paired(names@, values@)),
                )
                &&& r->Ok_0@ == spec_csv_row(sample.feature@, sample.stage@, vals)
            },
        Reply::Other => r is Ok && r->Ok_0@ == spec_csv_row(
            sample.feature@,
            sample.stage@,
            Seq::empty(),
        ),
    }
}

/// What is recorded for a sample and the reply to it.
pub fn record_row(sample: &Sample, reply: &Reply) -> (r: Result<String, String>)
    ensures
        is_record_of(r, *sample, *reply),
{
    match reply {
        Reply::Failed(report) => Err(report.clone()),
        Reply::Values(names, values) => {
            let vals = vals_from_arrays(names, values);
            let row = csv_row(sample, &vals);
            assert(is_values_by_name(
                texts_view(vals@),
                zipped(names@, values@, paired(names@, values@)),
            ));
            Ok(row)
        },
        Reply::Other => {
            let vals: Vec<String> = Vec::new();
            assert(texts_view(vals@) =~= Seq::<Seq<char>>::empty());
            Ok(csv_row(sample, &vals))
        },
    }
}

} // verus!
