//! Validation: metric thresholds on size and line count, and pattern rules,
//! each producing violation records.

use vstd::prelude::*;
use vstd::string::*;
use crate::lines::lines_view;
use crate::matcher::{CompiledRule, compiled_view, leftmost_match_start};
use crate::text::{decimal, decimal_of, same_text, trim_text, trimmed_of};

verus! {

/// What a metric rule measures.
#[derive(Clone, Copy, Debug, PartialEq, Eq, Structural)]
pub enum MetricType {
    SizeBytes,
    LineCount,
}

impl MetricType {
    /// The metric named `size_bytes` or `line_count`; no other name is one.
    pub fn from_name(name: &str) -> (r: Option<MetricType>)
        ensures
            r == (if name@ == "size_bytes"@ {
                Some(MetricType::SizeBytes)
            } else if name@ == "line_count"@ {
                Some(MetricType::LineCount)
            } else {
                None
            }),
    {
        if same_text(name, "size_bytes") {
            Some(MetricType::SizeBytes)
        } else if same_text(name, "line_count") {
            Some(MetricType::LineCount)
        } else {
            None
        }
    }
}

/// A threshold on a file metric: a file whose metric exceeds it violates it.
#[derive(Clone, Debug)]
pub struct MetricRule {
    pub id: String,
    pub metric_type: MetricType,
    pub threshold: u64,
}

impl MetricRule {
    pub fn new(id: String, metric_type: MetricType, threshold: u64) -> (r: Self)
        ensures
            r.id == id,
            r.metric_type == metric_type,
            r.threshold == threshold,
    {
        MetricRule { id, metric_type, threshold }
    }
}

/// One violation of a rule by a file.
#[derive(Clone, Debug)]
pub struct ValidationResult {
    pub rule_id: String,
    pub file_path: String,
    pub message: String,
    pub line: usize,
    pub snippet: String,
}

pub struct ValidationResultView {
    pub rule_id: Seq<char>,
    pub file_path: Seq<char>,
    pub message: Seq<char>,
    pub line: nat,
    pub snippet: Seq<char>,
}

impl View for ValidationResult {
    type V = ValidationResultView;

    open spec fn view(&self) -> ValidationResultView {
        ValidationResultView {
            rule_id: self.rule_id@,
            file_path: self.file_path@,
            message: self.message@,
            line: self.line as nat,
            snippet: self.snippet@,
        }
    }
}

pub open spec fn results_view(v: Seq<ValidationResult>) -> Seq<ValidationResultView> {
    v.map_values(|r: ValidationResult| r@)
}

/// The message of a size violation.
pub open spec fn size_message(size: nat, threshold: nat) -> Seq<char> {
    "File size "@ + decimal_of(size) + " exceeds limit "@ + decimal_of(threshold)
}

/// The message of a line-count violation.
pub open spec fn line_count_message(count: nat, threshold: nat) -> Seq<char> {
    "Line count "@ + decimal_of(count) + " exceeds limit "@ + decimal_of(threshold)
}

/// The message of a pattern violation.
pub open spec fn pattern_message() -> Seq<char> {
    "Pattern match found"@
}

/// The violation of metric rule `r` by the file at `path`, with `message`:
/// not tied to a line, so on line 0 with an empty snippet.
pub open spec fn metric_violation(path: Seq<char>, r: MetricRule, message: Seq<char>) -> ValidationResultView {
    ValidationResultView { rule_id: r.id@, file_path: path, message, line: 0, snippet: Seq::empty() }
}

/// The violations of the `kind` rules among `rules`, in rule order, by a
/// file whose metric of that kind is `value`.
pub open spec fn metric_violations(
    path: Seq<char>,
    kind: MetricType,
    value: nat,
    rules: Seq<MetricRule>,
) -> Seq<ValidationResultView>
    decreases rules.len(),
{
    if rules.len() == 0 {
        Seq::empty()
    } else {
        let prev = metric_violations(path, kind, value, rules.drop_last());
        let r = rules.last();
        if r.metric_type == kind && value > r.threshold {
            let message = match kind {
                MetricType::SizeBytes => size_message(value, r.threshold as nat),
                MetricType::LineCount => line_count_message(value, r.threshold as nat),
            };
            prev.push(metric_violation(path, r, message))
        } else {
            prev
        }
    }
}

/// Whether some rule among `rules` is of `kind`.
pub open spec fn has_kind(rules: Seq<MetricRule>, kind: MetricType) -> bool {
    exists|i: int| 0 <= i < rules.len() && (#[trigger] rules[i]).metric_type == kind
}

/// Whether a line-count pass is owed: some rule counts lines.
pub fn needs_line_count(rules: &Vec<MetricRule>) -> (r: bool)
    ensures
        r == has_kind(rules@, MetricType::LineCount),
{
    let mut i: usize = 0;
    while i < rules.len()
        invariant
            i <= rules@.len(),
            forall|k: int| 0 <= k < i ==> (#[trigger] rules@[k]).metric_type != MetricType::LineCount,
        decreases rules@.len() - i,
    {
        if rules[i].metric_type == MetricType::LineCount {
            return true;
        }
        i = i + 1;
    }
    false
}

fn push_metric_violations(
    path: &String,
    kind: MetricType,
    value: u64,
    rules: &Vec<MetricRule>,
    out: &mut Vec<ValidationResult>,
)
    ensures
        results_view(final(out)@) == results_view(old(out)@) + metric_violations(
            path@,
            kind,
            value as nat,
            rules@,
        ),
{
    let ghost start = results_view(out@);
    let mut i: usize = 0;
    while i < rules.len()
        invariant
            i <= rules@.len(),
            results_view(out@) == start + metric_violations(
                path@,
                kind,
                value as nat,
                rules@.take(i as int),
            ),
        decreases rules@.len() - i,
    {
        let rule = &rules[i];
        assert(rules@.take(i + 1).drop_last() =~= rules@.take(i as int));
        if rule.metric_type == kind && value > rule.threshold {
            let mut message = String::from_str(
                match kind {
                    MetricType::SizeBytes => "File size ",
                    MetricType::LineCount => "Line count ",
                },
            );
            message.append(decimal(value).as_str());
            message.append(" exceeds limit ");
            message.append(decimal(rule.threshold).as_str());
            let v = ValidationResult {
                rule_id: rule.id.clone(),
                file_path: path.clone(),
                message,
                line: 0,
                snippet: String::new(),
            };
            let ghost before = out@;
            out.push(v);
            assert(results_view(out@) =~= results_view(before).push(v@));
            assert(v@ =~= metric_violation(path@, rules@.take(i + 1).last(), v@.message));
            match kind {
                MetricType::SizeBytes => {
                    assert(v@.message =~= size_message(value as nat, rule.threshold as nat));
                },
                MetricType::LineCount => {
                    assert(v@.message =~= line_count_message(value as nat, rule.threshold as nat));
                },
            }
            assert(results_view(out@) =~= start + metric_violations(
                path@,
                kind,
                value as nat,
                rules@.take(i + 1),
            ));
        }
        i = i + 1;
    }
    assert(rules@.take(rules@.len() as int) =~= rules@);
}

/// The metric violations of one file of `size` bytes: first those of the
/// size rules, in rule order, then, where the file's lines were counted
/// (`line_count`), those of the line-count rules. Metric violations carry
/// line 0 and an empty snippet.
pub fn metric_results(
    path: &String,
    size: u64,
    line_count: Option<u64>,
    rules: &Vec<MetricRule>,
) -> (r: Vec<ValidationResult>)
    ensures
        results_view(r@) == metric_violations(path@, MetricType::SizeBytes, size as nat, rules@) + (
        match line_count {
            Some(n) => metric_violations(path@, MetricType::LineCount, n as nat, rules@),
            None => Seq::empty(),
        }),
{
    let mut out: Vec<ValidationResult> = Vec::new();
    push_metric_violations(path, MetricType::SizeBytes, size, rules, &mut out);
    match line_count {
        Some(n) => {
            push_metric_violations(path, MetricType::LineCount, n, rules, &mut out);
        },
        None => {
            assert(results_view(out@) =~= results_view(out@) + Seq::<ValidationResultView>::empty());
        },
    }
    assert(results_view(Seq::<ValidationResult>::empty()) =~= Seq::<ValidationResultView>::empty());
    out
}

/// The pattern violations on one line (numbered `number`), one per rule
/// that matches it, in rule order.
pub open spec fn line_violations(
    path: Seq<char>,
    number: nat,
    line: Seq<char>,
    rules: Seq<(Seq<char>, Seq<char>)>,
) -> Seq<ValidationResultView>
    decreases rules.len(),
{
    if rules.len() == 0 {
        Seq::empty()
    } else {
        let prev = line_violations(path, number, line, rules.drop_last());
        let (id, pattern) = rules.last();
        if leftmost_match_start(pattern, line) is Some {
            prev.push(
                ValidationResultView {
                    rule_id: id,
                    file_path: path,
                    message: pattern_message(),
                    line: number,
                    snippet: trimmed_of(line),
                },
            )
        } else {
            prev
        }
    }
}

/// The pattern violations of a file's lines, in line order.
pub open spec fn pattern_violations(
    path: Seq<char>,
    lines: Seq<Option<Seq<char>>>,
    rules: Seq<(Seq<char>, Seq<char>)>,
) -> Seq<ValidationResultView>
    decreases lines.len(),
{
    if lines.len() == 0 {
        Seq::empty()
    } else {
        let prev = pattern_violations(path, lines.drop_last(), rules);
        match lines.last() {
            Some(l) => prev + line_violations(path, lines.len(), l, rules),
            None => prev,
        }
    }
}

fn check_line(
    path: &String,
    number: usize,
    line: &String,
    rules: &Vec<CompiledRule>,
    out: &mut Vec<ValidationResult>,
)
    ensures
        results_view(final(out)@) == results_view(old(out)@) + line_violations(
            path@,
            number as nat,
            line@,
            compiled_view(rules@),
        ),
{
    let ghost start = results_view(out@);
    let mut j: usize = 0;
    while j < rules.len()
        invariant
            j <= rules@.len(),
            results_view(out@) == start + line_violations(
                path@,
                number as nat,
                line@,
                compiled_view(rules@.take(j as int)),
            ),
        decreases rules@.len() - j,
    {
        let rule = &rules[j];
        assert(compiled_view(rules@.take(j + 1)).drop_last() =~= compiled_view(
            rules@.take(j as int),
        ));
        let ghost pair = compiled_view(rules@.take(j + 1)).last();
        assert(pair == (rule.rule_id(), rule.source()));
        if rule.matches(line.as_str()) {
            let v = ValidationResult {
                rule_id: rule.id(),
                file_path: path.clone(),
                message: String::from_str("Pattern match found"),
                line: number,
                snippet: trim_text(line.as_str()),
            };
            let ghost before = out@;
            out.push(v);
            assert(results_view(out@) =~= results_view(before).push(v@));
            assert(line_violations(
                path@,
                number as nat,
                line@,
                compiled_view(rules@.take(j + 1)),
            ) == line_violations(
                path@,
                number as nat,
                line@,
                compiled_view(rules@.take(j as int)),
            ).push(v@));
        }
        j = j + 1;
    }
    assert(rules@.take(rules@.len() as int) =~= rules@);
}

/// The pattern violations of a file's lines: one per (line, rule) match,
/// carrying the 1-based line and the trimmed line as snippet.
pub fn pattern_results(
    path: &String,
    lines: &Vec<Option<String>>,
    rules: &Vec<CompiledRule>,
) -> (r: Vec<ValidationResult>)
    ensures
        results_view(r@) == pattern_violations(path@, lines_view(lines@), compiled_view(rules@)),
{
    let mut out: Vec<ValidationResult> = Vec::new();
    let mut i: usize = 0;
    while i < lines.len()
        invariant
            i <= lines@.len(),
            results_view(out@) == pattern_violations(
                path@,
                lines_view(lines@.take(i as int)),
                compiled_view(rules@),
            ),
        decreases lines@.len() - i,
    {
        assert(lines_view(lines@.take(i + 1)).drop_last() =~= lines_view(lines@.take(i as int)));
        match &lines[i] {
            Some(line) => {
                check_line(path, i + 1, line, rules, &mut out);
            },
            None => {},
        }
        i = i + 1;
    }
    assert(lines@.take(lines@.len() as int) =~= lines@);
    out
}

/// Whether validating a file reads its lines: some rule counts lines, or
/// some pattern rule compiled.
pub fn needs_lines(rules: &Vec<CompiledRule>, metric_rules: &Vec<MetricRule>) -> (r: bool)
    ensures
        r == (rules@.len() > 0 || has_kind(metric_rules@, MetricType::LineCount)),
{
    rules.len() > 0 || needs_line_count(metric_rules)
}

/// The violations of one file: `size` from its metadata (`None` where that
/// failed) and `lines` its lines (`None` where it could not be read). Metric
/// rules are checked only where the size is known, line-count rules only
/// where the lines were read too; pattern rules where the lines were read.
pub fn validate_file(
    path: &String,
    size: Option<u64>,
    lines: Option<&Vec<Option<String>>>,
    rules: &Vec<CompiledRule>,
    metric_rules: &Vec<MetricRule>,
) -> (r: Vec<ValidationResult>)
    ensures
        results_view(r@) == (match size {
            Some(s) => metric_violations(path@, MetricType::SizeBytes, s as nat, metric_rules@) + (
            match lines {
                Some(ls) => metric_violations(
                    path@,
                    MetricType::LineCount,
                    (ls@.len() as u64) as nat,
                    metric_rules@,
                ),
                None => Seq::empty(),
            }),
            None => Seq::empty(),
        }) + (match lines {
            Some(ls) => pattern_violations(path@, lines_view(ls@), compiled_view(rules@)),
            None => Seq::empty(),
        }),
{
    let mut out: Vec<ValidationResult> = match size {
        Some(s) => {
            let count: Option<u64> = match lines {
                Some(ls) => Some(ls.len() as u64),
                None => None,
            };
            metric_results(path, s, count, metric_rules)
        },
        None => Vec::new(),
    };
    let ghost first = results_view(out@);
    assert(size is None ==> first =~= Seq::<ValidationResultView>::empty());
    match lines {
        Some(ls) => {
            let mut more = pattern_results(path, ls, rules);
            let ghost second = results_view(more@);
            out.append(&mut more);
            assert(results_view(out@) =~= first + second);
        },
        None => {
            assert(results_view(out@) =~= first + Seq::<ValidationResultView>::empty());
        },
    }
    out
}

/// With no size rule, no violation of a size rule is reported, whatever
/// the size and the line count.
pub proof fn lemma_no_size_rule_no_size_result(
    path: Seq<char>,
    size: nat,
    rules: Seq<MetricRule>,
)
    requires
        !has_kind(rules, MetricType::SizeBytes),
    ensures
        metric_violations(path, MetricType::SizeBytes, size, rules) == Seq::<
            ValidationResultView,
        >::empty(),
    decreases rules.len(),
{
    if rules.len() > 0 {
        let prefix = rules.drop_last();
        assert(!has_kind(prefix, MetricType::SizeBytes)) by {
            if has_kind(prefix, MetricType::SizeBytes) {
                let i = choose|i: int|
                    0 <= i < prefix.len() && (#[trigger] prefix[i]).metric_type
                        == MetricType::SizeBytes;
                assert(rules[i] == prefix[i]);
            }
        }
        lemma_no_size_rule_no_size_result(path, size, prefix);
        assert(rules[rules.len() - 1].metric_type != MetricType::SizeBytes);
    }
}

/// Every violation reported for a metric kind names a rule of that kind
/// whose threshold the file's value exceeds: rules of one kind never yield
/// results of the other.
pub proof fn lemma_metric_violations_of_kind(
    path: Seq<char>,
    kind: MetricType,
    value: nat,
    rules: Seq<MetricRule>,
    k: int,
)
    requires
        0 <= k < metric_violations(path, kind, value, rules).len(),
    ensures
        exists|i: int|
            0 <= i < rules.len() && (#[trigger] rules[i]).metric_type == kind && value
                > rules[i].threshold && metric_violations(path, kind, value, rules)[k].rule_id
                == rules[i].id@,
    decreases rules.len(),
{
    let prefix = rules.drop_last();
    let prev = metric_violations(path, kind, value, prefix);
    if k < prev.len() {
        lemma_metric_violations_of_kind(path, kind, value, prefix, k);
        let i = choose|i: int|
            0 <= i < prefix.len() && (#[trigger] prefix[i]).metric_type == kind && value
                > prefix[i].threshold && prev[k].rule_id == prefix[i].id@;
        assert(rules[i] == prefix[i]);
    } else {
        assert(rules[rules.len() - 1] == rules.last());
    }
}

} // verus!
