//! Pattern rules: compiling them once, and scanning a file's lines for the
//! leftmost match of each rule.

use vstd::prelude::*;
use vstd::string::*;
use crate::lines::lines_view;
use crate::text::{trim_text, trimmed_of};

verus! {

#[verifier::external_type_specification]
#[verifier::external_body]
pub struct ExRegex(regex::Regex);

/// Whether `regex::Regex::new` accepts a pattern.
pub uninterp spec fn pattern_compiles(p: Seq<char>) -> bool;

/// The byte offset at which the leftmost-first match of pattern `p` starts
/// in `text`, as `regex::Regex::find` reports it; `None` where it does not match.
pub uninterp spec fn leftmost_match_start(p: Seq<char>, text: Seq<char>) -> Option<nat>;

/// A regex together with the pattern it was compiled from.
pub struct CompiledPattern {
    source: Ghost<Seq<char>>,
    regex: regex::Regex,
}

impl CompiledPattern {
    /// The pattern the regex was compiled from.
    pub closed spec fn source(&self) -> Seq<char> {
        self.source@
    }

    /// Relies on `regex::Regex::find`: the start of the leftmost-first
    /// match, a byte offset into `text` (so below `usize::MAX`, as no text
    /// is that long).
    #[verifier::external_body]
    fn find_start(&self, text: &str) -> (r: Option<usize>)
        ensures
            r is Some <==> leftmost_match_start(self.source(), text@) is Some,
            r matches Some(s) ==> leftmost_match_start(self.source(), text@) == Some(s as nat) && s
                < usize::MAX,
    {
        self.regex.find(text).map(|m| m.start())
    }
}

/// Relies on `regex::Regex::new`: it fails exactly on patterns it does not
/// accept, and the regex it gives is compiled from `p`.
#[verifier::external_body]
fn compile_regex(p: &str) -> (r: Option<CompiledPattern>)
    ensures
        r is Some <==> pattern_compiles(p@),
        r matches Some(c) ==> c.source() == p@,
{
    regex::Regex::new(p).ok().map(|regex| CompiledPattern { source: Ghost(p@), regex })
}

/// A named text pattern.
#[derive(Clone, Debug)]
pub struct RustRule {
    pub id: String,
    pub pattern: String,
}

impl RustRule {
    pub fn new(id: String, pattern: String) -> (r: Self)
        ensures
            r.id == id,
            r.pattern == pattern,
    {
        RustRule { id, pattern }
    }
}

/// A rule whose pattern compiled.
pub struct CompiledRule {
    id: String,
    pattern: CompiledPattern,
}

impl CompiledRule {
    /// The id of the rule.
    pub closed spec fn rule_id(&self) -> Seq<char> {
        self.id@
    }

    /// The pattern the rule was compiled from.
    pub closed spec fn source(&self) -> Seq<char> {
        self.pattern.source()
    }

    /// The id of the rule.
    pub fn id(&self) -> (r: String)
        ensures
            r@ == self.rule_id(),
    {
        self.id.clone()
    }

    /// Whether the rule's pattern matches somewhere in `text`.
    pub fn matches(&self, text: &str) -> (r: bool)
        ensures
            r == leftmost_match_start(self.source(), text@) is Some,
    {
        self.pattern.find_start(text).is_some()
    }
}

/// The `(id, pattern)` of each rule whose pattern compiles, in order.
pub open spec fn active_rules_of(rules: Seq<RustRule>) -> Seq<(Seq<char>, Seq<char>)>
    decreases rules.len(),
{
    if rules.len() == 0 {
        Seq::empty()
    } else {
        let prev = active_rules_of(rules.drop_last());
        let r = rules.last();
        if pattern_compiles(r.pattern@) {
            prev.push((r.id@, r.pattern@))
        } else {
            prev
        }
    }
}

/// The `(id, pattern)` of each compiled rule.
pub open spec fn compiled_view(c: Seq<CompiledRule>) -> Seq<(Seq<char>, Seq<char>)> {
    c.map_values(|r: CompiledRule| (r.rule_id(), r.source()))
}

/// Compiles each rule's pattern; rules whose pattern does not compile are dropped.
pub fn compile_rules(rules: &Vec<RustRule>) -> (r: Vec<CompiledRule>)
    ensures
        compiled_view(r@) == active_rules_of(rules@),
{
    let mut out: Vec<CompiledRule> = Vec::new();
    let mut i: usize = 0;
    while i < rules.len()
        invariant
            i <= rules@.len(),
            compiled_view(out@) == active_rules_of(rules@.take(i as int)),
        decreases rules@.len() - i,
    {
        let rule = &rules[i];
        let compiled = compile_regex(rule.pattern.as_str());
        assert(rules@.take(i + 1).drop_last() =~= rules@.take(i as int));
        match compiled {
            Some(pattern) => {
                out.push(CompiledRule { id: rule.id.clone(), pattern });
                assert(compiled_view(out@) =~= active_rules_of(rules@.take(i + 1)));
            },
            None => {
                assert(compiled_view(out@) =~= active_rules_of(rules@.take(i + 1)));
            },
        }
        i = i + 1;
    }
    assert(rules@.take(rules@.len() as int) =~= rules@);
    out
}

/// One positioned hit of a rule on a line.
#[derive(Clone, Debug)]
pub struct MatchHit {
    pub file_path: String,
    pub line_number: usize,
    pub column: usize,
    pub rule_id: String,
    pub snippet: String,
}

pub struct MatchHitView {
    pub file_path: Seq<char>,
    pub line_number: nat,
    pub column: nat,
    pub rule_id: Seq<char>,
    pub snippet: Seq<char>,
}

impl View for MatchHit {
    type V = MatchHitView;

    open spec fn view(&self) -> MatchHitView {
        MatchHitView {
            file_path: self.file_path@,
            line_number: self.line_number as nat,
            column: self.column as nat,
            rule_id: self.rule_id@,
            snippet: self.snippet@,
        }
    }
}

pub open spec fn hits_view(v: Seq<MatchHit>) -> Seq<MatchHitView> {
    v.map_values(|h: MatchHit| h@)
}

/// The hits on one line (numbered `number`), one per rule that matches it, in
/// rule order: the column is the 1-based byte offset of the match start in
/// the raw line, and the snippet is the trimmed line.
pub open spec fn line_hits(
    path: Seq<char>,
    number: nat,
    line: Seq<char>,
    rules: Seq<(Seq<char>, Seq<char>)>,
) -> Seq<MatchHitView>
    decreases rules.len(),
{
    if rules.len() == 0 {
        Seq::empty()
    } else {
        let prev = line_hits(path, number, line, rules.drop_last());
        let (id, pattern) = rules.last();
        match leftmost_match_start(pattern, line) {
            Some(start) => prev.push(
                MatchHitView {
                    file_path: path,
                    line_number: number,
                    column: start + 1,
                    rule_id: id,
                    snippet: trimmed_of(line),
                },
            ),
            None => prev,
        }
    }
}

/// The hits on all lines of a file, in line order; undecodable lines give none.
pub open spec fn file_hits(
    path: Seq<char>,
    lines: Seq<Option<Seq<char>>>,
    rules: Seq<(Seq<char>, Seq<char>)>,
) -> Seq<MatchHitView>
    decreases lines.len(),
{
    if lines.len() == 0 {
        Seq::empty()
    } else {
        let prev = file_hits(path, lines.drop_last(), rules);
        match lines.last() {
            Some(l) => prev + line_hits(path, lines.len(), l, rules),
            None => prev,
        }
    }
}

fn scan_line(
    path: &String,
    number: usize,
    line: &String,
    rules: &Vec<CompiledRule>,
    out: &mut Vec<MatchHit>,
)
    ensures
        hits_view(final(out)@) == hits_view(old(out)@) + line_hits(
            path@,
            number as nat,
            line@,
            compiled_view(rules@),
        ),
{
    let ghost start = hits_view(out@);
    let mut j: usize = 0;
    while j < rules.len()
        invariant
            j <= rules@.len(),
            hits_view(out@) == start + line_hits(
                path@,
                number as nat,
                line@,
                compiled_view(rules@.take(j as int)),
            ),
        decreases rules@.len() - j,
    {
        let rule = &rules[j];
        assert(compiled_view(rules@.take(j + 1)).drop_last() =~= compiled_view(
            rules@.take(j as int),
        ));
        match rule.pattern.find_start(line.as_str()) {
            Some(s) => {
                let hit = MatchHit {
                    file_path: path.clone(),
                    line_number: number,
                    column: s + 1,
                    rule_id: rule.id.clone(),
                    snippet: trim_text(line.as_str()),
                };
                let ghost pair = compiled_view(rules@.take(j + 1)).last();
                assert(pair == (rule.rule_id(), rule.source()));
                assert(hit@ == MatchHitView {
                    file_path: path@,
                    line_number: number as nat,
                    column: s as nat + 1,
                    rule_id: pair.0,
                    snippet: trimmed_of(line@),
                });
                let ghost before = out@;
                out.push(hit);
                assert(hits_view(out@) =~= hits_view(before).push(hit@));
                assert(line_hits(path@, number as nat, line@, compiled_view(rules@.take(j + 1)))
                    == line_hits(path@, number as nat, line@, compiled_view(rules@.take(j as int))).push(hit@));
                assert(hits_view(out@) =~= start + line_hits(
                    path@,
                    number as nat,
                    line@,
                    compiled_view(rules@.take(j + 1)),
                ));
            },
            None => {},
        }
        j = j + 1;
    }
    assert(rules@.take(rules@.len() as int) =~= rules@);
}

/// Scans a file's lines for each compiled rule; with no rule it returns at
/// once, empty.
pub fn match_file(path: &String, lines: &Vec<Option<String>>, rules: &Vec<CompiledRule>) -> (r: Vec<
    MatchHit,
>)
    ensures
        hits_view(r@) == file_hits(path@, lines_view(lines@), compiled_view(rules@)),
        rules@.len() == 0 ==> r@.len() == 0,
{
    let mut out: Vec<MatchHit> = Vec::new();
    if rules.len() == 0 {
        assert(compiled_view(rules@) =~= Seq::empty());
        proof {
            lemma_no_rules_no_hits(path@, lines_view(lines@));
        }
        return out;
    }
    let mut i: usize = 0;
    while i < lines.len()
        invariant
            i <= lines@.len(),
            hits_view(out@) == file_hits(
                path@,
                lines_view(lines@.take(i as int)),
                compiled_view(rules@),
            ),
        decreases lines@.len() - i,
    {
        assert(lines_view(lines@.take(i + 1)).drop_last() =~= lines_view(lines@.take(i as int)));
        match &lines[i] {
            Some(line) => {
                scan_line(path, i + 1, line, rules, &mut out);
            },
            None => {},
        }
        i = i + 1;
    }
    assert(lines@.take(lines@.len() as int) =~= lines@);
    out
}

proof fn lemma_no_rules_no_hits(path: Seq<char>, lines: Seq<Option<Seq<char>>>)
    ensures
        file_hits(path, lines, Seq::empty()) == Seq::<MatchHitView>::empty(),
    decreases lines.len(),
{
    if lines.len() > 0 {
        lemma_no_rules_no_hits(path, lines.drop_last());
        match lines.last() {
            Some(l) => {
                assert(line_hits(path, lines.len(), l, Seq::empty()) =~= Seq::<
                    MatchHitView,
                >::empty());
                assert(file_hits(path, lines, Seq::empty()) =~= Seq::<MatchHitView>::empty());
            },
            None => {},
        }
    }
}

/// The hits among `hs` that are on line `n`, in order.
pub open spec fn hits_on_line(hs: Seq<MatchHitView>, n: nat) -> Seq<MatchHitView>
    decreases hs.len(),
{
    if hs.len() == 0 {
        Seq::empty()
    } else {
        let prev = hits_on_line(hs.drop_last(), n);
        if hs.last().line_number == n {
            prev.push(hs.last())
        } else {
            prev
        }
    }
}

proof fn lemma_hits_on_line_append(a: Seq<MatchHitView>, b: Seq<MatchHitView>, n: nat)
    ensures
        hits_on_line(a + b, n) == hits_on_line(a, n) + hits_on_line(b, n),
    decreases b.len(),
{
    if b.len() == 0 {
        assert(a + b =~= a);
        assert(hits_on_line(a, n) + hits_on_line(b, n) =~= hits_on_line(a, n));
    } else {
        lemma_hits_on_line_append(a, b.drop_last(), n);
        assert((a + b).drop_last() =~= a + b.drop_last());
        assert((a + b).last() == b.last());
        if b.last().line_number == n {
            assert(hits_on_line(a, n) + hits_on_line(b, n) =~= (hits_on_line(a, n)
                + hits_on_line(b.drop_last(), n)).push(b.last()));
        }
    }
}

proof fn lemma_hits_on_line_all(hs: Seq<MatchHitView>, n: nat)
    ensures
        (forall|i: int| 0 <= i < hs.len() ==> (#[trigger] hs[i]).line_number == n) ==> hits_on_line(
            hs,
            n,
        ) == hs,
        (forall|i: int| 0 <= i < hs.len() ==> (#[trigger] hs[i]).line_number != n) ==> hits_on_line(
            hs,
            n,
        ) == Seq::<MatchHitView>::empty(),
    decreases hs.len(),
{
    if hs.len() > 0 {
        let p = hs.drop_last();
        lemma_hits_on_line_all(p, n);
        if forall|i: int| 0 <= i < hs.len() ==> (#[trigger] hs[i]).line_number == n {
            assert forall|i: int| 0 <= i < p.len() implies (#[trigger] p[i]).line_number == n by {
                assert(p[i] == hs[i]);
            }
            assert(hs.last() == hs[hs.len() - 1]);
            assert(p.push(hs.last()) =~= hs);
        }
        if forall|i: int| 0 <= i < hs.len() ==> (#[trigger] hs[i]).line_number != n {
            assert forall|i: int| 0 <= i < p.len() implies (#[trigger] p[i]).line_number != n by {
                assert(p[i] == hs[i]);
            }
            assert(hs.last() == hs[hs.len() - 1]);
        }
    }
}

proof fn lemma_line_hits_numbered(
    path: Seq<char>,
    number: nat,
    line: Seq<char>,
    rules: Seq<(Seq<char>, Seq<char>)>,
)
    ensures
        forall|i: int|
            0 <= i < line_hits(path, number, line, rules).len() ==> (#[trigger] line_hits(
                path,
                number,
                line,
                rules,
            )[i]).line_number == number,
    decreases rules.len(),
{
    if rules.len() > 0 {
        lemma_line_hits_numbered(path, number, line, rules.drop_last());
        let prev = line_hits(path, number, line, rules.drop_last());
        let all = line_hits(path, number, line, rules);
        assert forall|i: int| 0 <= i < all.len() implies (#[trigger] all[i]).line_number
            == number by {
            if i < prev.len() {
                assert(all[i] == prev[i]);
            }
        }
    }
}

proof fn lemma_file_hits_numbered(
    path: Seq<char>,
    lines: Seq<Option<Seq<char>>>,
    rules: Seq<(Seq<char>, Seq<char>)>,
)
    ensures
        forall|i: int|
            0 <= i < file_hits(path, lines, rules).len() ==> 1 <= (#[trigger] file_hits(
                path,
                lines,
                rules,
            )[i]).line_number <= lines.len(),
    decreases lines.len(),
{
    if lines.len() > 0 {
        let p = lines.drop_last();
        lemma_file_hits_numbered(path, p, rules);
        match lines.last() {
            Some(l) => {
                lemma_line_hits_numbered(path, lines.len(), l, rules);
                let a = file_hits(path, p, rules);
                let b = line_hits(path, lines.len(), l, rules);
                assert forall|i: int| 0 <= i < (a + b).len() implies 1 <= (#[trigger] (a + b)[i]).line_number
                    <= lines.len() by {
                    if i >= a.len() {
                        assert((a + b)[i] == b[i - a.len()]);
                    } else {
                        assert((a + b)[i] == a[i]);
                    }
                }
                assert(file_hits(path, lines, rules) == a + b);
            },
            None => {
                let a = file_hits(path, p, rules);
                assert(file_hits(path, lines, rules) == a);
                assert forall|i: int| 0 <= i < a.len() implies 1 <= (#[trigger] a[i]).line_number
                    <= lines.len() by {}
            },
        }
    }
}

/// The hits on line `n` of a file are exactly that line's own hits: one for
/// each rule whose pattern matches the line, in rule order, at the match's
/// column (see `line_hits`); a line that did not decode has none.
pub proof fn lemma_hits_of_one_line(
    path: Seq<char>,
    lines: Seq<Option<Seq<char>>>,
    rules: Seq<(Seq<char>, Seq<char>)>,
    n: nat,
)
    requires
        1 <= n <= lines.len(),
    ensures
        hits_on_line(file_hits(path, lines, rules), n) == match lines[n - 1] {
            Some(l) => line_hits(path, n, l, rules),
            None => Seq::empty(),
        },
    decreases lines.len(),
{
    let p = lines.drop_last();
    let prev = file_hits(path, p, rules);
    lemma_file_hits_numbered(path, p, rules);
    if n < lines.len() {
        lemma_hits_of_one_line(path, p, rules, n);
        assert(p[n - 1] == lines[n - 1]);
    } else {
        lemma_hits_on_line_all(prev, n);
    }
    match lines.last() {
        Some(l) => {
            let b = line_hits(path, lines.len(), l, rules);
            lemma_line_hits_numbered(path, lines.len(), l, rules);
            lemma_hits_on_line_append(prev, b, n);
            lemma_hits_on_line_all(b, n);
            if n == lines.len() {
                assert(hits_on_line(prev, n) + b =~= b);
            } else {
                assert(hits_on_line(prev, n) + Seq::<MatchHitView>::empty() =~= hits_on_line(
                    prev,
                    n,
                ));
            }
        },
        None => {},
    }
}

/// With no rule whose pattern compiles, no file yields a hit, whatever its lines.
pub proof fn lemma_no_valid_rule_no_hits(
    rules: Seq<RustRule>,
    path: Seq<char>,
    lines: Seq<Option<Seq<char>>>,
)
    requires
        forall|i: int| 0 <= i < rules.len() ==> !pattern_compiles(#[trigger] rules[i].pattern@),
    ensures
        active_rules_of(rules).len() == 0,
        file_hits(path, lines, active_rules_of(rules)) == Seq::<MatchHitView>::empty(),
    decreases rules.len(),
{
    if rules.len() > 0 {
        let prefix = rules.drop_last();
        assert forall|i: int| 0 <= i < prefix.len() implies !pattern_compiles(
            #[trigger] prefix[i].pattern@,
        ) by {
            assert(prefix[i] == rules[i]);
        }
        lemma_no_valid_rule_no_hits(prefix, path, lines);
        assert(!pattern_compiles(rules[rules.len() - 1].pattern@));
    }
    assert(active_rules_of(rules) =~= Seq::<(Seq<char>, Seq<char>)>::empty());
    lemma_no_rules_no_hits(path, lines);
}

} // verus!
