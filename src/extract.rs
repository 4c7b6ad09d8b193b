//! Structural extraction: parsing source text with a language grammar and
//! turning the captures of its declarative queries into named definitions
//! and identifier references.

use vstd::prelude::*;
use vstd::string::*;
use crate::text::{same_text, first_line, first_line_of, bounded_snippet, bounded_snippet_of};

verus! {

#[verifier::external_type_specification]
#[verifier::external_body]
pub struct ExTreeSitterLanguage(tree_sitter::Language);

#[verifier::external_type_specification]
#[verifier::external_body]
pub struct ExTree(tree_sitter::Tree);

/// A query capture as plain values: the captured node's text (`None` where
/// it is not valid UTF-8), the 0-based row where it starts, and the text of
/// its parent node (`None` where it has none or it is not valid UTF-8).
#[derive(Clone, Debug)]
pub struct Capture {
    pub text: Option<String>,
    pub row: usize,
    pub parent_text: Option<String>,
}

/// A grammar loaded for parsing, together with the `Grammar` it is.
pub struct LoadedGrammar {
    grammar: Grammar,
    language: tree_sitter::Language,
}

impl LoadedGrammar {
    pub closed spec fn grammar(&self) -> Grammar {
        self.grammar
    }
}

/// A tree parsed from a source with a grammar, together with both.
pub struct ParsedSource {
    grammar: Grammar,
    text: Ghost<Seq<char>>,
    tree: tree_sitter::Tree,
}

impl ParsedSource {
    pub closed spec fn grammar(&self) -> Grammar {
        self.grammar
    }

    pub closed spec fn text(&self) -> Seq<char> {
        self.text@
    }
}

/// Whether tree-sitter parses `content` with grammar `g` (a partial tree
/// counts: malformed sources parse too).
pub uninterp spec fn parses(g: Grammar, content: Seq<char>) -> bool;

/// The captures of `query` over the tree of `content` parsed with grammar
/// `g`, in match order; `None` where the grammar does not accept the query.
pub uninterp spec fn captures_of(g: Grammar, query: Seq<char>, content: Seq<char>) -> Option<
    Seq<CaptureView>,
>;

/// Relies on `tree_sitter_python::language` (the Python grammar), loaded for `Grammar::Python`.
#[verifier::external_body]
fn python_grammar() -> (r: LoadedGrammar)
    ensures
        r.grammar() == Grammar::Python,
{
    LoadedGrammar { grammar: Grammar::Python, language: tree_sitter_python::language() }
}

/// Relies on `tree_sitter_typescript::language_typescript` (the TypeScript grammar), loaded for `Grammar::TypeScript`.
#[verifier::external_body]
fn typescript_grammar() -> (r: LoadedGrammar)
    ensures
        r.grammar() == Grammar::TypeScript,
{
    LoadedGrammar { grammar: Grammar::TypeScript, language: tree_sitter_typescript::language_typescript() }
}

/// Relies on `tree_sitter_javascript::language` (the JavaScript grammar), loaded for `Grammar::JavaScript`.
#[verifier::external_body]
fn javascript_grammar() -> (r: LoadedGrammar)
    ensures
        r.grammar() == Grammar::JavaScript,
{
    LoadedGrammar { grammar: Grammar::JavaScript, language: tree_sitter_javascript::language() }
}

/// Relies on `tree_sitter_go::language` (the Go grammar), loaded for `Grammar::Go`.
#[verifier::external_body]
fn go_grammar() -> (r: LoadedGrammar)
    ensures
        r.grammar() == Grammar::Go,
{
    LoadedGrammar { grammar: Grammar::Go, language: tree_sitter_go::language() }
}

/// Relies on `tree_sitter_java::language` (the Java grammar), loaded for `Grammar::Java`.
#[verifier::external_body]
fn java_grammar() -> (r: LoadedGrammar)
    ensures
        r.grammar() == Grammar::Java,
{
    LoadedGrammar { grammar: Grammar::Java, language: tree_sitter_java::language() }
}

/// Relies on `tree_sitter::Parser::set_language` and `Parser::parse`: a
/// tree for `content`, partial where the source is malformed; `None` where
/// the grammar cannot be loaded or parsing gives up.
#[verifier::external_body]
fn parse_source(g: &LoadedGrammar, content: &str) -> (r: Option<ParsedSource>)
    ensures
        r is Some <==> parses(g.grammar(), content@),
        r matches Some(p) ==> p.grammar() == g.grammar() && p.text() == content@,
{
    let mut parser = tree_sitter::Parser::new();
    parser.set_language(g.language).ok()?;
    let tree = parser.parse(content, None)?;
    Some(ParsedSource { grammar: g.grammar, text: Ghost(content@), tree })
}

/// Relies on `tree_sitter::Query::new`, then `QueryCursor::matches` over
/// the tree's root with `Node::utf8_text`, `Node::parent` and
/// `Node::start_position`: the captures of every match, in match order, or
/// `None` where the grammar does not accept the query. A row counts the
/// line feeds before the node, so it is below `usize::MAX`.
#[verifier::external_body]
fn query_captures(g: &LoadedGrammar, p: &ParsedSource, query: &str, content: &str) -> (r: Option<
    Vec<Capture>,
>)
    requires
        p.grammar() == g.grammar(),
        p.text() == content@,
    ensures
        r is Some <==> captures_of(g.grammar(), query@, content@) is Some,
        r matches Some(v) ==> captures_of(g.grammar(), query@, content@) == Some(captures_view(v@))
            && forall|i: int| 0 <= i < v@.len() ==> (#[trigger] v@[i]).row < usize::MAX,
{
    let query = tree_sitter::Query::new(g.language, query).ok()?;
    let bytes = content.as_bytes();
    let mut cursor = tree_sitter::QueryCursor::new();
    let text_of = |n: tree_sitter::Node| n.utf8_text(bytes).ok().map(|t| t.to_string());
    Some(cursor.matches(&query, p.tree.root_node(), bytes).flat_map(|m| m.captures.iter().map(|c| Capture {
        text: text_of(c.node),
        row: c.node.start_position().row,
        parent_text: c.node.parent().and_then(text_of),
    }).collect::<Vec<_>>()).collect())
}

/// The languages with a registered grammar.
#[derive(Clone, Copy, Debug, PartialEq, Eq, Structural)]
pub enum Grammar {
    Python,
    TypeScript,
    JavaScript,
    Go,
    Java,
}

/// The grammar registered under a language tag, if any.
pub open spec fn grammar_of_tag(tag: Seq<char>) -> Option<Grammar> {
    if tag == "python"@ {
        Some(Grammar::Python)
    } else if tag == "typescript"@ {
        Some(Grammar::TypeScript)
    } else if tag == "javascript"@ {
        Some(Grammar::JavaScript)
    } else if tag == "go"@ {
        Some(Grammar::Go)
    } else if tag == "java"@ {
        Some(Grammar::Java)
    } else {
        None
    }
}

/// The four queries of a grammar: definitions of functions, of classes,
/// imports, and the identifiers harvested as references.
pub struct QuerySet {
    pub functions: &'static str,
    pub classes: &'static str,
    pub imports: &'static str,
    pub references: &'static str,
}

impl Grammar {
    /// The grammar registered under `tag`, if any.
    pub fn from_tag(tag: &str) -> (r: Option<Grammar>)
        ensures
            r == grammar_of_tag(tag@),
    {
        if same_text(tag, "python") {
            Some(Grammar::Python)
        } else if same_text(tag, "typescript") {
            Some(Grammar::TypeScript)
        } else if same_text(tag, "javascript") {
            Some(Grammar::JavaScript)
        } else if same_text(tag, "go") {
            Some(Grammar::Go)
        } else if same_text(tag, "java") {
            Some(Grammar::Java)
        } else {
            None
        }
    }

    fn load(&self) -> (r: LoadedGrammar)
        ensures
            r.grammar() == *self,
    {
        match self {
            Grammar::Python => python_grammar(),
            Grammar::TypeScript => typescript_grammar(),
            Grammar::JavaScript => javascript_grammar(),
            Grammar::Go => go_grammar(),
            Grammar::Java => java_grammar(),
        }
    }

    /// The grammar's four queries.
    pub fn queries(&self) -> (r: QuerySet)
        ensures
            r.functions@ == function_query_of(*self),
            r.classes@ == class_query_of(*self),
            r.imports@ == import_query_of(*self),
            r.references@ == reference_query_of(*self),
    {
        match self {
            Grammar::Python => QuerySet {
                functions: "(function_definition name: (identifier) @name)",
                classes: "(class_definition name: (identifier) @name)",
                imports: "(import_from_statement (dotted_name (identifier) @name)) (import_statement (dotted_name (identifier) @name))",
                references: "(identifier) @name",
            },
            Grammar::TypeScript | Grammar::JavaScript => QuerySet {
                functions: "(function_declaration name: (identifier) @name) (method_definition name: (property_identifier) @name)",
                classes: "(class_declaration name: (type_identifier) @name)",
                imports: "(import_statement (import_clause (named_imports (import_specifier name: (identifier) @name))))",
                references: "(identifier) @name",
            },
            Grammar::Go => QuerySet {
                functions: "(function_declaration name: (identifier) @name) (method_declaration name: (field_identifier) @name)",
                classes: "(type_declaration (type_spec name: (type_identifier) @name))",
                imports: "(import_spec path: (interpreted_string_literal) @name)",
                references: "(identifier) @name",
            },
            Grammar::Java => QuerySet {
                functions: "(method_declaration name: (identifier) @name) (constructor_declaration name: (identifier) @name)",
                classes: "(class_declaration name: (identifier) @name) (interface_declaration name: (identifier) @name) (enum_declaration name: (identifier) @name)",
                imports: "(import_declaration (scoped_identifier name: (identifier) @name)) (import_declaration (identifier) @name)",
                references: "(identifier) @name",
            },
        }
    }
}

/// The query for function and method definitions of a grammar.
pub open spec fn function_query_of(g: Grammar) -> Seq<char> {
    match g {
        Grammar::Python => "(function_definition name: (identifier) @name)"@,
        Grammar::TypeScript | Grammar::JavaScript => "(function_declaration name: (identifier) @name) (method_definition name: (property_identifier) @name)"@,
        Grammar::Go => "(function_declaration name: (identifier) @name) (method_declaration name: (field_identifier) @name)"@,
        Grammar::Java => "(method_declaration name: (identifier) @name) (constructor_declaration name: (identifier) @name)"@,
    }
}

/// The query for class and type definitions of a grammar.
pub open spec fn class_query_of(g: Grammar) -> Seq<char> {
    match g {
        Grammar::Python => "(class_definition name: (identifier) @name)"@,
        Grammar::TypeScript | Grammar::JavaScript => "(class_declaration name: (type_identifier) @name)"@,
        Grammar::Go => "(type_declaration (type_spec name: (type_identifier) @name))"@,
        Grammar::Java => "(class_declaration name: (identifier) @name) (interface_declaration name: (identifier) @name) (enum_declaration name: (identifier) @name)"@,
    }
}

/// The query for imports of a grammar.
pub open spec fn import_query_of(g: Grammar) -> Seq<char> {
    match g {
        Grammar::Python => "(import_from_statement (dotted_name (identifier) @name)) (import_statement (dotted_name (identifier) @name))"@,
        Grammar::TypeScript | Grammar::JavaScript => "(import_statement (import_clause (named_imports (import_specifier name: (identifier) @name))))"@,
        Grammar::Go => "(import_spec path: (interpreted_string_literal) @name)"@,
        Grammar::Java => "(import_declaration (scoped_identifier name: (identifier) @name)) (import_declaration (identifier) @name)"@,
    }
}

/// The query for identifier references of a grammar.
pub open spec fn reference_query_of(g: Grammar) -> Seq<char> {
    match g {
        Grammar::Python => "(identifier) @name"@,
        Grammar::TypeScript | Grammar::JavaScript => "(identifier) @name"@,
        Grammar::Go => "(identifier) @name"@,
        Grammar::Java => "(identifier) @name"@,
    }
}

/// A named definition found in a source.
#[derive(Clone, Debug)]
pub struct AstNodeInfo {
    pub name: String,
    pub line_number: usize,
    pub code_snippet: String,
}

pub struct AstNodeInfoView {
    pub name: Seq<char>,
    pub line_number: nat,
    pub code_snippet: Seq<char>,
}

impl View for AstNodeInfo {
    type V = AstNodeInfoView;

    open spec fn view(&self) -> AstNodeInfoView {
        AstNodeInfoView {
            name: self.name@,
            line_number: self.line_number as nat,
            code_snippet: self.code_snippet@,
        }
    }
}

/// What extraction found in one source.
#[derive(Clone, Debug)]
pub struct AstMetadata {
    pub functions: Vec<AstNodeInfo>,
    pub classes: Vec<AstNodeInfo>,
    pub imports: Vec<AstNodeInfo>,
    pub references: Vec<String>,
}

pub struct CaptureView {
    pub text: Option<Seq<char>>,
    pub row: nat,
    pub parent_text: Option<Seq<char>>,
}

impl View for Capture {
    type V = CaptureView;

    open spec fn view(&self) -> CaptureView {
        CaptureView {
            text: match self.text {
                Some(t) => Some(t@),
                None => None,
            },
            row: self.row as nat,
            parent_text: match self.parent_text {
                Some(t) => Some(t@),
                None => None,
            },
        }
    }
}

pub open spec fn captures_view(c: Seq<Capture>) -> Seq<CaptureView> {
    c.map_values(|x: Capture| x@)
}

pub open spec fn infos_view(v: Seq<AstNodeInfo>) -> Seq<AstNodeInfoView> {
    v.map_values(|x: AstNodeInfo| x@)
}

pub open spec fn strings_view(v: Seq<String>) -> Seq<Seq<char>> {
    v.map_values(|x: String| x@)
}

/// The snippet of a definition named `text`: the first line of its
/// parent's text (of its own text where it has no parent text, and its own
/// text where that first line does not exist), bounded.
pub open spec fn snippet_of(text: Seq<char>, parent: Option<Seq<char>>) -> Seq<char> {
    let base = match parent {
        Some(p) => p,
        None => text,
    };
    let line = match first_line_of(base) {
        Some(l) => l,
        None => text,
    };
    bounded_snippet_of(line)
}

/// The definitions of a capture list: one per capture whose text decoded,
/// in order, named by that text, on its 1-based row.
pub open spec fn infos_of(caps: Seq<CaptureView>) -> Seq<AstNodeInfoView>
    decreases caps.len(),
{
    if caps.len() == 0 {
        Seq::empty()
    } else {
        let prev = infos_of(caps.drop_last());
        let c = caps.last();
        match c.text {
            Some(t) => prev.push(
                AstNodeInfoView {
                    name: t,
                    line_number: (c.row + 1) as nat,
                    code_snippet: snippet_of(t, c.parent_text),
                },
            ),
            None => prev,
        }
    }
}

/// The texts of a capture list, in order, repeats kept; captures whose text
/// did not decode are left out.
pub open spec fn references_of(caps: Seq<CaptureView>) -> Seq<Seq<char>>
    decreases caps.len(),
{
    if caps.len() == 0 {
        Seq::empty()
    } else {
        let prev = references_of(caps.drop_last());
        match caps.last().text {
            Some(t) => prev.push(t),
            None => prev,
        }
    }
}

/// The definition a capture stands for (see `infos_of`).
pub fn node_info(c: &Capture) -> (r: Option<AstNodeInfo>)
    requires
        c.row < usize::MAX,
    ensures
        r is Some <==> c@.text is Some,
        r matches Some(i) ==> i@ == (AstNodeInfoView {
            name: c@.text->0,
            line_number: (c.row + 1) as nat,
            code_snippet: snippet_of(c@.text->0, c@.parent_text),
        }),
{
    match &c.text {
        None => None,
        Some(text) => {
            let base: &str = match &c.parent_text {
                Some(p) => p.as_str(),
                None => text.as_str(),
            };
            let snippet = match first_line(base) {
                Some(l) => bounded_snippet(l.as_str()),
                None => bounded_snippet(text.as_str()),
            };
            Some(AstNodeInfo { name: text.clone(), line_number: c.row + 1, code_snippet: snippet })
        },
    }
}

/// The definitions of a capture list (see `infos_of`).
pub fn infos_from(caps: &Vec<Capture>) -> (r: Vec<AstNodeInfo>)
    requires
        forall|i: int| 0 <= i < caps@.len() ==> (#[trigger] caps@[i]).row < usize::MAX,
    ensures
        infos_view(r@) == infos_of(captures_view(caps@)),
{
    let mut out: Vec<AstNodeInfo> = Vec::new();
    let mut i: usize = 0;
    while i < caps.len()
        invariant
            i <= caps@.len(),
            forall|k: int| 0 <= k < caps@.len() ==> (#[trigger] caps@[k]).row < usize::MAX,
            infos_view(out@) == infos_of(captures_view(caps@.take(i as int))),
        decreases caps@.len() - i,
    {
        assert(captures_view(caps@.take(i + 1)).drop_last() =~= captures_view(caps@.take(i as int)));
        match node_info(&caps[i]) {
            Some(info) => {
                let ghost before = out@;
                out.push(info);
                assert(infos_view(out@) =~= infos_view(before).push(info@));
            },
            None => {},
        }
        assert(infos_view(out@) =~= infos_of(captures_view(caps@.take(i + 1))));
        i = i + 1;
    }
    assert(caps@.take(caps@.len() as int) =~= caps@);
    out
}

/// The references of a capture list (see `references_of`).
pub fn references_from(caps: &Vec<Capture>) -> (r: Vec<String>)
    ensures
        strings_view(r@) == references_of(captures_view(caps@)),
{
    let mut out: Vec<String> = Vec::new();
    let mut i: usize = 0;
    while i < caps.len()
        invariant
            i <= caps@.len(),
            strings_view(out@) == references_of(captures_view(caps@.take(i as int))),
        decreases caps@.len() - i,
    {
        assert(captures_view(caps@.take(i + 1)).drop_last() =~= captures_view(caps@.take(i as int)));
        match &caps[i].text {
            Some(t) => {
                let ghost before = out@;
                out.push(t.clone());
                assert(strings_view(out@) =~= strings_view(before).push(t@));
            },
            None => {},
        }
        assert(strings_view(out@) =~= references_of(captures_view(caps@.take(i + 1))));
        i = i + 1;
    }
    assert(caps@.take(caps@.len() as int) =~= caps@);
    out
}

/// Metadata with nothing in it.
pub fn empty_metadata() -> (r: AstMetadata)
    ensures
        r.functions@.len() == 0,
        r.classes@.len() == 0,
        r.imports@.len() == 0,
        r.references@.len() == 0,
{
    AstMetadata { functions: Vec::new(), classes: Vec::new(), imports: Vec::new(), references: Vec::new() }
}

/// Metadata from the captures of the four queries: definitions from the
/// first three, references from the last.
pub fn metadata_from(
    functions: &Vec<Capture>,
    classes: &Vec<Capture>,
    imports: &Vec<Capture>,
    references: &Vec<Capture>,
) -> (r: AstMetadata)
    requires
        forall|i: int| 0 <= i < functions@.len() ==> (#[trigger] functions@[i]).row < usize::MAX,
        forall|i: int| 0 <= i < classes@.len() ==> (#[trigger] classes@[i]).row < usize::MAX,
        forall|i: int| 0 <= i < imports@.len() ==> (#[trigger] imports@[i]).row < usize::MAX,
    ensures
        infos_view(r.functions@) == infos_of(captures_view(functions@)),
        infos_view(r.classes@) == infos_of(captures_view(classes@)),
        infos_view(r.imports@) == infos_of(captures_view(imports@)),
        strings_view(r.references@) == references_of(captures_view(references@)),
{
    AstMetadata {
        functions: infos_from(functions),
        classes: infos_from(classes),
        imports: infos_from(imports),
        references: references_from(references),
    }
}

/// The definitions a category's query yields: none where the grammar does
/// not accept the query.
pub open spec fn category_infos(g: Grammar, query: Seq<char>, content: Seq<char>) -> Seq<
    AstNodeInfoView,
> {
    match captures_of(g, query, content) {
        Some(c) => infos_of(c),
        None => Seq::empty(),
    }
}

/// The references the reference query yields: none where the grammar does
/// not accept the query.
pub open spec fn category_references(g: Grammar, query: Seq<char>, content: Seq<char>) -> Seq<
    Seq<char>,
> {
    match captures_of(g, query, content) {
        Some(c) => references_of(c),
        None => Seq::empty(),
    }
}

/// Each category of `r` holds what its query of grammar `g` yields on `content`.
pub open spec fn extracted_as(r: AstMetadata, g: Grammar, content: Seq<char>) -> bool {
    &&& infos_view(r.functions@) == category_infos(g, function_query_of(g), content)
    &&& infos_view(r.classes@) == category_infos(g, class_query_of(g), content)
    &&& infos_view(r.imports@) == category_infos(g, import_query_of(g), content)
    &&& strings_view(r.references@) == category_references(g, reference_query_of(g), content)
}

fn category(g: &LoadedGrammar, p: &ParsedSource, query: &str, content: &str) -> (r: Vec<AstNodeInfo>)
    requires
        p.grammar() == g.grammar(),
        p.text() == content@,
    ensures
        infos_view(r@) == category_infos(g.grammar(), query@, content@),
{
    match query_captures(g, p, query, content) {
        Some(caps) => infos_from(&caps),
        None => {
            let r: Vec<AstNodeInfo> = Vec::new();
            assert(infos_view(r@) =~= Seq::<AstNodeInfoView>::empty());
            r
        },
    }
}

/// Extracts definitions and references from `content` with the grammar
/// registered under `language`. A language with no grammar, or a source the
/// grammar cannot parse, gives empty metadata. Otherwise each category holds
/// what its query yields, and a query the grammar does not accept empties
/// its own category only.
pub fn extract(content: &str, language: &str) -> (r: AstMetadata)
    ensures
        grammar_of_tag(language@) is None || !parses(grammar_of_tag(language@)->0, content@) ==> {
            &&& r.functions@.len() == 0
            &&& r.classes@.len() == 0
            &&& r.imports@.len() == 0
            &&& r.references@.len() == 0
        },
        grammar_of_tag(language@) is Some && parses(grammar_of_tag(language@)->0, content@)
            ==> extracted_as(r, grammar_of_tag(language@)->0, content@),
{
    let grammar = match Grammar::from_tag(language) {
        Some(g) => g,
        None => return empty_metadata(),
    };
    let loaded = grammar.load();
    let parsed = match parse_source(&loaded, content) {
        Some(p) => p,
        None => return empty_metadata(),
    };
    let qs = grammar.queries();
    let functions = category(&loaded, &parsed, qs.functions, content);
    let classes = category(&loaded, &parsed, qs.classes, content);
    let imports = category(&loaded, &parsed, qs.imports, content);
    let references = match query_captures(&loaded, &parsed, qs.references, content) {
        Some(caps) => references_from(&caps),
        None => {
            let r: Vec<String> = Vec::new();
            assert(strings_view(r@) =~= Seq::<Seq<char>>::empty());
            r
        },
    };
    AstMetadata { functions, classes, imports, references }
}

} // verus!
