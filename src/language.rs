//! SourceLanguage classification by file extension.

use vstd::prelude::*;
use vstd::string::*;
use crate::text::same_text;

verus! {

/// The languages a file can be classified as.
#[derive(Clone, Copy, Debug, PartialEq, Eq, Structural)]
pub enum SourceLanguage {
    Python,
    JavaScript,
    TypeScript,
    Tsx,
    Go,
    Rust,
    Java,
    Dart,
    Swift,
    Kotlin,
    C,
    Cpp,
    CSharp,
    Ruby,
    Php,
    Markdown,
    Yaml,
    Json,
    Sql,
    Shell,
    Unknown,
}

/// The language that a lower-case extension (without its dot) stands for.
pub open spec fn language_of_extension(e: Seq<char>) -> SourceLanguage {
    if e == "py"@ || e == "pyw"@ {
        SourceLanguage::Python
    } else if e == "js"@ || e == "jsx"@ || e == "mjs"@ || e == "cjs"@ {
        SourceLanguage::JavaScript
    } else if e == "ts"@ {
        SourceLanguage::TypeScript
    } else if e == "tsx"@ {
        SourceLanguage::Tsx
    } else if e == "go"@ {
        SourceLanguage::Go
    } else if e == "rs"@ {
        SourceLanguage::Rust
    } else if e == "java"@ {
        SourceLanguage::Java
    } else if e == "dart"@ {
        SourceLanguage::Dart
    } else if e == "swift"@ {
        SourceLanguage::Swift
    } else if e == "kt"@ || e == "kts"@ {
        SourceLanguage::Kotlin
    } else if e == "c"@ || e == "h"@ {
        SourceLanguage::C
    } else if e == "cpp"@ || e == "cc"@ || e == "cxx"@ || e == "hpp"@ || e == "hh"@ {
        SourceLanguage::Cpp
    } else if e == "cs"@ {
        SourceLanguage::CSharp
    } else if e == "rb"@ {
        SourceLanguage::Ruby
    } else if e == "php"@ {
        SourceLanguage::Php
    } else if e == "md"@ {
        SourceLanguage::Markdown
    } else if e == "yaml"@ || e == "yml"@ {
        SourceLanguage::Yaml
    } else if e == "json"@ {
        SourceLanguage::Json
    } else if e == "sql"@ {
        SourceLanguage::Sql
    } else if e == "sh"@ {
        SourceLanguage::Shell
    } else {
        SourceLanguage::Unknown
    }
}

/// What `std::path::Path::extension` gives for a path, as text.
pub uninterp spec fn extension_of(path: Seq<char>) -> Option<Seq<char>>;

/// What `str::to_lowercase` gives for a text.
pub uninterp spec fn lowercase_of(s: Seq<char>) -> Seq<char>;

/// The language of a path: that of its lower-cased extension, and that of
/// the empty extension where the path has none.
pub open spec fn language_of_path(path: Seq<char>) -> SourceLanguage {
    match extension_of(path) {
        Some(e) => language_of_extension(lowercase_of(e)),
        None => language_of_extension(Seq::empty()),
    }
}

/// Relies on `std::path::Path::extension`: the part of the final path
/// component after its last dot, if there is one.
#[verifier::external_body]
fn path_extension(path: &str) -> (r: Option<String>)
    ensures
        r is Some <==> extension_of(path@) is Some,
        r matches Some(e) ==> extension_of(path@) == Some(e@),
{
    std::path::Path::new(path).extension().and_then(|s| s.to_str()).map(|s| s.to_string())
}

/// Relies on `str::to_lowercase`: the lower-case form of a text.
#[verifier::external_body]
fn to_lowercase(s: &str) -> (r: String)
    ensures
        r@ == lowercase_of(s@),
{
    s.to_lowercase()
}

/// Classifies a lower-case extension (without its dot).
pub fn language_for_extension(e: &str) -> (r: SourceLanguage)
    ensures
        r == language_of_extension(e@),
{
    if same_text(e, "py") || same_text(e, "pyw") {
        SourceLanguage::Python
    } else if same_text(e, "js") || same_text(e, "jsx") || same_text(e, "mjs") || same_text(e, "cjs") {
        SourceLanguage::JavaScript
    } else if same_text(e, "ts") {
        SourceLanguage::TypeScript
    } else if same_text(e, "tsx") {
        SourceLanguage::Tsx
    } else if same_text(e, "go") {
        SourceLanguage::Go
    } else if same_text(e, "rs") {
        SourceLanguage::Rust
    } else if same_text(e, "java") {
        SourceLanguage::Java
    } else if same_text(e, "dart") {
        SourceLanguage::Dart
    } else if same_text(e, "swift") {
        SourceLanguage::Swift
    } else if same_text(e, "kt") || same_text(e, "kts") {
        SourceLanguage::Kotlin
    } else if same_text(e, "c") || same_text(e, "h") {
        SourceLanguage::C
    } else if same_text(e, "cpp") || same_text(e, "cc") || same_text(e, "cxx") || same_text(e, "hpp")
        || same_text(e, "hh") {
        SourceLanguage::Cpp
    } else if same_text(e, "cs") {
        SourceLanguage::CSharp
    } else if same_text(e, "rb") {
        SourceLanguage::Ruby
    } else if same_text(e, "php") {
        SourceLanguage::Php
    } else if same_text(e, "md") {
        SourceLanguage::Markdown
    } else if same_text(e, "yaml") || same_text(e, "yml") {
        SourceLanguage::Yaml
    } else if same_text(e, "json") {
        SourceLanguage::Json
    } else if same_text(e, "sql") {
        SourceLanguage::Sql
    } else if same_text(e, "sh") {
        SourceLanguage::Shell
    } else {
        SourceLanguage::Unknown
    }
}

/// Classifies a path by its extension, case-insensitively; a path without
/// an extension, or with one not listed, is `Unknown`.
pub fn detect_language(path: &str) -> (r: SourceLanguage)
    ensures
        r == language_of_path(path@),
{
    match path_extension(path) {
        Some(e) => {
            let lower = to_lowercase(e.as_str());
            language_for_extension(lower.as_str())
        },
        None => {
            proof {
                reveal_strlit("");
            }
            assert(""@ =~= Seq::<char>::empty());
            language_for_extension("")
        },
    }
}

impl SourceLanguage {
    /// The tag under which callers know the language.
    pub open spec fn tag_spec(self) -> Seq<char> {
        match self {
            SourceLanguage::Python => "python"@,
            SourceLanguage::JavaScript => "javascript"@,
            SourceLanguage::TypeScript => "typescript"@,
            SourceLanguage::Tsx => "tsx"@,
            SourceLanguage::Go => "go"@,
            SourceLanguage::Rust => "rust"@,
            SourceLanguage::Java => "java"@,
            SourceLanguage::Dart => "dart"@,
            SourceLanguage::Swift => "swift"@,
            SourceLanguage::Kotlin => "kotlin"@,
            SourceLanguage::C => "c"@,
            SourceLanguage::Cpp => "cpp"@,
            SourceLanguage::CSharp => "csharp"@,
            SourceLanguage::Ruby => "ruby"@,
            SourceLanguage::Php => "php"@,
            SourceLanguage::Markdown => "markdown"@,
            SourceLanguage::Yaml => "yaml"@,
            SourceLanguage::Json => "json"@,
            SourceLanguage::Sql => "sql"@,
            SourceLanguage::Shell => "shell"@,
            SourceLanguage::Unknown => "unknown"@,
        }
    }

    /// The tag under which callers know the language.
    pub fn tag(&self) -> (r: String)
        ensures
            r@ == self.tag_spec(),
    {
        let s: &str = match self {
            SourceLanguage::Python => "python",
            SourceLanguage::JavaScript => "javascript",
            SourceLanguage::TypeScript => "typescript",
            SourceLanguage::Tsx => "tsx",
            SourceLanguage::Go => "go",
            SourceLanguage::Rust => "rust",
            SourceLanguage::Java => "java",
            SourceLanguage::Dart => "dart",
            SourceLanguage::Swift => "swift",
            SourceLanguage::Kotlin => "kotlin",
            SourceLanguage::C => "c",
            SourceLanguage::Cpp => "cpp",
            SourceLanguage::CSharp => "csharp",
            SourceLanguage::Ruby => "ruby",
            SourceLanguage::Php => "php",
            SourceLanguage::Markdown => "markdown",
            SourceLanguage::Yaml => "yaml",
            SourceLanguage::Json => "json",
            SourceLanguage::Sql => "sql",
            SourceLanguage::Shell => "shell",
            SourceLanguage::Unknown => "unknown",
        };
        String::from_str(s)
    }
}

} // verus!
