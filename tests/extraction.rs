use warden_core::extract::{extract, metadata_from, Capture, Grammar};
use warden_core::text::{bounded_snippet, first_line, trim_text};

#[test]
fn python_scenario() {
    let content = "def foo():\n    pass\nimport os\n";
    let m = extract(content, "python");
    assert_eq!(m.functions.len(), 1);
    assert_eq!(m.functions[0].name, "foo");
    assert_eq!(m.functions[0].line_number, 1);
    assert_eq!(m.functions[0].code_snippet, "def foo():");
    assert!(m.classes.is_empty());
    assert_eq!(m.imports.len(), 1);
    assert_eq!(m.imports[0].name, "os");
    assert_eq!(m.imports[0].line_number, 3);
    assert!(m.references.iter().any(|r| r == "foo"));
    assert!(m.references.iter().any(|r| r == "os"));
}

#[test]
fn references_keep_repeats() {
    let m = extract("x = 1\ny = x + x\n", "python");
    assert_eq!(m.references.iter().filter(|r| r.as_str() == "x").count(), 3);
    assert_eq!(m.references[0], "x");
}

#[test]
fn unsupported_language_is_empty() {
    let m = extract("fn main() {}", "rust");
    assert!(m.functions.is_empty() && m.classes.is_empty() && m.imports.is_empty() && m.references.is_empty());
}

#[test]
fn java_definitions() {
    let m = extract("import java.util.List;\nclass A {\n  A() {}\n  void f() {}\n}\n", "java");
    let names: Vec<&str> = m.functions.iter().map(|f| f.name.as_str()).collect();
    assert_eq!(names, vec!["A", "f"]);
    assert_eq!(m.classes.len(), 1);
    assert_eq!(m.classes[0].name, "A");
    assert_eq!(m.imports.len(), 1);
    assert_eq!(m.imports[0].name, "List");
    assert!(m.references.iter().any(|r| r == "f"));
    assert_eq!(Grammar::from_tag("java"), Some(Grammar::Java));
    assert_eq!(Grammar::from_tag("tsx"), None);
}

#[test]
fn query_table() {
    for g in [Grammar::Python, Grammar::TypeScript, Grammar::JavaScript, Grammar::Go, Grammar::Java] {
        let q = g.queries();
        assert!(!q.functions.is_empty() && !q.classes.is_empty() && !q.imports.is_empty());
        assert_eq!(q.references, "(identifier) @name");
    }
}

#[test]
fn go_and_typescript_definitions() {
    let g = extract("package m\nimport \"fmt\"\ntype T struct{}\nfunc (t T) M() {}\n", "go");
    assert_eq!(g.classes[0].name, "T");
    assert_eq!(g.functions[0].name, "M");
    assert_eq!(g.functions[0].line_number, 4);
    assert_eq!(g.imports[0].name, "\"fmt\"");
    let t = extract("import { a } from 'm';\nclass C { run() {} }\n", "typescript");
    assert_eq!(t.classes[0].name, "C");
    assert_eq!(t.functions[0].name, "run");
    assert_eq!(t.imports[0].name, "a");
}

#[test]
fn malformed_source_does_not_fail() {
    let m = extract("def (:\n  ))\ndef ok():\n  pass\n", "python");
    assert!(m.functions.iter().any(|f| f.name == "ok"));
}

#[test]
fn snippets_from_captures() {
    let long = "x".repeat(250);
    let caps = vec![
        Capture { text: Some("f".to_string()), row: 4, parent_text: Some("def f():\r\n  pass".to_string()) },
        Capture { text: None, row: 0, parent_text: None },
        Capture { text: Some("g".to_string()), row: 0, parent_text: None },
        Capture { text: Some("h".to_string()), row: 1, parent_text: Some(long.clone()) },
    ];
    let m = metadata_from(&caps, &vec![], &vec![], &caps);
    assert_eq!(m.functions.len(), 3);
    assert_eq!(m.functions[0].line_number, 5);
    assert_eq!(m.functions[0].code_snippet, "def f():");
    assert_eq!(m.functions[1].code_snippet, "g");
    assert_eq!(m.functions[2].code_snippet, format!("{}...", "x".repeat(200)));
    assert_eq!(m.references, vec!["f", "g", "h"]);
}

#[test]
fn first_lines_and_bounds() {
    assert_eq!(first_line(""), None);
    assert_eq!(first_line("\nabc").as_deref(), Some(""));
    assert_eq!(first_line("ab\r\ncd").as_deref(), Some("ab"));
    assert_eq!(first_line("ab\r").as_deref(), Some("ab\r"));
    let s = "é".repeat(201);
    assert_eq!(bounded_snippet(&s), format!("{}...", "é".repeat(200)));
    assert_eq!(bounded_snippet(&"é".repeat(200)), "é".repeat(200));
}


#[test]
fn trimming_matches_std() {
    for s in ["", "  ", " a b ", "\u{85}x\u{200a}", "\u{feff}x", "\r\nx\r\n", "\u{2000}é\u{3000}"] {
        assert_eq!(trim_text(s), s.trim());
    }
}
