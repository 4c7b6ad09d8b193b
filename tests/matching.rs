use warden_core::matcher::{compile_rules, match_file, RustRule};

fn lines(ls: &[&str]) -> Vec<Option<String>> {
    ls.iter().map(|l| Some(l.to_string())).collect()
}

#[test]
fn todo_on_second_line() {
    let rules = compile_rules(&vec![RustRule::new("r1".to_string(), "TODO".to_string())]);
    let hits = match_file(&"x.txt".to_string(), &lines(&["let a = 1;", "// TODO: fix"]), &rules);
    assert_eq!(hits.len(), 1);
    assert_eq!(hits[0].file_path, "x.txt");
    assert_eq!(hits[0].line_number, 2);
    assert_eq!(hits[0].column, 4);
    assert_eq!(hits[0].rule_id, "r1");
    assert_eq!(hits[0].snippet, "// TODO: fix");
}

#[test]
fn column_counts_raw_line_snippet_is_trimmed() {
    let rules = compile_rules(&vec![RustRule::new("r".to_string(), "FIXME".to_string())]);
    let hits = match_file(&"f.rs".to_string(), &lines(&["    x(); // FIXME  "]), &rules);
    assert_eq!(hits.len(), 1);
    assert_eq!(hits[0].column, 13);
    assert_eq!(hits[0].snippet, "x(); // FIXME");
}

#[test]
fn column_is_a_byte_offset() {
    let rules = compile_rules(&vec![RustRule::new("r".to_string(), "b".to_string())]);
    let hits = match_file(&"u.txt".to_string(), &lines(&["éb"]), &rules);
    assert_eq!(hits[0].column, 3);
}

#[test]
fn one_hit_per_rule_per_line_leftmost() {
    let rules = compile_rules(&vec![
        RustRule::new("a".to_string(), "o".to_string()),
        RustRule::new("b".to_string(), "fo+".to_string()),
    ]);
    let hits = match_file(&"p".to_string(), &lines(&["foo foo", "bar"]), &rules);
    assert_eq!(hits.len(), 2);
    assert_eq!((hits[0].rule_id.as_str(), hits[0].column), ("a", 2));
    assert_eq!((hits[1].rule_id.as_str(), hits[1].column), ("b", 1));
}

#[test]
fn invalid_patterns_are_dropped() {
    let rules = compile_rules(&vec![
        RustRule::new("bad".to_string(), "(".to_string()),
        RustRule::new("good".to_string(), "x".to_string()),
    ]);
    assert_eq!(rules.len(), 1);
    assert_eq!(rules[0].id(), "good");
}

#[test]
fn no_compiled_rule_no_hits() {
    let rules = compile_rules(&vec![RustRule::new("bad".to_string(), "[".to_string())]);
    assert!(rules.is_empty());
    let hits = match_file(&"does/not/exist.txt".to_string(), &lines(&["[", "anything"]), &rules);
    assert!(hits.is_empty());
}

#[test]
fn undecodable_lines_keep_their_number() {
    let rules = compile_rules(&vec![RustRule::new("r".to_string(), "z".to_string())]);
    let ls = vec![None, Some("z".to_string())];
    let hits = match_file(&"p".to_string(), &ls, &rules);
    assert_eq!(hits.len(), 1);
    assert_eq!(hits[0].line_number, 2);
}

#[test]
fn snippet_trims_unicode_white_space() {
    let rules = compile_rules(&vec![RustRule::new("r".to_string(), "k".to_string())]);
    let hits = match_file(&"p".to_string(), &lines(&["\u{3000}\u{a0}\tkey \u{2029}"]), &rules);
    assert_eq!(hits[0].snippet, "key");
    assert_eq!(hits[0].column, 1 + "\u{3000}\u{a0}\t".len());
}
