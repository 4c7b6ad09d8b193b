use warden_core::matcher::{compile_rules, RustRule};
use warden_core::text::decimal;
use warden_core::validate::{metric_results, needs_line_count, needs_lines, pattern_results, validate_file, MetricRule, MetricType};

#[test]
fn size_rule_violated() {
    let rules = vec![MetricRule::new("big".to_string(), MetricType::SizeBytes, 10)];
    let r = metric_results(&"f.txt".to_string(), 20, None, &rules);
    assert_eq!(r.len(), 1);
    assert_eq!(r[0].rule_id, "big");
    assert_eq!(r[0].file_path, "f.txt");
    assert_eq!(r[0].line, 0);
    assert_eq!(r[0].snippet, "");
    assert_eq!(r[0].message, "File size 20 exceeds limit 10");
    assert!(r[0].message.contains("20") && r[0].message.contains("10"));
}

#[test]
fn size_at_threshold_is_fine() {
    let rules = vec![MetricRule::new("big".to_string(), MetricType::SizeBytes, 20)];
    assert!(metric_results(&"f".to_string(), 20, None, &rules).is_empty());
}

#[test]
fn no_size_rule_no_size_result() {
    let rules = vec![MetricRule::new("long".to_string(), MetricType::LineCount, 2)];
    assert!(needs_line_count(&rules));
    let r = metric_results(&"f".to_string(), 1_000_000, Some(5), &rules);
    assert_eq!(r.len(), 1);
    assert_eq!(r[0].rule_id, "long");
    assert_eq!(r[0].message, "Line count 5 exceeds limit 2");
}

#[test]
fn size_results_come_before_line_results() {
    let rules = vec![
        MetricRule::new("long".to_string(), MetricType::LineCount, 0),
        MetricRule::new("big".to_string(), MetricType::SizeBytes, 0),
    ];
    let r = metric_results(&"f".to_string(), 7, Some(3), &rules);
    let ids: Vec<&str> = r.iter().map(|v| v.rule_id.as_str()).collect();
    assert_eq!(ids, vec!["big", "long"]);
}

#[test]
fn line_rules_skipped_without_count() {
    let rules = vec![MetricRule::new("big".to_string(), MetricType::SizeBytes, 100)];
    assert!(!needs_line_count(&rules));
    let long = vec![MetricRule::new("long".to_string(), MetricType::LineCount, 0)];
    assert!(metric_results(&"f".to_string(), 5, None, &long).is_empty());
}

#[test]
fn metric_names() {
    assert_eq!(MetricType::from_name("size_bytes"), Some(MetricType::SizeBytes));
    assert_eq!(MetricType::from_name("line_count"), Some(MetricType::LineCount));
    assert_eq!(MetricType::from_name("lines"), None);
}

#[test]
fn pattern_violations_per_line_and_rule() {
    let rules = compile_rules(&vec![
        RustRule::new("p1".to_string(), "secret".to_string()),
        RustRule::new("p2".to_string(), "key".to_string()),
    ]);
    let lines = vec![Some("  secret key ".to_string()), Some("nothing".to_string()), Some("key".to_string())];
    let r = pattern_results(&"c.env".to_string(), &lines, &rules);
    assert_eq!(r.len(), 3);
    assert_eq!((r[0].rule_id.as_str(), r[0].line), ("p1", 1));
    assert_eq!((r[1].rule_id.as_str(), r[1].line), ("p2", 1));
    assert_eq!((r[2].rule_id.as_str(), r[2].line), ("p2", 3));
    assert_eq!(r[0].snippet, "secret key");
    assert_eq!(r[0].message, "Pattern match found");
}

#[test]
fn decimal_rendering() {
    assert_eq!(decimal(0), "0");
    assert_eq!(decimal(7), "7");
    assert_eq!(decimal(1234567890), "1234567890");
    assert_eq!(decimal(u64::MAX), "18446744073709551615");
}

#[test]
fn whole_file_validation() {
    let rules = compile_rules(&vec![RustRule::new("todo".to_string(), "TODO".to_string())]);
    let metrics = vec![
        MetricRule::new("big".to_string(), MetricType::SizeBytes, 10),
        MetricRule::new("long".to_string(), MetricType::LineCount, 1),
    ];
    assert!(needs_lines(&rules, &metrics));
    assert!(!needs_lines(&compile_rules(&vec![]), &vec![metrics[0].clone()]));
    let lines = vec![Some("x".to_string()), None, Some("TODO y".to_string())];
    let r = validate_file(&"f".to_string(), Some(20), Some(&lines), &rules, &metrics);
    let got: Vec<(&str, usize)> = r.iter().map(|v| (v.rule_id.as_str(), v.line)).collect();
    assert_eq!(got, vec![("big", 0), ("long", 0), ("todo", 3)]);
    assert_eq!(r[1].message, "Line count 3 exceeds limit 1");
    let no_meta = validate_file(&"f".to_string(), None, Some(&lines), &rules, &metrics);
    assert_eq!(no_meta.len(), 1);
}
