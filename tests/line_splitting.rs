use warden_core::lines::split_lines;

#[test]
fn splits_at_line_feeds() {
    assert_eq!(split_lines(b"a\nb\n"), vec![Some("a".to_string()), Some("b".to_string())]);
    assert_eq!(split_lines(b"a\nb"), vec![Some("a".to_string()), Some("b".to_string())]);
    assert_eq!(split_lines(b""), Vec::<Option<String>>::new());
    assert_eq!(split_lines(b"\n"), vec![Some(String::new())]);
}

#[test]
fn strips_carriage_return_only_before_line_feed() {
    assert_eq!(split_lines(b"a\r\nb\r"), vec![Some("a".to_string()), Some("b\r".to_string())]);
    assert_eq!(split_lines(b"a\r\r\n"), vec![Some("a\r".to_string())]);
}

#[test]
fn invalid_utf8_line_is_none() {
    assert_eq!(split_lines(b"ok\n\xff\nd\xc3\xa9j\xc3\xa0"), vec![
        Some("ok".to_string()),
        None,
        Some("déjà".to_string()),
    ]);
}
