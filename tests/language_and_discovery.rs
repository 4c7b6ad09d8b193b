use warden_core::discovery::{admit_file, exceeds_limit, is_binary_content, size_limit_bytes};
use warden_core::language::{detect_language, language_for_extension, SourceLanguage};

#[test]
fn extension_classification_is_case_insensitive() {
    assert_eq!(detect_language("src/app.PY"), SourceLanguage::Python);
    assert_eq!(detect_language("lib/mod.Ts"), SourceLanguage::TypeScript);
    assert_eq!(detect_language("ui/view.tsx"), SourceLanguage::Tsx);
    assert_eq!(detect_language("a/b/c.JSX"), SourceLanguage::JavaScript);
}

#[test]
fn header_files_default_to_c() {
    assert_eq!(detect_language("include/x.h"), SourceLanguage::C);
    assert_eq!(detect_language("include/x.hpp"), SourceLanguage::Cpp);
}

#[test]
fn unknown_and_missing_extensions() {
    assert_eq!(detect_language("Makefile"), SourceLanguage::Unknown);
    assert_eq!(detect_language("notes.txt"), SourceLanguage::Unknown);
    assert_eq!(detect_language(".bashrc"), SourceLanguage::Unknown);
    assert_eq!(language_for_extension(""), SourceLanguage::Unknown);
}

#[test]
fn language_tags() {
    assert_eq!(SourceLanguage::CSharp.tag(), "csharp");
    assert_eq!(SourceLanguage::Shell.tag(), "shell");
    assert_eq!(detect_language("x.yml").tag(), "yaml");
    assert_eq!(detect_language("x.kts").tag(), "kotlin");
}

#[test]
fn size_limit_default_and_override() {
    assert_eq!(size_limit_bytes(None), 100 * 1024 * 1024);
    assert_eq!(size_limit_bytes(Some(1)), 1024 * 1024);
    assert_eq!(size_limit_bytes(Some(0)), 0);
    assert_eq!(size_limit_bytes(Some(u64::MAX)), u64::MAX);
    assert!(exceeds_limit(11, 10));
    assert!(!exceeds_limit(10, 10));
}

#[test]
fn sniff_zero_byte_is_binary() {
    assert!(is_binary_content(b"abc\x00def"));
    assert!(!is_binary_content(b"plain text\n"));
    assert!(!is_binary_content(b""));
}

#[test]
fn sniff_magic_numbers_and_byte_order_marks() {
    assert!(is_binary_content(b"%PDF-1.4"));
    assert!(is_binary_content(b"\x89PNG\r\n"));
    // a UTF-16 byte order mark makes the zero bytes text
    assert!(!is_binary_content(b"\xFF\xFEa\x00b\x00"));
    assert!(!is_binary_content(b"\xEF\xBB\xBFhello"));
}

#[test]
fn sniff_looks_at_first_kilobyte_only() {
    let mut late = vec![b'a'; 1024];
    late.push(0);
    assert!(!is_binary_content(&late));
    let mut early = vec![b'a'; 1023];
    early.push(0);
    assert!(is_binary_content(&early));
}

#[test]
fn admits_small_text_file() {
    let d = admit_file("src/main.go", 10, 100, Some(b"package main")).unwrap();
    assert_eq!(d.path, "src/main.go");
    assert_eq!(d.size, 10);
    assert_eq!(d.language, SourceLanguage::Go);
}

#[test]
fn never_admits_oversized_or_binary_or_unopened() {
    assert!(admit_file("big.py", 101, 100, Some(b"x = 1")).is_none());
    assert!(admit_file("blob.py", 5, 100, Some(b"\x00\x01")).is_none());
    assert!(admit_file("gone.py", 5, 100, None).is_none());
    assert!(admit_file("edge.py", 100, 100, Some(b"x")).is_some());
}
