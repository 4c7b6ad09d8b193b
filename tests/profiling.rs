use warden_core::language::SourceLanguage;
use warden_core::profile::{binary_stats, hashes_binary, needs_contents, profile_file, text_stats, unreadable_stats};

#[test]
fn text_profile_counts_lines_and_hashes_normalized() {
    let s = text_stats("dir/a.py", 4, b"a\nb\n");
    assert_eq!(s.path, "dir/a.py");
    assert_eq!(s.size, 4);
    assert_eq!(s.line_count, 2);
    assert!(!s.is_binary);
    assert_eq!(s.hash, "911169ddaaf146aff539f58c26c489af3b892dff0fe283c1c264c65ae5aa59a2");
    assert_eq!(s.language, SourceLanguage::Python);
}

#[test]
fn text_profile_is_deterministic() {
    let a = text_stats("x.md", 2, "é".as_bytes());
    let b = text_stats("x.md", 2, "é".as_bytes());
    assert_eq!(a.hash, b.hash);
    assert_eq!(a.hash, "edd3a863872a04239eb29ad4bc12fc892b3d4ae57cc7e786a3697816f8e141c2");
}

#[test]
fn empty_text_file() {
    let s = text_stats("e.txt", 0, b"");
    assert_eq!(s.line_count, 0);
    assert_eq!(s.hash, "e3b0c44298fc1c149afbf4c8996fb92427ae41e4649b934ca495991b7852b855");
}

#[test]
fn lines_that_are_not_utf8_are_counted_and_hashed() {
    let s = text_stats("t.txt", 7, b"a\n\xff\xfe\nb");
    assert_eq!(s.line_count, 3);
    assert_eq!(s.hash, "87ae39d9a5dce064cd419c0f2bc0c73cfa6529ffee81668c87bea43c3b1f450a");
    let t = text_stats("u.txt", 2, b"\xff\n");
    assert_eq!(t.line_count, 1);
    assert_eq!(t.hash, "e4688624e5f1ad0629505e6768e3bb36244f2f3e33e751215afa820334a76ed3");
}

#[test]
fn binary_profile_hashes_raw_bytes_below_cutoff() {
    let s = binary_stats("b.bin", 3, Some(&[0u8, 1, 2]));
    assert!(s.is_binary);
    assert_eq!(s.line_count, 0);
    assert_eq!(s.hash, "ae4b3280e56e2faf83f414a6e3dabe9d5fbe18976544c05fed121accb85b53fc");
    assert_eq!(s.language, SourceLanguage::Unknown);
}

#[test]
fn binary_profile_skips_hash_at_cutoff() {
    assert!(hashes_binary(49_999_999));
    assert!(!hashes_binary(50_000_000));
    let s = binary_stats("big.bin", 50_000_000, Some(&[0u8, 1, 2]));
    assert_eq!(s.hash, "");
    let t = binary_stats("unread.bin", 3, None);
    assert_eq!(t.hash, "");
}

#[test]
fn unreadable_profile_is_empty() {
    let s = unreadable_stats("missing.rs");
    assert_eq!(s.size, 0);
    assert_eq!(s.line_count, 0);
    assert!(!s.is_binary);
    assert_eq!(s.hash, "");
    assert_eq!(s.language, SourceLanguage::Rust);
}

#[test]
fn line_endings_do_not_change_the_hash() {
    let lf = text_stats("a.txt", 4, b"a\nb\n");
    let crlf = text_stats("a.txt", 6, b"a\r\nb\r\n");
    let open = text_stats("a.txt", 3, b"a\nb");
    assert_eq!(lf.hash, crlf.hash);
    assert_eq!(lf.hash, open.hash);
    assert_eq!((lf.line_count, crlf.line_count, open.line_count), (2, 2, 2));
}

#[test]
fn line_count_of_terminated_and_open_lines() {
    assert_eq!(text_stats("a", 1, b"\n").line_count, 1);
    assert_eq!(text_stats("a", 2, b"\n\n").line_count, 2);
    assert_eq!(text_stats("a", 3, b"x\ny").line_count, 2);
    assert_eq!(text_stats("a", 1, b"x").line_count, 1);
}

#[test]
fn profile_plan_and_outcomes() {
    assert!(needs_contents(b"text", 10));
    assert!(needs_contents(b"\x00bin", 10));
    assert!(!needs_contents(b"\x00bin", 50_000_000));
    let gone = profile_file("gone.py", 12, None, None);
    assert_eq!((gone.size, gone.line_count, gone.is_binary, gone.hash.as_str()), (0, 0, false, ""));
    let text = profile_file("a.py", 4, Some(b"a\nb\n"), Some(b"a\nb\n"));
    assert_eq!(text.line_count, 2);
    assert_eq!(text.hash, "911169ddaaf146aff539f58c26c489af3b892dff0fe283c1c264c65ae5aa59a2");
    let bin = profile_file("b.bin", 3, Some(&[0u8, 1, 2]), Some(&[0u8, 1, 2]));
    assert!(bin.is_binary);
    assert_eq!(bin.hash, "ae4b3280e56e2faf83f414a6e3dabe9d5fbe18976544c05fed121accb85b53fc");
}
