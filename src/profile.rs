//! Per-file profiles: size, binary classification, line count, content hash
//! and language.

use vstd::prelude::*;
use vstd::string::*;
use crate::language::{SourceLanguage, language_of_path, detect_language};
use crate::lines::{bytes_view, line_bytes, split_line_bytes};
use crate::discovery::{is_binary_content, sniffs_binary};

verus! {

/// Binary files of this many bytes or more are not hashed.
pub const BINARY_HASH_CUTOFF: u64 = 50000000;

/// The lower-case hexadecimal SHA-256 digest of a byte string, as
/// `sha2::Sha256` computes it and `{:x}` renders it.
pub uninterp spec fn sha256_hex_of(bytes: Seq<u8>) -> Seq<char>;

/// Relies on `sha2::Sha256::digest`, rendered with `{:x}`: the digest of
/// exactly the bytes given.
#[verifier::external_body]
fn sha256_hex(bytes: &[u8]) -> (r: String)
    ensures
        r@ == sha256_hex_of(bytes@),
{
    format!("{:x}", <sha2::Sha256 as sha2::Digest>::digest(bytes))
}

/// The bytes a text file is hashed over: each line's bytes followed by one
/// line feed, so that line endings do not change the hash.
pub open spec fn normalized_lines(ls: Seq<Seq<u8>>) -> Seq<u8>
    decreases ls.len(),
{
    if ls.len() == 0 {
        Seq::empty()
    } else {
        normalized_lines(ls.drop_last()) + ls.last().push(10u8)
    }
}

/// The profile of one file.
#[derive(Clone, Debug)]
pub struct FileStats {
    pub path: String,
    pub size: u64,
    pub line_count: usize,
    pub is_binary: bool,
    pub hash: String,
    pub language: SourceLanguage,
}

/// The profile of a file that could not be opened: zero size, no lines,
/// text, no hash.
pub fn unreadable_stats(path: &str) -> (r: FileStats)
    ensures
        r.path@ == path@,
        r.size == 0,
        r.line_count == 0,
        !r.is_binary,
        r.hash@.len() == 0,
        r.language == language_of_path(path@),
{
    FileStats {
        path: String::from_str(path),
        size: 0,
        line_count: 0,
        is_binary: false,
        hash: String::new(),
        language: detect_language(path),
    }
}

fn normalized_bytes(lines: &Vec<Vec<u8>>) -> (r: Vec<u8>)
    ensures
        r@ == normalized_lines(bytes_view(lines@)),
{
    let mut out: Vec<u8> = Vec::new();
    let mut i: usize = 0;
    while i < lines.len()
        invariant
            i <= lines@.len(),
            out@ == normalized_lines(bytes_view(lines@.take(i as int))),
        decreases lines@.len() - i,
    {
        assert(bytes_view(lines@.take(i + 1)).drop_last() =~= bytes_view(lines@.take(i as int)));
        let line = &lines[i];
        let mut k: usize = 0;
        let ghost before = out@;
        while k < line.len()
            invariant
                k <= line@.len(),
                out@ == before + line@.take(k as int),
            decreases line@.len() - k,
        {
            out.push(line[k]);
            assert(out@ =~= before + line@.take(k + 1));
            k = k + 1;
        }
        out.push(10u8);
        assert(out@ =~= before + line@.push(10u8));
        i = i + 1;
    }
    assert(lines@.take(lines@.len() as int) =~= lines@);
    out
}

/// The profile of a text file whose contents are `contents`, split into
/// lines as `line_bytes` states: every line counted, and the hash taken
/// over `normalized_lines` of the lines.
pub fn text_stats(path: &str, size: u64, contents: &[u8]) -> (r: FileStats)
    ensures
        r.path@ == path@,
        r.size == size,
        r.line_count as nat == line_bytes(contents@).len(),
        !r.is_binary,
        r.hash@ == sha256_hex_of(normalized_lines(line_bytes(contents@))),
        r.language == language_of_path(path@),
{
    let lines = split_line_bytes(contents);
    let bytes = normalized_bytes(&lines);
    FileStats {
        path: String::from_str(path),
        size,
        line_count: lines.len(),
        is_binary: false,
        hash: sha256_hex(bytes.as_slice()),
        language: detect_language(path),
    }
}

/// Whether a binary file of `size` bytes gets a whole-file hash.
pub fn hashes_binary(size: u64) -> (r: bool)
    ensures
        r == (size < BINARY_HASH_CUTOFF),
{
    size < BINARY_HASH_CUTOFF
}

/// The profile of a binary file whose whole contents are `contents`, or
/// `None` where they were not read: no lines, and the hash of the raw bytes
/// only when the size is under `BINARY_HASH_CUTOFF` and they were read.
pub fn binary_stats(path: &str, size: u64, contents: Option<&[u8]>) -> (r: FileStats)
    ensures
        r.path@ == path@,
        r.size == size,
        r.line_count == 0,
        r.is_binary,
        r.hash@ == (if size < BINARY_HASH_CUTOFF && contents is Some {
            sha256_hex_of(contents->0@)
        } else {
            Seq::empty()
        }),
        r.language == language_of_path(path@),
{
    let hash = match contents {
        Some(bytes) => {
            if hashes_binary(size) {
                sha256_hex(bytes)
            } else {
                String::new()
            }
        },
        None => String::new(),
    };
    FileStats {
        path: String::from_str(path),
        size,
        line_count: 0,
        is_binary: true,
        hash,
        language: detect_language(path),
    }
}

/// Whether profiling a file whose first bytes are `head` and whose size is
/// `size` reads its whole contents: always for text, and for binary only
/// below `BINARY_HASH_CUTOFF`.
pub fn needs_contents(head: &[u8], size: u64) -> (r: bool)
    ensures
        r == (!sniffs_binary(head@) || size < BINARY_HASH_CUTOFF),
{
    !is_binary_content(head) || hashes_binary(size)
}

/// The profile of one file from what could be read of it: `head` its first
/// bytes (`None` where it could not be opened) and `contents` its whole
/// bytes (`None` where they were not read). A file that could not be opened,
/// or a text file whose contents could not be read, is unreadable; a text
/// file is profiled from its contents; a binary one from its raw bytes.
pub fn profile_file(path: &str, size: u64, head: Option<&[u8]>, contents: Option<&[u8]>) -> (r:
    FileStats)
    ensures
        r.path@ == path@,
        r.language == language_of_path(path@),
        match head {
            None => r.size == 0 && r.line_count == 0 && !r.is_binary && r.hash@.len() == 0,
            Some(h) => if !sniffs_binary(h@) {
                match contents {
                    Some(c) => {
                        &&& r.size == size
                        &&& r.line_count as nat == line_bytes(c@).len()
                        &&& !r.is_binary
                        &&& r.hash@ == sha256_hex_of(normalized_lines(line_bytes(c@)))
                    },
                    None => r.size == 0 && r.line_count == 0 && !r.is_binary && r.hash@.len() == 0,
                }
            } else {
                &&& r.size == size
                &&& r.line_count == 0
                &&& r.is_binary
                &&& r.hash@ == (if size < BINARY_HASH_CUTOFF && contents is Some {
                    sha256_hex_of(contents->0@)
                } else {
                    Seq::empty()
                })
            },
        },
{
    match head {
        None => unreadable_stats(path),
        Some(h) => {
            if !is_binary_content(h) {
                match contents {
                    Some(c) => text_stats(path, size, c),
                    None => unreadable_stats(path),
                }
            } else {
                binary_stats(path, size, contents)
            }
        },
    }
}

/// Profiling unchanged contents again gives the same line count and the
/// same hash: both depend on the contents alone, not on the path or size.
pub proof fn lemma_text_profile_repeatable(a: Seq<u8>, b: Seq<u8>)
    requires
        a == b,
    ensures
        line_bytes(a).len() == line_bytes(b).len(),
        sha256_hex_of(normalized_lines(line_bytes(a))) == sha256_hex_of(
            normalized_lines(line_bytes(b)),
        ),
{
}

} // verus!
