//! Decisions of the file walk: the size limit, the binary sniff on a file's
//! first bytes, and which walked entries become descriptors.

use vstd::prelude::*;
use vstd::string::*;
use crate::language::{SourceLanguage, language_of_path, detect_language};

verus! {

/// How many leading bytes of a file the binary sniff reads.
pub const SNIFF_LEN: usize = 1024;

/// Default size limit, in MiB, when the caller gives none.
pub const DEFAULT_MAX_SIZE_MB: u64 = 100;

/// Bytes in one MiB.
pub const MIB: u64 = 1048576;

pub open spec fn starts_with(b: Seq<u8>, p: Seq<u8>) -> bool {
    p.len() <= b.len() && b.take(p.len() as int) == p
}

/// Whether `b` opens with one of the byte order marks of UTF-8, UTF-16 or UTF-32.
pub open spec fn has_byte_order_mark(b: Seq<u8>) -> bool {
    ||| starts_with(b, seq![0xEFu8, 0xBBu8, 0xBFu8])
    ||| starts_with(b, seq![0x00u8, 0x00u8, 0xFEu8, 0xFFu8])
    ||| starts_with(b, seq![0xFFu8, 0xFEu8, 0x00u8, 0x00u8])
    ||| starts_with(b, seq![0xFEu8, 0xFFu8])
    ||| starts_with(b, seq![0xFFu8, 0xFEu8])
}

/// Whether `b` opens with the magic number of a PDF or a PNG file.
pub open spec fn has_binary_magic(b: Seq<u8>) -> bool {
    ||| starts_with(b, seq![0x25u8, 0x50u8, 0x44u8, 0x46u8])
    ||| starts_with(b, seq![0x89u8, 0x50u8, 0x4Eu8, 0x47u8])
}

/// The content sniff: bytes are binary when they open with no byte order
/// mark and either hold a zero byte among their first `SNIFF_LEN` bytes or
/// open with a PDF or PNG magic number.
pub open spec fn sniffs_binary(b: Seq<u8>) -> bool {
    &&& !has_byte_order_mark(b)
    &&& {
        ||| exists|i: int| 0 <= i < b.len() && i < SNIFF_LEN && b[i] == 0
        ||| has_binary_magic(b)
    }
}

/// Relies on `content_inspector::inspect`, which answers `BINARY` exactly
/// as `sniffs_binary` states (byte order marks first, then a zero byte in
/// the first 1024 bytes, then the PDF and PNG magic numbers).
#[verifier::external_body]
fn inspect_is_binary(head: &[u8]) -> (r: bool)
    ensures
        r == sniffs_binary(head@),
{
    content_inspector::inspect(head) == content_inspector::ContentType::BINARY
}

/// Whether the first bytes of a file sniff as binary (see `sniffs_binary`).
pub fn is_binary_content(head: &[u8]) -> (r: bool)
    ensures
        r == sniffs_binary(head@),
{
    inspect_is_binary(head)
}

/// The size limit in bytes for an optional limit in MiB (default
/// `DEFAULT_MAX_SIZE_MB`); a limit too large for `u64` saturates.
pub open spec fn size_limit_of(max_size_mb: Option<u64>) -> nat {
    let mb: nat = match max_size_mb {
        Some(m) => m as nat,
        None => DEFAULT_MAX_SIZE_MB as nat,
    };
    if mb * (MIB as nat) > u64::MAX as nat {
        u64::MAX as nat
    } else {
        mb * (MIB as nat)
    }
}

/// The size limit in bytes (see `size_limit_of`).
pub fn size_limit_bytes(max_size_mb: Option<u64>) -> (r: u64)
    ensures
        r as nat == size_limit_of(max_size_mb),
{
    let mb: u64 = match max_size_mb {
        Some(m) => m,
        None => DEFAULT_MAX_SIZE_MB,
    };
    if mb > u64::MAX / MIB {
        assert(mb as nat * (MIB as nat) > u64::MAX as nat) by (nonlinear_arith)
            requires
                mb > u64::MAX / MIB,
                MIB == 1048576,
        ;
        u64::MAX
    } else {
        assert(mb as nat * (MIB as nat) <= u64::MAX as nat) by (nonlinear_arith)
            requires
                mb <= u64::MAX / MIB,
                MIB == 1048576,
        ;
        mb * MIB
    }
}

/// Whether a file of `size` bytes is skipped unopened under `limit`.
pub fn exceeds_limit(size: u64, limit: u64) -> (r: bool)
    ensures
        r == (size > limit),
{
    size > limit
}

/// A candidate file that survived discovery.
#[derive(Clone, Debug)]
pub struct FileDescriptor {
    pub path: String,
    pub size: u64,
    pub language: SourceLanguage,
}

/// Decides one walked file: of `size` bytes under `limit`, whose first bytes
/// are `head`, or `None` where it could not be opened. It becomes a
/// descriptor exactly when it is within the limit, could be opened and does
/// not sniff as binary; the descriptor carries the path, the size and the
/// language of the path's extension.
pub fn admit_file(path: &str, size: u64, limit: u64, head: Option<&[u8]>) -> (r: Option<FileDescriptor>)
    ensures
        r is Some <==> (size <= limit && head is Some && !sniffs_binary(head->0@)),
        r matches Some(d) ==> {
            &&& d.path@ == path@
            &&& d.size == size
            &&& d.language == language_of_path(path@)
        },
{
    if exceeds_limit(size, limit) {
        return None;
    }
    match head {
        None => None,
        Some(h) => {
            if is_binary_content(h) {
                None
            } else {
                Some(FileDescriptor { path: String::from_str(path), size, language: detect_language(path) })
            }
        },
    }
}

} // verus!
