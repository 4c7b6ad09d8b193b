//! The line model shared by the scanners: a file's bytes split into lines,
//! where a line that is not valid UTF-8 is `None` but still takes its number.

use vstd::prelude::*;
use vstd::slice::{slice_subrange, slice_to_vec};
use vstd::utf8::{encode_utf8, valid_utf8};

verus! {

/// The text of each line, `None` for a line that could not be decoded.
pub open spec fn lines_view(lines: Seq<Option<String>>) -> Seq<Option<Seq<char>>> {
    lines.map_values(|o: Option<String>|
        match o {
            Some(s) => Some(s@),
            None => None,
        }
    )
}

/// The bytes of `s` before its first line feed (all of `s` if it has none).
pub open spec fn until_line_feed(s: Seq<u8>) -> Seq<u8>
    decreases s.len(),
{
    if s.len() == 0 || s[0] == 10 {
        Seq::empty()
    } else {
        seq![s[0]] + until_line_feed(s.drop_first())
    }
}

/// A line without the carriage return that ended it, if one did.
pub open spec fn without_carriage_return(l: Seq<u8>) -> Seq<u8> {
    if l.len() > 0 && l.last() == 13 {
        l.drop_last()
    } else {
        l
    }
}

/// The lines of a file's bytes, as `BufRead::lines` reads them: split at
/// each line feed, a line ended by a carriage return and a line feed losing
/// both, and a final line without a line feed kept when it is not empty.
pub open spec fn line_bytes(s: Seq<u8>) -> Seq<Seq<u8>>
    decreases s.len(),
{
    if s.len() == 0 {
        Seq::empty()
    } else {
        let l = until_line_feed(s);
        if l.len() < s.len() {
            seq![without_carriage_return(l)] + line_bytes(s.skip(l.len() as int + 1))
        } else {
            seq![s]
        }
    }
}

/// How many line feeds `s` holds.
pub open spec fn line_feeds(s: Seq<u8>) -> nat
    decreases s.len(),
{
    if s.len() == 0 {
        0
    } else {
        (if s[0] == 10 {
            1nat
        } else {
            0nat
        }) + line_feeds(s.drop_first())
    }
}

/// Whether `s` ends in a line that no line feed ends.
pub open spec fn has_open_last_line(s: Seq<u8>) -> bool {
    s.len() > 0 && s.last() != 10
}

/// Whether each line is `None` exactly where its bytes are not UTF-8, and
/// otherwise the text whose UTF-8 bytes they are.
pub open spec fn decodes_as(lines: Seq<Option<String>>, bytes: Seq<Seq<u8>>) -> bool {
    &&& lines.len() == bytes.len()
    &&& forall|i: int| 0 <= i < lines.len() ==> (#[trigger] lines[i] is Some <==> valid_utf8(bytes[i]))
    &&& forall|i: int|
        0 <= i < lines.len() && #[trigger] lines[i] is Some ==> encode_utf8(lines[i]->0@) == bytes[i]
}

/// Relies on `String::from_utf8`: it succeeds exactly on valid UTF-8, and
/// the string it gives holds those bytes.
#[verifier::external_body]
fn utf8_string(b: Vec<u8>) -> (r: Option<String>)
    ensures
        r is Some <==> valid_utf8(b@),
        r matches Some(s) ==> encode_utf8(s@) == b@,
{
    String::from_utf8(b).ok()
}

proof fn lemma_until_line_feed(s: Seq<u8>, i: int)
    requires
        0 <= i <= s.len(),
        i < s.len() ==> s[i] == 10,
        forall|k: int| 0 <= k < i ==> s[k] != 10,
    ensures
        until_line_feed(s) == s.take(i),
    decreases i,
{
    if i == 0 {
        assert(s.take(0) =~= Seq::<u8>::empty());
    } else {
        let t = s.drop_first();
        assert forall|k: int| 0 <= k < i - 1 implies t[k] != 10 by {
            assert(t[k] == s[k + 1]);
        }
        lemma_until_line_feed(t, i - 1);
        assert(seq![s[0]] + t.take(i - 1) =~= s.take(i));
    }
}

/// The bytes of each line.
pub open spec fn bytes_view(v: Seq<Vec<u8>>) -> Seq<Seq<u8>> {
    v.map_values(|x: Vec<u8>| x@)
}

/// Splits a file's bytes into the raw bytes of its lines (see `line_bytes`).
pub fn split_line_bytes(b: &[u8]) -> (r: Vec<Vec<u8>>)
    ensures
        bytes_view(r@) == line_bytes(b@),
{
    let n = b.len();
    let mut out: Vec<Vec<u8>> = Vec::new();
    let mut start: usize = 0;
    let mut i: usize = 0;
    assert(b@.skip(0) =~= b@);
    assert(bytes_view(out@) + line_bytes(b@) =~= line_bytes(b@));
    while i < n
        invariant
            n == b@.len(),
            start <= i <= n,
            forall|k: int| start <= k < i ==> b@[k] != 10,
            bytes_view(out@) + line_bytes(b@.skip(start as int)) == line_bytes(b@),
        decreases n - i,
    {
        if b[i] == 10 {
            let end: usize = if i > start && b[i - 1] == 13 {
                i - 1
            } else {
                i
            };
            let piece = slice_to_vec(slice_subrange(b, start, end));
            proof {
                let s = b@.skip(start as int);
                let j = i - start;
                assert forall|k: int| 0 <= k < j implies s[k] != 10 by {
                    assert(s[k] == b@[start + k]);
                }
                lemma_until_line_feed(s, j as int);
                assert(s.take(j as int) =~= b@.subrange(start as int, i as int));
                assert(s.skip(j + 1) =~= b@.skip(i + 1));
                assert(piece@ =~= without_carriage_return(b@.subrange(start as int, i as int)));
                assert(line_bytes(s) == seq![piece@] + line_bytes(b@.skip(i + 1)));
            }
            let ghost before = out@;
            let ghost pv = piece@;
            out.push(piece);
            assert(bytes_view(out@) =~= bytes_view(before).push(pv));
            assert(bytes_view(before).push(pv) + line_bytes(b@.skip(i + 1)) =~= bytes_view(before)
                + line_bytes(b@.skip(start as int)));
            start = i + 1;
        }
        i = i + 1;
    }
    if start < n {
        let piece = slice_to_vec(slice_subrange(b, start, n));
        proof {
            let s = b@.skip(start as int);
            assert forall|k: int| 0 <= k < s.len() implies s[k] != 10 by {
                assert(s[k] == b@[start + k]);
            }
            lemma_until_line_feed(s, s.len() as int);
            assert(s.take(s.len() as int) =~= s);
            assert(piece@ =~= s);
        }
        let ghost before = out@;
        out.push(piece);
        assert(bytes_view(out@) =~= bytes_view(before) + line_bytes(b@.skip(start as int)));
    } else {
        assert(bytes_view(out@) =~= bytes_view(out@) + line_bytes(b@.skip(start as int)));
    }
    out
}

/// Splits a file's bytes into lines (see `line_bytes`), each decoded as
/// UTF-8 where it can be.
pub fn split_lines(b: &[u8]) -> (r: Vec<Option<String>>)
    ensures
        decodes_as(r@, line_bytes(b@)),
{
    let raw = split_line_bytes(b);
    let mut out: Vec<Option<String>> = Vec::new();
    let mut i: usize = 0;
    while i < raw.len()
        invariant
            i <= raw@.len(),
            bytes_view(raw@) == line_bytes(b@),
            decodes_as(out@, bytes_view(raw@).take(i as int)),
        decreases raw@.len() - i,
    {
        let line = utf8_string(raw[i].clone());
        let ghost before = out@;
        out.push(line);
        assert forall|k: int| 0 <= k < i implies out@[k] == before[k] by {}
        i = i + 1;
    }
    assert(bytes_view(raw@).take(raw@.len() as int) =~= bytes_view(raw@));
    out
}

proof fn lemma_until_line_feed_shape(s: Seq<u8>)
    ensures
        until_line_feed(s).len() <= s.len(),
        forall|k: int| 0 <= k < until_line_feed(s).len() ==> s[k] != 10,
        until_line_feed(s).len() < s.len() ==> s[until_line_feed(s).len() as int] == 10,
    decreases s.len(),
{
    if s.len() > 0 && s[0] != 10 {
        let t = s.drop_first();
        lemma_until_line_feed_shape(t);
        assert forall|k: int| 0 <= k < until_line_feed(s).len() implies s[k] != 10 by {
            if k > 0 {
                assert(s[k] == t[k - 1]);
            }
        }
    }
}

proof fn lemma_line_feeds_skip(s: Seq<u8>, j: int)
    requires
        0 <= j <= s.len(),
        forall|k: int| 0 <= k < j ==> s[k] != 10,
    ensures
        line_feeds(s) == line_feeds(s.skip(j)),
    decreases j,
{
    if j > 0 {
        let t = s.drop_first();
        assert forall|k: int| 0 <= k < j - 1 implies t[k] != 10 by {
            assert(t[k] == s[k + 1]);
        }
        lemma_line_feeds_skip(t, j - 1);
        assert(t.skip(j - 1) =~= s.skip(j));
    } else {
        assert(s.skip(0) =~= s);
    }
}

proof fn lemma_line_bytes_len(s: Seq<u8>)
    ensures
        line_bytes(s).len() == line_feeds(s) + if has_open_last_line(s) {
            1nat
        } else {
            0nat
        },
    decreases s.len(),
{
    if s.len() > 0 {
        let l = until_line_feed(s);
        lemma_until_line_feed_shape(s);
        let j = l.len() as int;
        lemma_line_feeds_skip(s, j);
        if j < s.len() {
            let rest = s.skip(j + 1);
            lemma_line_bytes_len(rest);
            assert(s.skip(j).drop_first() =~= rest);
            if rest.len() > 0 {
                assert(rest.last() == s.last());
            }
        } else {
            assert(s.skip(j).len() == 0);
        }
    }
}

/// Every line of a file is counted: its lines number one per line feed,
/// plus one for a final line that no line feed ends.
pub proof fn lemma_line_count(b: Seq<u8>)
    ensures
        line_bytes(b).len() == line_feeds(b) + if has_open_last_line(b) {
            1nat
        } else {
            0nat
        },
{
    lemma_line_bytes_len(b);
}

} // verus!
