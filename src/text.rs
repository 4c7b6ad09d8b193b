//! Text helpers shared by the scanners: comparing, trimming, first lines,
//! bounded snippets and decimal rendering.

use vstd::prelude::*;
use vstd::string::*;

verus! {

/// Whether two strings hold the same characters.
pub fn same_text(a: &str, b: &str) -> (r: bool)
    ensures
        r == (a@ == b@),
{
    let n = a.unicode_len();
    if n != b.unicode_len() {
        return false;
    }
    let mut i: usize = 0;
    while i < n
        invariant
            n == a@.len(),
            n == b@.len(),
            i <= n,
            forall|k: int| 0 <= k < i ==> a@[k] == b@[k],
        decreases n - i,
    {
        if a.get_char(i) != b.get_char(i) {
            return false;
        }
        i = i + 1;
    }
    assert(a@ =~= b@);
    true
}


/// Relies on `str::chars`: the characters of a text, in order.
#[verifier::external_body]
pub(crate) fn chars_of(s: &str) -> (r: Vec<char>)
    ensures
        r@ == s@,
{
    s.chars().collect()
}

/// Relies on `FromIterator<char>` for `String`: the text of the characters, in order.
#[verifier::external_body]
pub(crate) fn string_of(cs: &[char]) -> (r: String)
    ensures
        r@ == cs@,
{
    cs.iter().collect()
}

/// Whether `c` has the Unicode White_Space property, as `char::is_whitespace` tests.
pub open spec fn is_white_space(c: char) -> bool {
    let u = c as u32;
    ||| 0x9 <= u <= 0xD
    ||| u == 0x20
    ||| u == 0x85
    ||| u == 0xA0
    ||| u == 0x1680
    ||| 0x2000 <= u <= 0x200A
    ||| u == 0x2028
    ||| u == 0x2029
    ||| u == 0x202F
    ||| u == 0x205F
    ||| u == 0x3000
}

/// `s` without its leading white space.
pub open spec fn trim_start_of(s: Seq<char>) -> Seq<char>
    decreases s.len(),
{
    if s.len() > 0 && is_white_space(s[0]) {
        trim_start_of(s.drop_first())
    } else {
        s
    }
}

/// `s` without its trailing white space.
pub open spec fn trim_end_of(s: Seq<char>) -> Seq<char>
    decreases s.len(),
{
    if s.len() > 0 && is_white_space(s.last()) {
        trim_end_of(s.drop_last())
    } else {
        s
    }
}

/// `s` without leading and trailing white space, as `str::trim` gives it.
pub open spec fn trimmed_of(s: Seq<char>) -> Seq<char> {
    trim_end_of(trim_start_of(s))
}

fn white_space(c: char) -> (r: bool)
    ensures
        r == is_white_space(c),
{
    let u = c as u32;
    (0x9 <= u && u <= 0xD) || u == 0x20 || u == 0x85 || u == 0xA0 || u == 0x1680 || (0x2000 <= u
        && u <= 0x200A) || u == 0x2028 || u == 0x2029 || u == 0x202F || u == 0x205F || u == 0x3000
}

proof fn lemma_trim_start(s: Seq<char>, i: int)
    requires
        0 <= i <= s.len(),
        forall|k: int| 0 <= k < i ==> is_white_space(s[k]),
        i < s.len() ==> !is_white_space(s[i]),
    ensures
        trim_start_of(s) == s.skip(i),
    decreases i,
{
    if i == 0 {
        assert(s.skip(0) =~= s);
    } else {
        let t = s.drop_first();
        assert forall|k: int| 0 <= k < i - 1 implies is_white_space(t[k]) by {
            assert(t[k] == s[k + 1]);
        }
        lemma_trim_start(t, i - 1);
        assert(t.skip(i - 1) =~= s.skip(i));
    }
}

proof fn lemma_trim_end(s: Seq<char>, j: int)
    requires
        0 <= j <= s.len(),
        forall|k: int| j <= k < s.len() ==> is_white_space(s[k]),
        j > 0 ==> !is_white_space(s[j - 1]),
    ensures
        trim_end_of(s) == s.take(j),
    decreases s.len() - j,
{
    if j == s.len() {
        assert(s.take(j) =~= s);
    } else {
        let t = s.drop_last();
        assert forall|k: int| j <= k < t.len() implies is_white_space(t[k]) by {
            assert(t[k] == s[k]);
        }
        lemma_trim_end(t, j);
        assert(t.take(j) =~= s.take(j));
    }
}

/// The text without leading and trailing white space (see `trimmed_of`).
pub fn trim_text(s: &str) -> (r: String)
    ensures
        r@ == trimmed_of(s@),
{
    let cs = chars_of(s);
    let n = cs.len();
    let mut i: usize = 0;
    while i < n && white_space(cs[i])
        invariant
            cs@ == s@,
            n == cs@.len(),
            i <= n,
            forall|k: int| 0 <= k < i ==> is_white_space(cs@[k]),
        decreases n - i,
    {
        i = i + 1;
    }
    let mut j: usize = n;
    while j > i && white_space(cs[j - 1])
        invariant
            cs@ == s@,
            n == cs@.len(),
            i <= j <= n,
            forall|k: int| j <= k < n ==> is_white_space(cs@[k]),
        decreases j - i,
    {
        j = j - 1;
    }
    proof {
        lemma_trim_start(s@, i as int);
        let t = s@.skip(i as int);
        assert forall|k: int| j - i <= k < t.len() implies is_white_space(t[k]) by {
            assert(t[k] == s@[i + k]);
        }
        if j > i {
            assert(t[j - i - 1] == s@[j - 1]);
        }
        lemma_trim_end(t, j - i);
        assert(t.take(j - i) =~= s@.subrange(i as int, j as int));
    }
    string_of(&cs.as_slice()[i..j])
}

/// The characters of `s` before its first line feed (all of `s` if it has none).
pub open spec fn until_newline(s: Seq<char>) -> Seq<char>
    decreases s.len(),
{
    if s.len() == 0 || s[0] == '\n' {
        Seq::empty()
    } else {
        seq![s[0]] + until_newline(s.drop_first())
    }
}

/// The first line of a text as `str::lines` yields it: the text up to its
/// first line feed, without a carriage return right before that line feed;
/// `None` for the empty text, which has no lines.
pub open spec fn first_line_of(s: Seq<char>) -> Option<Seq<char>> {
    if s.len() == 0 {
        None
    } else {
        let piece = until_newline(s);
        if piece.len() < s.len() && piece.len() > 0 && piece.last() == '\r' {
            Some(piece.drop_last())
        } else {
            Some(piece)
        }
    }
}

proof fn lemma_until_newline(s: Seq<char>, i: int)
    requires
        0 <= i <= s.len(),
        i < s.len() ==> s[i] == '\n',
        forall|k: int| 0 <= k < i ==> s[k] != '\n',
    ensures
        until_newline(s) == s.take(i),
    decreases i,
{
    if i == 0 {
        assert(s.take(0) =~= Seq::<char>::empty());
    } else {
        let t = s.drop_first();
        assert forall|k: int| 0 <= k < i - 1 implies t[k] != '\n' by {
            assert(t[k] == s[k + 1]);
        }
        lemma_until_newline(t, i - 1);
        assert(seq![s[0]] + t.take(i - 1) =~= s.take(i));
    }
}

/// The first line of `s` (see `first_line_of`).
pub fn first_line(s: &str) -> (r: Option<String>)
    ensures
        r matches Some(l) ==> first_line_of(s@) == Some(l@),
        r is None <==> first_line_of(s@) is None,
{
    let cs = chars_of(s);
    let n = cs.len();
    if n == 0 {
        return None;
    }
    let mut i: usize = 0;
    while i < n && cs[i] != '\n'
        invariant
            cs@ == s@,
            n == cs@.len(),
            i <= n,
            forall|k: int| 0 <= k < i ==> cs@[k] != '\n',
        decreases n - i,
    {
        i = i + 1;
    }
    proof {
        lemma_until_newline(s@, i as int);
    }
    let end: usize = if i < n && i > 0 && cs[i - 1] == '\r' {
        i - 1
    } else {
        i
    };
    let line = string_of(&cs.as_slice()[0..end]);
    proof {
        assert(line@ =~= first_line_of(s@)->0);
    }
    Some(line)
}

/// Longest snippet kept whole, in characters.
pub const SNIPPET_LIMIT: usize = 200;

/// A snippet bounded to `SNIPPET_LIMIT` characters: a longer one keeps its
/// first `SNIPPET_LIMIT` characters, followed by `...`.
pub open spec fn bounded_snippet_of(s: Seq<char>) -> Seq<char> {
    if s.len() > SNIPPET_LIMIT {
        s.take(SNIPPET_LIMIT as int) + "..."@
    } else {
        s
    }
}

/// Bounds a snippet (see `bounded_snippet_of`); the bound counts characters.
pub fn bounded_snippet(s: &str) -> (r: String)
    ensures
        r@ == bounded_snippet_of(s@),
{
    let n = s.unicode_len();
    if n > SNIPPET_LIMIT {
        let mut r = String::from_str(s.substring_char(0, SNIPPET_LIMIT));
        r.append("...");
        r
    } else {
        String::from_str(s)
    }
}

/// The character of a decimal digit.
pub open spec fn digit_of(d: nat) -> char {
    if d == 0 {
        '0'
    } else if d == 1 {
        '1'
    } else if d == 2 {
        '2'
    } else if d == 3 {
        '3'
    } else if d == 4 {
        '4'
    } else if d == 5 {
        '5'
    } else if d == 6 {
        '6'
    } else if d == 7 {
        '7'
    } else if d == 8 {
        '8'
    } else {
        '9'
    }
}

/// The decimal rendering of a natural number, without leading zeros.
pub open spec fn decimal_of(n: nat) -> Seq<char>
    decreases n,
{
    if n < 10 {
        seq![digit_of(n)]
    } else {
        decimal_of(n / 10).push(digit_of(n % 10))
    }
}

fn digit(d: u64) -> (r: char)
    requires
        d < 10,
    ensures
        r == digit_of(d as nat),
{
    if d == 0 {
        '0'
    } else if d == 1 {
        '1'
    } else if d == 2 {
        '2'
    } else if d == 3 {
        '3'
    } else if d == 4 {
        '4'
    } else if d == 5 {
        '5'
    } else if d == 6 {
        '6'
    } else if d == 7 {
        '7'
    } else if d == 8 {
        '8'
    } else {
        '9'
    }
}

fn push_decimal(n: u64, out: &mut Vec<char>)
    ensures
        final(out)@ == old(out)@ + decimal_of(n as nat),
    decreases n,
{
    if n >= 10 {
        push_decimal(n / 10, out);
    }
    out.push(digit(n % 10));
    assert(out@ =~= old(out)@ + decimal_of(n as nat));
}

/// The decimal rendering of `n`.
pub fn decimal(n: u64) -> (r: String)
    ensures
        r@ == decimal_of(n as nat),
{
    let mut cs: Vec<char> = Vec::new();
    push_decimal(n, &mut cs);
    assert(cs@ =~= decimal_of(n as nat));
    string_of(cs.as_slice())
}

} // verus!
