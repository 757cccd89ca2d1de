//! Character- and byte-level text utilities shared by the signer, the catalog
//! resolution and the URL builders: ASCII case folding and substring search.

use vstd::prelude::*;
use vstd::slice::{slice_index_get, slice_subrange, slice_to_vec};
use vstd::string::{StrSliceExecFns, StringSliceAdditionalSpecFns};

verus! {

// ---------------------------------------------------------------------------
// ASCII case folding
// ---------------------------------------------------------------------------

/// An ASCII upper-case letter folded to lower case; every other character
/// is unchanged.
pub open spec fn spec_lower_char(c: char) -> char {
    if 'A' <= c && c <= 'Z' {
        ((c as u8) + 32) as char
    } else {
        c
    }
}

/// A character string folded to ASCII lower case.
pub open spec fn spec_lower_chars(s: Seq<char>) -> Seq<char> {
    s.map_values(|c: char| spec_lower_char(c))
}

pub fn lower_char(c: char) -> (r: char)
    ensures
        r == spec_lower_char(c),
{
    if 'A' <= c && c <= 'Z' {
        ((c as u8) + 32) as char
    } else {
        c
    }
}

// ---------------------------------------------------------------------------
// Substring search over character sequences
// ---------------------------------------------------------------------------

/// `pat` occurs in `text` starting at position `i`.
pub open spec fn matches_at(text: Seq<char>, pat: Seq<char>, i: int) -> bool {
    &&& 0 <= i
    &&& i + pat.len() <= text.len()
    &&& text.subrange(i, i + pat.len() as int) == pat
}

/// `pat` occurs somewhere in `text`.
pub open spec fn spec_contains(text: Seq<char>, pat: Seq<char>) -> bool {
    exists|i: int| matches_at(text, pat, i)
}

/// Position of the first occurrence of `pat` in `text`, if any.
pub open spec fn spec_find(text: Seq<char>, pat: Seq<char>) -> Option<int>
    decreases text.len(),
{
    if pat.len() > text.len() {
        None
    } else if text.subrange(0, pat.len() as int) == pat {
        Some(0)
    } else if text.len() == 0 {
        None
    } else {
        match spec_find(text.drop_first(), pat) {
            Some(j) => Some(j + 1),
            None => None,
        }
    }
}

/// `spec_find` returns exactly the first matching position: a `Some(i)` is a
/// match with no earlier match, and a `None` means no match at all.
pub proof fn lemma_find_characterizes(text: Seq<char>, pat: Seq<char>)
    ensures
        match spec_find(text, pat) {
            Some(i) => matches_at(text, pat, i) && forall|j: int|
                0 <= j < i ==> !matches_at(text, pat, j),
            None => !spec_contains(text, pat),
        },
    decreases text.len(),
{
    if pat.len() > text.len() {
        assert forall|i: int| !matches_at(text, pat, i) by {}
    } else if text.subrange(0, pat.len() as int) == pat {
        assert(matches_at(text, pat, 0));
    } else if text.len() == 0 {
        assert forall|i: int| !matches_at(text, pat, i) by {}
    } else {
        let rest = text.drop_first();
        lemma_find_characterizes(rest, pat);
        assert forall|i: int| 0 <= i && matches_at(rest, pat, i) implies matches_at(
            text,
            pat,
            i + 1,
        ) by {
            assert(text.subrange(i + 1, i + 1 + pat.len() as int) =~= rest.subrange(
                i,
                i + pat.len() as int,
            ));
        }
        assert forall|i: int| 0 < i && matches_at(text, pat, i) implies matches_at(
            rest,
            pat,
            i - 1,
        ) by {
            assert(rest.subrange(i - 1, i - 1 + pat.len() as int) =~= text.subrange(
                i,
                i + pat.len() as int,
            ));
        }
        match spec_find(rest, pat) {
            Some(j) => {
                assert(matches_at(text, pat, j + 1));
                assert forall|k: int| 0 <= k < j + 1 implies !matches_at(text, pat, k) by {
                    if k == 0 {
                        assert(text.subrange(0, pat.len() as int) != pat);
                    } else {
                        assert(!matches_at(rest, pat, k - 1));
                    }
                }
            },
            None => {
                assert forall|i: int| !matches_at(text, pat, i) by {
                    if 0 < i && matches_at(text, pat, i) {
                        assert(matches_at(rest, pat, i - 1));
                    } else if i == 0 && matches_at(text, pat, 0) {
                        assert(text.subrange(0, pat.len() as int) == pat);
                    }
                }
            },
        }
    }
}

/// The first match determines `spec_find`.
pub proof fn lemma_first_match_is_find(text: Seq<char>, pat: Seq<char>, i: int)
    requires
        matches_at(text, pat, i),
        forall|j: int| 0 <= j < i ==> !matches_at(text, pat, j),
    ensures
        spec_find(text, pat) == Some(i),
{
    lemma_find_characterizes(text, pat);
    match spec_find(text, pat) {
        Some(k) => {
            if k < i {
                assert(!matches_at(text, pat, k));
            } else if i < k {
                assert(!matches_at(text, pat, i));
            }
        },
        None => {
            assert(spec_contains(text, pat));
        },
    }
}

/// Whether `pat`, optionally after ASCII case folding of `text`, occurs in
/// `text` starting at `i`, decided character by character.
fn matches_here(text: &str, text_len: usize, pat: &str, pat_len: usize, i: usize, fold: bool) -> (r:
    bool)
    requires
        text_len == text@.len(),
        pat_len == pat@.len(),
        i + pat_len <= text_len,
    ensures
        r == matches_at(if fold { spec_lower_chars(text@) } else { text@ }, pat@, i as int),
{
    let ghost folded = if fold {
        spec_lower_chars(text@)
    } else {
        text@
    };
    let mut k: usize = 0;
    while k < pat_len
        invariant
            text_len == text@.len(),
            pat_len == pat@.len(),
            i + pat_len <= text_len,
            0 <= k <= pat_len,
            folded == (if fold {
                spec_lower_chars(text@)
            } else {
                text@
            }),
            folded.len() == text@.len(),
            forall|m: int| 0 <= m < k ==> folded[i + m] == pat@[m],
        decreases pat_len - k,
    {
        let tc = text.get_char(i + k);
        let tc = if fold {
            lower_char(tc)
        } else {
            tc
        };
        let pc = pat.get_char(k);
        if tc != pc {
            assert(folded[i + k] != pat@[k as int]);
            assert(!matches_at(folded, pat@, i as int)) by {
                if folded.subrange(i as int, i + pat@.len() as int) == pat@ {
                    assert(folded.subrange(i as int, i + pat@.len() as int)[k as int] == folded[i
                        + k]);
                }
            }
            return false;
        }
        k = k + 1;
    }
    assert(folded.subrange(i as int, i + pat@.len() as int) =~= pat@);
    true
}

/// Position (in characters) of the first occurrence of `pat` in `text`,
/// optionally with `text` folded to ASCII lower case first.
pub fn find_str_folded(text: &str, pat: &str, fold: bool) -> (r: Option<usize>)
    ensures
        ({
            let folded = if fold {
                spec_lower_chars(text@)
            } else {
                text@
            };
            match r {
                Some(i) => spec_find(folded, pat@) == Some(i as int),
                None => spec_find(folded, pat@) is None,
            }
        }),
{
    let ghost folded = if fold {
        spec_lower_chars(text@)
    } else {
        text@
    };
    let text_len = text.unicode_len();
    let pat_len = pat.unicode_len();
    if pat_len > text_len {
        proof {
            lemma_find_characterizes(folded, pat@);
            if spec_find(folded, pat@) is Some {
                assert(matches_at(folded, pat@, spec_find(folded, pat@)->Some_0));
            }
        }
        return None;
    }
    if pat_len == 0 {
        proof {
            assert(matches_at(folded, pat@, 0)) by {
                assert(folded.subrange(0, 0) =~= pat@);
            }
            lemma_first_match_is_find(folded, pat@, 0);
        }
        return Some(0);
    }
    let bound = text_len - pat_len;
    let mut i: usize = 0;
    while i <= bound
        invariant
            text_len == text@.len(),
            pat_len == pat@.len(),
            0 < pat_len <= text_len,
            bound == text_len - pat_len,
            folded == (if fold {
                spec_lower_chars(text@)
            } else {
                text@
            }),
            folded.len() == text@.len(),
            0 <= i <= bound + 1,
            forall|j: int| 0 <= j < i ==> !matches_at(folded, pat@, j),
        decreases text_len - i,
    {
        if matches_here(text, text_len, pat, pat_len, i, fold) {
            proof {
                lemma_first_match_is_find(folded, pat@, i as int);
            }
            return Some(i);
        }
        i = i + 1;
    }
    proof {
        lemma_find_characterizes(folded, pat@);
        if spec_find(folded, pat@) is Some {
            let k = spec_find(folded, pat@)->Some_0;
            assert(matches_at(folded, pat@, k));
        }
    }
    None
}

/// Whether `pat` occurs in `text`.
pub fn contains_str(text: &str, pat: &str) -> (r: bool)
    ensures
        r == spec_contains(text@, pat@),
{
    proof {
        lemma_find_characterizes(text@, pat@);
    }
    find_str_folded(text, pat, false).is_some()
}

/// Whether `pat` (already lower case) occurs in `text` folded to ASCII lower
/// case.
pub fn contains_str_folded(text: &str, pat: &str) -> (r: bool)
    ensures
        r == spec_contains(spec_lower_chars(text@), pat@),
{
    proof {
        lemma_find_characterizes(spec_lower_chars(text@), pat@);
    }
    find_str_folded(text, pat, true).is_some()
}

/// Position of the first occurrence of `pat` in `text`.
pub fn find_str(text: &str, pat: &str) -> (r: Option<usize>)
    ensures
        match r {
            Some(i) => spec_find(text@, pat@) == Some(i as int),
            None => spec_find(text@, pat@) is None,
        },
{
    find_str_folded(text, pat, false)
}

// ---------------------------------------------------------------------------
// ASCII byte sequences and UTF-8
// ---------------------------------------------------------------------------

/// Every byte is ASCII.
pub open spec fn all_ascii(s: Seq<u8>) -> bool {
    forall|i: int| 0 <= i < s.len() ==> s[i] < 128
}

/// ASCII bytes are valid UTF-8 and decode byte by byte.
pub proof fn lemma_ascii_decode(s: Seq<u8>)
    requires
        all_ascii(s),
    ensures
        vstd::utf8::valid_utf8(s),
        vstd::utf8::decode_utf8(s) == s.map_values(|b: u8| b as char),
{
    broadcast use vstd::utf8::encode_utf8_valid_utf8;
    broadcast use vstd::utf8::encode_utf8_decode_utf8;
    broadcast use vstd::utf8::is_ascii_chars_encode_utf8;
    broadcast use vstd::utf8::char_u32_cast;

    let cs = s.map_values(|b: u8| b as char);
    assert(vstd::utf8::is_ascii_chars(cs)) by {
        assert forall|i: int| 0 <= i < cs.len() implies '\0' <= #[trigger] cs[i] <= '\u{7f}' by {
            assert(cs[i] == s[i] as char);
        }
    }
    assert(vstd::utf8::encode_utf8(cs) =~= s) by {
        assert forall|i: int| 0 <= i < cs.len() implies vstd::utf8::encode_utf8(cs)[i] == s[i] by {
            assert(cs[i] as u8 == vstd::utf8::encode_utf8(cs)[i]);
            assert(cs[i] == s[i] as char);
        }
    }
}

/// Relies on `String::from_utf8`: a `String` holding exactly the given bytes,
/// which the caller shows to be valid UTF-8.
#[verifier::external_body]
pub fn bytes_to_string(v: Vec<u8>) -> (r: String)
    requires
        vstd::utf8::valid_utf8(v@),
    ensures
        vstd::utf8::encode_utf8(r@) == v@,
{
    match String::from_utf8(v) {
        Ok(s) => s,
        Err(_) => String::new(),
    }
}

/// Relies on uuid::Uuid::new_v4 and its hyphenated rendering: a fresh,
/// cryptographically unpredictable opaque identifier of 36 characters;
/// random, so nothing more is stated.
#[verifier::external_body]
pub(crate) fn fresh_opaque_id() -> (r: String)
    ensures
        r@.len() == 36,
{
    uuid::Uuid::new_v4().to_string()
}

/// Converts ASCII bytes to the `String` with those characters.
pub fn ascii_to_string(v: Vec<u8>) -> (r: String)
    requires
        all_ascii(v@),
    ensures
        vstd::utf8::encode_utf8(r@) == v@,
        r@ == v@.map_values(|b: u8| b as char),
{
    proof {
        broadcast use vstd::utf8::encode_utf8_decode_utf8;

        lemma_ascii_decode(v@);
    }
    let ghost bytes = v@;
    let r = bytes_to_string(v);
    proof {
        assert(vstd::utf8::decode_utf8(bytes) == r@);
    }
    r
}

/// Whether `p` is a prefix of `s`.
pub open spec fn spec_has_prefix(s: Seq<u8>, p: Seq<u8>) -> bool {
    p.len() <= s.len() && s.subrange(0, p.len() as int) == p
}

/// Whether the byte slices hold the same bytes.
pub fn eq_bytes(a: &[u8], b: &[u8]) -> (r: bool)
    ensures
        r == (a@ == b@),
{
    if a.len() != b.len() {
        assert(a@.len() != b@.len());
        return false;
    }
    let n = a.len();
    let mut i: usize = 0;
    while i < n
        invariant
            n == a@.len() == b@.len(),
            0 <= i <= n,
            forall|j: int| 0 <= j < i ==> a@[j] == b@[j],
        decreases n - i,
    {
        if *slice_index_get(a, i) != *slice_index_get(b, i) {
            return false;
        }
        i = i + 1;
    }
    proof {
        assert(a@ =~= b@);
    }
    true
}

/// Whether the two strings hold the same characters.
pub fn str_eq(a: &str, b: &str) -> (r: bool)
    ensures
        r == (a@ == b@),
{
    let r = eq_bytes(a.as_bytes(), b.as_bytes());
    proof {
        broadcast use vstd::utf8::encode_utf8_decode_utf8;

        if a.spec_bytes() == b.spec_bytes() {
            assert(vstd::utf8::decode_utf8(vstd::utf8::encode_utf8(a@)) == a@);
            assert(vstd::utf8::decode_utf8(vstd::utf8::encode_utf8(b@)) == b@);
        }
    }
    r
}

/// Whether `p` is a prefix of `s`.
pub fn has_prefix(s: &[u8], p: &[u8]) -> (r: bool)
    ensures
        r == spec_has_prefix(s@, p@),
{
    if p.len() > s.len() {
        return false;
    }
    let front = slice_subrange(s, 0, p.len());
    eq_bytes(front, p)
}

// ---------------------------------------------------------------------------
// Whitespace trimming at character level
// ---------------------------------------------------------------------------

/// Unicode whitespace, as `str::trim` sees it.
pub open spec fn is_ws_char(c: char) -> bool {
    c == '\u{0009}' || c == '\u{000A}' || c == '\u{000B}' || c == '\u{000C}' || c == '\u{000D}'
        || c == ' ' || c == '\u{0085}' || c == '\u{00A0}' || c == '\u{1680}' || ('\u{2000}' <= c
        && c <= '\u{200A}') || c == '\u{2028}' || c == '\u{2029}' || c == '\u{202F}'
        || c == '\u{205F}' || c == '\u{3000}'
}

fn is_ws_char_exec(c: char) -> (r: bool)
    ensures
        r == is_ws_char(c),
{
    c == '\u{0009}' || c == '\u{000A}' || c == '\u{000B}' || c == '\u{000C}' || c == '\u{000D}'
        || c == ' ' || c == '\u{0085}' || c == '\u{00A0}' || c == '\u{1680}' || ('\u{2000}' <= c
        && c <= '\u{200A}') || c == '\u{2028}' || c == '\u{2029}' || c == '\u{202F}'
        || c == '\u{205F}' || c == '\u{3000}'
}

/// The character sequence without leading whitespace.
pub open spec fn spec_trim_chars_start(s: Seq<char>) -> Seq<char>
    decreases s.len(),
{
    if s.len() > 0 && is_ws_char(s[0]) {
        spec_trim_chars_start(s.drop_first())
    } else {
        s
    }
}

/// The character sequence without trailing whitespace.
pub open spec fn spec_trim_chars_end(s: Seq<char>) -> Seq<char>
    decreases s.len(),
{
    if s.len() > 0 && is_ws_char(s.last()) {
        spec_trim_chars_end(s.drop_last())
    } else {
        s
    }
}

/// The character sequence without leading and trailing whitespace.
pub open spec fn spec_trim_chars(s: Seq<char>) -> Seq<char> {
    spec_trim_chars_end(spec_trim_chars_start(s))
}

proof fn lemma_trim_chars_start_at(s: Seq<char>, k: int)
    requires
        0 <= k <= s.len(),
        forall|j: int| 0 <= j < k ==> is_ws_char(s[j]),
        k == s.len() || !is_ws_char(s[k]),
    ensures
        spec_trim_chars_start(s) == s.subrange(k, s.len() as int),
    decreases k,
{
    if k == 0 {
        assert(s.subrange(0, s.len() as int) =~= s);
    } else {
        lemma_trim_chars_start_at(s.drop_first(), k - 1);
        assert(s.drop_first().subrange(k - 1, s.drop_first().len() as int) =~= s.subrange(
            k,
            s.len() as int,
        ));
    }
}

proof fn lemma_trim_chars_end_at(s: Seq<char>, m: int)
    requires
        0 <= m <= s.len(),
        forall|j: int| m <= j < s.len() ==> is_ws_char(s[j]),
        m == 0 || !is_ws_char(s[m - 1]),
    ensures
        spec_trim_chars_end(s) == s.subrange(0, m),
    decreases s.len(),
{
    if m == s.len() {
        if s.len() > 0 && is_ws_char(s.last()) {
            assert(false);
        }
        assert(s.subrange(0, m) =~= s);
    } else {
        lemma_trim_chars_end_at(s.drop_last(), m);
        assert(s.drop_last().subrange(0, m) =~= s.subrange(0, m));
    }
}

/// The string without leading and trailing whitespace.
pub fn trim_str<'a>(s: &'a str) -> (r: &'a str)
    ensures
        r@ == spec_trim_chars(s@),
{
    let n = s.unicode_len();
    let mut lo: usize = 0;
    while lo < n && is_ws_char_exec(s.get_char(lo))
        invariant
            n == s@.len(),
            0 <= lo <= n,
            forall|j: int| 0 <= j < lo ==> is_ws_char(s@[j]),
        decreases n - lo,
    {
        lo = lo + 1;
    }
    proof {
        lemma_trim_chars_start_at(s@, lo as int);
    }
    let ghost t = s@.subrange(lo as int, s@.len() as int);
    let mut hi: usize = n;
    while hi > lo && is_ws_char_exec(s.get_char(hi - 1))
        invariant
            n == s@.len(),
            0 <= lo <= hi <= n,
            forall|j: int| hi <= j < n ==> is_ws_char(s@[j]),
        decreases hi,
    {
        hi = hi - 1;
    }
    proof {
        assert forall|j: int| hi - lo <= j < t.len() implies is_ws_char(t[j]) by {
            assert(t[j] == s@[j + lo]);
        }
        if hi > lo {
            assert(t[hi - lo - 1] == s@[hi - 1]);
        }
        lemma_trim_chars_end_at(t, hi - lo);
        assert(t.subrange(0, hi - lo) =~= s@.subrange(lo as int, hi as int));
    }
    s.substring_char(lo, hi)
}

/// Relies on str::to_ascii_lowercase: ASCII upper-case letters mapped to
/// lower case, every other character kept as it is.
#[verifier::external_body]
pub fn ascii_lowercase_string(s: &str) -> (r: String)
    ensures
        r@ == spec_lower_chars(s@),
{
    s.to_ascii_lowercase()
}

// ---------------------------------------------------------------------------
// Decimal rendering
// ---------------------------------------------------------------------------

/// The decimal digits of `n`, as ASCII bytes, most significant first.
pub open spec fn spec_decimal(n: nat) -> Seq<u8>
    decreases n,
{
    if n < 10 {
        seq![(48 + n) as u8]
    } else {
        spec_decimal(n / 10).push((48 + n % 10) as u8)
    }
}

/// The decimal digits of `n` as characters.
pub open spec fn spec_decimal_chars(n: nat) -> Seq<char> {
    spec_decimal(n).map_values(|b: u8| b as char)
}

pub proof fn lemma_decimal_ascii(n: nat)
    ensures
        all_ascii(spec_decimal(n)),
        spec_decimal(n).len() > 0,
    decreases n,
{
    if n >= 10 {
        lemma_decimal_ascii(n / 10);
    }
}

/// Appends the decimal digits of `n`.
pub fn push_decimal(out: &mut Vec<u8>, n: u64)
    ensures
        final(out)@ == old(out)@ + spec_decimal(n as nat),
    decreases n,
{
    if n < 10 {
        out.push(48 + n as u8);
        proof {
            assert(old(out)@.push((48 + n) as u8) =~= old(out)@ + spec_decimal(n as nat));
        }
    } else {
        push_decimal(out, n / 10);
        out.push(48 + (n % 10) as u8);
        proof {
            assert((old(out)@ + spec_decimal((n / 10) as nat)).push((48 + n % 10) as u8) =~= old(
                out,
            )@ + spec_decimal(n as nat));
        }
    }
}

/// `n` rendered in decimal.
pub fn decimal_string(n: u64) -> (r: String)
    ensures
        r@ == spec_decimal_chars(n as nat),
        vstd::utf8::encode_utf8(r@) == spec_decimal(n as nat),
{
    let mut out: Vec<u8> = Vec::new();
    push_decimal(&mut out, n);
    proof {
        lemma_decimal_ascii(n as nat);
        assert(out@ =~= spec_decimal(n as nat));
    }
    ascii_to_string(out)
}

} // verus!
