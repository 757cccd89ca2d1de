//! Request signing for the provider's ticket API (ACS3-HMAC-SHA256).
//!
//! Everything is specified over the UTF-8 bytes of the request parts: the
//! canonical query string, the canonical headers, the hashed payload, the
//! string-to-sign and the final authorization value are each pinned down by a
//! spec function, so that equal inputs provably yield byte-identical
//! authorization values.

use crate::text::{
    all_ascii, ascii_to_string, bytes_to_string, eq_bytes, lemma_ascii_decode, spec_lower_chars,
};
use hmac::{Hmac, KeyInit, Mac};
use sha2::{Digest, Sha256};
use vstd::prelude::*;
use vstd::slice::slice_index_get;
use vstd::string::StringSliceAdditionalSpecFns;
use vstd::utf8::encode_utf8;

verus! {

// ---------------------------------------------------------------------------
// Percent-encoding
// ---------------------------------------------------------------------------

/// The unreserved bytes that pass through percent-encoding unchanged:
/// `A`-`Z`, `a`-`z`, `0`-`9`, `-`, `_`, `.`, `~`.
pub open spec fn is_unreserved(b: u8) -> bool {
    (65 <= b && b <= 90) || (97 <= b && b <= 122) || (48 <= b && b <= 57) || b == 45 || b == 95
        || b == 46 || b == 126
}

/// The ASCII byte of the upper-case hex digit for `n` (`n < 16`).
pub open spec fn hex_upper_digit(n: u8) -> u8 {
    if n < 10 {
        (48 + n) as u8
    } else {
        (55 + n) as u8
    }
}

/// The ASCII byte of the lower-case hex digit for `n` (`n < 16`).
pub open spec fn hex_lower_digit(n: u8) -> u8 {
    if n < 10 {
        (48 + n) as u8
    } else {
        (87 + n) as u8
    }
}

/// One byte percent-encoded: an unreserved byte stands for itself, every
/// other byte becomes `%` followed by two upper-case hex digits.
pub open spec fn spec_encode_byte(b: u8) -> Seq<u8> {
    if is_unreserved(b) {
        seq![b]
    } else {
        seq![37u8, hex_upper_digit(b / 16), hex_upper_digit((b % 16) as u8)]
    }
}

/// A byte string percent-encoded.
pub open spec fn spec_percent_encode(s: Seq<u8>) -> Seq<u8>
    decreases s.len(),
{
    if s.len() == 0 {
        seq![]
    } else {
        spec_percent_encode(s.drop_last()) + spec_encode_byte(s.last())
    }
}

/// Percent-encoding yields ASCII only.
pub proof fn lemma_percent_encode_ascii(s: Seq<u8>)
    ensures
        all_ascii(spec_percent_encode(s)),
    decreases s.len(),
{
    if s.len() > 0 {
        lemma_percent_encode_ascii(s.drop_last());
    }
}

/// Percent-encoding passes an unreserved byte through unchanged and renders
/// every other byte as `%` plus two upper-case hex digits; it works byte by
/// byte, appending `spec_encode_byte` for each input byte in order.
pub proof fn lemma_percent_encode_bytewise(s: Seq<u8>, b: u8)
    ensures
        is_unreserved(b) ==> spec_encode_byte(b) == seq![b],
        !is_unreserved(b) ==> spec_encode_byte(b) == seq![
            37u8,
            hex_upper_digit(b / 16),
            hex_upper_digit((b % 16) as u8),
        ],
        spec_percent_encode(s.push(b)) == spec_percent_encode(s) + spec_encode_byte(b),
{
    assert(s.push(b).drop_last() =~= s);
}

fn hex_upper(n: u8) -> (r: u8)
    requires
        n < 16,
    ensures
        r == hex_upper_digit(n),
{
    if n < 10 {
        48 + n
    } else {
        55 + n
    }
}

/// A slice percent-encoded, as bytes.
pub fn percent_encode_bytes(s: &[u8]) -> (r: Vec<u8>)
    ensures
        r@ == spec_percent_encode(s@),
{
    let n = s.len();
    let mut out: Vec<u8> = Vec::new();
    let mut i: usize = 0;
    while i < n
        invariant
            n == s@.len(),
            0 <= i <= n,
            out@ == spec_percent_encode(s@.subrange(0, i as int)),
        decreases n - i,
    {
        let b = *slice_index_get(s, i);
        if (65 <= b && b <= 90) || (97 <= b && b <= 122) || (48 <= b && b <= 57) || b == 45 || b
            == 95 || b == 46 || b == 126 {
            out.push(b);
        } else {
            out.push(37);
            out.push(hex_upper(b / 16));
            out.push(hex_upper(b % 16));
        }
        proof {
            let pre = s@.subrange(0, i as int);
            assert(s@.subrange(0, i + 1) =~= pre.push(b));
            lemma_percent_encode_bytewise(pre, b);
            assert(out@ =~= spec_percent_encode(pre) + spec_encode_byte(b));
        }
        i = i + 1;
    }
    proof {
        assert(s@.subrange(0, s@.len() as int) =~= s@);
    }
    out
}

// ---------------------------------------------------------------------------
// Hex rendering of digests
// ---------------------------------------------------------------------------

/// A byte string rendered as lower-case hex, two digits per byte, high
/// nibble first.
pub open spec fn spec_hex_lower(s: Seq<u8>) -> Seq<u8>
    decreases s.len(),
{
    if s.len() == 0 {
        seq![]
    } else {
        spec_hex_lower(s.drop_last()) + seq![
            hex_lower_digit(s.last() / 16),
            hex_lower_digit((s.last() % 16) as u8),
        ]
    }
}

/// Hex rendering yields ASCII only.
pub proof fn lemma_hex_lower_ascii(s: Seq<u8>)
    ensures
        all_ascii(spec_hex_lower(s)),
    decreases s.len(),
{
    if s.len() > 0 {
        lemma_hex_lower_ascii(s.drop_last());
    }
}

// ---------------------------------------------------------------------------
// Digests, relied on from outside crates
// ---------------------------------------------------------------------------

/// The SHA-256 digest of a byte string: a function of the input alone.
pub uninterp spec fn sha256_of(data: Seq<u8>) -> Seq<u8>;

/// The HMAC-SHA256 tag for a key and a message: a function of both alone.
pub uninterp spec fn hmac_sha256_of(key: Seq<u8>, data: Seq<u8>) -> Seq<u8>;

/// Relies on sha2::Sha256 through the Digest trait: the 32-byte SHA-256
/// digest of the input, a deterministic function of the input alone.
#[verifier::external_body]
fn sha256_digest(data: &[u8]) -> (r: Vec<u8>)
    ensures
        r@ == sha256_of(data@),
        r@.len() == 32,
{
    let mut h = Sha256::new();
    h.update(data);
    h.finalize().to_vec()
}

/// Relies on hmac::Hmac over sha2::Sha256: the 32-byte HMAC-SHA256 tag, a
/// deterministic function of key and message alone. `new_from_slice` accepts
/// keys of any length for HMAC (its source always returns `Ok`).
#[verifier::external_body]
fn hmac_sha256_digest(key: &[u8], data: &[u8]) -> (r: Vec<u8>)
    ensures
        r@ == hmac_sha256_of(key@, data@),
        r@.len() == 32,
{
    let mut m = <Hmac<Sha256> as KeyInit>::new_from_slice(key).expect(
        "HMAC accepts keys of any length",
    );
    m.update(data);
    m.finalize().into_bytes().to_vec()
}

/// Relies on hex::encode: two lower-case hex digits per byte, high nibble
/// first.
#[verifier::external_body]
fn hex_encode_bytes(data: &[u8]) -> (r: Vec<u8>)
    ensures
        r@ == spec_hex_lower(data@),
{
    hex::encode(data).into_bytes()
}

/// The SHA-256 digest of `data`, rendered in lower-case hex, as bytes.
pub fn sha256_hex_bytes(data: &[u8]) -> (r: Vec<u8>)
    ensures
        r@ == spec_hex_lower(sha256_of(data@)),
{
    let digest = sha256_digest(data);
    hex_encode_bytes(digest.as_slice())
}

/// The SHA-256 digest of `data`, rendered in lower-case hex.
pub fn sha256_hex(data: &str) -> (r: String)
    ensures
        r@ == spec_hex_lower(sha256_of(data.spec_bytes())).map_values(|b: u8| b as char),
        encode_utf8(r@) == spec_hex_lower(sha256_of(data.spec_bytes())),
{
    let out = sha256_hex_bytes(data.as_bytes());
    proof {
        lemma_hex_lower_ascii(sha256_of(data.spec_bytes()));
    }
    ascii_to_string(out)
}

/// The HMAC-SHA256 tag keyed by `key` over `data`, rendered in lower-case
/// hex.
pub fn hmac_sha256_hex(key: &str, data: &str) -> (r: String)
    ensures
        encode_utf8(r@) == spec_hex_lower(hmac_sha256_of(key.spec_bytes(), data.spec_bytes())),
{
    let out = hmac_sha256_digest(key.as_bytes(), data.as_bytes());
    let hex = hex_encode_bytes(out.as_slice());
    proof {
        lemma_hex_lower_ascii(hmac_sha256_of(key.spec_bytes(), data.spec_bytes()));
    }
    ascii_to_string(hex)
}

// ---------------------------------------------------------------------------
// Sorted association maps over byte-string keys
// ---------------------------------------------------------------------------

/// Strict lexicographic order on byte strings: a proper prefix comes first.
pub open spec fn key_lt(a: Seq<u8>, b: Seq<u8>) -> bool
    decreases a.len(),
{
    if b.len() == 0 {
        false
    } else if a.len() == 0 {
        true
    } else if a[0] < b[0] {
        true
    } else if a[0] > b[0] {
        false
    } else {
        key_lt(a.drop_first(), b.drop_first())
    }
}

/// `key_lt` is trichotomous: incomparable keys are equal.
pub proof fn lemma_key_lt_total(a: Seq<u8>, b: Seq<u8>)
    ensures
        !key_lt(a, b) && !key_lt(b, a) ==> a == b,
    decreases a.len(),
{
    if !key_lt(a, b) && !key_lt(b, a) {
        if a.len() == 0 || b.len() == 0 {
            assert(a =~= b);
        } else {
            assert(a[0] == b[0]);
            lemma_key_lt_total(a.drop_first(), b.drop_first());
            assert(a.drop_first() == b.drop_first());
            assert forall|i: int| 0 <= i < a.len() implies a[i] == b[i] by {
                if i > 0 {
                    assert(a[i] == a.drop_first()[i - 1]);
                    assert(b[i] == b.drop_first()[i - 1]);
                }
            }
            assert(a =~= b);
        }
    }
}

/// Whether `a` comes strictly before `b` in lexicographic byte order.
pub fn bytes_lt(a: &[u8], b: &[u8]) -> (r: bool)
    ensures
        r == key_lt(a@, b@),
{
    let n = if a.len() < b.len() {
        a.len()
    } else {
        b.len()
    };
    proof {
        assert(a@.skip(0) =~= a@);
        assert(b@.skip(0) =~= b@);
    }
    let mut i: usize = 0;
    while i < n
        invariant
            n <= a@.len(),
            n <= b@.len(),
            n == a@.len() || n == b@.len(),
            0 <= i <= n,
            key_lt(a@, b@) == key_lt(a@.skip(i as int), b@.skip(i as int)),
            key_lt(b@, a@) == key_lt(b@.skip(i as int), a@.skip(i as int)),
        decreases n - i,
    {
        let x = *slice_index_get(a, i);
        let y = *slice_index_get(b, i);
        proof {
            assert(a@.skip(i as int)[0] == a@[i as int]);
            assert(b@.skip(i as int)[0] == b@[i as int]);
            assert(a@.skip(i as int).drop_first() =~= a@.skip(i + 1));
            assert(b@.skip(i as int).drop_first() =~= b@.skip(i + 1));
        }
        if x < y {
            return true;
        }
        if x > y {
            return false;
        }
        i = i + 1;
    }
    proof {
        assert(a@.skip(n as int).len() == a@.len() - n);
        assert(b@.skip(n as int).len() == b@.len() - n);
    }
    a.len() < b.len()
}

/// The sorted association list `m`, with `v` bound to `k`: an existing
/// binding of `k` is replaced, otherwise the pair is inserted in key order.
pub open spec fn spec_assoc_insert(m: Seq<(Seq<u8>, Seq<u8>)>, k: Seq<u8>, v: Seq<u8>) -> Seq<
    (Seq<u8>, Seq<u8>),
>
    decreases m.len(),
{
    if m.len() == 0 {
        seq![(k, v)]
    } else if key_lt(m[0].0, k) {
        seq![m[0]] + spec_assoc_insert(m.drop_first(), k, v)
    } else if m[0].0 == k {
        seq![(k, v)] + m.drop_first()
    } else {
        seq![(k, v)] + m
    }
}

/// The association list built from the pairs in order, later bindings of a
/// key replacing earlier ones, kept sorted by key.
pub open spec fn spec_assoc_map(ps: Seq<(Seq<u8>, Seq<u8>)>) -> Seq<(Seq<u8>, Seq<u8>)>
    decreases ps.len(),
{
    if ps.len() == 0 {
        seq![]
    } else {
        spec_assoc_insert(spec_assoc_map(ps.drop_last()), ps.last().0, ps.last().1)
    }
}

/// How `spec_assoc_insert` unfolds at the first position whose key is not
/// below `k`.
proof fn lemma_assoc_insert_at(m: Seq<(Seq<u8>, Seq<u8>)>, k: Seq<u8>, v: Seq<u8>, i: int)
    requires
        0 <= i <= m.len(),
        forall|j: int| 0 <= j < i ==> key_lt(#[trigger] m[j].0, k),
        i < m.len() ==> !key_lt(m[i].0, k),
    ensures
        i == m.len() ==> spec_assoc_insert(m, k, v) == m.push((k, v)),
        i < m.len() && m[i].0 == k ==> spec_assoc_insert(m, k, v) == m.update(i, (k, v)),
        i < m.len() && m[i].0 != k ==> spec_assoc_insert(m, k, v) == m.subrange(0, i) + seq![
            (k, v),
        ] + m.subrange(i, m.len() as int),
    decreases i,
{
    if i == 0 {
        if m.len() == 0 {
            assert(spec_assoc_insert(m, k, v) =~= m.push((k, v)));
        } else if m[0].0 == k {
            assert(seq![(k, v)] + m.drop_first() =~= m.update(0, (k, v)));
        } else {
            assert(seq![(k, v)] + m =~= m.subrange(0, 0) + seq![(k, v)] + m.subrange(
                0,
                m.len() as int,
            ));
        }
    } else {
        let rest = m.drop_first();
        assert(key_lt(m[0].0, k));
        assert forall|j: int| 0 <= j < i - 1 implies key_lt(#[trigger] rest[j].0, k) by {
            assert(rest[j] == m[j + 1]);
        }
        if i - 1 < rest.len() {
            assert(rest[i - 1] == m[i]);
        }
        lemma_assoc_insert_at(rest, k, v, i - 1);
        if i == m.len() {
            assert(seq![m[0]] + rest.push((k, v)) =~= m.push((k, v)));
        } else if m[i].0 == k {
            assert(seq![m[0]] + rest.update(i - 1, (k, v)) =~= m.update(i, (k, v)));
        } else {
            assert(seq![m[0]] + (rest.subrange(0, i - 1) + seq![(k, v)] + rest.subrange(
                i - 1,
                rest.len() as int,
            )) =~= m.subrange(0, i) + seq![(k, v)] + m.subrange(i, m.len() as int));
        }
    }
}

/// The byte views of a vector of byte-vector pairs.
pub open spec fn bview(m: Seq<(Vec<u8>, Vec<u8>)>) -> Seq<(Seq<u8>, Seq<u8>)> {
    m.map_values(|p: (Vec<u8>, Vec<u8>)| (p.0@, p.1@))
}

/// Every key of the association list is valid UTF-8.
pub open spec fn all_keys_valid(m: Seq<(Seq<u8>, Seq<u8>)>) -> bool {
    forall|i: int| 0 <= i < m.len() ==> vstd::utf8::valid_utf8(#[trigger] m[i].0)
}

proof fn lemma_assoc_insert_keys_valid(m: Seq<(Seq<u8>, Seq<u8>)>, k: Seq<u8>, v: Seq<u8>)
    requires
        all_keys_valid(m),
        vstd::utf8::valid_utf8(k),
    ensures
        all_keys_valid(spec_assoc_insert(m, k, v)),
    decreases m.len(),
{
    if m.len() == 0 {
    } else if key_lt(m[0].0, k) {
        assert(all_keys_valid(m.drop_first()));
        lemma_assoc_insert_keys_valid(m.drop_first(), k, v);
        let r = seq![m[0]] + spec_assoc_insert(m.drop_first(), k, v);
        assert forall|i: int| 0 <= i < r.len() implies vstd::utf8::valid_utf8(#[trigger] r[i].0) by {
            if i > 0 {
                assert(r[i] == spec_assoc_insert(m.drop_first(), k, v)[i - 1]);
            }
        }
    } else {
        assert(all_keys_valid(m.drop_first()));
    }
}

fn assoc_insert(m: &mut Vec<(Vec<u8>, Vec<u8>)>, k: Vec<u8>, v: Vec<u8>)
    ensures
        bview(final(m)@) == spec_assoc_insert(bview(old(m)@), k@, v@),
{
    let ghost mv = bview(m@);
    let n = m.len();
    let mut i: usize = 0;
    while i < n && bytes_lt(slice_index_get(m.as_slice(), i).0.as_slice(), k.as_slice())
        invariant
            n == m@.len(),
            mv == bview(m@),
            0 <= i <= n,
            forall|j: int| 0 <= j < i ==> key_lt(#[trigger] mv[j].0, k@),
        decreases n - i,
    {
        i = i + 1;
    }
    proof {
        lemma_assoc_insert_at(mv, k@, v@, i as int);
        if i < n {
            lemma_key_lt_total(mv[i as int].0, k@);
        }
    }
    if i < n && eq_bytes(slice_index_get(m.as_slice(), i).0.as_slice(), k.as_slice()) {
        m.remove(i);
        m.insert(i, (k, v));
        proof {
            assert(bview(m@) =~= spec_assoc_insert(mv, k@, v@));
        }
    } else {
        m.insert(i, (k, v));
        proof {
            if i < n {
                assert(key_lt(k@, mv[i as int].0));
            }
            assert(bview(m@) =~= spec_assoc_insert(mv, k@, v@));
        }
    }
}

// ---------------------------------------------------------------------------
// Canonical query string
// ---------------------------------------------------------------------------

/// The byte views of a sequence of string pairs.
pub open spec fn view_pairs(ps: Seq<(String, String)>) -> Seq<(Seq<u8>, Seq<u8>)> {
    ps.map_values(|p: (String, String)| (encode_utf8(p.0@), encode_utf8(p.1@)))
}

/// The character views of a sequence of string pairs.
pub open spec fn view_pairs_chars(ps: Seq<(String, String)>) -> Seq<(Seq<char>, Seq<char>)> {
    ps.map_values(|p: (String, String)| (p.0@, p.1@))
}

/// One query pair rendered: percent-encoded key, `=`, percent-encoded value.
pub open spec fn spec_render_pair(p: (Seq<u8>, Seq<u8>)) -> Seq<u8> {
    spec_percent_encode(p.0) + seq![61u8] + spec_percent_encode(p.1)
}

/// The rendered pairs joined with `&`.
pub open spec fn spec_join_query(m: Seq<(Seq<u8>, Seq<u8>)>) -> Seq<u8>
    decreases m.len(),
{
    if m.len() == 0 {
        seq![]
    } else if m.len() == 1 {
        spec_render_pair(m[0])
    } else {
        spec_join_query(m.drop_last()) + seq![38u8] + spec_render_pair(m.last())
    }
}

/// The canonical query string of a parameter list: later bindings of a key
/// replace earlier ones, pairs are sorted by key, percent-encoded and joined
/// with `&`.
pub open spec fn spec_canonical_query(ps: Seq<(Seq<u8>, Seq<u8>)>) -> Seq<u8> {
    spec_join_query(spec_assoc_map(ps))
}

proof fn lemma_join_query_ascii(m: Seq<(Seq<u8>, Seq<u8>)>)
    ensures
        all_ascii(spec_join_query(m)),
    decreases m.len(),
{
    if m.len() == 0 {
    } else if m.len() == 1 {
        lemma_percent_encode_ascii(m[0].0);
        lemma_percent_encode_ascii(m[0].1);
    } else {
        lemma_join_query_ascii(m.drop_last());
        lemma_percent_encode_ascii(m.last().0);
        lemma_percent_encode_ascii(m.last().1);
    }
}

/// The association map of the parameters, sorted by raw key bytes.
fn param_map(params: &Vec<(String, String)>) -> (m: Vec<(Vec<u8>, Vec<u8>)>)
    ensures
        bview(m@) == spec_assoc_map(view_pairs(params@)),
{
    let n = params.len();
    let mut m: Vec<(Vec<u8>, Vec<u8>)> = Vec::new();
    let mut i: usize = 0;
    while i < n
        invariant
            n == params@.len(),
            0 <= i <= n,
            bview(m@) == spec_assoc_map(view_pairs(params@.subrange(0, i as int))),
        decreases n - i,
    {
        let p = slice_index_get(params.as_slice(), i);
        let kb = p.0.as_str().as_bytes_vec();
        let vb = p.1.as_str().as_bytes_vec();
        assoc_insert(&mut m, kb, vb);
        proof {
            let pre = view_pairs(params@.subrange(0, i as int));
            let cur = view_pairs(params@.subrange(0, i + 1));
            assert(cur.drop_last() =~= pre);
            assert(cur.last() == (encode_utf8(params@[i as int].0@), encode_utf8(
                params@[i as int].1@,
            )));
        }
        i = i + 1;
    }
    proof {
        assert(params@.subrange(0, params@.len() as int) =~= params@);
    }
    m
}

/// The rendered, `&`-joined query string of an association map.
fn render_query(m: &Vec<(Vec<u8>, Vec<u8>)>) -> (r: Vec<u8>)
    ensures
        r@ == spec_join_query(bview(m@)),
{
    let n = m.len();
    let mut out: Vec<u8> = Vec::new();
    let mut i: usize = 0;
    while i < n
        invariant
            n == m@.len(),
            0 <= i <= n,
            out@ == spec_join_query(bview(m@).subrange(0, i as int)),
        decreases n - i,
    {
        if i > 0 {
            out.push(38);
        }
        let p = slice_index_get(m.as_slice(), i);
        let ek = percent_encode_bytes(p.0.as_slice());
        out.extend_from_slice(ek.as_slice());
        out.push(61);
        let ev = percent_encode_bytes(p.1.as_slice());
        out.extend_from_slice(ev.as_slice());
        proof {
            let mv = bview(m@);
            let pre = mv.subrange(0, i as int);
            let cur = mv.subrange(0, i + 1);
            assert(cur.drop_last() =~= pre);
            assert(cur.last() == mv[i as int]);
            if i == 0 {
                assert(out@ =~= spec_render_pair(mv[0]));
            } else {
                assert(out@ =~= spec_join_query(pre) + seq![38u8] + spec_render_pair(
                    mv[i as int],
                ));
            }
        }
        i = i + 1;
    }
    proof {
        assert(bview(m@).subrange(0, m@.len() as int) =~= bview(m@));
    }
    out
}

// ---------------------------------------------------------------------------
// Canonical headers
// ---------------------------------------------------------------------------

/// Whether a lower-cased header name takes part in signing: `host`,
/// `content-type`, or any name beginning with the provider's `x-acs-` prefix.
pub open spec fn spec_selected(lk: Seq<u8>) -> bool {
    lk == encode_utf8("host"@) || lk == encode_utf8("content-type"@) || crate::text::spec_has_prefix(
        lk,
        encode_utf8("x-acs-"@),
    )
}

/// The canonical header map: names folded to ASCII lower case, only selected
/// names kept, values trimmed of surrounding whitespace, later occurrences of
/// a name replacing earlier ones, sorted by name.
pub open spec fn spec_header_map(hs: Seq<(Seq<char>, Seq<char>)>) -> Seq<(Seq<u8>, Seq<u8>)>
    decreases hs.len(),
{
    if hs.len() == 0 {
        seq![]
    } else {
        let m = spec_header_map(hs.drop_last());
        let lk = encode_utf8(spec_lower_chars(hs.last().0));
        if spec_selected(lk) {
            spec_assoc_insert(m, lk, encode_utf8(crate::text::spec_trim_chars(hs.last().1)))
        } else {
            m
        }
    }
}

/// A header takes part in signing exactly when its lower-cased name is
/// `host`, `content-type` or begins with `x-acs-`: appending a header leaves
/// the canonical header map unchanged unless its name is selected, in which
/// case its lower-cased name is bound to its trimmed value.
pub proof fn lemma_header_selection(hs: Seq<(Seq<char>, Seq<char>)>, k: Seq<char>, v: Seq<char>)
    ensures
        spec_header_map(hs.push((k, v))) == if spec_selected(encode_utf8(spec_lower_chars(k))) {
            spec_assoc_insert(
                spec_header_map(hs),
                encode_utf8(spec_lower_chars(k)),
                encode_utf8(crate::text::spec_trim_chars(v)),
            )
        } else {
            spec_header_map(hs)
        },
{
    assert(hs.push((k, v)).drop_last() =~= hs);
    assert(hs.push((k, v)).last() == (k, v));
}

proof fn lemma_header_map_keys_valid(hs: Seq<(Seq<char>, Seq<char>)>)
    ensures
        all_keys_valid(spec_header_map(hs)),
    decreases hs.len(),
{
    broadcast use vstd::utf8::encode_utf8_valid_utf8;

    if hs.len() > 0 {
        lemma_header_map_keys_valid(hs.drop_last());
        let lk = encode_utf8(spec_lower_chars(hs.last().0));
        if spec_selected(lk) {
            lemma_assoc_insert_keys_valid(
                spec_header_map(hs.drop_last()),
                lk,
                encode_utf8(crate::text::spec_trim_chars(hs.last().1)),
            );
        }
    }
}

/// The canonical header map of a header list.
fn selected_header_map(headers: &Vec<(String, String)>) -> (m: Vec<(Vec<u8>, Vec<u8>)>)
    ensures
        bview(m@) == spec_header_map(view_pairs_chars(headers@)),
{
    let n = headers.len();
    let mut m: Vec<(Vec<u8>, Vec<u8>)> = Vec::new();
    let mut i: usize = 0;
    while i < n
        invariant
            n == headers@.len(),
            0 <= i <= n,
            bview(m@) == spec_header_map(view_pairs_chars(headers@.subrange(0, i as int))),
        decreases n - i,
    {
        let p = slice_index_get(headers.as_slice(), i);
        let lower = crate::text::ascii_lowercase_string(p.0.as_str());
        let lk = lower.as_str().as_bytes();
        let selected = eq_bytes(lk, "host".as_bytes()) || eq_bytes(lk, "content-type".as_bytes())
            || crate::text::has_prefix(lk, "x-acs-".as_bytes());
        if selected {
            let trimmed = crate::text::trim_str(p.1.as_str());
            assoc_insert(&mut m, lower.as_str().as_bytes_vec(), trimmed.as_bytes_vec());
        }
        proof {
            let pre = view_pairs_chars(headers@.subrange(0, i as int));
            let cur = view_pairs_chars(headers@.subrange(0, i + 1));
            assert(cur.drop_last() =~= pre);
            assert(cur.last() == (headers@[i as int].0@, headers@[i as int].1@));
        }
        i = i + 1;
    }
    proof {
        assert(headers@.subrange(0, headers@.len() as int) =~= headers@);
    }
    m
}

/// One canonical header line: `name:value` followed by a line feed.
pub open spec fn spec_render_header(p: (Seq<u8>, Seq<u8>)) -> Seq<u8> {
    p.0 + seq![58u8] + p.1 + seq![10u8]
}

/// The canonical headers: each selected header rendered in order.
pub open spec fn spec_canonical_headers(m: Seq<(Seq<u8>, Seq<u8>)>) -> Seq<u8>
    decreases m.len(),
{
    if m.len() == 0 {
        seq![]
    } else {
        spec_canonical_headers(m.drop_last()) + spec_render_header(m.last())
    }
}

/// The signed-header list: the selected lower-case names joined with `;`.
pub open spec fn spec_signed_headers(m: Seq<(Seq<u8>, Seq<u8>)>) -> Seq<u8>
    decreases m.len(),
{
    if m.len() == 0 {
        seq![]
    } else if m.len() == 1 {
        m[0].0
    } else {
        spec_signed_headers(m.drop_last()) + seq![59u8] + m.last().0
    }
}

proof fn lemma_signed_headers_valid(m: Seq<(Seq<u8>, Seq<u8>)>)
    requires
        all_keys_valid(m),
    ensures
        vstd::utf8::valid_utf8(spec_signed_headers(m)),
    decreases m.len(),
{
    if m.len() == 0 {
        assert(vstd::utf8::valid_utf8(spec_signed_headers(m)));
    } else if m.len() == 1 {
        assert(vstd::utf8::valid_utf8(m[0].0));
    } else {
        assert(all_keys_valid(m.drop_last()));
        lemma_signed_headers_valid(m.drop_last());
        lemma_ascii_decode(seq![59u8]);
        vstd::utf8::valid_utf8_concat(spec_signed_headers(m.drop_last()), seq![59u8]);
        vstd::utf8::valid_utf8_concat(spec_signed_headers(m.drop_last()) + seq![59u8], m.last().0);
    }
}

fn render_canonical_headers(m: &Vec<(Vec<u8>, Vec<u8>)>) -> (r: Vec<u8>)
    ensures
        r@ == spec_canonical_headers(bview(m@)),
{
    let n = m.len();
    let mut out: Vec<u8> = Vec::new();
    let mut i: usize = 0;
    while i < n
        invariant
            n == m@.len(),
            0 <= i <= n,
            out@ == spec_canonical_headers(bview(m@).subrange(0, i as int)),
        decreases n - i,
    {
        let p = slice_index_get(m.as_slice(), i);
        out.extend_from_slice(p.0.as_slice());
        out.push(58);
        out.extend_from_slice(p.1.as_slice());
        out.push(10);
        proof {
            let mv = bview(m@);
            let pre = mv.subrange(0, i as int);
            let cur = mv.subrange(0, i + 1);
            assert(cur.drop_last() =~= pre);
            assert(cur.last() == mv[i as int]);
            assert(out@ =~= spec_canonical_headers(pre) + spec_render_header(mv[i as int]));
        }
        i = i + 1;
    }
    proof {
        assert(bview(m@).subrange(0, m@.len() as int) =~= bview(m@));
    }
    out
}

// ---------------------------------------------------------------------------
// Canonical request, string-to-sign, authorization
// ---------------------------------------------------------------------------

/// The canonical request: method, the fixed path `/`, canonical query,
/// canonical headers, signed-header list and hex SHA-256 of the body, each
/// separated by a line feed.
pub open spec fn spec_canonical_request(
    method: Seq<u8>,
    params: Seq<(Seq<u8>, Seq<u8>)>,
    headers: Seq<(Seq<char>, Seq<char>)>,
    body: Seq<u8>,
) -> Seq<u8> {
    let hm = spec_header_map(headers);
    method + seq![10u8] + seq![47u8, 10u8] + spec_canonical_query(params) + seq![10u8]
        + spec_canonical_headers(hm) + seq![10u8] + spec_signed_headers(hm) + seq![10u8]
        + spec_hex_lower(sha256_of(body))
}

/// The string-to-sign: the algorithm identifier and the hex SHA-256 of the
/// canonical request.
pub open spec fn spec_string_to_sign(canonical_request: Seq<u8>) -> Seq<u8> {
    encode_utf8("ACS3-HMAC-SHA256\n"@) + spec_hex_lower(sha256_of(canonical_request))
}

/// The hex HMAC-SHA256 signature of the string-to-sign, keyed by the secret.
pub open spec fn spec_signature(secret: Seq<char>, string_to_sign: Seq<u8>) -> Seq<u8> {
    spec_hex_lower(hmac_sha256_of(encode_utf8(secret), string_to_sign))
}

/// The authorization value: algorithm, credential, signed-header list and
/// signature.
pub open spec fn spec_authorization(
    key_id: Seq<char>,
    secret: Seq<char>,
    method: Seq<u8>,
    params: Seq<(Seq<u8>, Seq<u8>)>,
    headers: Seq<(Seq<char>, Seq<char>)>,
    body: Seq<u8>,
) -> Seq<u8> {
    encode_utf8("ACS3-HMAC-SHA256 Credential="@) + encode_utf8(key_id) + encode_utf8(
        ",SignedHeaders="@,
    ) + spec_signed_headers(spec_header_map(headers)) + encode_utf8(",Signature="@)
        + spec_signature(secret, spec_string_to_sign(spec_canonical_request(method, params, headers, body)))
}

fn render_signed_headers(m: &Vec<(Vec<u8>, Vec<u8>)>) -> (r: Vec<u8>)
    ensures
        r@ == spec_signed_headers(bview(m@)),
{
    let n = m.len();
    let mut out: Vec<u8> = Vec::new();
    let mut i: usize = 0;
    while i < n
        invariant
            n == m@.len(),
            0 <= i <= n,
            out@ == spec_signed_headers(bview(m@).subrange(0, i as int)),
        decreases n - i,
    {
        if i > 0 {
            out.push(59);
        }
        let p = slice_index_get(m.as_slice(), i);
        out.extend_from_slice(p.0.as_slice());
        proof {
            let mv = bview(m@);
            let pre = mv.subrange(0, i as int);
            let cur = mv.subrange(0, i + 1);
            assert(cur.drop_last() =~= pre);
            assert(cur.last() == mv[i as int]);
            if i == 0 {
                assert(out@ =~= mv[0].0);
            } else {
                assert(out@ =~= spec_signed_headers(pre) + seq![59u8] + mv[i as int].0);
            }
        }
        i = i + 1;
    }
    proof {
        assert(bview(m@).subrange(0, m@.len() as int) =~= bview(m@));
    }
    out
}

// ---------------------------------------------------------------------------
// The signer
// ---------------------------------------------------------------------------

/// Failure of the signing step: the key material was rejected. HMAC-SHA256
/// accepts keys of any length, so `sign` proves it never returns this; the
/// variant keeps the workflow's error taxonomy explicit for its callers.
#[derive(Debug)]
pub enum SignError {
    InvalidKeyMaterial,
}

/// Produces the provider's authorization value for one outbound call.
pub struct AliyunSigner {
    access_key_id: String,
    access_key_secret: String,
}

impl AliyunSigner {
    /// The access key identifier this signer was built with.
    pub closed spec fn key_id(&self) -> Seq<char> {
        self.access_key_id@
    }

    /// The secret this signer was built with.
    pub closed spec fn key_secret(&self) -> Seq<char> {
        self.access_key_secret@
    }

    pub fn new(access_key_id: String, access_key_secret: String) -> (s: Self)
        ensures
            s.key_id() == access_key_id@,
            s.key_secret() == access_key_secret@,
    {
        AliyunSigner { access_key_id, access_key_secret }
    }

    /// A string percent-encoded over its UTF-8 bytes.
    pub fn percent_encode(s: &str) -> (r: String)
        ensures
            encode_utf8(r@) == spec_percent_encode(s.spec_bytes()),
            r@ == spec_percent_encode(s.spec_bytes()).map_values(|b: u8| b as char),
    {
        let out = percent_encode_bytes(s.as_bytes());
        proof {
            lemma_percent_encode_ascii(s.spec_bytes());
        }
        ascii_to_string(out)
    }

    /// The canonical query string of the given parameters.
    pub fn build_canonical_query_string(params: &Vec<(String, String)>) -> (r: String)
        ensures
            encode_utf8(r@) == spec_canonical_query(view_pairs(params@)),
            r@ == spec_canonical_query(view_pairs(params@)).map_values(|b: u8| b as char),
    {
        let m = param_map(params);
        let out = render_query(&m);
        proof {
            lemma_join_query_ascii(bview(m@));
        }
        ascii_to_string(out)
    }

    /// Signs one request: the authorization value is a pure function of the
    /// method, the query parameters, the headers, the body and the signer's
    /// credentials, exactly as `spec_authorization` states it.
    pub fn sign(
        &self,
        method: &str,
        query_params: &Vec<(String, String)>,
        headers: &Vec<(String, String)>,
        body: &str,
    ) -> (r: Result<String, SignError>)
        ensures
            r is Ok,
            encode_utf8(r->Ok_0@) == spec_authorization(
                self.key_id(),
                self.key_secret(),
                method.spec_bytes(),
                view_pairs(query_params@),
                view_pairs_chars(headers@),
                body.spec_bytes(),
            ),
    {
        broadcast use vstd::utf8::encode_utf8_valid_utf8;

        let pm = param_map(query_params);
        let cq = render_query(&pm);
        let hm = selected_header_map(headers);
        let ch = render_canonical_headers(&hm);
        let sh = render_signed_headers(&hm);
        let hp = sha256_hex_bytes(body.as_bytes());

        let mut cr: Vec<u8> = Vec::new();
        cr.extend_from_slice(method.as_bytes());
        cr.push(10);
        cr.push(47);
        cr.push(10);
        cr.extend_from_slice(cq.as_slice());
        cr.push(10);
        cr.extend_from_slice(ch.as_slice());
        cr.push(10);
        cr.extend_from_slice(sh.as_slice());
        cr.push(10);
        cr.extend_from_slice(hp.as_slice());
        let ghost spec_cr = spec_canonical_request(
            method.spec_bytes(),
            view_pairs(query_params@),
            view_pairs_chars(headers@),
            body.spec_bytes(),
        );
        proof {
            assert(cr@ =~= spec_cr);
        }

        let mut sts: Vec<u8> = Vec::new();
        sts.extend_from_slice("ACS3-HMAC-SHA256\n".as_bytes());
        let cr_hash = sha256_hex_bytes(cr.as_slice());
        sts.extend_from_slice(cr_hash.as_slice());
        proof {
            assert(sts@ =~= spec_string_to_sign(spec_cr));
        }

        let tag = hmac_sha256_digest(self.access_key_secret.as_str().as_bytes(), sts.as_slice());
        let signature = hex_encode_bytes(tag.as_slice());

        let mut auth: Vec<u8> = Vec::new();
        auth.extend_from_slice("ACS3-HMAC-SHA256 Credential=".as_bytes());
        auth.extend_from_slice(self.access_key_id.as_str().as_bytes());
        auth.extend_from_slice(",SignedHeaders=".as_bytes());
        auth.extend_from_slice(sh.as_slice());
        auth.extend_from_slice(",Signature=".as_bytes());
        auth.extend_from_slice(signature.as_slice());
        proof {
            assert(auth@ =~= spec_authorization(
                self.key_id(),
                self.key_secret(),
                method.spec_bytes(),
                view_pairs(query_params@),
                view_pairs_chars(headers@),
                body.spec_bytes(),
            ));

            let p1 = encode_utf8("ACS3-HMAC-SHA256 Credential="@);
            let p2 = encode_utf8(self.key_id());
            let p3 = encode_utf8(",SignedHeaders="@);
            let p4 = spec_signed_headers(spec_header_map(view_pairs_chars(headers@)));
            let p5 = encode_utf8(",Signature="@);
            let p6 = spec_hex_lower(
                hmac_sha256_of(encode_utf8(self.key_secret()), spec_string_to_sign(spec_cr)),
            );
            lemma_header_map_keys_valid(view_pairs_chars(headers@));
            lemma_signed_headers_valid(spec_header_map(view_pairs_chars(headers@)));
            lemma_hex_lower_ascii(
                hmac_sha256_of(encode_utf8(self.key_secret()), spec_string_to_sign(spec_cr)),
            );
            lemma_ascii_decode(p6);
            vstd::utf8::valid_utf8_concat(p1, p2);
            vstd::utf8::valid_utf8_concat(p1 + p2, p3);
            vstd::utf8::valid_utf8_concat(p1 + p2 + p3, p4);
            vstd::utf8::valid_utf8_concat(p1 + p2 + p3 + p4, p5);
            vstd::utf8::valid_utf8_concat(p1 + p2 + p3 + p4 + p5, p6);
            assert(auth@ =~= p1 + p2 + p3 + p4 + p5 + p6);
        }
        Ok(bytes_to_string(auth))
    }
}

/// Law: the signer is deterministic. Equal credentials, method, query
/// parameters, headers and body give byte-identical authorization values.
pub proof fn lemma_sign_deterministic(
    key_id: Seq<char>,
    secret: Seq<char>,
    method: Seq<u8>,
    params: Seq<(Seq<u8>, Seq<u8>)>,
    headers: Seq<(Seq<char>, Seq<char>)>,
    body: Seq<u8>,
    a1: Seq<u8>,
    a2: Seq<u8>,
)
    requires
        a1 == spec_authorization(key_id, secret, method, params, headers, body),
        a2 == spec_authorization(key_id, secret, method, params, headers, body),
    ensures
        a1 == a2,
{
}

} // verus!
