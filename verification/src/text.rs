//! Character-level predicates that the profile and settings rules are written with.
//!
//! Strings are viewed as their sequence of `char`s; byte lengths are the length
//! of the UTF-8 encoding of that sequence, as `str::len` reports.

use vstd::prelude::*;
use vstd::utf8::encode_utf8;

verus! {

/// Rust's `char::is_whitespace`: the Unicode `White_Space` property.
pub open spec fn is_whitespace(c: char) -> bool {
    ||| ('\u{9}' <= c && c <= '\u{d}')
    ||| c == ' '
    ||| c == '\u{85}'
    ||| c == '\u{a0}'
    ||| c == '\u{1680}'
    ||| ('\u{2000}' <= c && c <= '\u{200a}')
    ||| c == '\u{2028}'
    ||| c == '\u{2029}'
    ||| c == '\u{202f}'
    ||| c == '\u{205f}'
    ||| c == '\u{3000}'
}

/// A string whose `trim()` is empty: every character is whitespace.
pub open spec fn is_blank(s: Seq<char>) -> bool {
    forall|i: int| 0 <= i < s.len() ==> is_whitespace(#[trigger] s[i])
}

/// Some character of the string is whitespace.
pub open spec fn has_whitespace(s: Seq<char>) -> bool {
    exists|i: int| 0 <= i < s.len() && is_whitespace(#[trigger] s[i])
}

/// The number of bytes of the UTF-8 encoding, which is what `str::len` returns.
pub open spec fn utf8_len(s: Seq<char>) -> nat {
    encode_utf8(s).len()
}

/// Rust's `char::is_ascii_hexdigit`.
pub open spec fn is_hex_digit(c: char) -> bool {
    ||| ('0' <= c && c <= '9')
    ||| ('a' <= c && c <= 'f')
    ||| ('A' <= c && c <= 'F')
}

/// A colour written `#RRGGBB`: seven bytes, a `#` and six hexadecimal digits.
pub open spec fn is_hex_color(s: Seq<char>) -> bool {
    &&& s.len() == 7
    &&& s[0] == '#'
    &&& forall|i: int| 1 <= i < 7 ==> is_hex_digit(#[trigger] s[i])
}

/// The prefix that every accepted URL starts with.
pub open spec fn https_prefix() -> Seq<char> {
    seq!['h', 't', 't', 'p', 's', ':', '/', '/']
}

/// `s` starts with `prefix`.
pub open spec fn starts_with(s: Seq<char>, prefix: Seq<char>) -> bool {
    prefix.len() <= s.len() && s.take(prefix.len() as int) == prefix
}

/// The authority (the part before the first `/`) of the text after the scheme is empty.
pub open spec fn authority_is_empty(rest: Seq<char>) -> bool {
    rest.len() == 0 || rest[0] == '/'
}

/// The authority of the text after the scheme holds an `@` (user information).
pub open spec fn authority_has_user_info(rest: Seq<char>) -> bool {
    exists|i: int|
        0 <= i < rest.len() && #[trigger] rest[i] == '@' && forall|j: int|
            0 <= j < i ==> rest[j] != '/'
}

/// A URL that is not a plain, static HTTPS address: another scheme, an empty
/// authority, credentials, a query, a fragment, a backslash or whitespace.
pub open spec fn https_url_invalid(s: Seq<char>) -> bool {
    if !starts_with(s, https_prefix()) {
        true
    } else {
        let rest = s.skip(8);
        ||| authority_is_empty(rest)
        ||| authority_has_user_info(rest)
        ||| s.contains('?')
        ||| s.contains('#')
        ||| s.contains('\\')
        ||| has_whitespace(s)
    }
}

/// The string without all of its trailing `/` characters.
pub open spec fn trim_trailing_slashes(s: Seq<char>) -> Seq<char>
    decreases s.len(),
{
    if s.len() > 0 && s.last() == '/' {
        trim_trailing_slashes(s.drop_last())
    } else {
        s
    }
}

/// The code of a character after ASCII lowercasing (`char::to_ascii_lowercase`).
pub open spec fn ascii_lower_code(c: char) -> u32 {
    if 'A' <= c && c <= 'Z' {
        (c as u32 + 32) as u32
    } else {
        c as u32
    }
}

/// `str::eq_ignore_ascii_case`: equal after ASCII lowercasing.
pub open spec fn ascii_case_equal(a: Seq<char>, b: Seq<char>) -> bool {
    a.len() == b.len() && forall|i: int|
        0 <= i < a.len() ==> ascii_lower_code(#[trigger] a[i]) == ascii_lower_code(b[i])
}

/// Two Jira site URLs name the same site: equal up to ASCII case and trailing slashes.
pub open spec fn same_site(a: Seq<char>, b: Seq<char>) -> bool {
    ascii_case_equal(trim_trailing_slashes(a), trim_trailing_slashes(b))
}

/// A workspace or repository identifier that is blank, longer than 200 bytes or
/// holds whitespace.
pub open spec fn slug_invalid(s: Seq<char>) -> bool {
    is_blank(s) || utf8_len(s) > 200 || has_whitespace(s)
}

/// Decides `is_whitespace`.
pub fn char_is_whitespace(c: char) -> (r: bool)
    ensures
        r == is_whitespace(c),
{
    ('\u{9}' <= c && c <= '\u{d}') || c == ' ' || c == '\u{85}' || c == '\u{a0}' || c
        == '\u{1680}' || ('\u{2000}' <= c && c <= '\u{200a}') || c == '\u{2028}' || c
        == '\u{2029}' || c == '\u{202f}' || c == '\u{205f}' || c == '\u{3000}'
}

/// The text without its leading whitespace.
pub open spec fn trim_start(s: Seq<char>) -> Seq<char>
    decreases s.len(),
{
    if s.len() > 0 && is_whitespace(s[0]) {
        trim_start(s.skip(1))
    } else {
        s
    }
}

/// The text without its trailing whitespace.
pub open spec fn trim_end(s: Seq<char>) -> Seq<char>
    decreases s.len(),
{
    if s.len() > 0 && is_whitespace(s.last()) {
        trim_end(s.drop_last())
    } else {
        s
    }
}

/// Rust's `str::trim`: the text without leading and trailing whitespace.
pub open spec fn trim(s: Seq<char>) -> Seq<char> {
    trim_end(trim_start(s))
}

/// `str::trim`, which returns the slice without leading and trailing
/// characters of the Unicode `White_Space` property; the contract states that
/// result over `trim`.
#[verifier::external_body]
pub(crate) fn str_trim(s: &str) -> (r: &str)
    ensures
        r@ == trim(s@),
{
    s.trim()
}

/// Only the empty text has an empty UTF-8 encoding.
pub proof fn lemma_utf8_len_positive(s: Seq<char>)
    ensures
        (utf8_len(s) > 0) == (s.len() > 0),
{
    if s.len() > 0 {
        assert(encode_utf8(s) == vstd::utf8::encode_scalar(s[0] as u32) + encode_utf8(s.drop_first()));
        assert(vstd::utf8::encode_scalar(s[0] as u32).len() >= 1);
    }
}

/// Lexicographic order of texts by character: the order of `String`, whose
/// byte order UTF-8 makes the same as the order of the characters' scalar values.
pub open spec fn seq_less(a: Seq<char>, b: Seq<char>) -> bool
    decreases a.len(),
{
    if b.len() == 0 {
        false
    } else if a.len() == 0 {
        true
    } else if a[0] != b[0] {
        a[0] < b[0]
    } else {
        seq_less(a.skip(1), b.skip(1))
    }
}

/// No text comes before itself.
pub proof fn lemma_seq_less_irreflexive(a: Seq<char>)
    ensures
        !seq_less(a, a),
    decreases a.len(),
{
    if a.len() > 0 {
        lemma_seq_less_irreflexive(a.skip(1));
    }
}

/// The order of texts is transitive.
pub proof fn lemma_seq_less_transitive(a: Seq<char>, b: Seq<char>, c: Seq<char>)
    requires
        seq_less(a, b),
        seq_less(b, c),
    ensures
        seq_less(a, c),
    decreases a.len(),
{
    if a.len() > 0 && a[0] == b[0] && b[0] == c[0] {
        lemma_seq_less_transitive(a.skip(1), b.skip(1), c.skip(1));
    }
}

/// Of two different texts, one comes before the other.
pub proof fn lemma_seq_less_total(a: Seq<char>, b: Seq<char>)
    ensures
        seq_less(a, b) || seq_less(b, a) || a == b,
    decreases a.len(),
{
    if a.len() == 0 && b.len() == 0 {
        assert(a =~= b);
    } else if a.len() > 0 && b.len() > 0 && a[0] == b[0] {
        lemma_seq_less_total(a.skip(1), b.skip(1));
        if a.skip(1) == b.skip(1) {
            assert(a.skip(1).len() == b.skip(1).len());
            assert(a.len() == b.len());
            assert forall|i: int| 0 <= i < a.len() implies a[i] == b[i] by {
                if i > 0 {
                    assert(a[i] == a.skip(1)[i - 1]);
                    assert(b[i] == b.skip(1)[i - 1]);
                }
            }
            assert(a =~= b);
        }
    }
}

/// Decides `seq_less`.
pub fn str_less(a: &str, b: &str) -> (r: bool)
    ensures
        r == seq_less(a@, b@),
{
    let va = chars_of(a);
    let vb = chars_of(b);
    let mut i: usize = 0;
    assert(a@.skip(0) =~= a@);
    assert(b@.skip(0) =~= b@);
    while i < va.len() && i < vb.len()
        invariant
            i <= va.len(),
            i <= vb.len(),
            va@ == a@,
            vb@ == b@,
            seq_less(a@, b@) == seq_less(a@.skip(i as int), b@.skip(i as int)),
        decreases va.len() - i,
    {
        if va[i] != vb[i] {
            return va[i] < vb[i];
        }
        assert(a@.skip(i as int).skip(1) =~= a@.skip(i + 1));
        assert(b@.skip(i as int).skip(1) =~= b@.skip(i + 1));
        i = i + 1;
    }
    i < vb.len()
}

/// Decides `is_hex_digit`.
pub fn char_is_hex_digit(c: char) -> (r: bool)
    ensures
        r == is_hex_digit(c),
{
    ('0' <= c && c <= '9') || ('a' <= c && c <= 'f') || ('A' <= c && c <= 'F')
}

/// The characters of a string, in order.
pub fn chars_of(s: &str) -> (v: Vec<char>)
    ensures
        v@ == s@,
{
    let mut v: Vec<char> = Vec::new();
    for c in it: s.chars()
        invariant
            v@ == it.seq().take(it.index() as int),
    {
        v.push(c);
    }
    v
}

/// The number of bytes of the string.
pub fn byte_len(s: &str) -> (r: usize)
    ensures
        r == utf8_len(s@),
{
    s.as_bytes().len()
}

/// Decides `is_blank` (the string's `trim()` is empty).
pub fn str_is_blank(s: &str) -> (r: bool)
    ensures
        r == is_blank(s@),
{
    let v = chars_of(s);
    let mut i: usize = 0;
    while i < v.len()
        invariant
            i <= v.len(),
            v@ == s@,
            forall|k: int| 0 <= k < i ==> is_whitespace(#[trigger] v@[k]),
        decreases v.len() - i,
    {
        if !char_is_whitespace(v[i]) {
            return false;
        }
        i = i + 1;
    }
    true
}

/// Decides `has_whitespace`.
pub fn str_has_whitespace(s: &str) -> (r: bool)
    ensures
        r == has_whitespace(s@),
{
    let v = chars_of(s);
    let mut i: usize = 0;
    while i < v.len()
        invariant
            i <= v.len(),
            v@ == s@,
            forall|k: int| 0 <= k < i ==> !is_whitespace(#[trigger] v@[k]),
        decreases v.len() - i,
    {
        if char_is_whitespace(v[i]) {
            return true;
        }
        i = i + 1;
    }
    false
}

/// Decides whether the string holds the character `c`.
pub fn str_contains_char(s: &str, c: char) -> (r: bool)
    ensures
        r == s@.contains(c),
{
    let v = chars_of(s);
    let mut i: usize = 0;
    while i < v.len()
        invariant
            i <= v.len(),
            v@ == s@,
            forall|k: int| 0 <= k < i ==> v@[k] != c,
        decreases v.len() - i,
    {
        if v[i] == c {
            return true;
        }
        i = i + 1;
    }
    false
}

/// Decides `is_hex_color`.
pub fn str_is_hex_color(s: &str) -> (r: bool)
    ensures
        r == is_hex_color(s@),
{
    let v = chars_of(s);
    if v.len() != 7 || v[0] != '#' {
        return false;
    }
    let mut i: usize = 1;
    while i < 7
        invariant
            1 <= i <= 7,
            v@ == s@,
            v@.len() == 7,
            forall|k: int| 1 <= k < i ==> is_hex_digit(#[trigger] v@[k]),
        decreases 7 - i,
    {
        if !char_is_hex_digit(v[i]) {
            return false;
        }
        i = i + 1;
    }
    true
}

/// Decides `https_url_invalid`.
pub fn str_https_url_invalid(s: &str) -> (r: bool)
    ensures
        r == https_url_invalid(s@),
{
    let v = chars_of(s);
    if v.len() < 8 || v[0] != 'h' || v[1] != 't' || v[2] != 't' || v[3] != 'p' || v[4] != 's'
        || v[5] != ':' || v[6] != '/' || v[7] != '/' {
        proof {
            if starts_with(s@, https_prefix()) {
                assert(s@.take(8)[0] == 'h');
                assert(s@.take(8)[1] == 't');
                assert(s@.take(8)[2] == 't');
                assert(s@.take(8)[3] == 'p');
                assert(s@.take(8)[4] == 's');
                assert(s@.take(8)[5] == ':');
                assert(s@.take(8)[6] == '/');
                assert(s@.take(8)[7] == '/');
            }
        }
        return true;
    }
    assert(s@.take(8) =~= https_prefix());
    let ghost rest = s@.skip(8);
    if v.len() == 8 || v[8] == '/' {
        return true;
    }
    let mut i: usize = 8;
    while i < v.len() && v[i] != '/'
        invariant
            8 <= i <= v.len(),
            v@ == s@,
            rest == s@.skip(8),
            forall|k: int| 8 <= k < i ==> v@[k] != '/' && v@[k] != '@',
        decreases v.len() - i,
    {
        if v[i] == '@' {
            assert(rest[i - 8] == '@');
            return true;
        }
        i = i + 1;
    }
    proof {
        if authority_has_user_info(rest) {
            let w = choose|w: int|
                0 <= w < rest.len() && #[trigger] rest[w] == '@' && forall|j: int|
                    0 <= j < w ==> rest[j] != '/';
            if w + 8 >= i {
                assert(rest[i - 8] == '/');
            }
            assert(v@[w + 8] == '@');
        }
    }
    str_contains_char(s, '?') || str_contains_char(s, '#') || str_contains_char(s, '\\')
        || str_has_whitespace(s)
}

/// The position just past the last character that is not a trailing `/`.
fn trimmed_end(v: &Vec<char>) -> (end: usize)
    ensures
        end <= v.len(),
        v@.take(end as int) == trim_trailing_slashes(v@),
{
    let mut end = v.len();
    assert(v@.take(end as int) =~= v@);
    while end > 0 && v[end - 1] == '/'
        invariant
            end <= v.len(),
            trim_trailing_slashes(v@.take(end as int)) == trim_trailing_slashes(v@),
        decreases end,
    {
        assert(v@.take(end as int).drop_last() =~= v@.take(end - 1));
        end = end - 1;
    }
    assert(v@.take(v.len() as int) =~= v@);
    end
}

/// `char::to_ascii_lowercase`, as a code.
pub fn char_ascii_lower_code(c: char) -> (r: u32)
    ensures
        r == ascii_lower_code(c),
{
    if 'A' <= c && c <= 'Z' {
        (c as u32) + 32
    } else {
        c as u32
    }
}

/// Decides `same_site`.
pub fn str_same_site(a: &str, b: &str) -> (r: bool)
    ensures
        r == same_site(a@, b@),
{
    let va = chars_of(a);
    let vb = chars_of(b);
    let ea = trimmed_end(&va);
    let eb = trimmed_end(&vb);
    let ghost ta = trim_trailing_slashes(a@);
    let ghost tb = trim_trailing_slashes(b@);
    assert(ta.len() == ea);
    assert(tb.len() == eb);
    if ea != eb {
        return false;
    }
    let mut i: usize = 0;
    while i < ea
        invariant
            i <= ea,
            ea == eb,
            ea <= va.len(),
            eb <= vb.len(),
            ta == va@.take(ea as int),
            ta == trim_trailing_slashes(a@),
            tb == trim_trailing_slashes(b@),
            tb == vb@.take(eb as int),
            forall|k: int| 0 <= k < i ==> ascii_lower_code(#[trigger] ta[k]) == ascii_lower_code(tb[k]),
        decreases ea - i,
    {
        if char_ascii_lower_code(va[i]) != char_ascii_lower_code(vb[i]) {
            assert(ta[i as int] == va@[i as int]);
            assert(tb[i as int] == vb@[i as int]);
            assert(ascii_lower_code(ta[i as int]) != ascii_lower_code(tb[i as int]));
            return false;
        }
        assert(ta[i as int] == va@[i as int]);
        assert(tb[i as int] == vb@[i as int]);
        i = i + 1;
    }
    true
}

/// Decides whether two strings hold the same characters.
pub fn str_equal(a: &str, b: &str) -> (r: bool)
    ensures
        r == (a@ == b@),
{
    let va = chars_of(a);
    let vb = chars_of(b);
    if va.len() != vb.len() {
        return false;
    }
    let mut i: usize = 0;
    while i < va.len()
        invariant
            i <= va.len(),
            va.len() == vb.len(),
            va@ == a@,
            vb@ == b@,
            forall|k: int| 0 <= k < i ==> va@[k] == vb@[k],
        decreases va.len() - i,
    {
        if va[i] != vb[i] {
            return false;
        }
        i = i + 1;
    }
    assert(va@ =~= vb@);
    true
}

/// Decides `slug_invalid`.
pub fn str_slug_invalid(s: &str) -> (r: bool)
    ensures
        r == slug_invalid(s@),
{
    str_is_blank(s) || byte_len(s) > 200 || str_has_whitespace(s)
}

} // verus!
