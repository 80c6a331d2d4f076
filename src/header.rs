//! The Authorization header: its scheme, its token, and the comparison of
//! token texts that ignores base64 padding.

use vstd::prelude::*;

verus! {

/// Unicode's White_Space property, which `char::is_whitespace` tests.
pub open spec fn is_space(c: char) -> bool {
    ('\u{9}' <= c && c <= '\u{d}') || c == ' ' || c == '\u{85}' || c == '\u{a0}' || c
        == '\u{1680}' || ('\u{2000}' <= c && c <= '\u{200a}') || c == '\u{2028}' || c
        == '\u{2029}' || c == '\u{202f}' || c == '\u{205f}' || c == '\u{3000}'
}

fn space(c: char) -> (r: bool)
    ensures
        r == is_space(c),
{
    ('\u{9}' <= c && c <= '\u{d}') || c == ' ' || c == '\u{85}' || c == '\u{a0}' || c
        == '\u{1680}' || ('\u{2000}' <= c && c <= '\u{200a}') || c == '\u{2028}' || c
        == '\u{2029}' || c == '\u{202f}' || c == '\u{205f}' || c == '\u{3000}'
}

/// The first index at or after `i` that holds no whitespace, or the length.
pub open spec fn skip_space(s: Seq<char>, i: int) -> int
    decreases s.len() - i,
{
    if i < 0 || i >= s.len() {
        s.len() as int
    } else if is_space(s[i]) {
        skip_space(s, i + 1)
    } else {
        i
    }
}

/// The first index at or after `i` that holds whitespace, or the length.
pub open spec fn skip_word(s: Seq<char>, i: int) -> int
    decreases s.len() - i,
{
    if i < 0 || i >= s.len() {
        s.len() as int
    } else if is_space(s[i]) {
        i
    } else {
        skip_word(s, i + 1)
    }
}

/// The one scheme that this resolver accepts.
pub open spec fn bearer_scheme() -> Seq<char> {
    seq!['B', 'e', 'a', 'r', 'e', 'r']
}

/// The token of a header that splits on whitespace into exactly two fields,
/// the first of them the scheme `Bearer`.
pub open spec fn bearer_token(s: Seq<char>) -> Option<Seq<char>> {
    let a = skip_space(s, 0);
    let b = skip_word(s, a);
    let c = skip_space(s, b);
    let d = skip_word(s, c);
    if s.subrange(a, b) == bearer_scheme() && c < d && skip_space(s, d) == s.len() {
        Some(s.subrange(c, d))
    } else {
        None
    }
}

/// What a request's Authorization header supplies.
pub enum Credential {
    /// No header: the request goes on without a session.
    Anonymous,
    /// A header that is not `Bearer <token>`: the request is refused.
    Malformed,
    Bearer(String),
}

fn skip_space_exec(s: &str, i: usize, len: usize) -> (r: usize)
    requires
        len == s@.len(),
        i <= len,
    ensures
        r == skip_space(s@, i as int),
        i <= r <= len,
    decreases len - i,
{
    if i >= len {
        len
    } else if space(s.get_char(i)) {
        skip_space_exec(s, i + 1, len)
    } else {
        i
    }
}

fn skip_word_exec(s: &str, i: usize, len: usize) -> (r: usize)
    requires
        len == s@.len(),
        i <= len,
    ensures
        r == skip_word(s@, i as int),
        i <= r <= len,
    decreases len - i,
{
    if i >= len {
        len
    } else if space(s.get_char(i)) {
        i
    } else {
        skip_word_exec(s, i + 1, len)
    }
}

/// Classifies an Authorization header value, or its absence.
pub fn classify_header(hdr: Option<&str>) -> (r: Credential)
    ensures
        hdr is None ==> r is Anonymous,
        hdr matches Some(s) ==> match bearer_token(s@) {
            Some(t) => r matches Credential::Bearer(tok) && tok@ == t,
            None => r is Malformed,
        },
{
    let s = match hdr {
        None => return Credential::Anonymous,
        Some(s) => s,
    };
    let len = s.unicode_len();
    let a = skip_space_exec(s, 0, len);
    let b = skip_word_exec(s, a, len);
    let c = skip_space_exec(s, b, len);
    let d = skip_word_exec(s, c, len);
    let e = skip_space_exec(s, d, len);
    let ghost v = s@;
    let scheme_ok = b - a == 6 && s.get_char(a) == 'B' && s.get_char(a + 1) == 'e' && s.get_char(
        a + 2,
    ) == 'a' && s.get_char(a + 3) == 'r' && s.get_char(a + 4) == 'e' && s.get_char(a + 5) == 'r';
    assert(scheme_ok <==> v.subrange(a as int, b as int) =~= bearer_scheme());
    if scheme_ok && c < d && e == len {
        Credential::Bearer(s.substring_char(c, d).to_owned())
    } else {
        Credential::Malformed
    }
}

/// `s` without its trailing `=` padding.
pub open spec fn trim_padding(s: Seq<char>) -> Seq<char>
    decreases s.len(),
{
    if s.len() > 0 && s.last() == '=' {
        trim_padding(s.drop_last())
    } else {
        s
    }
}

/// The length of `s` once its trailing `=` are gone.
fn padded_end(s: &str) -> (r: usize)
    ensures
        r <= s@.len(),
        trim_padding(s@) == s@.subrange(0, r as int),
{
    let mut n = s.unicode_len();
    assert(s@.subrange(0, n as int) =~= s@);
    while n > 0 && s.get_char(n - 1) == '='
        invariant
            n <= s@.len(),
            trim_padding(s@) == trim_padding(s@.subrange(0, n as int)),
        decreases n,
    {
        assert(s@.subrange(0, n as int).drop_last() =~= s@.subrange(0, n - 1));
        n = n - 1;
    }
    n
}

/// Equality of token texts that ignores trailing `=` on either side.
pub fn tokens_match(a: &str, b: &str) -> (r: bool)
    ensures
        r == (trim_padding(a@) == trim_padding(b@)),
{
    let m = padded_end(a);
    let n = padded_end(b);
    if m != n {
        assert(trim_padding(a@).len() != trim_padding(b@).len());
        return false;
    }
    let mut i: usize = 0;
    while i < m
        invariant
            m == n,
            trim_padding(a@) == a@.subrange(0, m as int),
            trim_padding(b@) == b@.subrange(0, n as int),
            m <= a@.len(),
            n <= b@.len(),
            i <= m,
            forall|j: int| 0 <= j < i ==> a@[j] == b@[j],
        decreases m - i,
    {
        if a.get_char(i) != b.get_char(i) {
            assert(trim_padding(a@)[i as int] != trim_padding(b@)[i as int]);
            return false;
        }
        i = i + 1;
    }
    assert(trim_padding(a@) =~= trim_padding(b@));
    true
}

/// What `trim_padding` keeps is a prefix, everything after it is `=`, and its
/// last character is not `=`.
pub proof fn lemma_trim_padding_shape(s: Seq<char>)
    ensures
        trim_padding(s).len() <= s.len(),
        trim_padding(s) == s.subrange(0, trim_padding(s).len() as int),
        forall|j: int| trim_padding(s).len() <= j < s.len() ==> s[j] == '=',
        trim_padding(s).len() == 0 || s[trim_padding(s).len() - 1] != '=',
    decreases s.len(),
{
    if s.len() > 0 && s.last() == '=' {
        let d = s.drop_last();
        lemma_trim_padding_shape(d);
        assert forall|j: int| trim_padding(s).len() <= j < s.len() implies s[j] == '=' by {
            if j < d.len() {
                assert(d[j] == s[j]);
            }
        }
        assert(d.subrange(0, trim_padding(d).len() as int) =~= s.subrange(
            0,
            trim_padding(d).len() as int,
        ));
    } else {
        assert(s.subrange(0, s.len() as int) =~= s);
    }
}

/// A prefix that is followed only by `=` and does not end in `=` is what
/// `trim_padding` keeps.
pub proof fn lemma_trim_padding_at(s: Seq<char>, k: int)
    requires
        0 <= k <= s.len(),
        forall|j: int| k <= j < s.len() ==> s[j] == '=',
        k == 0 || s[k - 1] != '=',
    ensures
        trim_padding(s) == s.subrange(0, k),
    decreases s.len(),
{
    if s.len() == k {
        assert(s.subrange(0, k) =~= s);
    } else {
        assert(s.drop_last().subrange(0, k) =~= s.subrange(0, k));
        lemma_trim_padding_at(s.drop_last(), k);
    }
}

/// Trailing `=` never changes a token's match.
pub proof fn lemma_padding_ignored(s: Seq<char>)
    ensures
        trim_padding(s.push('=')) == trim_padding(s),
{
    assert(s.push('=').drop_last() =~= s);
}

/// Changing one character of a token, anywhere but in its trailing `=`
/// padding and not to `=`, makes it fail to match the unchanged token.
pub proof fn lemma_changed_character_mismatch(s: Seq<char>, i: int, c: char)
    requires
        0 <= i < trim_padding(s).len(),
        c != s[i],
        c != '=',
    ensures
        trim_padding(s.update(i, c)) != trim_padding(s),
{
    lemma_trim_padding_shape(s);
    let k = trim_padding(s).len() as int;
    let u = s.update(i, c);
    lemma_trim_padding_at(u, k);
    assert(trim_padding(u)[i] != trim_padding(s)[i]);
}

} // verus!
