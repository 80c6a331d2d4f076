//! Binary framing of tokens: protobuf wire-format varints and fields, and the
//! text form (base64) that travels in the Authorization header.

use vstd::prelude::*;
use vstd::utf8::encode_utf8;

verus! {

/// The varint encoding of `v`: seven bits per byte, least significant group
/// first, the high bit set on every byte but the last.
pub open spec fn varint_spec(v: nat) -> Seq<u8>
    decreases v,
{
    if v < 128 {
        seq![v as u8]
    } else {
        seq![(v % 128 + 128) as u8] + varint_spec(v / 128)
    }
}

/// The varint at the start of `b`, if one is there and its value fits in a
/// `u64`, with the number of bytes it takes.
pub open spec fn varint_read(b: Seq<u8>) -> Option<(u64, nat)>
    decreases b.len(),
{
    if b.len() == 0 {
        None
    } else if b[0] < 128 {
        Some((b[0] as u64, 1nat))
    } else {
        match varint_read(b.drop_first()) {
            Some((v, n)) => {
                let w = (b[0] - 128) + 128 * v;
                if w <= u64::MAX {
                    Some((w as u64, n + 1))
                } else {
                    None
                }
            },
            None => None,
        }
    }
}

/// Appends the varint encoding of `v` to `out`.
pub fn push_varint(out: &mut Vec<u8>, v: u64)
    ensures
        final(out)@ == old(out)@ + varint_spec(v as nat),
{
    let ghost start = out@;
    let mut cur: u64 = v;
    while cur >= 128
        invariant
            out@ + varint_spec(cur as nat) == start + varint_spec(v as nat),
        decreases cur,
    {
        let ghost before = out@;
        let b: u8 = (cur % 128 + 128) as u8;
        out.push(b);
        proof {
            assert(varint_spec(cur as nat) == seq![b] + varint_spec((cur / 128) as nat));
            assert(before + (seq![b] + varint_spec((cur / 128) as nat)) =~= out@ + varint_spec(
                (cur / 128) as nat,
            ));
        }
        cur = cur / 128;
    }
    out.push(cur as u8);
    proof {
        assert(varint_spec(cur as nat) == seq![cur as u8]);
    }
}

/// Reads the varint that starts at `b[i]`; gives its value and the index just
/// past it.
pub fn read_varint(b: &Vec<u8>, i: usize) -> (r: Option<(u64, usize)>)
    requires
        i <= b@.len(),
    ensures
        r is Some <==> varint_read(b@.subrange(i as int, b@.len() as int)) is Some,
        r matches Some((v, e)) ==> i < e <= b@.len() && varint_read(
            b@.subrange(i as int, b@.len() as int),
        ) == Some((v, (e - i) as nat)),
    decreases b@.len() - i,
{
    if i >= b.len() {
        return None;
    }
    let x: u8 = b[i];
    let ghost rest = b@.subrange(i as int, b@.len() as int);
    assert(rest[0] == x);
    if x < 128 {
        return Some((x as u64, i + 1));
    }
    assert(rest.drop_first() =~= b@.subrange(i + 1, b@.len() as int));
    match read_varint(b, i + 1) {
        None => None,
        Some((v, e)) => {
            match v.checked_mul(128) {
                None => None,
                Some(m) => match m.checked_add((x - 128) as u64) {
                    None => None,
                    Some(w) => Some((w, e)),
                },
            }
        },
    }
}

/// Reading back an encoded varint gives its value, whatever follows it.
pub proof fn lemma_varint_round_trip(v: u64, rest: Seq<u8>)
    ensures
        varint_read(varint_spec(v as nat) + rest) == Some((v, varint_spec(v as nat).len())),
    decreases v,
{
    let b = varint_spec(v as nat) + rest;
    if v < 128 {
        assert(b[0] == v as u8);
    } else {
        let hi: u64 = v / 128;
        lemma_varint_round_trip(hi, rest);
        assert(b.drop_first() =~= varint_spec(hi as nat) + rest);
        assert(b[0] == (v % 128 + 128) as u8);
        assert((v % 128 + 128) as u8 - 128 + 128 * hi == v);
    }
}

/// The identity providers that can issue sessions.
#[derive(PartialEq, Eq, Structural, Clone, Copy, Debug)]
pub enum OAuthProvider {
    GitHub,
    Bitbucket,
    GitLab,
    AzureAD,
    Okta,
    ActiveDirectory,
    ChefAutomate,
}

/// The number that stands for a provider in the binary framing.
pub open spec fn provider_number(p: OAuthProvider) -> u64 {
    match p {
        OAuthProvider::GitHub => 0,
        OAuthProvider::Bitbucket => 1,
        OAuthProvider::GitLab => 2,
        OAuthProvider::AzureAD => 3,
        OAuthProvider::Okta => 4,
        OAuthProvider::ActiveDirectory => 5,
        OAuthProvider::ChefAutomate => 6,
    }
}

impl OAuthProvider {
    pub fn number(&self) -> (r: u64)
        ensures
            r == provider_number(*self),
    {
        match self {
            OAuthProvider::GitHub => 0,
            OAuthProvider::Bitbucket => 1,
            OAuthProvider::GitLab => 2,
            OAuthProvider::AzureAD => 3,
            OAuthProvider::Okta => 4,
            OAuthProvider::ActiveDirectory => 5,
            OAuthProvider::ChefAutomate => 6,
        }
    }
}

/// The payload of an OAuth-derived session token, before it is framed.
pub struct SessionToken {
    pub account_id: u64,
    pub extern_id: String,
    pub token: Vec<u8>,
    pub provider: OAuthProvider,
}

/// A length-delimited field: its tag, the length as a varint, the bytes.
pub open spec fn bytes_field(tag: u8, data: Seq<u8>) -> Seq<u8> {
    seq![tag] + varint_spec(data.len()) + data
}

/// The wire form of a session token: field 1 the account id, field 2 the
/// external user id, field 3 the provider's token, field 4 the provider.
pub open spec fn session_token_wire(
    account_id: u64,
    extern_id: Seq<char>,
    token: Seq<u8>,
    provider: OAuthProvider,
) -> Seq<u8> {
    seq![0x08u8] + varint_spec(account_id as nat) + bytes_field(0x12, encode_utf8(extern_id))
        + bytes_field(0x1a, token) + seq![0x20u8] + varint_spec(provider_number(provider) as nat)
}

pub open spec fn session_token_bytes(t: SessionToken) -> Seq<u8> {
    session_token_wire(t.account_id, t.extern_id@, t.token@, t.provider)
}

/// The account id in field 1 at the head of a framed payload.
pub open spec fn leading_account_id(b: Seq<u8>) -> Option<u64> {
    if b.len() > 0 && b[0] == 0x08 {
        match varint_read(b.drop_first()) {
            Some((v, _)) => Some(v),
            None => None,
        }
    } else {
        None
    }
}

/// Every framed session token names its account id first, so decoding an
/// issued token gives back the account it was issued for.
pub proof fn lemma_session_token_account(t: SessionToken)
    ensures
        leading_account_id(session_token_bytes(t)) == Some(t.account_id),
{
    let b = session_token_bytes(t);
    let rest = bytes_field(0x12, encode_utf8(t.extern_id@)) + bytes_field(0x1a, t.token@) + seq![
        0x20u8,
    ] + varint_spec(provider_number(t.provider) as nat);
    assert(b.drop_first() =~= varint_spec(t.account_id as nat) + rest);
    lemma_varint_round_trip(t.account_id, rest);
}

fn push_bytes(out: &mut Vec<u8>, data: &[u8])
    ensures
        final(out)@ == old(out)@ + data@,
{
    let mut i: usize = 0;
    while i < data.len()
        invariant
            i <= data@.len(),
            out@ == old(out)@ + data@.subrange(0, i as int),
        decreases data@.len() - i,
    {
        out.push(data[i]);
        i = i + 1;
        assert(data@.subrange(0, i as int) =~= data@.subrange(0, i - 1) + seq![data@[i - 1]]);
    }
    assert(data@.subrange(0, i as int) =~= data@);
}

fn push_bytes_field(out: &mut Vec<u8>, tag: u8, data: &[u8])
    ensures
        final(out)@ == old(out)@ + bytes_field(tag, data@),
{
    out.push(tag);
    push_varint(out, data.len() as u64);
    push_bytes(out, data);
    assert(final(out)@ =~= old(out)@ + bytes_field(tag, data@));
}

/// Frames a session token in its wire form.
pub fn session_token_to_bytes(t: &SessionToken) -> (r: Vec<u8>)
    ensures
        r@ == session_token_bytes(*t),
{
    let mut out: Vec<u8> = Vec::new();
    out.push(0x08);
    push_varint(&mut out, t.account_id);
    push_bytes_field(&mut out, 0x12, t.extern_id.as_str().as_bytes());
    push_bytes_field(&mut out, 0x1a, t.token.as_slice());
    out.push(0x20);
    push_varint(&mut out, t.provider.number());
    assert(out@ =~= session_token_bytes(*t));
    out
}

/// What an access token's payload claims: field 1 the account id, then
/// optionally field 2 the feature flags, and nothing else.
pub open spec fn access_claims(b: Seq<u8>) -> Option<(u64, u32)> {
    if b.len() == 0 || b[0] != 0x08 {
        None
    } else {
        match varint_read(b.drop_first()) {
            None => None,
            Some((id, n)) => {
                let rest = b.subrange(n + 1int, b.len() as int);
                if rest.len() == 0 {
                    Some((id, 0u32))
                } else if rest[0] != 0x10 {
                    None
                } else {
                    match varint_read(rest.drop_first()) {
                        None => None,
                        Some((f, m)) => {
                            if m + 1 == rest.len() && f <= u32::MAX {
                                Some((id, f as u32))
                            } else {
                                None
                            }
                        },
                    }
                }
            },
        }
    }
}

/// Reads the claims of an access token's payload.
pub fn read_access_claims(b: &Vec<u8>) -> (r: Option<(u64, u32)>)
    ensures
        r == access_claims(b@),
{
    if b.len() == 0 || b[0] != 0x08 {
        return None;
    }
    assert(b@.drop_first() =~= b@.subrange(1, b@.len() as int));
    match read_varint(b, 1) {
        None => None,
        Some((id, e)) => {
            let ghost rest = b@.subrange(e as int, b@.len() as int);
            if e == b.len() {
                assert(rest.len() == 0);
                return Some((id, 0));
            }
            assert(rest[0] == b@[e as int]);
            if b[e] != 0x10 {
                return None;
            }
            assert(rest.drop_first() =~= b@.subrange(e + 1, b@.len() as int));
            match read_varint(b, e + 1) {
                None => None,
                Some((f, e2)) => {
                    if e2 == b.len() && f <= 0xffff_ffff {
                        Some((id, f as u32))
                    } else {
                        None
                    }
                },
            }
        },
    }
}

/// The text that base64's standard alphabet, padded, gives for `b`.
pub uninterp spec fn base64_encoded(b: Seq<u8>) -> Seq<char>;

/// The bytes that a padded standard-alphabet base64 text stands for, or none
/// where the text is not such base64.
pub uninterp spec fn base64_decoded(s: Seq<char>) -> Option<Seq<u8>>;

/// Relies on base64::encode (standard alphabet, padded): the text depends on
/// the bytes alone, and base64::decode gives the bytes back. It panics only
/// where the encoded length overflows `usize`.
#[verifier::external_body]
fn base64_encode(b: &[u8]) -> (r: String)
    requires
        b@.len() <= usize::MAX / 2,
    ensures
        r@ == base64_encoded(b@),
        base64_decoded(r@) == Some(b@),
{
    base64::encode(b)
}

/// Relies on base64::decode (standard alphabet, padded): it succeeds or fails
/// on the text alone, and its bytes depend on the text alone.
#[verifier::external_body]
fn base64_decode(s: &str) -> (r: Option<Vec<u8>>)
    ensures
        r matches Some(v) ==> base64_decoded(s@) == Some(v@),
        r is None ==> base64_decoded(s@) is None,
{
    base64::decode(s).ok()
}

/// The first character of every personal access token.
pub const ACCESS_TOKEN_PREFIX: char = '_';

/// The structural test for a personal access token: it starts with the
/// prefix. Session tokens are plain base64, which never holds the prefix.
pub open spec fn is_access_token_spec(t: Seq<char>) -> bool {
    t.len() > 0 && t[0] == ACCESS_TOKEN_PREFIX
}

/// What a personal access token claims: its text after the prefix is base64
/// of an access-token payload.
pub open spec fn pat_claims(t: Seq<char>) -> Option<(u64, u32)> {
    if is_access_token_spec(t) {
        match base64_decoded(t.drop_first()) {
            Some(p) => access_claims(p),
            None => None,
        }
    } else {
        None
    }
}

/// The account id that a session token's text names, where it decodes.
pub open spec fn session_token_account(t: Seq<char>) -> Option<u64> {
    match base64_decoded(t) {
        Some(b) => leading_account_id(b),
        None => None,
    }
}

pub fn is_access_token(token: &str) -> (r: bool)
    ensures
        r == is_access_token_spec(token@),
{
    token.unicode_len() > 0 && token.get_char(0) == ACCESS_TOKEN_PREFIX
}

/// Decodes a personal access token down to its claims, without any check of
/// who issued it.
pub fn decode_access_token(token: &str) -> (r: Option<(u64, u32)>)
    ensures
        r == pat_claims(token@),
{
    if !is_access_token(token) {
        return None;
    }
    let len = token.unicode_len();
    let body = token.substring_char(1, len);
    assert(body@ =~= token@.drop_first());
    match base64_decode(body) {
        None => None,
        Some(payload) => read_access_claims(&payload),
    }
}

/// Reads the account id out of a session token's text.
pub fn token_account_id(token: &str) -> (r: Option<u64>)
    ensures
        r == session_token_account(token@),
{
    match base64_decode(token) {
        None => None,
        Some(b) => {
            if b.len() == 0 || b[0] != 0x08 {
                return None;
            }
            assert(b@.drop_first() =~= b@.subrange(1, b@.len() as int));
            match read_varint(&b, 1) {
                None => None,
                Some((v, _)) => Some(v),
            }
        },
    }
}

/// The bearer text of a session token: its wire form in base64. None only
/// where the wire form is too long to encode.
pub fn encode_token(t: &SessionToken) -> (r: Option<String>)
    ensures
        r is Some <==> session_token_bytes(*t).len() <= usize::MAX / 2,
        r matches Some(s) ==> s@ == base64_encoded(session_token_bytes(*t)),
        r matches Some(s) ==> session_token_account(s@) == Some(t.account_id),
{
    let bytes = session_token_to_bytes(t);
    if bytes.len() > usize::MAX / 2 {
        return None;
    }
    let s = base64_encode(bytes.as_slice());
    proof {
        lemma_session_token_account(*t);
    }
    Some(s)
}

} // verus!
