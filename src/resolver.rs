//! The token resolver. Each step works on the cache and on what the caller
//! brought back from the backing store, and names the next store call, if any.

use vstd::prelude::*;
use crate::cache::SessionCache;
use crate::codec::{decode_access_token, is_access_token, is_access_token_spec, pat_claims};
use crate::header::{classify_header, bearer_token, tokens_match, trim_padding, Credential};
use crate::issuer::{session_create_short_circuit, fixture_profile, OAuthRequest};
use crate::session::Session;

verus! {

/// The reserved id of the internal service account.
pub const BUILDER_ACCOUNT_ID: u64 = 0;

/// The name that sessions of the internal service account carry.
pub const BUILDER_ACCOUNT_NAME: &'static str = "BUILDER";

/// Why a request gets no session.
#[derive(PartialEq, Eq, Structural, Clone, Copy, Debug)]
pub enum AuthError {
    /// A header that is not `Bearer <token>`.
    Unauthenticated,
    /// A credential that is invalid, unknown or revoked.
    Authorization,
    /// An internal inconsistency.
    System,
    /// The backing store failed.
    Storage,
}

/// A failure of the backing store.
#[derive(PartialEq, Eq, Structural, Clone, Copy, Debug)]
pub struct StoreError;

/// A persisted account profile.
pub struct Account {
    pub id: u64,
    pub name: String,
    pub email: String,
}

/// A persisted long-lived token of an account.
pub struct AccountToken {
    pub account_id: u64,
    pub token: String,
}

/// A personal access token under check: the claims it made, and the token
/// text that the next step works with.
pub struct PatCheck {
    pub account_id: u64,
    pub flags: u32,
    pub token: String,
}

/// The outcome of a step of resolution.
pub enum Step {
    /// No credential: the request goes on without a session.
    Anonymous,
    /// Resolution is over.
    Done(Result<Session, AuthError>),
    /// List the long-lived tokens of `account_id`, then call `tokens_listed`.
    ListTokens(PatCheck),
    /// Fetch the account `account_id`, then call `account_fetched`.
    FetchAccount(PatCheck),
    /// Find or create the account for the request's user, then call
    /// `session_create_oauth`.
    Issue(OAuthRequest),
}

/// The resolver's configuration: how long OAuth sessions stay cached, and
/// whether the fixed test identities stand in for a provider.
pub struct Authentication {
    pub session_duration: u32,
    pub test_mode: bool,
}

/// The session of the internal service account for a token.
pub open spec fn builder_session(s: Session, token: Seq<char>, flags: u32) -> bool {
    &&& s.id == BUILDER_ACCOUNT_ID
    &&& s.name@ == BUILDER_ACCOUNT_NAME@
    &&& s.email@ == Seq::<char>::empty()
    &&& s.token@ == token
    &&& s.flags == flags
    &&& s.oauth_token@ == Seq::<char>::empty()
}

impl Authentication {
    /// Three days, in seconds.
    pub const SESSION_DURATION: u32 = 259200;

    /// The outcome of `authenticate` on `token`, with the cache before and
    /// after.
    pub open spec fn authenticated(
        &self,
        before: Map<Seq<char>, (Session, Option<u32>)>,
        after: Map<Seq<char>, (Session, Option<u32>)>,
        token: Seq<char>,
        r: Step,
    ) -> bool {
        &&& self.test_mode ==> after == before && match fixture_profile(token) {
            None => r == Step::Done(Err(AuthError::System)),
            Some(_) => r matches Step::Issue(q) && q.matches_fixture(token),
        }
        &&& !self.test_mode && before.contains_key(token) ==> r == Step::Done(
            Ok(before[token].0),
        ) && after == before
        &&& !self.test_mode && !before.contains_key(token) ==> match pat_claims(token) {
            None => r == Step::Done(Err(AuthError::Authorization)) && after == before,
            Some((id, flags)) => if id == BUILDER_ACCOUNT_ID {
                r matches Step::Done(Ok(s)) && builder_session(s, token, flags) && after
                    == before.insert(token, (s, None))
            } else {
                r matches Step::ListTokens(p) && p.account_id == id && p.flags == flags && p.token@
                    == token && after == before
            },
        }
    }

    pub fn new(test_mode: bool) -> (r: Authentication)
        ensures
            r.session_duration == Self::SESSION_DURATION,
            r.test_mode == test_mode,
    {
        Authentication { session_duration: Self::SESSION_DURATION, test_mode }
    }

    /// First step for a bearer token: the test identities in test mode, else
    /// the cache, then the structural test and decoding of an access token.
    pub fn authenticate(&self, cache: &mut SessionCache, token: &str) -> (r: Step)
        requires
            old(cache).wf(),
        ensures
            final(cache).wf(),
            self.authenticated(old(cache)@, final(cache)@, token@, r),
    {
        if self.test_mode {
            return match session_create_short_circuit(token) {
                Ok(q) => Step::Issue(q),
                Err(e) => Step::Done(Err(e)),
            };
        }
        if let Some(s) = cache.get(token) {
            return Step::Done(Ok(s));
        }
        if !is_access_token(token) {
            return Step::Done(Err(AuthError::Authorization));
        }
        match decode_access_token(token) {
            None => Step::Done(Err(AuthError::Authorization)),
            Some((id, flags)) => {
                if id == BUILDER_ACCOUNT_ID {
                    let mut s = Session::new(id);
                    s.name = String::from_str(BUILDER_ACCOUNT_NAME);
                    s.token = token.to_owned();
                    s.flags = flags;
                    cache.set(token, s.duplicate(), None);
                    Step::Done(Ok(s))
                } else {
                    Step::ListTokens(PatCheck { account_id: id, flags, token: token.to_owned() })
                }
            },
        }
    }

    /// Second step: the account's long-lived tokens, or the store's failure.
    /// The one stored token must equal the presented one but for padding.
    pub fn tokens_listed(&self, check: PatCheck, tokens: Result<Vec<AccountToken>, StoreError>) -> (r:
        Step)
        ensures
            match tokens {
                Err(_) => r == Step::Done(Err(AuthError::Storage)),
                Ok(v) => if v@.len() == 0 {
                    r == Step::Done(Err(AuthError::Authorization))
                } else if v@.len() > 1 {
                    r == Step::Done(Err(AuthError::System))
                } else if trim_padding(v@[0].token@) != trim_padding(check.token@) {
                    r == Step::Done(Err(AuthError::Authorization))
                } else {
                    r matches Step::FetchAccount(p) && p.account_id == check.account_id && p.flags
                        == check.flags && p.token == v@[0].token
                },
            },
    {
        match tokens {
            Err(_) => Step::Done(Err(AuthError::Storage)),
            Ok(v) => {
                if v.len() == 0 {
                    Step::Done(Err(AuthError::Authorization))
                } else if v.len() > 1 {
                    Step::Done(Err(AuthError::System))
                } else if !tokens_match(v[0].token.as_str(), check.token.as_str()) {
                    Step::Done(Err(AuthError::Authorization))
                } else {
                    Step::FetchAccount(
                        PatCheck {
                            account_id: check.account_id,
                            flags: check.flags,
                            token: v[0].token.clone(),
                        },
                    )
                }
            },
        }
    }

    /// Last step of an access token: the account's profile, or the store's
    /// failure. The session is cached, without expiry, under the stored token.
    pub fn account_fetched(
        &self,
        cache: &mut SessionCache,
        check: PatCheck,
        account: Result<Account, StoreError>,
    ) -> (r: Result<Session, AuthError>)
        requires
            old(cache).wf(),
        ensures
            final(cache).wf(),
            match account {
                Err(_) => r == Err::<Session, AuthError>(AuthError::Storage) && final(cache)@ == old(cache)@,
                Ok(a) => r matches Ok(s) && s.id == check.account_id && s.name == a.name && s.email
                    == a.email && s.token == check.token && s.flags == check.flags
                    && s.oauth_token@ == Seq::<char>::empty() && final(cache)@ == old(cache)@.insert(
                    check.token@,
                    (s, None),
                ),
            },
    {
        match account {
            Err(_) => Err(AuthError::Storage),
            Ok(a) => {
                let mut s = Session::new(check.account_id);
                s.name = a.name;
                s.email = a.email;
                s.flags = check.flags;
                s.token = check.token;
                cache.set(s.token.as_str(), s.duplicate(), None);
                Ok(s)
            },
        }
    }

    /// The entry point for a request: its Authorization header, or none.
    pub fn start(&self, cache: &mut SessionCache, hdr: Option<&str>) -> (r: Step)
        requires
            old(cache).wf(),
        ensures
            final(cache).wf(),
            hdr is None ==> r is Anonymous && final(cache)@ == old(cache)@,
            hdr matches Some(h) ==> match bearer_token(h@) {
                None => r == Step::Done(Err(AuthError::Unauthenticated)) && final(cache)@ == old(cache)@,
                Some(t) => self.authenticated(old(cache)@, final(cache)@, t, r),
            },
    {
        match classify_header(hdr) {
            Credential::Anonymous => Step::Anonymous,
            Credential::Malformed => Step::Done(Err(AuthError::Unauthenticated)),
            Credential::Bearer(t) => self.authenticate(cache, t.as_str()),
        }
    }
}

/// A cached token resolves to the cached session itself, with no store call
/// and the cache unchanged.
pub proof fn lemma_cached_token_resolves(
    auth: Authentication,
    before: Map<Seq<char>, (Session, Option<u32>)>,
    after: Map<Seq<char>, (Session, Option<u32>)>,
    token: Seq<char>,
    r: Step,
)
    requires
        !auth.test_mode,
        before.contains_key(token),
        auth.authenticated(before, after, token, r),
    ensures
        r == Step::Done(Ok(before[token].0)),
        after == before,
{
}

/// A token that decodes to the internal service account resolves, even on a
/// cache miss, to that account's fixed name with no store call, and is
/// cached without expiry.
pub proof fn lemma_builder_token_resolves(
    auth: Authentication,
    before: Map<Seq<char>, (Session, Option<u32>)>,
    after: Map<Seq<char>, (Session, Option<u32>)>,
    token: Seq<char>,
    flags: u32,
    r: Step,
)
    requires
        !auth.test_mode,
        !before.contains_key(token),
        pat_claims(token) == Some((BUILDER_ACCOUNT_ID, flags)),
        auth.authenticated(before, after, token, r),
    ensures
        r matches Step::Done(Ok(s)) && builder_session(s, token, flags) && after == before.insert(
            token,
            (s, None),
        ),
{
}

/// A token that is not cached and fails the structural test of an access
/// token is unauthorized, with no store call and the cache unchanged.
pub proof fn lemma_non_pat_miss_refused(
    auth: Authentication,
    before: Map<Seq<char>, (Session, Option<u32>)>,
    after: Map<Seq<char>, (Session, Option<u32>)>,
    token: Seq<char>,
    r: Step,
)
    requires
        !auth.test_mode,
        !before.contains_key(token),
        !is_access_token_spec(token),
        auth.authenticated(before, after, token, r),
    ensures
        r == Step::Done(Err(AuthError::Authorization)),
        after == before,
{
}

} // verus!
