//! Issuance of sessions from an identity provider's token and user profile,
//! and the fixed identities that stand in for a provider in test mode.

use vstd::prelude::*;
use vstd::utf8::encode_utf8;
use crate::cache::SessionCache;
use crate::codec::{
    base64_encoded, encode_token, session_token_account, session_token_wire, OAuthProvider,
    SessionToken,
};
use crate::resolver::{Account, AuthError, Authentication, StoreError};
use crate::session::Session;

verus! {

/// A provider's profile of the user who signed in.
pub struct OAuth2User {
    pub id: String,
    pub email: Option<String>,
    pub username: String,
}

/// What issuance needs: the provider's token, its user, the provider's name.
pub struct OAuthRequest {
    pub oauth_token: String,
    pub user: OAuth2User,
    pub provider: String,
}

/// The account to find or create for a user.
pub struct NewAccount {
    pub name: String,
    pub email: String,
}

/// A user's email, or the empty text where the provider gave none.
pub open spec fn email_of(u: OAuth2User) -> Seq<char> {
    match u.email {
        Some(e) => e@,
        None => Seq::<char>::empty(),
    }
}

/// The test identities: for a known token, the user's external id and email.
/// The user name is the token itself.
pub open spec fn fixture_profile(t: Seq<char>) -> Option<(Seq<char>, Seq<char>)> {
    if t == "bobo"@ {
        Some(("0"@, "bobo@example.com"@))
    } else if t == "mystique"@ {
        Some(("1"@, "mystique@example.com"@))
    } else if t == "hank"@ {
        Some(("2"@, "hank@example.com"@))
    } else {
        None
    }
}

impl OAuthRequest {
    /// The request that the test identity of `t` makes.
    pub open spec fn matches_fixture(&self, t: Seq<char>) -> bool {
        match fixture_profile(t) {
            Some((id, email)) => {
                &&& self.oauth_token@ == t
                &&& self.user.id@ == id
                &&& email_of(self.user) == email
                &&& self.user.email is Some
                &&& self.user.username@ == t
                &&& self.provider@ == "GitHub"@
            },
            None => false,
        }
    }
}

/// ASCII letters match in either case; other characters match themselves.
pub open spec fn char_matches(c: char, lower: char) -> bool {
    c == lower || ('a' <= lower && lower <= 'z' && c as u32 + 32 == lower as u32)
}

/// `s` spells the lower-case `name`, ignoring the case of ASCII letters.
pub open spec fn name_is(s: Seq<char>, name: Seq<char>) -> bool {
    s.len() == name.len() && forall|i: int| 0 <= i < s.len() ==> char_matches(s[i], name[i])
}

/// The provider that a name stands for.
pub open spec fn provider_named(s: Seq<char>) -> Option<OAuthProvider> {
    if name_is(s, "github"@) {
        Some(OAuthProvider::GitHub)
    } else if name_is(s, "bitbucket"@) {
        Some(OAuthProvider::Bitbucket)
    } else if name_is(s, "gitlab"@) {
        Some(OAuthProvider::GitLab)
    } else if name_is(s, "azure-ad"@) {
        Some(OAuthProvider::AzureAD)
    } else if name_is(s, "okta"@) {
        Some(OAuthProvider::Okta)
    } else if name_is(s, "active-directory"@) {
        Some(OAuthProvider::ActiveDirectory)
    } else if name_is(s, "chef-automate"@) {
        Some(OAuthProvider::ChefAutomate)
    } else {
        None
    }
}

fn spells(s: &str, name: &str) -> (r: bool)
    ensures
        r == name_is(s@, name@),
{
    let n = s.unicode_len();
    if n != name.unicode_len() {
        return false;
    }
    let mut i: usize = 0;
    while i < n
        invariant
            n == s@.len(),
            n == name@.len(),
            i <= n,
            forall|j: int| 0 <= j < i ==> char_matches(s@[j], name@[j]),
        decreases n - i,
    {
        let c = s.get_char(i);
        let l = name.get_char(i);
        if !(c == l || ('a' <= l && l <= 'z' && c as u32 + 32 == l as u32)) {
            return false;
        }
        i = i + 1;
    }
    true
}

fn same_text(a: &str, b: &str) -> (r: bool)
    ensures
        r == (a@ == b@),
{
    let n = a.unicode_len();
    if n != b.unicode_len() {
        return false;
    }
    let mut i: usize = 0;
    while i < n
        invariant
            n == a@.len(),
            n == b@.len(),
            i <= n,
            forall|j: int| 0 <= j < i ==> a@[j] == b@[j],
        decreases n - i,
    {
        if a.get_char(i) != b.get_char(i) {
            return false;
        }
        i = i + 1;
    }
    assert(a@ =~= b@);
    true
}

/// Parses a provider's name, ignoring the case of ASCII letters.
pub fn parse_provider(name: &str) -> (r: Option<OAuthProvider>)
    ensures
        r == provider_named(name@),
{
    if spells(name, "github") {
        Some(OAuthProvider::GitHub)
    } else if spells(name, "bitbucket") {
        Some(OAuthProvider::Bitbucket)
    } else if spells(name, "gitlab") {
        Some(OAuthProvider::GitLab)
    } else if spells(name, "azure-ad") {
        Some(OAuthProvider::AzureAD)
    } else if spells(name, "okta") {
        Some(OAuthProvider::Okta)
    } else if spells(name, "active-directory") {
        Some(OAuthProvider::ActiveDirectory)
    } else if spells(name, "chef-automate") {
        Some(OAuthProvider::ChefAutomate)
    } else {
        None
    }
}

fn fixture_request(token: &str, id: &str, email: &str) -> (r: OAuthRequest)
    ensures
        r.oauth_token@ == token@,
        r.user.id@ == id@,
        r.user.email matches Some(e) && e@ == email@,
        r.user.username@ == token@,
        r.provider@ == "GitHub"@,
{
    OAuthRequest {
        oauth_token: token.to_owned(),
        user: OAuth2User {
            id: String::from_str(id),
            email: Some(String::from_str(email)),
            username: token.to_owned(),
        },
        provider: String::from_str("GitHub"),
    }
}

/// The issuance request of a test identity; an unknown token is a system
/// failure.
pub fn session_create_short_circuit(token: &str) -> (r: Result<OAuthRequest, AuthError>)
    ensures
        match fixture_profile(token@) {
            None => r == Err::<OAuthRequest, AuthError>(AuthError::System),
            Some(_) => r matches Ok(q) && q.matches_fixture(token@),
        },
{
    if same_text(token, "bobo") {
        Ok(fixture_request(token, "0", "bobo@example.com"))
    } else if same_text(token, "mystique") {
        Ok(fixture_request(token, "1", "mystique@example.com"))
    } else if same_text(token, "hank") {
        Ok(fixture_request(token, "2", "hank@example.com"))
    } else {
        Err(AuthError::System)
    }
}

/// The account that issuance finds or creates for a user: its name and its
/// email, empty where the provider gave none.
pub fn new_account_for(user: &OAuth2User) -> (r: NewAccount)
    ensures
        r.name@ == user.username@,
        r.email@ == email_of(*user),
{
    let email = match &user.email {
        Some(e) => e.clone(),
        None => String::new(),
    };
    NewAccount { name: user.username.clone(), email }
}

impl Authentication {
    /// Issues a session for a user whose account was found or created (or
    /// whose lookup failed). The session is cached for the session duration
    /// under its bearer token, which frames the account, the user's external
    /// id, the provider's token and the provider.
    pub fn session_create_oauth(
        &self,
        cache: &mut SessionCache,
        oauth_token: &str,
        user: &OAuth2User,
        provider: &str,
        account: Result<Account, StoreError>,
    ) -> (r: Result<Session, AuthError>)
        requires
            old(cache).wf(),
        ensures
            final(cache).wf(),
            r is Err ==> final(cache)@ == old(cache)@,
            match account {
                Err(_) => r == Err::<Session, AuthError>(AuthError::Storage),
                Ok(a) => match provider_named(provider@) {
                    None => r == Err::<Session, AuthError>(AuthError::System),
                    Some(p) => {
                        let wire = session_token_wire(a.id, user.id@, encode_utf8(oauth_token@), p);
                        &&& wire.len() > usize::MAX / 2 ==> r == Err::<Session, AuthError>(
                            AuthError::System,
                        )
                        &&& wire.len() <= usize::MAX / 2 ==> (r matches Ok(s) && s.id == a.id
                            && s.name == a.name && s.email@ == email_of(*user) && s.token@
                            == base64_encoded(wire) && session_token_account(s.token@) == Some(a.id)
                            && s.flags == 0 && s.oauth_token@ == oauth_token@ && final(cache)@
                            == old(cache)@.insert(s.token@, (s, Some(self.session_duration))))
                    },
                },
            },
    {
        let a = match account {
            Err(_) => return Err(AuthError::Storage),
            Ok(a) => a,
        };
        let p = match parse_provider(provider) {
            None => return Err(AuthError::System),
            Some(p) => p,
        };
        let st = SessionToken {
            account_id: a.id,
            extern_id: user.id.clone(),
            token: oauth_token.as_bytes_vec(),
            provider: p,
        };
        let text = match encode_token(&st) {
            None => return Err(AuthError::System),
            Some(t) => t,
        };
        let email = match &user.email {
            Some(e) => e.clone(),
            None => String::new(),
        };
        let s = Session {
            id: a.id,
            name: a.name,
            email,
            token: text,
            flags: 0,
            oauth_token: oauth_token.to_owned(),
        };
        cache.set(s.token.as_str(), s.duplicate(), Some(self.session_duration));
        Ok(s)
    }
}

} // verus!
