//! The authorization middleware in front of the protected routes.
//!
//! Verifying a token's signature and fetching the identity provider's keys
//! are the identity library's work. The middleware decides around them: whether a
//! request needs a token at all, whether it carries one, what to ask the
//! library for next, and what follows from its answer.

use vstd::prelude::*;
use vstd::string::StrSliceExecFns;
use crate::config::Config;
use crate::error::ApiError;
use crate::route::Access;
use crate::text::{begins_with, chars_of, matches_text, opt_text};

verus! {

/// A role that the identity provider can grant.
#[derive(Clone, Copy, Debug, PartialEq, Eq, Structural)]
pub enum Role {
    User,
    Admin,
}

impl Role {
    /// The role that a role name of the identity provider stands for.
    /// Names are compared as they stand; any other name grants nothing here.
    pub open spec fn named(name: Seq<char>) -> Option<Role> {
        if name == "admin"@ {
            Some(Role::Admin)
        } else if name == "user"@ {
            Some(Role::User)
        } else {
            None
        }
    }

    pub fn from_name(name: &str) -> (role: Option<Role>)
        ensures
            role == Role::named(name@),
    {
        let chars = chars_of(name);
        if matches_text(&chars, "admin") {
            Some(Role::Admin)
        } else if matches_text(&chars, "user") {
            Some(Role::User)
        } else {
            None
        }
    }
}

/// The roles a caller holds. A caller may hold both, or none.
#[derive(Clone, Copy, Debug, PartialEq, Eq, Structural)]
pub struct RoleSet {
    pub user: bool,
    pub admin: bool,
}

impl View for RoleSet {
    type V = Set<Role>;

    open spec fn view(&self) -> Set<Role> {
        Set::new(
            |role: Role|
                match role {
                    Role::User => self.user,
                    Role::Admin => self.admin,
                },
        )
    }
}

impl RoleSet {
    pub fn empty() -> (roles: RoleSet)
        ensures
            roles@ == Set::<Role>::empty(),
    {
        let roles = RoleSet { user: false, admin: false };
        assert(roles@ =~= Set::<Role>::empty());
        roles
    }

    pub fn with(self, role: Role) -> (roles: RoleSet)
        ensures
            roles@ == self@.insert(role),
    {
        let roles = match role {
            Role::User => RoleSet { user: true, admin: self.admin },
            Role::Admin => RoleSet { user: self.user, admin: true },
        };
        assert(roles@ =~= self@.insert(role));
        roles
    }

    pub fn contains(&self, role: Role) -> (held: bool)
        ensures
            held == self@.contains(role),
    {
        match role {
            Role::User => self.user,
            Role::Admin => self.admin,
        }
    }
}

/// Whether one of the role names stands for `role`.
pub open spec fn grants(names: Seq<String>, role: Role) -> bool {
    exists|i: int| 0 <= i < names.len() && Role::named(#[trigger] names[i]@) == Some(role)
}

/// The roles that a list of role names grants.
pub open spec fn roles_granted(names: Seq<String>) -> Set<Role> {
    Set::new(|role: Role| grants(names, role))
}

/// Reads the roles out of the role names of a token. Unknown names are
/// passed over, and a name that occurs twice counts once.
pub fn roles_from_names(names: &Vec<String>) -> (roles: RoleSet)
    ensures
        roles@ == roles_granted(names@),
{
    let mut roles = RoleSet { user: false, admin: false };
    let mut i: usize = 0;
    while i < names.len()
        invariant
            i <= names.len(),
            roles.user == grants(names@.take(i as int), Role::User),
            roles.admin == grants(names@.take(i as int), Role::Admin),
        decreases names.len() - i,
    {
        let found = Role::from_name(names[i].as_str());
        proof {
            let before = names@.take(i as int);
            let after = names@.take(i + 1);
            assert(after[i as int] == names@[i as int]);
            assert forall|role: Role| grants(after, role) == (grants(before, role) || found == Some(
                role,
            )) by {
                if grants(before, role) {
                    let j = choose|j: int| 0 <= j < before.len() && Role::named(#[trigger] before[j]@) == Some(role);
                    assert(after[j] == before[j]);
                }
                if grants(after, role) {
                    let j = choose|j: int| 0 <= j < after.len() && Role::named(#[trigger] after[j]@) == Some(role);
                    if j < i {
                        assert(before[j] == after[j]);
                    }
                }
            }
        }
        match found {
            Some(Role::User) => {
                roles.user = true;
            },
            Some(Role::Admin) => {
                roles.admin = true;
            },
            None => {},
        }
        i += 1;
    }
    assert(names@.take(i as int) == names@);
    assert(roles@ =~= roles_granted(names@));
    roles
}

/// What the identity library read out of a token whose signature and
/// validity period it has checked.
#[derive(Clone, Debug, PartialEq, Eq)]
pub struct TokenClaims {
    pub subject: String,
    pub role_names: Vec<String>,
    pub display_name: Option<String>,
    pub email: Option<String>,
}

/// Who is calling, as far as the handlers need to know. Made for one
/// request and dropped with it.
#[derive(Debug, PartialEq, Eq)]
pub struct AuthClaims {
    pub subject: String,
    pub roles: RoleSet,
    pub display_name: Option<String>,
    pub email: Option<String>,
}

pub struct AuthClaimsView {
    pub subject: Seq<char>,
    pub roles: Set<Role>,
    pub display_name: Option<Seq<char>>,
    pub email: Option<Seq<char>>,
}

impl View for AuthClaims {
    type V = AuthClaimsView;

    open spec fn view(&self) -> AuthClaimsView {
        AuthClaimsView {
            subject: self.subject@,
            roles: self.roles@,
            display_name: opt_text(self.display_name),
            email: opt_text(self.email),
        }
    }
}

impl Clone for AuthClaims {
    fn clone(&self) -> (copy: AuthClaims)
        ensures
            copy@ == self@,
    {
        AuthClaims {
            subject: self.subject.clone(),
            roles: self.roles,
            display_name: self.display_name.clone(),
            email: self.email.clone(),
        }
    }
}

impl TokenClaims {
    /// The caller that the token speaks for.
    pub open spec fn caller(self) -> AuthClaimsView {
        AuthClaimsView {
            subject: self.subject@,
            roles: roles_granted(self.role_names@),
            display_name: opt_text(self.display_name),
            email: opt_text(self.email),
        }
    }

    /// Turns the claims of a verified token into the caller's identity.
    pub fn into_claims(self) -> (claims: AuthClaims)
        ensures
            claims@ == self.caller(),
    {
        let roles = roles_from_names(&self.role_names);
        AuthClaims {
            subject: self.subject,
            roles,
            display_name: self.display_name,
            email: self.email,
        }
    }
}

/// What the service knows of the identity provider: where it is, which
/// realm to ask for, and whether its signing keys have been fetched.
#[derive(Debug, PartialEq, Eq)]
pub struct Authority {
    pub server: String,
    pub realm: String,
    pub keys_cached: bool,
}

impl Authority {
    /// Prepares the authority from the configuration. Nothing is fetched:
    /// the keys are asked for when the first token has to be verified, so
    /// an identity provider that is down does not keep the service from
    /// starting.
    pub fn from_config(config: &Config) -> (authority: Authority)
        ensures
            authority.server@ == config.identity_url@,
            authority.realm@ == config.realm@,
            !authority.keys_cached,
    {
        Authority { server: config.identity_url.clone(), realm: config.realm.clone(), keys_cached: false }
    }

    /// Takes note of an attempt to fetch the signing keys. Keys once
    /// fetched stay at hand when a later attempt fails.
    pub fn note_fetch(&mut self, fetched: bool)
        ensures
            final(self).keys_cached == (old(self).keys_cached || fetched),
            final(self).server == old(self).server,
            final(self).realm == old(self).realm,
    {
        if fetched {
            self.keys_cached = true;
        }
    }
}

/// The identity library's answer on a token.
#[derive(Clone, Debug, PartialEq, Eq)]
pub enum Verdict {
    /// The signature matches a known key and the token is within its
    /// validity period.
    Valid(TokenClaims),
    /// The token is not a token, or its claims cannot be read.
    Malformed,
    /// The signature matches no known key.
    BadSignature,
    /// The token's lifetime has ended.
    Expired,
    /// The token's lifetime has not begun.
    NotYetValid,
}

/// What the middleware does with a request.
#[derive(Clone, Debug, PartialEq, Eq)]
pub enum Admission {
    /// Hand the request to its handler without looking for a token.
    Skip,
    /// Answer with the error; no handler runs.
    Reject(ApiError),
    /// Fetch the identity provider's signing keys, then report with
    /// [`keys_fetched`].
    FetchKeys(String),
    /// Have the token verified, then report with [`conclude`].
    Verify(String),
}

pub enum AdmissionView {
    Skip,
    Reject(ApiError),
    FetchKeys(Seq<char>),
    Verify(Seq<char>),
}

impl View for Admission {
    type V = AdmissionView;

    open spec fn view(&self) -> AdmissionView {
        match self {
            Admission::Skip => AdmissionView::Skip,
            Admission::Reject(e) => AdmissionView::Reject(*e),
            Admission::FetchKeys(token) => AdmissionView::FetchKeys(token@),
            Admission::Verify(token) => AdmissionView::Verify(token@),
        }
    }
}

/// What a header value holds, as characters.
pub open spec fn header_text(header: Option<&str>) -> Option<Seq<char>> {
    match header {
        Some(value) => Some(value@),
        None => None,
    }
}

/// The token of an `Authorization` header: what follows `Bearer` and one
/// space, where the header is there, begins so, and something follows.
pub open spec fn bearer_of(header: Option<Seq<char>>) -> Option<Seq<char>> {
    match header {
        Some(value) => {
            let scheme = "Bearer "@;
            if scheme.is_prefix_of(value) && value.len() > scheme.len() {
                Some(value.skip(scheme.len() as int))
            } else {
                None
            }
        },
        None => None,
    }
}

/// The middleware's first decision on a request.
pub open spec fn screened(access: Access, header: Option<Seq<char>>, keys_cached: bool) -> AdmissionView {
    if access == Access::Open {
        AdmissionView::Skip
    } else {
        match bearer_of(header) {
            None => AdmissionView::Reject(ApiError::Unauthenticated),
            Some(token) => if keys_cached {
                AdmissionView::Verify(token)
            } else {
                AdmissionView::FetchKeys(token)
            },
        }
    }
}

/// The middleware's decision once the keys were asked for.
pub open spec fn after_fetch(token: Seq<char>, fetched: bool) -> AdmissionView {
    if fetched {
        AdmissionView::Verify(token)
    } else {
        AdmissionView::Reject(ApiError::AuthorityUnavailable)
    }
}

/// The middleware's decision on a verified or refused token.
pub open spec fn concluded(access: Access, verdict: Verdict) -> Result<AuthClaimsView, ApiError> {
    match verdict {
        Verdict::Valid(token) => {
            if access == Access::AdminOnly && !token.caller().roles.contains(Role::Admin) {
                Err(ApiError::Forbidden)
            } else {
                Ok(token.caller())
            }
        },
        _ => Err(ApiError::Unauthenticated),
    }
}

/// The whole of the middleware: what becomes of a request on a route with the
/// given access, given its header, whether the signing keys are at hand,
/// whether fetching them would succeed, and what the identity library would
/// say of the token. `Ok(None)` lets the request through unexamined,
/// `Ok(Some(..))` lets it through as the caller described.
pub open spec fn decision(
    access: Access,
    header: Option<Seq<char>>,
    keys_cached: bool,
    fetch_succeeds: bool,
    verdict: Verdict,
) -> Result<Option<AuthClaimsView>, ApiError> {
    match screened(access, header, keys_cached) {
        AdmissionView::Skip => Ok(None),
        AdmissionView::Reject(e) => Err(e),
        AdmissionView::FetchKeys(token) => {
            if fetch_succeeds {
                match concluded(access, verdict) {
                    Ok(caller) => Ok(Some(caller)),
                    Err(e) => Err(e),
                }
            } else {
                Err(ApiError::AuthorityUnavailable)
            }
        },
        AdmissionView::Verify(_) => match concluded(access, verdict) {
            Ok(caller) => Ok(Some(caller)),
            Err(e) => Err(e),
        },
    }
}

/// Takes the bearer token out of an `Authorization` header value.
pub fn bearer_token(header: Option<&str>) -> (token: Option<String>)
    ensures
        opt_text(token) == bearer_of(header_text(header)),
{
    match header {
        None => None,
        Some(value) => {
            let chars = chars_of(value);
            let scheme = "Bearer ";
            let start: usize = scheme.unicode_len();
            if begins_with(&chars, scheme) && chars.len() > start {
                let rest = value.substring_char(start, chars.len());
                assert(value@.subrange(start as int, chars.len() as int) == value@.skip(start as int));
                Some(rest.to_owned())
            } else {
                None
            }
        },
    }
}

/// First decision on a request: let it pass unexamined, turn it down for
/// want of a token, or name the outside work that comes next.
pub fn screen(access: Access, header: Option<&str>, keys_cached: bool) -> (admission: Admission)
    ensures
        admission@ == screened(access, header_text(header), keys_cached),
{
    match access {
        Access::Open => Admission::Skip,
        _ => match bearer_token(header) {
            None => Admission::Reject(ApiError::Unauthenticated),
            Some(token) => if keys_cached {
                Admission::Verify(token)
            } else {
                Admission::FetchKeys(token)
            },
        },
    }
}

/// Decision after the signing keys were asked for: verify the token with
/// them, or report the identity provider as unavailable.
pub fn keys_fetched(token: String, fetched: bool) -> (admission: Admission)
    ensures
        admission@ == after_fetch(token@, fetched),
{
    if fetched {
        Admission::Verify(token)
    } else {
        Admission::Reject(ApiError::AuthorityUnavailable)
    }
}

/// Last decision: the caller's identity for the handler, or the error the
/// request is answered with.
pub fn conclude(access: Access, verdict: Verdict) -> (outcome: Result<AuthClaims, ApiError>)
    ensures
        match concluded(access, verdict) {
            Ok(caller) => outcome is Ok && outcome->Ok_0@ == caller,
            Err(e) => outcome == Err::<AuthClaims, ApiError>(e),
        },
{
    match verdict {
        Verdict::Valid(token) => {
            let claims = token.into_claims();
            match access {
                Access::AdminOnly => {
                    if claims.roles.contains(Role::Admin) {
                        Ok(claims)
                    } else {
                        Err(ApiError::Forbidden)
                    }
                },
                _ => Ok(claims),
            }
        },
        _ => Err(ApiError::Unauthenticated),
    }
}

/// An open route lets every request through, whatever it carries.
pub proof fn lemma_open_routes_skip_verification(
    header: Option<Seq<char>>,
    keys_cached: bool,
    fetch_succeeds: bool,
    verdict: Verdict,
)
    ensures
        decision(Access::Open, header, keys_cached, fetch_succeeds, verdict) == Ok::<
            Option<AuthClaimsView>,
            ApiError,
        >(None),
{
}

/// A request to a protected route without an `Authorization` header is
/// unauthenticated, whatever else holds, and so is one whose header does
/// not begin with the bearer scheme.
pub proof fn lemma_missing_token_is_unauthenticated(
    access: Access,
    header: Option<Seq<char>>,
    keys_cached: bool,
    fetch_succeeds: bool,
    verdict: Verdict,
)
    requires
        access != Access::Open,
        header is None || !"Bearer "@.is_prefix_of(header->0),
    ensures
        decision(access, header, keys_cached, fetch_succeeds, verdict) == Err::<
            Option<AuthClaimsView>,
            ApiError,
        >(ApiError::Unauthenticated),
{
}

/// A token that the identity library refuses (forged, expired, not yet
/// valid, unreadable) makes the request unauthenticated on every protected
/// route, provided the signing keys could be had.
pub proof fn lemma_refused_token_is_unauthenticated(
    access: Access,
    header: Option<Seq<char>>,
    keys_cached: bool,
    fetch_succeeds: bool,
    verdict: Verdict,
)
    requires
        access != Access::Open,
        !(verdict is Valid),
        keys_cached || fetch_succeeds,
    ensures
        decision(access, header, keys_cached, fetch_succeeds, verdict) == Err::<
            Option<AuthClaimsView>,
            ApiError,
        >(ApiError::Unauthenticated),
{
}

/// When the keys are neither at hand nor to be had, a request that carries
/// a token is answered with the outage, not with a refusal of the token.
pub proof fn lemma_key_outage_is_not_a_bad_token(
    access: Access,
    header: Option<Seq<char>>,
    verdict: Verdict,
)
    requires
        access != Access::Open,
        bearer_of(header) is Some,
    ensures
        decision(access, header, false, false, verdict) == Err::<Option<AuthClaimsView>, ApiError>(
            ApiError::AuthorityUnavailable,
        ),
{
}

/// A valid token without the administrator role is forbidden on an
/// administrator's route, and admitted on a route for any verified caller.
pub proof fn lemma_admin_routes_need_admin(
    header: Option<Seq<char>>,
    keys_cached: bool,
    fetch_succeeds: bool,
    token: TokenClaims,
)
    requires
        bearer_of(header) is Some,
        keys_cached || fetch_succeeds,
        !grants(token.role_names@, Role::Admin),
    ensures
        decision(Access::AdminOnly, header, keys_cached, fetch_succeeds, Verdict::Valid(token))
            == Err::<Option<AuthClaimsView>, ApiError>(ApiError::Forbidden),
        decision(Access::Authenticated, header, keys_cached, fetch_succeeds, Verdict::Valid(token))
            == Ok::<Option<AuthClaimsView>, ApiError>(Some(token.caller())),
{
}

/// A request is let through to a protected handler exactly when it carries
/// a bearer token, the keys can be had, the token is valid, and, on an
/// administrator's route, the token grants the administrator role.
pub proof fn lemma_admission_is_exact(
    access: Access,
    header: Option<Seq<char>>,
    keys_cached: bool,
    fetch_succeeds: bool,
    verdict: Verdict,
)
    requires
        access != Access::Open,
    ensures
        decision(access, header, keys_cached, fetch_succeeds, verdict) is Ok <==> {
            &&& bearer_of(header) is Some
            &&& keys_cached || fetch_succeeds
            &&& verdict is Valid
            &&& access == Access::AdminOnly ==> grants(verdict->Valid_0.role_names@, Role::Admin)
        },
{
}

} // verus!
