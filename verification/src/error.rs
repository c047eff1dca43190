//! The two families of failure: what stops the service from starting, and
//! what a single request can be answered with.

use vstd::prelude::*;

verus! {

/// Why the service could not start. Each kind names the dependency that an
/// operator has to look at; none of them is retried.
#[derive(Clone, Copy, Debug, PartialEq, Eq, Structural)]
pub enum StartupError {
    /// A required setting is absent or malformed.
    Config,
    /// The store could not be reached with the configured connection string.
    Connectivity,
    /// A pending schema migration could not be applied.
    Migration,
    /// The listener could not be bound to the configured address.
    Bind,
}

impl StartupError {
    /// The name under which the failure is logged.
    pub open spec fn kind_text(self) -> Seq<char> {
        match self {
            StartupError::Config => "ConfigError"@,
            StartupError::Connectivity => "ConnectivityError"@,
            StartupError::Migration => "MigrationError"@,
            StartupError::Bind => "BindError"@,
        }
    }

    pub fn kind(self) -> (r: &'static str)
        ensures
            r@ == self.kind_text(),
    {
        match self {
            StartupError::Config => "ConfigError",
            StartupError::Connectivity => "ConnectivityError",
            StartupError::Migration => "MigrationError",
            StartupError::Bind => "BindError",
        }
    }

    /// The status the process exits with: never zero.
    pub fn exit_code(self) -> (code: u8)
        ensures
            code == 1,
    {
        1
    }
}

/// Two different startup failures are logged under different names.
pub proof fn lemma_startup_kinds_distinct(a: StartupError, b: StartupError)
    requires
        a != b,
    ensures
        a.kind_text() != b.kind_text(),
{
    reveal_strlit("ConfigError");
    reveal_strlit("ConnectivityError");
    reveal_strlit("MigrationError");
    reveal_strlit("BindError");
    assert(StartupError::Config.kind_text().len() == 11);
    assert(StartupError::Connectivity.kind_text().len() == 17);
    assert(StartupError::Migration.kind_text().len() == 14);
    assert(StartupError::Bind.kind_text().len() == 9);
}

/// Why a request was turned down. A request that fails is answered and
/// forgotten: it changes nothing that other requests see.
#[derive(Clone, Copy, Debug, PartialEq, Eq, Structural)]
pub enum ApiError {
    /// No usable bearer token: absent, malformed, forged, expired or not yet valid.
    Unauthenticated,
    /// The caller is known but lacks the role that the route asks for.
    Forbidden,
    /// The identity provider's signing keys could not be fetched.
    AuthorityUnavailable,
    /// The request's content breaks a rule of the resource.
    Validation,
    /// Nothing that the caller may see has the given identifier.
    NotFound,
}

impl ApiError {
    /// The HTTP status of the answer.
    pub open spec fn status_code(self) -> u16 {
        match self {
            ApiError::Unauthenticated => 401,
            ApiError::Forbidden => 403,
            ApiError::AuthorityUnavailable => 503,
            ApiError::Validation => 400,
            ApiError::NotFound => 404,
        }
    }

    /// The stable, machine-readable name of the failure.
    pub open spec fn kind_text(self) -> Seq<char> {
        match self {
            ApiError::Unauthenticated => "Unauthenticated"@,
            ApiError::Forbidden => "Forbidden"@,
            ApiError::AuthorityUnavailable => "AuthorityUnavailable"@,
            ApiError::Validation => "ValidationError"@,
            ApiError::NotFound => "NotFound"@,
        }
    }

    /// The sentence shown to the client. It depends on the kind alone, so
    /// nothing of the store, the driver or the token can leak into it.
    pub open spec fn message_text(self) -> Seq<char> {
        match self {
            ApiError::Unauthenticated => "a valid bearer token is required"@,
            ApiError::Forbidden => "the caller lacks the required role"@,
            ApiError::AuthorityUnavailable => "the identity provider cannot be reached"@,
            ApiError::Validation => "the title must not be empty"@,
            ApiError::NotFound => "no such resource"@,
        }
    }

    pub fn status(self) -> (code: u16)
        ensures
            code == self.status_code(),
    {
        match self {
            ApiError::Unauthenticated => 401,
            ApiError::Forbidden => 403,
            ApiError::AuthorityUnavailable => 503,
            ApiError::Validation => 400,
            ApiError::NotFound => 404,
        }
    }

    pub fn kind(self) -> (r: &'static str)
        ensures
            r@ == self.kind_text(),
    {
        match self {
            ApiError::Unauthenticated => "Unauthenticated",
            ApiError::Forbidden => "Forbidden",
            ApiError::AuthorityUnavailable => "AuthorityUnavailable",
            ApiError::Validation => "ValidationError",
            ApiError::NotFound => "NotFound",
        }
    }

    pub fn message(self) -> (r: &'static str)
        ensures
            r@ == self.message_text(),
    {
        match self {
            ApiError::Unauthenticated => "a valid bearer token is required",
            ApiError::Forbidden => "the caller lacks the required role",
            ApiError::AuthorityUnavailable => "the identity provider cannot be reached",
            ApiError::Validation => "the title must not be empty",
            ApiError::NotFound => "no such resource",
        }
    }

    /// Whether the failure is the caller's (4xx) and not a dependency's (5xx).
    pub fn is_client_fault(self) -> (b: bool)
        ensures
            b == (400 <= self.status_code() < 500),
            b == (self != ApiError::AuthorityUnavailable),
    {
        match self {
            ApiError::AuthorityUnavailable => false,
            _ => true,
        }
    }
}

/// Two different request failures carry different machine-readable names.
pub proof fn lemma_api_kinds_distinct(a: ApiError, b: ApiError)
    requires
        a != b,
    ensures
        a.kind_text() != b.kind_text(),
{
    reveal_strlit("Unauthenticated");
    reveal_strlit("Forbidden");
    reveal_strlit("AuthorityUnavailable");
    reveal_strlit("ValidationError");
    reveal_strlit("NotFound");
    assert(ApiError::Unauthenticated.kind_text().len() == 15);
    assert(ApiError::Forbidden.kind_text().len() == 9);
    assert(ApiError::AuthorityUnavailable.kind_text().len() == 20);
    assert(ApiError::Validation.kind_text().len() == 15);
    assert(ApiError::NotFound.kind_text().len() == 8);
    assert(ApiError::Unauthenticated.kind_text()[0] == 'U');
    assert(ApiError::Validation.kind_text()[0] == 'V');
}

} // verus!
