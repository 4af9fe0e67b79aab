//! Login, logout, password change and request authentication.
//!
//! Each operation is a decision over plain values. Where it needs the user
//! store or the session store, the caller does that work and passes in the
//! result (the user record that was found, what the session store answered),
//! and the decision says which store command to run next.

use crate::claims::is_id;
use crate::entropy::random_bytes;
use crate::password::{
    hash_password_with_salt, password_matches, verify_password, MAX_PASSWORD_BYTES, SALT_BYTES,
};
use crate::session::{
    apply_op, lemma_put_then_lookup, lemma_remove_then_lookup, put_command, session_lookup,
    SessionCommand, SessionEntry, SessionLookup, SessionOp,
};
use crate::token::{
    details_claims, generate_at, issued_text, token_shaped, token_verdict, verify_at, IssueError,
    SigningKey, TokenDetails, TokenError, VerifyingKey,
};
use vstd::prelude::*;

verus! {

/// Configuration shared by all requests, built once at start.
pub struct AuthConfig {
    pub signing: SigningKey,
    pub verifying: VerifyingKey,
    /// How long tokens and their sessions live, in seconds.
    pub ttl_seconds: u64,
}

/// Seconds in `minutes`, if that fits in a `u64`.
pub fn ttl_seconds_from_minutes(minutes: u64) -> (r: Option<u64>)
    ensures
        minutes * 60 <= u64::MAX ==> r == Some((minutes * 60) as u64),
        minutes * 60 > u64::MAX ==> r is None,
{
    minutes.checked_mul(60)
}

/// What the core reads of a user from the user store.
#[derive(Clone, Debug)]
pub struct UserRecord {
    pub id: Vec<u8>,
    pub password_hash: String,
    pub nickname: String,
    pub avatar: String,
}

/// Why access was refused after a token was presented.
#[derive(Clone, Copy, Debug, PartialEq, Eq, Structural)]
pub enum Denial {
    Malformed,
    InvalidSignature,
    Expired,
    /// No live session for the token: revoked or lapsed.
    SessionMissing,
    /// The session belongs to another user than the token names.
    SessionMismatch,
}

/// The errors of the authentication core.
#[derive(Clone, Copy, Debug, PartialEq, Eq, Structural)]
pub enum AuthError {
    /// No token was presented.
    MissingToken,
    /// A token was presented and refused.
    Unauthorized(Denial),
    /// The session store failed; this is not an authentication failure.
    SessionStoreUnavailable,
    /// Unknown user or wrong password at login: the two are not told apart.
    InvalidCredentials,
    /// The old password given for a password change is wrong.
    OldPasswordIncorrect,
    /// Hashing or signing failed inside the server.
    Internal,
}

/// The denial for a token error.
pub open spec fn denial_of(e: TokenError) -> Denial {
    match e {
        TokenError::Malformed => Denial::Malformed,
        TokenError::InvalidSignature => Denial::InvalidSignature,
        TokenError::Expired => Denial::Expired,
    }
}

/// The HTTP status for an error: 401 for refused or missing tokens, 400 for
/// bad credentials, 503 for an unreachable session store, 500 otherwise.
pub open spec fn status_of(e: AuthError) -> u16 {
    match e {
        AuthError::MissingToken => 401,
        AuthError::Unauthorized(_) => 401,
        AuthError::SessionStoreUnavailable => 503,
        AuthError::InvalidCredentials => 400,
        AuthError::OldPasswordIncorrect => 400,
        AuthError::Internal => 500,
    }
}

impl AuthError {
    /// The HTTP status code for this error.
    pub fn status_code(&self) -> (r: u16)
        ensures
            r == status_of(*self),
    {
        match self {
            AuthError::MissingToken => 401,
            AuthError::Unauthorized(_) => 401,
            AuthError::SessionStoreUnavailable => 503,
            AuthError::InvalidCredentials => 400,
            AuthError::OldPasswordIncorrect => 400,
            AuthError::Internal => 500,
        }
    }

    /// The message shown to the client: stable, and free of internal detail.
    pub fn message(&self) -> (r: &'static str)
        ensures
            *self == AuthError::MissingToken ==> r@ == "Token is empty"@,
            *self == AuthError::InvalidCredentials ==> r@ == "Invalid password"@,
            *self == AuthError::OldPasswordIncorrect ==> r@ == "旧密码不正确"@,
    {
        match self {
            AuthError::MissingToken => "Token is empty",
            AuthError::Unauthorized(Denial::Malformed) => "Token is malformed",
            AuthError::Unauthorized(Denial::InvalidSignature) => "Token signature is invalid",
            AuthError::Unauthorized(Denial::Expired) => "Token has expired",
            AuthError::Unauthorized(_) => "Session is not active",
            AuthError::SessionStoreUnavailable => "Session store is unavailable",
            AuthError::InvalidCredentials => "Invalid password",
            AuthError::OldPasswordIncorrect => "旧密码不正确",
            AuthError::Internal => "Internal error",
        }
    }
}

/// A successful login: the token for the client, the session command to
/// run, and the public profile.
#[derive(Clone, Debug)]
pub struct LoginGrant {
    pub token: TokenDetails,
    pub session: SessionCommand,
    pub nickname: String,
    pub avatar: String,
}

/// Are these the credentials of a known user?
pub open spec fn credentials_ok(user: Option<&UserRecord>, password: Seq<u8>) -> bool {
    match user {
        Some(u) => password_matches(password, u.password_hash@),
        None => false,
    }
}

/// What a login grants to `user` once a token is issued: the token, the
/// command that records its session for `ttl_seconds`, and the profile.
pub open spec fn grants(g: LoginGrant, user: &UserRecord, ttl_seconds: u64) -> bool {
    &&& g.session@ == (SessionOp::Put {
        token_id: g.token.token_id@,
        user_id: g.token.user_id@,
        ttl_seconds: ttl_seconds as nat,
    })
    &&& g.nickname@ == user.nickname@
    &&& g.avatar@ == user.avatar@
}

/// Finishes a login for `user` with the outcome of issuing its token: any
/// issuing failure is an internal error.
pub fn grant_login(user: &UserRecord, issued: Result<TokenDetails, IssueError>, ttl_seconds: u64) -> (r:
    Result<LoginGrant, AuthError>)
    ensures
        issued is Err <==> r == Err::<LoginGrant, AuthError>(AuthError::Internal),
        issued matches Ok(t) ==> r matches Ok(g) && g.token == t && grants(g, user, ttl_seconds),
{
    match issued {
        Ok(token) => {
            let session = put_command(&token.token_id, &token.user_id, ttl_seconds);
            Ok(
                LoginGrant {
                    token,
                    session,
                    nickname: user.nickname.clone(),
                    avatar: user.avatar.clone(),
                },
            )
        },
        Err(_) => Err(AuthError::Internal),
    }
}

/// Logs in at time `now`, given the user record found under the submitted
/// username (`None` when there is none). On success the caller runs
/// `session` and then hands out the token. The user id must be an
/// identifier (letters, digits, `-`, `_`) to go into a token.
pub fn login(config: &AuthConfig, user: Option<&UserRecord>, password: &[u8], now: u64) -> (r:
    Result<LoginGrant, AuthError>)
    ensures
        !credentials_ok(user, password@) <==> r == Err::<LoginGrant, AuthError>(
            AuthError::InvalidCredentials,
        ),
        r is Err ==> r == Err::<LoginGrant, AuthError>(AuthError::InvalidCredentials) || r
            == Err::<LoginGrant, AuthError>(AuthError::Internal),
        credentials_ok(user, password@) && (!is_id(user->Some_0.id@) || now + config.ttl_seconds
            > u64::MAX) ==> r == Err::<LoginGrant, AuthError>(AuthError::Internal),
        r matches Ok(g) ==> {
            let u = user->Some_0;
            &&& user is Some
            &&& g.token.user_id@ == u.id@
            &&& g.token.issued_at == now
            &&& g.token.expires_at == now + config.ttl_seconds
            &&& g.token.token@ == issued_text(&config.signing, details_claims(g.token))
            &&& exists|sig: Seq<u8>|
                token_shaped(
                    g.token.token@,
                    config.signing.algorithm(),
                    details_claims(g.token),
                    sig,
                )
            &&& grants(g, u, config.ttl_seconds)
        },
{
    let u = match user {
        Some(u) => u,
        None => return Err(AuthError::InvalidCredentials),
    };
    if !verify_password(password, u.password_hash.as_str()) {
        return Err(AuthError::InvalidCredentials);
    }
    let issued = generate_at(&u.id, config.ttl_seconds, &config.signing, now);
    grant_login(u, issued, config.ttl_seconds)
}

/// The client-side effects of a logout: the cookie to expire and the header
/// to blank. A logout sends no command to the session store.
#[derive(Clone, Copy, Debug)]
pub struct LogoutResponse {
    pub status: u16,
    pub expired_cookie: &'static str,
    pub blanked_header: &'static str,
}

/// Logs out: always succeeds, whatever token the client held. The session
/// record, if any, stays until it lapses.
pub fn logout() -> (r: LogoutResponse)
    ensures
        r.status == 200,
        r.expired_cookie@ == "token"@,
        r.blanked_header@ == "token"@,
{
    LogoutResponse { status: 200, expired_cookie: "token", blanked_header: "token" }
}

/// A password change to store: the user and the new hash. Existing sessions
/// are left as they are.
#[derive(Clone, Debug)]
pub struct PasswordChange {
    pub user_id: Vec<u8>,
    pub new_hash: String,
}

/// Changes a password with the given 16-byte salt, given the user record
/// found under the username.
pub fn change_password_with_salt(
    user: Option<&UserRecord>,
    old_password: &[u8],
    new_password: &[u8],
    salt: &[u8],
) -> (r: Result<PasswordChange, AuthError>)
    requires
        salt@.len() == 16,
    ensures
        user is None <==> r == Err::<PasswordChange, AuthError>(AuthError::InvalidCredentials),
        user is Some && !credentials_ok(user, old_password@) <==> r == Err::<
            PasswordChange,
            AuthError,
        >(AuthError::OldPasswordIncorrect),
        credentials_ok(user, old_password@) && new_password@.len() > MAX_PASSWORD_BYTES <==> r
            == Err::<PasswordChange, AuthError>(AuthError::Internal),
        credentials_ok(user, old_password@) && r is Err ==> r == Err::<PasswordChange, AuthError>(
            AuthError::Internal,
        ),
        r matches Ok(c) ==> {
            &&& user is Some
            &&& c.user_id@ == user->Some_0.id@
            &&& password_matches(new_password@, c.new_hash@)
        },
{
    let u = match user {
        Some(u) => u,
        None => return Err(AuthError::InvalidCredentials),
    };
    if !verify_password(old_password, u.password_hash.as_str()) {
        return Err(AuthError::OldPasswordIncorrect);
    }
    match hash_password_with_salt(new_password, salt) {
        Ok(h) => Ok(PasswordChange { user_id: u.id.clone(), new_hash: h }),
        Err(_) => Err(AuthError::Internal),
    }
}

/// Changes a password with a fresh random salt, given the user record found
/// under the username. Past the checks of the old password it fails only on
/// a password too long for Argon2 or a failing random source.
pub fn change_password(user: Option<&UserRecord>, old_password: &[u8], new_password: &[u8]) -> (r:
    Result<PasswordChange, AuthError>)
    ensures
        user is None <==> r == Err::<PasswordChange, AuthError>(AuthError::InvalidCredentials),
        user is Some && !credentials_ok(user, old_password@) <==> r == Err::<
            PasswordChange,
            AuthError,
        >(AuthError::OldPasswordIncorrect),
        credentials_ok(user, old_password@) && r is Err ==> r == Err::<PasswordChange, AuthError>(
            AuthError::Internal,
        ),
        credentials_ok(user, old_password@) && new_password@.len() > MAX_PASSWORD_BYTES ==> r
            == Err::<PasswordChange, AuthError>(AuthError::Internal),
        r matches Ok(c) ==> {
            &&& user is Some
            &&& c.user_id@ == user->Some_0.id@
            &&& password_matches(new_password@, c.new_hash@)
        },
{
    let u = match user {
        Some(u) => u,
        None => return Err(AuthError::InvalidCredentials),
    };
    if !verify_password(old_password, u.password_hash.as_str()) {
        return Err(AuthError::OldPasswordIncorrect);
    }
    match random_bytes(SALT_BYTES) {
        Some(salt) => change_password_with_salt(user, old_password, new_password, &salt),
        None => Err(AuthError::Internal),
    }
}

/// The first half of authentication, at time `now`: the token header must be
/// present and the token pass `verify_at`; any refusal is `Unauthorized`.
/// On success the caller reads the session of the token id and calls
/// `resolve_session`.
pub fn check_token_header(key: &VerifyingKey, header: Option<&[u8]>, now: u64) -> (r: Result<
    TokenDetails,
    AuthError,
>)
    ensures
        header is None <==> r == Err::<TokenDetails, AuthError>(AuthError::MissingToken),
        header matches Some(t) ==> match token_verdict(t@, key, now) {
            Ok(c) => r matches Ok(d) && details_claims(d) == c && d.token@ == t@,
            Err(e) => r == Err::<TokenDetails, AuthError>(AuthError::Unauthorized(denial_of(e))),
        },
{
    let t = match header {
        Some(t) => t,
        None => return Err(AuthError::MissingToken),
    };
    match verify_at(t, key, now) {
        Ok(d) => Ok(d),
        Err(TokenError::Malformed) => Err(AuthError::Unauthorized(Denial::Malformed)),
        Err(TokenError::InvalidSignature) => Err(AuthError::Unauthorized(Denial::InvalidSignature)),
        Err(TokenError::Expired) => Err(AuthError::Unauthorized(Denial::Expired)),
    }
}

/// How a valid token fares against what the session store holds for its
/// token id (`None`: no live record).
pub open spec fn session_outcome(subject: Seq<u8>, found: Option<Seq<u8>>) -> Result<
    Seq<u8>,
    AuthError,
> {
    match found {
        None => Err(AuthError::Unauthorized(Denial::SessionMissing)),
        Some(u) => if u == subject {
            Ok(u)
        } else {
            Err(AuthError::Unauthorized(Denial::SessionMismatch))
        },
    }
}

/// The second half of authentication: decides on a valid token given what
/// the session store answered for its token id. On success the result is
/// the user id to attach to the request.
pub fn resolve_session(token: &TokenDetails, lookup: SessionLookup) -> (r: Result<Vec<u8>, AuthError>)
    ensures
        lookup is Unavailable <==> r == Err::<Vec<u8>, AuthError>(AuthError::SessionStoreUnavailable),
        lookup is Absent ==> r == Err::<Vec<u8>, AuthError>(
            AuthError::Unauthorized(Denial::SessionMissing),
        ),
        lookup matches SessionLookup::Found(u) ==> match session_outcome(token.user_id@, Some(u@)) {
            Ok(v) => r matches Ok(w) && w@ == v,
            Err(e) => r == Err::<Vec<u8>, AuthError>(e),
        },
{
    match lookup {
        SessionLookup::Unavailable => Err(AuthError::SessionStoreUnavailable),
        SessionLookup::Absent => Err(AuthError::Unauthorized(Denial::SessionMissing)),
        SessionLookup::Found(u) => {
            if vec_eq(&u, &token.user_id) {
                Ok(u)
            } else {
                Err(AuthError::Unauthorized(Denial::SessionMismatch))
            }
        },
    }
}

/// Are two byte strings equal?
pub fn vec_eq(a: &Vec<u8>, b: &Vec<u8>) -> (r: bool)
    ensures
        r == (a@ == b@),
{
    if a.len() != b.len() {
        return false;
    }
    let mut i: usize = 0;
    while i < a.len()
        invariant
            a@.len() == b@.len(),
            i <= a@.len(),
            forall|j: int| 0 <= j < i ==> a@[j] == b@[j],
        decreases a@.len() - i,
    {
        if a[i] != b[i] {
            return false;
        }
        i = i + 1;
    }
    assert(a@ =~= b@);
    true
}

/// After a login's session command has run at time `now`, reading the
/// session of the token id at any time before its time to live has passed
/// resolves to the token's subject.
pub proof fn lemma_login_session_resolves_subject(
    store: Map<Seq<u8>, SessionEntry>,
    token_id: Seq<u8>,
    subject: Seq<u8>,
    ttl_seconds: nat,
    now: nat,
    later: nat,
)
    requires
        now <= later < now + ttl_seconds,
    ensures
        ({
            let op = SessionOp::Put { token_id, user_id: subject, ttl_seconds };
            let found = session_lookup(apply_op(store, op, now), token_id, later);
            &&& found == Some(subject)
            &&& session_outcome(subject, found) == Ok::<Seq<u8>, AuthError>(subject)
        }),
{
    lemma_put_then_lookup(store, token_id, subject, ttl_seconds, now, later);
}

/// Once the session of a token id has been removed, a token carrying that
/// id is refused as unauthorized, whatever its signature and expiry.
pub proof fn lemma_revoked_session_denied(
    store: Map<Seq<u8>, SessionEntry>,
    token_id: Seq<u8>,
    subject: Seq<u8>,
    now: nat,
    later: nat,
)
    ensures
        session_outcome(
            subject,
            session_lookup(apply_op(store, SessionOp::Remove { token_id }, now), token_id, later),
        ) == Err::<Seq<u8>, AuthError>(AuthError::Unauthorized(Denial::SessionMissing)),
{
    lemma_remove_then_lookup(store, token_id, now, later);
}

} // verus!
