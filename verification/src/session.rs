//! Preview sessions: what the access service grants, what the credential vault
//! keeps, and what a reply or a record has to hold to be trusted.

use crate::access;
use crate::access::{
    LoginFailure, MAX_SESSION_LIFETIME_SECONDS, PRIVACY_VERSION, SESSION_REVALIDATION_SECONDS,
    TERMS_VERSION,
};
use crate::credential_store::{StoreError, StoreErrorView};
use crate::secret::SecretText;
use crate::secret;
use crate::text;
use vstd::prelude::*;
use vstd::string::*;

verus! {

/// A revocable session of the access service.
pub struct Session {
    pub token: SecretText,
    pub expires_at_utc_unix: u64,
    pub next_validation_utc_unix: u64,
}

/// What a [`Session`] holds.
pub struct SessionView {
    pub token: Seq<char>,
    pub expires_at_utc_unix: u64,
    pub next_validation_utc_unix: u64,
}

impl View for Session {
    type V = SessionView;

    open spec fn view(&self) -> SessionView {
        SessionView {
            token: self.token@,
            expires_at_utc_unix: self.expires_at_utc_unix,
            next_validation_utc_unix: self.next_validation_utc_unix,
        }
    }
}

impl SessionView {
    /// The session has a token and has not run out.
    pub open spec fn valid_at(self, now: u64) -> bool {
        self.token.len() > 0 && self.expires_at_utc_unix > now
    }

    /// The session without its token.
    pub open spec fn erased(self) -> SessionView {
        SessionView { token: Seq::empty(), ..self }
    }

    /// The service has to be asked again.
    pub open spec fn due_at(self, now: u64) -> bool {
        now >= self.next_validation_utc_unix
    }
}

impl Session {
    pub fn is_valid_at(&self, now_utc_unix: u64) -> (r: bool)
        ensures
            r == self@.valid_at(now_utc_unix),
    {
        !self.token.is_empty() && self.expires_at_utc_unix > now_utc_unix
    }

    /// Erases the token.
    pub fn zeroize(&mut self)
        ensures
            final(self)@ == (SessionView { token: Seq::empty(), ..old(self)@ }),
            final(self)@ == old(self)@.erased(),
    {
        self.token.wipe();
        proof {
            assert(self.token@ =~= Seq::empty());
        }
    }

    pub fn validation_due(&self, now_utc_unix: u64) -> (r: bool)
        ensures
            r == self@.due_at(now_utc_unix),
    {
        now_utc_unix >= self.next_validation_utc_unix
    }
}

/// The record of a session in the credential vault. It holds no credentials.
pub struct StoredSession {
    pub token: String,
    pub expires_at_utc_unix: u64,
    pub terms_version: String,
    pub privacy_version: String,
}

/// What a [`StoredSession`] holds.
pub struct StoredSessionView {
    pub token: Seq<char>,
    pub expires_at_utc_unix: u64,
    pub terms_version: Seq<char>,
    pub privacy_version: Seq<char>,
}

impl View for StoredSession {
    type V = StoredSessionView;

    open spec fn view(&self) -> StoredSessionView {
        StoredSessionView {
            token: self.token@,
            expires_at_utc_unix: self.expires_at_utc_unix,
            terms_version: self.terms_version@,
            privacy_version: self.privacy_version@,
        }
    }
}

/// The body of an answer to a login.
pub struct LoginResponse {
    pub ok: bool,
    pub session_token: Option<String>,
    pub expires_at_utc_unix: Option<u64>,
    pub terms_version: String,
    pub privacy_version: String,
}

/// What a [`LoginResponse`] says.
pub struct LoginResponseView {
    pub ok: bool,
    pub session_token: Option<Seq<char>>,
    pub expires_at_utc_unix: Option<u64>,
    pub terms_version: Seq<char>,
    pub privacy_version: Seq<char>,
}

impl View for LoginResponse {
    type V = LoginResponseView;

    open spec fn view(&self) -> LoginResponseView {
        LoginResponseView {
            ok: self.ok,
            session_token: match self.session_token {
                Some(token) => Some(token@),
                None => None,
            },
            expires_at_utc_unix: self.expires_at_utc_unix,
            terms_version: self.terms_version@,
            privacy_version: self.privacy_version@,
        }
    }
}

/// The body of an answer to a validation.
pub struct SessionValidationResponse {
    pub ok: bool,
    pub expires_at_utc_unix: Option<u64>,
    pub terms_version: String,
    pub privacy_version: String,
}

/// What a [`SessionValidationResponse`] says.
pub struct SessionValidationResponseView {
    pub ok: bool,
    pub expires_at_utc_unix: Option<u64>,
    pub terms_version: Seq<char>,
    pub privacy_version: Seq<char>,
}

impl View for SessionValidationResponse {
    type V = SessionValidationResponseView;

    open spec fn view(&self) -> SessionValidationResponseView {
        SessionValidationResponseView {
            ok: self.ok,
            expires_at_utc_unix: self.expires_at_utc_unix,
            terms_version: self.terms_version@,
            privacy_version: self.privacy_version@,
        }
    }
}

/// A session that the service has confirmed.
pub struct ValidatedSession {
    pub expires_at_utc_unix: u64,
}

/// A character of a session token.
pub open spec fn is_token_char(c: char) -> bool {
    ('a' <= c && c <= 'z') || ('A' <= c && c <= 'Z') || ('0' <= c && c <= '9') || c == '-' || c == '_'
}

/// A token has 32 to 256 characters, each an ASCII letter or digit, `-` or `_`.
pub open spec fn is_token(token: Seq<char>) -> bool {
    &&& 32 <= token.len() <= 256
    &&& forall|i: int| 0 <= i < token.len() ==> is_token_char(#[trigger] token[i])
}

pub fn token_is_well_formed(token: &str) -> (r: bool)
    ensures
        r == is_token(token@),
{
    let chars = text::chars_of(token);
    if chars.len() < 32 || chars.len() > 256 {
        return false;
    }
    let mut i: usize = 0;
    while i < chars.len()
        invariant
            i <= chars@.len(),
            chars@ == token@,
            32 <= token@.len() <= 256,
            forall|j: int| 0 <= j < i ==> is_token_char(#[trigger] token@[j]),
        decreases chars@.len() - i,
    {
        let c: char = chars[i];
        if !(('a' <= c && c <= 'z') || ('A' <= c && c <= 'Z') || ('0' <= c && c <= '9') || c == '-'
            || c == '_') {
            proof {
                assert(!is_token_char(token@[i as int]));
            }
            return false;
        }
        i += 1;
    }
    true
}

/// The legal versions are those of this build.
pub open spec fn is_current_policy(terms: Seq<char>, privacy: Seq<char>) -> bool {
    terms == TERMS_VERSION@ && privacy == PRIVACY_VERSION@
}

pub fn policy_is_current(terms: &str, privacy: &str) -> (r: bool)
    ensures
        r == is_current_policy(terms@, privacy@),
{
    text::same_text(terms, TERMS_VERSION) && text::same_text(privacy, PRIVACY_VERSION)
}

/// The time lies no further ahead than a session may last.
pub open spec fn is_bounded_expiry(expires: u64, now: u64) -> bool {
    expires - now <= MAX_SESSION_LIFETIME_SECONDS
}

/// What a login answer is worth at `now`.
pub open spec fn session_verdict(body: LoginResponseView, now: u64) -> Result<
    SessionView,
    LoginFailure,
> {
    if !body.ok {
        Err(LoginFailure::Service)
    } else if !is_current_policy(body.terms_version, body.privacy_version) {
        Err(LoginFailure::PolicyOutdated)
    } else {
        match (body.session_token, body.expires_at_utc_unix) {
            (Some(token), Some(expires)) => if !is_token(token) || !is_bounded_expiry(expires, now) {
                Err(LoginFailure::Service)
            } else if expires <= now {
                Err(LoginFailure::SessionExpired)
            } else {
                Ok(
                    SessionView {
                        token,
                        expires_at_utc_unix: expires,
                        next_validation_utc_unix: next_validation(now),
                    },
                )
            },
            _ => Err(LoginFailure::Service),
        }
    }
}

/// When a session that was confirmed at `now` has to be confirmed again.
pub open spec fn next_validation(now: u64) -> u64 {
    if now + SESSION_REVALIDATION_SECONDS > u64::MAX {
        u64::MAX
    } else {
        (now + SESSION_REVALIDATION_SECONDS) as u64
    }
}

/// The result of a request for a session, by what it holds.
pub open spec fn session_result(outcome: Result<Session, LoginFailure>) -> Result<
    SessionView,
    LoginFailure,
> {
    match outcome {
        Ok(session) => Ok(session@),
        Err(failure) => Err(failure),
    }
}

/// Makes a session of a login answer that is complete, current and bounded.
pub fn session_from_response(body: LoginResponse, now_utc_unix: u64) -> (r: Result<
    Session,
    LoginFailure,
>)
    ensures
        session_result(r) == session_verdict(body@, now_utc_unix),
{
    if !body.ok {
        return Err(LoginFailure::Service);
    }
    if !policy_is_current(body.terms_version.as_str(), body.privacy_version.as_str()) {
        return Err(LoginFailure::PolicyOutdated);
    }
    let token = match body.session_token {
        Some(token) => SecretText::new(token),
        None => return Err(LoginFailure::Service),
    };
    let expires_at_utc_unix: u64 = match body.expires_at_utc_unix {
        Some(expires) => expires,
        None => return Err(LoginFailure::Service),
    };
    if !token_is_well_formed(token.expose()) || expires_at_utc_unix.saturating_sub(now_utc_unix)
        > MAX_SESSION_LIFETIME_SECONDS {
        return Err(LoginFailure::Service);
    }
    if expires_at_utc_unix <= now_utc_unix {
        return Err(LoginFailure::SessionExpired);
    }
    Ok(
        Session {
            token,
            expires_at_utc_unix,
            next_validation_utc_unix: now_utc_unix.saturating_add(SESSION_REVALIDATION_SECONDS),
        },
    )
}

/// What the credential vault gave back.
pub enum LoadedRecord {
    Absent,
    /// There is a record, but it is no stored session.
    Unreadable,
    Record(StoredSession),
}

/// A session that was restored from the vault, and whether the vault's record
/// has to be deleted.
pub struct RestoredSession {
    pub outcome: Result<Option<Session>, StoreError>,
    pub delete_record: bool,
}

/// A record that may be used at `now`.
pub open spec fn is_usable_record(record: StoredSessionView, now: u64) -> bool {
    &&& is_token(record.token)
    &&& is_current_policy(record.terms_version, record.privacy_version)
    &&& record.expires_at_utc_unix > now
    &&& is_bounded_expiry(record.expires_at_utc_unix, now)
}

/// The session of a record. The service has to confirm it before it is used.
pub open spec fn session_of_record(record: StoredSessionView, now: u64) -> SessionView {
    SessionView {
        token: record.token,
        expires_at_utc_unix: record.expires_at_utc_unix,
        next_validation_utc_unix: now,
    }
}

/// The session that the vault's answer holds at `now`.
pub open spec fn restored(answer: Result<LoadedRecord, StoreError>, now: u64) -> Result<
    Option<SessionView>,
    StoreErrorView,
> {
    match answer {
        Ok(LoadedRecord::Record(record)) => Ok(
            if is_usable_record(record@, now) {
                Some(session_of_record(record@, now))
            } else {
                None
            },
        ),
        Ok(_) => Ok(None),
        Err(error) => Err(error@),
    }
}

/// The vault holds a record that cannot be used.
pub open spec fn holds_unusable_record(answer: Result<LoadedRecord, StoreError>, now: u64) -> bool {
    match answer {
        Ok(LoadedRecord::Record(record)) => !is_usable_record(record@, now),
        Ok(LoadedRecord::Unreadable) => true,
        _ => false,
    }
}

/// The outcome of restoring a session, by what it holds.
pub open spec fn restored_outcome(outcome: Result<Option<Session>, StoreError>) -> Result<
    Option<SessionView>,
    StoreErrorView,
> {
    match outcome {
        Ok(Some(session)) => Ok(Some(session@)),
        Ok(None) => Ok(None),
        Err(error) => Err(error@),
    }
}

/// Restores the session that the vault holds, if it is current and valid. A
/// record that is not is deleted.
pub fn load_stored_session(answer: Result<LoadedRecord, StoreError>, now_utc_unix: u64) -> (r:
    RestoredSession)
    ensures
        restored_outcome(r.outcome) == restored(answer, now_utc_unix),
        r.delete_record == holds_unusable_record(answer, now_utc_unix),
{
    match answer {
        Err(error) => RestoredSession { outcome: Err(error), delete_record: false },
        Ok(LoadedRecord::Absent) => RestoredSession { outcome: Ok(None), delete_record: false },
        Ok(LoadedRecord::Unreadable) => RestoredSession { outcome: Ok(None), delete_record: true },
        Ok(LoadedRecord::Record(stored)) => {
            let token_valid = token_is_well_formed(stored.token.as_str());
            let policy_valid = policy_is_current(
                stored.terms_version.as_str(),
                stored.privacy_version.as_str(),
            );
            let expiry_valid = stored.expires_at_utc_unix > now_utc_unix
                && stored.expires_at_utc_unix.saturating_sub(now_utc_unix)
                <= MAX_SESSION_LIFETIME_SECONDS;
            let mut token = stored.token;
            if !token_valid || !policy_valid || !expiry_valid {
                secret::wipe_text(&mut token);
                return RestoredSession { outcome: Ok(None), delete_record: true };
            }
            RestoredSession {
                outcome: Ok(
                    Some(
                        Session {
                            token: SecretText::new(token),
                            expires_at_utc_unix: stored.expires_at_utc_unix,
                            next_validation_utc_unix: now_utc_unix,
                        },
                    ),
                ),
                delete_record: false,
            }
        },
    }
}

/// The record of a session.
pub open spec fn record_of(session: SessionView) -> StoredSessionView {
    StoredSessionView {
        token: session.token,
        expires_at_utc_unix: session.expires_at_utc_unix,
        terms_version: TERMS_VERSION@,
        privacy_version: PRIVACY_VERSION@,
    }
}

/// The record under which the vault keeps `session`.
pub fn stored_session(session: &Session) -> (r: StoredSession)
    ensures
        r@ == record_of(session@),
{
    StoredSession {
        token: session.token.expose().to_owned(),
        expires_at_utc_unix: session.expires_at_utc_unix,
        terms_version: TERMS_VERSION.to_owned(),
        privacy_version: PRIVACY_VERSION.to_owned(),
    }
}

/// The client that asks for access.
pub struct ClientInfo {
    pub app_version: &'static str,
    pub platform: &'static str,
    pub architecture: &'static str,
}

/// The body of a login.
pub struct LoginRequest {
    pub username: String,
    pub password: String,
    pub terms_version: &'static str,
    pub privacy_version: &'static str,
    pub client: ClientInfo,
}

/// What a client is called.
pub open spec fn agent_name(client: ClientInfo) -> Seq<char> {
    "ReynStudio/"@ + client.app_version@ + " ("@ + client.platform@ + "; "@ + client.architecture@
        + ")"@
}

/// How the client names itself: `ReynStudio/<version> (<platform>; <architecture>)`.
pub fn user_agent(client: &ClientInfo) -> (r: String)
    ensures
        r@ == "ReynStudio/"@ + client.app_version@ + " ("@ + client.platform@ + "; "@
            + client.architecture@ + ")"@,
        r@ == agent_name(*client),
{
    let mut out = "ReynStudio/".to_owned();
    out.append(client.app_version);
    out.append(" (");
    out.append(client.platform);
    out.append("; ");
    out.append(client.architecture);
    out.append(")");
    out
}

/// A request to the access service that bears a session token.
pub struct AccessCall {
    pub url: String,
    pub authorization: String,
}

/// A request may be sent, with this address and authorization, or the endpoint
/// is refused.
pub open spec fn is_call(
    call: Result<AccessCall, LoginFailure>,
    endpoint: Seq<char>,
    path: Seq<char>,
    token: Seq<char>,
) -> bool {
    match access::endpoint_fault(endpoint) {
        Some(failure) => call == Err::<AccessCall, LoginFailure>(failure),
        None => call matches Ok(call) && call.url@ == endpoint + path && call.authorization@
            == "Bearer "@ + token,
    }
}

fn access_call(endpoint: &str, path: &str, token: &str) -> (r: Result<AccessCall, LoginFailure>)
    ensures
        is_call(r, endpoint@, path@, token@),
{
    match access::validate_endpoint(endpoint) {
        Err(failure) => Err(failure),
        Ok(()) => {
            let mut url = endpoint.to_owned();
            url.append(path);
            let mut authorization = "Bearer ".to_owned();
            authorization.append(token);
            Ok(AccessCall { url, authorization })
        },
    }
}

/// The request that asks for the session with this token to be confirmed.
pub open spec fn is_validation_call(
    call: Result<AccessCall, LoginFailure>,
    endpoint: Seq<char>,
    token: Seq<char>,
) -> bool {
    is_call(call, endpoint, "/validate"@, token)
}

/// The request that asks for the session with this token to be revoked.
pub open spec fn is_logout_call(
    call: Result<AccessCall, LoginFailure>,
    endpoint: Seq<char>,
    token: Seq<char>,
) -> bool {
    is_call(call, endpoint, "/logout"@, token)
}

/// The request that asks the service to confirm a session.
pub fn validation_call(endpoint: &str, token: &str) -> (r: Result<AccessCall, LoginFailure>)
    ensures
        is_call(r, endpoint@, "/validate"@, token@),
        is_validation_call(r, endpoint@, token@),
{
    access_call(endpoint, "/validate", token)
}

/// The request that asks the service to revoke a session.
pub fn logout_call(endpoint: &str, token: &str) -> (r: Result<AccessCall, LoginFailure>)
    ensures
        is_call(r, endpoint@, "/logout"@, token@),
        is_logout_call(r, endpoint@, token@),
{
    access_call(endpoint, "/logout", token)
}

/// What came of a request: no answer, or a status with the body where there
/// was one that could be read.
pub enum Reply<B> {
    Unreachable,
    Answered { status: u16, body: Option<B> },
}

/// Why a login was refused with this status.
pub open spec fn login_refusal(status: u16) -> LoginFailure {
    if status == 401 {
        LoginFailure::InvalidCredentials
    } else if status == 409 || status == 426 {
        LoginFailure::PolicyOutdated
    } else if status == 429 {
        LoginFailure::RateLimited
    } else {
        LoginFailure::Service
    }
}

/// The session that a login at `endpoint` gave.
pub open spec fn login_verdict(
    endpoint: Seq<char>,
    reply: Reply<LoginResponse>,
    clock: Result<u64, LoginFailure>,
) -> Result<SessionView, LoginFailure> {
    match access::endpoint_fault(endpoint) {
        Some(failure) => Err(failure),
        None => match reply {
            Reply::Unreachable => Err(LoginFailure::Network),
            Reply::Answered { status, body } => if status != 200 {
                Err(login_refusal(status))
            } else {
                match (body, clock) {
                    (None, _) => Err(LoginFailure::Service),
                    (Some(_), Err(failure)) => Err(failure),
                    (Some(body), Ok(now)) => session_verdict(body@, now),
                }
            },
        },
    }
}

/// What a login at `endpoint` came to, given the service's reply and the clock
/// when the reply was read.
pub fn authenticate(
    endpoint: &str,
    reply: Reply<LoginResponse>,
    clock: Result<u64, LoginFailure>,
) -> (r: Result<Session, LoginFailure>)
    ensures
        session_result(r) == login_verdict(endpoint@, reply, clock),
{
    match access::validate_endpoint(endpoint) {
        Err(failure) => Err(failure),
        Ok(()) => match reply {
            Reply::Unreachable => Err(LoginFailure::Network),
            Reply::Answered { status, body } => {
                if status != 200 {
                    return Err(
                        if status == 401 {
                            LoginFailure::InvalidCredentials
                        } else if status == 409 || status == 426 {
                            LoginFailure::PolicyOutdated
                        } else if status == 429 {
                            LoginFailure::RateLimited
                        } else {
                            LoginFailure::Service
                        },
                    );
                }
                match body {
                    None => Err(LoginFailure::Service),
                    Some(body) => match clock {
                        Err(failure) => Err(failure),
                        Ok(now) => session_from_response(body, now),
                    },
                }
            },
        },
    }
}

/// Why a validation was refused with this status.
pub open spec fn validation_refusal(status: u16) -> LoginFailure {
    if status == 401 {
        LoginFailure::InvalidSession
    } else if status == 409 || status == 426 {
        LoginFailure::PolicyOutdated
    } else {
        LoginFailure::Service
    }
}

/// The expiry that a validation answer confirms.
pub open spec fn confirmed_expiry(
    body: SessionValidationResponseView,
    clock: Result<u64, LoginFailure>,
) -> Result<u64, LoginFailure> {
    if !body.ok || !is_current_policy(body.terms_version, body.privacy_version) {
        Err(LoginFailure::PolicyOutdated)
    } else {
        match (body.expires_at_utc_unix, clock) {
            (None, _) => Err(LoginFailure::Service),
            (Some(_), Err(failure)) => Err(failure),
            (Some(expires), Ok(now)) => if expires <= now {
                Err(LoginFailure::SessionExpired)
            } else if !is_bounded_expiry(expires, now) {
                Err(LoginFailure::Service)
            } else {
                Ok(expires)
            },
        }
    }
}

/// The expiry that a validation at `endpoint` confirmed.
pub open spec fn validation_verdict(
    endpoint: Seq<char>,
    reply: Reply<SessionValidationResponse>,
    clock: Result<u64, LoginFailure>,
) -> Result<u64, LoginFailure> {
    match access::endpoint_fault(endpoint) {
        Some(failure) => Err(failure),
        None => match reply {
            Reply::Unreachable => Err(LoginFailure::Network),
            Reply::Answered { status, body } => if status != 200 {
                Err(validation_refusal(status))
            } else {
                match body {
                    None => Err(LoginFailure::Service),
                    Some(body) => confirmed_expiry(body@, clock),
                }
            },
        },
    }
}

/// The result of a validation, by the expiry that it confirms.
pub open spec fn expiry_result(outcome: Result<ValidatedSession, LoginFailure>) -> Result<
    u64,
    LoginFailure,
> {
    match outcome {
        Ok(validated) => Ok(validated.expires_at_utc_unix),
        Err(failure) => Err(failure),
    }
}

/// What a validation at `endpoint` came to, given the service's reply and the
/// clock when the reply was read.
pub fn validate_session(
    endpoint: &str,
    reply: Reply<SessionValidationResponse>,
    clock: Result<u64, LoginFailure>,
) -> (r: Result<ValidatedSession, LoginFailure>)
    ensures
        expiry_result(r) == validation_verdict(endpoint@, reply, clock),
{
    if let Err(failure) = access::validate_endpoint(endpoint) {
        return Err(failure);
    }
    let body = match reply {
        Reply::Unreachable => return Err(LoginFailure::Network),
        Reply::Answered { status, body } => {
            if status != 200 {
                return Err(
                    if status == 401 {
                        LoginFailure::InvalidSession
                    } else if status == 409 || status == 426 {
                        LoginFailure::PolicyOutdated
                    } else {
                        LoginFailure::Service
                    },
                );
            }
            match body {
                None => return Err(LoginFailure::Service),
                Some(body) => body,
            }
        },
    };
    if !body.ok || !policy_is_current(body.terms_version.as_str(), body.privacy_version.as_str()) {
        return Err(LoginFailure::PolicyOutdated);
    }
    let expires_at_utc_unix: u64 = match body.expires_at_utc_unix {
        None => return Err(LoginFailure::Service),
        Some(expires) => expires,
    };
    let now_utc_unix: u64 = match clock {
        Err(failure) => return Err(failure),
        Ok(now) => now,
    };
    if expires_at_utc_unix <= now_utc_unix {
        return Err(LoginFailure::SessionExpired);
    }
    if expires_at_utc_unix.saturating_sub(now_utc_unix) > MAX_SESSION_LIFETIME_SECONDS {
        return Err(LoginFailure::Service);
    }
    Ok(ValidatedSession { expires_at_utc_unix })
}

/// What a sign-out at `endpoint` is worth that was answered with this status, or
/// not at all.
pub open spec fn sign_out_verdict(endpoint: Seq<char>, status: Option<u16>) -> Result<
    (),
    LoginFailure,
> {
    match (access::endpoint_fault(endpoint), status) {
        (Some(failure), _) => Err(failure),
        (None, None) => Err(LoginFailure::Network),
        (None, Some(status)) => if status == 200 || status == 401 {
            Ok(())
        } else {
            Err(LoginFailure::Service)
        },
    }
}

/// What a sign-out at `endpoint` came to. `None` stands for no answer. A
/// session that the service does not know is signed out.
pub fn logout_session(endpoint: &str, status: Option<u16>) -> (r: Result<(), LoginFailure>)
    ensures
        r == (match access::endpoint_fault(endpoint@) {
            Some(failure) => Err(failure),
            None => match status {
                None => Err(LoginFailure::Network),
                Some(status) => if status == 200 || status == 401 {
                    Ok::<(), LoginFailure>(())
                } else {
                    Err(LoginFailure::Service)
                },
            },
        }),
        r == sign_out_verdict(endpoint@, status),
{
    match access::validate_endpoint(endpoint) {
        Err(failure) => Err(failure),
        Ok(()) => match status {
            None => Err(LoginFailure::Network),
            Some(status) => if status == 200 || status == 401 {
                Ok(())
            } else {
                Err(LoginFailure::Service)
            },
        },
    }
}

#[verifier::external_type_specification]
#[verifier::external_body]
pub struct ExSystemTime(std::time::SystemTime);

#[verifier::external_type_specification]
#[verifier::external_body]
pub struct ExSystemTimeError(std::time::SystemTimeError);

/// The nanoseconds from the Unix epoch to a time, negative for one before it.
pub uninterp spec fn unix_nanos(time: std::time::SystemTime) -> int;

/// The nanoseconds that a duration spans.
pub uninterp spec fn duration_nanos(duration: std::time::Duration) -> nat;

/// `std::time::SystemTime::now` reads the clock. What it shows is not stated.
pub assume_specification[ std::time::SystemTime::now ]() -> std::time::SystemTime
;

/// `std::time::Duration::as_secs` gives the whole seconds of a duration and
/// drops the fraction.
pub assume_specification[ std::time::Duration::as_secs ](duration: &std::time::Duration) -> (r: u64)
    ensures
        r as int == duration_nanos(*duration) as int / 1_000_000_000,
;

/// `std::time::SystemTime::duration_since` measures the time since the Unix
/// epoch, and fails exactly for a time before it.
#[verifier::external_body]
fn since_unix_epoch(time: std::time::SystemTime) -> (r: Result<
    std::time::Duration,
    std::time::SystemTimeError,
>)
    ensures
        r is Ok <==> unix_nanos(time) >= 0,
        r matches Ok(duration) ==> duration_nanos(duration) == unix_nanos(time),
{
    time.duration_since(std::time::UNIX_EPOCH)
}

/// A time gives these whole seconds since the Unix epoch. One before the epoch
/// is a failure of the service.
pub open spec fn is_clock_reading(time: std::time::SystemTime, clock: Result<u64, LoginFailure>) -> bool {
    if unix_nanos(time) < 0 {
        clock == Err::<u64, LoginFailure>(LoginFailure::Service)
    } else {
        clock matches Ok(seconds) && seconds as int == unix_nanos(time) / 1_000_000_000
    }
}

/// The whole seconds from the Unix epoch to a time.
pub fn unix_seconds(time: std::time::SystemTime) -> (r: Result<u64, LoginFailure>)
    ensures
        is_clock_reading(time, r),
{
    match since_unix_epoch(time) {
        Ok(duration) => Ok(duration.as_secs()),
        Err(_) => Err(LoginFailure::Service),
    }
}

/// The whole seconds from the Unix epoch to what the clock shows. Which time
/// that is depends on the machine and is not stated.
pub fn unix_now() -> (r: Result<u64, LoginFailure>)
    ensures
        exists|time: std::time::SystemTime| is_clock_reading(time, r),
{
    unix_seconds(std::time::SystemTime::now())
}

/// The time by a clock that may be unreadable.
pub open spec fn closed_time(clock: Result<u64, LoginFailure>) -> u64 {
    match clock {
        Ok(now) => now,
        Err(_) => u64::MAX,
    }
}

/// A clock that cannot be read stands at the end of time, when no session is
/// valid.
pub fn fail_closed(clock: Result<u64, LoginFailure>) -> (r: u64)
    ensures
        r == (match clock {
            Ok(now) => now,
            Err(_) => u64::MAX,
        }),
        r == closed_time(clock),
{
    match clock {
        Ok(now) => now,
        Err(_) => u64::MAX,
    }
}

} // verus!
