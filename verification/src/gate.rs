//! The access gate: the state between a locked and an unlocked studio.
//!
//! It decides, and the application acts. Each operation changes the state and
//! returns the effect that the application has to carry out: to ask the access
//! service, or to change the credential vault. What comes back from the service
//! is handed to the next operation.

use crate::access;
use crate::access::{LoginFailure, PRIVACY_VERSION, SESSION_REVALIDATION_SECONDS, TERMS_VERSION};
use crate::credential_store::{StoreError, StoreErrorView};
use crate::secret;
use crate::secret::SecretText;
use crate::session;
use crate::session::{
    ClientInfo, LoadedRecord, LoginRequest, Session, SessionView, StoredSession, StoredSessionView,
    ValidatedSession,
};
use crate::text;
use vstd::prelude::*;
use vstd::string::*;

verus! {

pub enum GateState {
    Ready,
    Restoring(Session),
    CheckingCredentials,
    Validating(Session),
    Granted(Session),
    RetryValidation(Session, LoginFailure),
    SigningOut(Session),
    RetrySignOut(Session, LoginFailure),
    Failed(LoginFailure),
}

/// What a [`GateState`] holds.
pub enum GateStateView {
    Ready,
    Restoring(SessionView),
    CheckingCredentials,
    Validating(SessionView),
    Granted(SessionView),
    RetryValidation(SessionView, LoginFailure),
    SigningOut(SessionView),
    RetrySignOut(SessionView, LoginFailure),
    Failed(LoginFailure),
}

impl View for GateState {
    type V = GateStateView;

    open spec fn view(&self) -> GateStateView {
        match *self {
            GateState::Ready => GateStateView::Ready,
            GateState::Restoring(session) => GateStateView::Restoring(session@),
            GateState::CheckingCredentials => GateStateView::CheckingCredentials,
            GateState::Validating(session) => GateStateView::Validating(session@),
            GateState::Granted(session) => GateStateView::Granted(session@),
            GateState::RetryValidation(session, failure) => GateStateView::RetryValidation(
                session@,
                failure,
            ),
            GateState::SigningOut(session) => GateStateView::SigningOut(session@),
            GateState::RetrySignOut(session, failure) => GateStateView::RetrySignOut(
                session@,
                failure,
            ),
            GateState::Failed(failure) => GateStateView::Failed(failure),
        }
    }
}

/// What a request to the access service came to.
pub enum PendingAccessResult {
    Login(Result<Session, LoginFailure>),
    Validate(Result<ValidatedSession, LoginFailure>),
    Logout(Result<(), LoginFailure>),
}

/// What a [`PendingAccessResult`] says.
pub enum PendingAccessResultView {
    Login(Result<SessionView, LoginFailure>),
    Validate(Result<u64, LoginFailure>),
    Logout(Result<(), LoginFailure>),
}

impl View for PendingAccessResult {
    type V = PendingAccessResultView;

    open spec fn view(&self) -> PendingAccessResultView {
        match *self {
            PendingAccessResult::Login(outcome) => PendingAccessResultView::Login(
                session::session_result(outcome),
            ),
            PendingAccessResult::Validate(outcome) => PendingAccessResultView::Validate(
                session::expiry_result(outcome),
            ),
            PendingAccessResult::Logout(outcome) => PendingAccessResultView::Logout(outcome),
        }
    }
}

/// What the application has to do.
#[allow(inconsistent_fields)]
pub enum GateEffect {
    Nothing,
    /// Keep this record in the vault, and report with [`AccessGate::record_save`].
    Save(StoredSession),
    /// Delete the vault's record.
    Delete,
    /// Ask for a session with these credentials.
    Login { endpoint: String, request: LoginRequest },
    /// Ask for the session to be confirmed.
    Validate { endpoint: String, token: SecretText },
    /// Ask for the session to be revoked. Without an endpoint the request fails
    /// as a failure of the service.
    Logout { endpoint: Option<String>, token: SecretText },
}

/// The credentials of a login, with the legal versions that were accepted.
pub struct LoginRequestView {
    pub username: Seq<char>,
    pub password: Seq<char>,
    pub terms_version: Seq<char>,
    pub privacy_version: Seq<char>,
    pub client: ClientInfo,
}

/// What a [`GateEffect`] says.
#[allow(inconsistent_fields)]
pub enum GateEffectView {
    Nothing,
    Save(StoredSessionView),
    Delete,
    Login { endpoint: Seq<char>, request: LoginRequestView },
    Validate { endpoint: Seq<char>, token: Seq<char> },
    Logout { endpoint: Option<Seq<char>>, token: Seq<char> },
}

impl View for GateEffect {
    type V = GateEffectView;

    open spec fn view(&self) -> GateEffectView {
        match *self {
            GateEffect::Nothing => GateEffectView::Nothing,
            GateEffect::Save(record) => GateEffectView::Save(record@),
            GateEffect::Delete => GateEffectView::Delete,
            GateEffect::Login { endpoint, request } => GateEffectView::Login {
                endpoint: endpoint@,
                request: LoginRequestView {
                    username: request.username@,
                    password: request.password@,
                    terms_version: request.terms_version@,
                    privacy_version: request.privacy_version@,
                    client: request.client,
                },
            },
            GateEffect::Validate { endpoint, token } => GateEffectView::Validate {
                endpoint: endpoint@,
                token: token@,
            },
            GateEffect::Logout { endpoint, token } => GateEffectView::Logout {
                endpoint: match endpoint {
                    Some(endpoint) => Some(endpoint@),
                    None => None,
                },
                token: token@,
            },
        }
    }
}

/// The access gate of an access-gated build.
pub struct AccessGate {
    pub username: String,
    pub password: String,
    pub terms_accepted: bool,
    pub state: GateState,
    /// A request to the access service has not been answered.
    pub pending: bool,
    pub requested_initial_focus: bool,
    pub store_notice: Option<String>,
}

/// What an [`AccessGate`] holds.
pub struct GateView {
    pub username: Seq<char>,
    pub password: Seq<char>,
    pub terms_accepted: bool,
    pub state: GateStateView,
    pub pending: bool,
    pub requested_initial_focus: bool,
    pub store_notice: Option<Seq<char>>,
}

impl View for AccessGate {
    type V = GateView;

    open spec fn view(&self) -> GateView {
        GateView {
            username: self.username@,
            password: self.password@,
            terms_accepted: self.terms_accepted,
            state: self.state@,
            pending: self.pending,
            requested_initial_focus: self.requested_initial_focus,
            store_notice: match self.store_notice {
                Some(notice) => Some(notice@),
                None => None,
            },
        }
    }
}

/// The debug form of a text, in quotes and with escapes.
pub uninterp spec fn quoted(text: Seq<char>) -> Seq<char>;

/// `std::fmt::Debug` for `str` writes the text in quotes, with escapes.
#[verifier::external_body]
fn quote(text: &str) -> (r: String)
    ensures
        r@ == quoted(text@),
{
    format!("{text:?}")
}

/// How a store error is shown to the operator.
pub open spec fn store_error_text(error: StoreErrorView) -> Seq<char> {
    match error {
        StoreErrorView::Unavailable(text) => "Unavailable("@ + quoted(text) + ")"@,
        StoreErrorView::Malformed => "Malformed"@,
    }
}

fn push_store_error(out: &mut String, error: &StoreError)
    ensures
        final(out)@ == old(out)@ + store_error_text(error@),
{
    match error {
        StoreError::Unavailable(text) => {
            let shown = quote(text.as_str());
            out.append("Unavailable(");
            out.append(shown.as_str());
            out.append(")");
            proof {
                assert(out@ =~= old(out)@ + store_error_text(error@));
            }
        },
        StoreError::Malformed => out.append("Malformed"),
    }
}

/// What became of a record that was to be kept.
pub enum SaveOutcome {
    Saved,
    NotEncoded,
    Failed(StoreError),
}

/// What the operator is told of it.
pub open spec fn save_notice(outcome: SaveOutcome) -> Option<Seq<char>> {
    match outcome {
        SaveOutcome::Saved => None,
        SaveOutcome::NotEncoded => Some("Saved access could not be encoded."@),
        SaveOutcome::Failed(error) => Some(
            "Access is active for this run, but the native credential store failed: "@
                + store_error_text(error@),
        ),
    }
}

/// What the access gate's window shows.
pub enum Screen {
    Validating,
    Revoking,
    RetrySignOut(LoginFailure),
    RetryValidation(LoginFailure),
    Login { failure: Option<LoginFailure>, checking: bool, can_submit: bool },
}

impl GateView {
    /// The studio is unlocked.
    pub open spec fn granted(self) -> bool {
        self.state matches GateStateView::Granted(session) && session.token.len() > 0
    }

    /// The credentials are complete and the terms accepted.
    pub open spec fn is_complete(self) -> bool {
        !text::is_blank(self.username) && self.password.len() > 0 && self.terms_accepted
    }

    /// The form is empty again.
    pub open spec fn without_credentials(self) -> GateView {
        GateView {
            username: Seq::empty(),
            password: Seq::empty(),
            terms_accepted: false,
            requested_initial_focus: false,
            ..self
        }
    }

    /// The access gate after a login answer.
    pub open spec fn logged_in(self, outcome: Result<SessionView, LoginFailure>, now: u64) -> (
        GateView,
        GateEffectView,
    ) {
        match outcome {
            Ok(session) => if session.valid_at(now) {
                (
                    GateView {
                        username: Seq::empty(),
                        password: Seq::empty(),
                        state: GateStateView::Granted(session),
                        ..self
                    },
                    GateEffectView::Save(session::record_of(session)),
                )
            } else {
                (
                    GateView {
                        state: GateStateView::Failed(LoginFailure::SessionExpired),
                        ..self
                    },
                    GateEffectView::Nothing,
                )
            },
            Err(failure) => (
                GateView { state: GateStateView::Failed(failure), ..self },
                GateEffectView::Nothing,
            ),
        }
    }

    /// The access gate after `session` was to be confirmed.
    pub open spec fn confirmed(
        self,
        session: SessionView,
        outcome: Result<u64, LoginFailure>,
        now: u64,
    ) -> (GateView, GateEffectView) {
        if outcome matches Ok(expires) && expires > now {
            let renewed = SessionView {
                token: session.token,
                expires_at_utc_unix: outcome->Ok_0,
                next_validation_utc_unix: session::next_validation(now),
            };
            (
                GateView { state: GateStateView::Granted(renewed), ..self },
                GateEffectView::Save(session::record_of(renewed)),
            )
        } else if is_transient(outcome) {
            (
                GateView {
                    state: GateStateView::RetryValidation(session, outcome->Err_0),
                    ..self
                },
                GateEffectView::Nothing,
            )
        } else {
            (
                GateView {
                    state: GateStateView::Failed(LoginFailure::InvalidSession),
                    ..self.without_credentials()
                },
                GateEffectView::Delete,
            )
        }
    }

    /// The access gate after `session` was to be revoked.
    pub open spec fn signed_out(self, session: SessionView, outcome: Result<(), LoginFailure>) -> (
        GateView,
        GateEffectView,
    ) {
        match outcome {
            Ok(()) => (
                GateView { state: GateStateView::Ready, ..self.without_credentials() },
                GateEffectView::Delete,
            ),
            Err(failure) => (
                GateView { state: GateStateView::RetrySignOut(session, failure), ..self },
                GateEffectView::Nothing,
            ),
        }
    }

    /// The access gate after it looked for an answer of the service.
    pub open spec fn polled(self, received: Option<PendingAccessResultView>, now: u64) -> (
        GateView,
        GateEffectView,
    ) {
        if !self.pending || received is None {
            (self, GateEffectView::Nothing)
        } else {
            let answered = GateView { pending: false, ..self };
            match (received->Some_0, self.state) {
                (PendingAccessResultView::Login(outcome), _) => answered.logged_in(outcome, now),
                (
                    PendingAccessResultView::Validate(outcome),
                    GateStateView::Validating(session),
                ) => answered.confirmed(session, outcome, now),
                (
                    PendingAccessResultView::Logout(outcome),
                    GateStateView::SigningOut(session),
                ) => answered.signed_out(session, outcome),
                _ => (answered, GateEffectView::Nothing),
            }
        }
    }

    /// The access gate that asks for `session` to be confirmed.
    pub open spec fn validating(self, session: SessionView, configured: Option<Seq<char>>) -> (
        GateView,
        GateEffectView,
    ) {
        match access::configured_fault(configured) {
            Some(failure) => (
                GateView { state: GateStateView::RetryValidation(session, failure), ..self },
                GateEffectView::Nothing,
            ),
            None => (
                GateView { state: GateStateView::Validating(session), pending: true, ..self },
                GateEffectView::Validate { endpoint: configured->Some_0, token: session.token },
            ),
        }
    }

    /// The access gate that asks for `session` to be revoked.
    pub open spec fn revoking(self, session: SessionView, configured: Option<Seq<char>>) -> (
        GateView,
        GateEffectView,
    ) {
        (
            GateView { state: GateStateView::SigningOut(session), pending: true, ..self },
            GateEffectView::Logout {
                endpoint: if access::configured_fault(configured) is None {
                    configured
                } else {
                    None
                },
                token: session.token,
            },
        )
    }

    /// The access gate after the time came to `now`, with nothing pending.
    pub open spec fn advanced(self, configured: Option<Seq<char>>, now: u64) -> (
        GateView,
        GateEffectView,
    ) {
        match self.state {
            GateStateView::Restoring(session) => self.validating(session, configured),
            GateStateView::Granted(session) => if !session.valid_at(now) {
                (
                    GateView {
                        state: GateStateView::Failed(LoginFailure::SessionExpired),
                        ..self.without_credentials()
                    },
                    GateEffectView::Delete,
                )
            } else if session.due_at(now) {
                self.validating(session, configured)
            } else {
                (self, GateEffectView::Nothing)
            },
            _ => (self, GateEffectView::Nothing),
        }
    }

    /// The access gate after a tick: it looked for an answer, then at the time.
    pub open spec fn ticked(
        self,
        received: Option<PendingAccessResultView>,
        configured: Option<Seq<char>>,
        now: u64,
    ) -> (GateView, GateEffectView, GateEffectView) {
        let (polled, first) = self.polled(received, now);
        if polled.pending {
            (polled, first, GateEffectView::Nothing)
        } else {
            let (advanced, second) = polled.advanced(configured, now);
            (advanced, first, second)
        }
    }

    /// The access gate after the form was submitted.
    pub open spec fn submitted(self, configured: Option<Seq<char>>, client: ClientInfo) -> (
        GateView,
        GateEffectView,
    ) {
        if self.pending || !self.is_complete() {
            (self, GateEffectView::Nothing)
        } else {
            match access::configured_fault(configured) {
                Some(failure) => (
                    GateView { state: GateStateView::Failed(failure), ..self },
                    GateEffectView::Nothing,
                ),
                None => (
                    GateView {
                        password: Seq::empty(),
                        state: GateStateView::CheckingCredentials,
                        pending: true,
                        ..self
                    },
                    GateEffectView::Login {
                        endpoint: configured->Some_0,
                        request: LoginRequestView {
                            username: text::trim(self.username),
                            password: self.password,
                            terms_version: TERMS_VERSION@,
                            privacy_version: PRIVACY_VERSION@,
                            client,
                        },
                    },
                ),
            }
        }
    }

    /// The session that the access gate holds, which signing out revokes.
    pub open spec fn held_session(self) -> Option<SessionView> {
        match self.state {
            GateStateView::Granted(session) => Some(session),
            GateStateView::Restoring(session) => Some(session),
            GateStateView::Validating(session) => Some(session),
            GateStateView::RetryValidation(session, _) => Some(session),
            GateStateView::SigningOut(session) => Some(session),
            GateStateView::RetrySignOut(session, _) => Some(session),
            _ => None,
        }
    }

    /// The access gate after the operator signed out.
    pub open spec fn signing_out(self, configured: Option<Seq<char>>) -> (
        GateView,
        GateEffectView,
    ) {
        match self.held_session() {
            Some(session) => self.revoking(session, configured),
            None => (GateView { state: GateStateView::Ready, ..self }, GateEffectView::Delete),
        }
    }

    /// The access gate after the operator asked to validate once more.
    pub open spec fn retrying(self, configured: Option<Seq<char>>) -> (GateView, GateEffectView) {
        match self.state {
            GateStateView::RetryValidation(session, _) => self.validating(session, configured),
            _ => (self, GateEffectView::Nothing),
        }
    }

    /// The access gate after the operator asked to sign out once more.
    pub open spec fn retrying_sign_out(self, configured: Option<Seq<char>>) -> (
        GateView,
        GateEffectView,
    ) {
        match self.state {
            GateStateView::RetrySignOut(session, _) => self.revoking(session, configured),
            _ => (self, GateEffectView::Nothing),
        }
    }

    /// How long the granted session can be used before it runs out or has to be
    /// validated, in seconds.
    pub open spec fn wait_at(self, now: u64) -> Option<u64> {
        match self.state {
            GateStateView::Granted(session) => if session.valid_at(now) {
                let first = if session.next_validation_utc_unix < session.expires_at_utc_unix {
                    session.next_validation_utc_unix
                } else {
                    session.expires_at_utc_unix
                };
                Some(
                    if first <= now {
                        0
                    } else {
                        (first - now) as u64
                    },
                )
            } else {
                None
            },
            _ => None,
        }
    }

    /// The access gate after the vault was to keep a record.
    pub open spec fn noted(self, outcome: SaveOutcome) -> GateView {
        GateView { store_notice: save_notice(outcome), ..self }
    }

    /// What the window shows.
    pub open spec fn shown(self) -> Screen {
        match self.state {
            GateStateView::Restoring(_) => Screen::Validating,
            GateStateView::Validating(_) => Screen::Validating,
            GateStateView::SigningOut(_) => Screen::Revoking,
            GateStateView::RetrySignOut(_, failure) => Screen::RetrySignOut(failure),
            GateStateView::RetryValidation(_, failure) => Screen::RetryValidation(failure),
            _ => Screen::Login {
                failure: match self.state {
                    GateStateView::Failed(failure) => Some(failure),
                    _ => None,
                },
                checking: self.state is CheckingCredentials,
                can_submit: !(self.state is CheckingCredentials) && self.is_complete(),
            },
        }
    }
}

/// The service could not be reached, or could not answer: the session may
/// still be good.
pub open spec fn is_transient<T>(outcome: Result<T, LoginFailure>) -> bool {
    outcome matches Err(failure) && (failure is Network || failure is Service)
}

/// The access gate of a build, as it starts.
pub open spec fn initial(
    configured: Option<Seq<char>>,
    answer: Result<LoadedRecord, StoreError>,
    now: u64,
) -> GateView {
    GateView {
        username: Seq::empty(),
        password: Seq::empty(),
        terms_accepted: false,
        state: match access::configured_fault(configured) {
            Some(failure) => GateStateView::Failed(failure),
            None => match session::restored(answer, now) {
                Ok(Some(session)) => GateStateView::Restoring(session),
                _ => GateStateView::Ready,
            },
        },
        pending: false,
        requested_initial_focus: false,
        store_notice: match (access::configured_fault(configured), answer) {
            (None, Err(error)) => Some(
                "Saved access could not be read securely: "@ + store_error_text(error@),
            ),
            _ => None,
        },
    }
}

/// The vault's record has to be deleted as the build starts.
pub open spec fn initial_deletes(
    configured: Option<Seq<char>>,
    answer: Result<LoadedRecord, StoreError>,
    now: u64,
) -> bool {
    access::configured_fault(configured) is None && (answer is Err
        || session::holds_unusable_record(answer, now))
}

/// What a gate operation did.
pub open spec fn step(gate: AccessGate, effect: GateEffect) -> (GateView, GateEffectView) {
    (gate@, effect@)
}

impl AccessGate {
    /// The access gate as the build starts, and whether the vault's record has to be
    /// deleted: it cannot be read, or it cannot be used.
    pub fn new_with_store(
        configured: Option<&str>,
        answer: Result<LoadedRecord, StoreError>,
        now_utc_unix: u64,
    ) -> (r: (AccessGate, bool))
        ensures
            r.0@ == initial(access::optional_chars(configured), answer, now_utc_unix),
            r.1 == (access::configured_fault(access::optional_chars(configured)) is None && (answer
                is Err || session::holds_unusable_record(answer, now_utc_unix))),
            r.1 == initial_deletes(access::optional_chars(configured), answer, now_utc_unix),
    {
        let mut store_notice: Option<String> = None;
        let mut delete_record = false;
        let state = match access::configured_endpoint(configured) {
            Err(failure) => GateState::Failed(failure),
            Ok(_) => {
                let restored = session::load_stored_session(answer, now_utc_unix);
                delete_record = restored.delete_record;
                match restored.outcome {
                    Ok(Some(session)) => GateState::Restoring(session),
                    Ok(None) => GateState::Ready,
                    Err(error) => {
                        delete_record = true;
                        let mut notice = "Saved access could not be read securely: ".to_owned();
                        push_store_error(&mut notice, &error);
                        store_notice = Some(notice);
                        GateState::Ready
                    },
                }
            },
        };
        let gate = AccessGate {
            username: String::new(),
            password: String::new(),
            terms_accepted: false,
            state,
            pending: false,
            requested_initial_focus: false,
            store_notice,
        };
        proof {
            let start = initial(access::optional_chars(configured), answer, now_utc_unix);
            assert(gate@.username =~= start.username);
            assert(gate@.password =~= start.password);
        }
        (gate, delete_record)
    }

    pub fn is_granted(&self) -> (r: bool)
        ensures
            r == self@.granted(),
    {
        match &self.state {
            GateState::Granted(session) => !session.token.is_empty(),
            _ => false,
        }
    }

    /// Seconds until the granted session runs out or has to be validated.
    pub fn time_until_expiry(&self, now_utc_unix: u64) -> (r: Option<u64>)
        ensures
            r == (match self@.state {
                GateStateView::Granted(session) => if session.valid_at(now_utc_unix) {
                    if session.next_validation_utc_unix <= now_utc_unix {
                        Some(0)
                    } else if session.next_validation_utc_unix < session.expires_at_utc_unix {
                        Some((session.next_validation_utc_unix - now_utc_unix) as u64)
                    } else {
                        Some((session.expires_at_utc_unix - now_utc_unix) as u64)
                    }
                } else {
                    None
                },
                _ => None,
            }),
            r == self@.wait_at(now_utc_unix),
    {
        match &self.state {
            GateState::Granted(session) => if session.is_valid_at(now_utc_unix) {
                let first: u64 = if session.next_validation_utc_unix < session.expires_at_utc_unix {
                    session.next_validation_utc_unix
                } else {
                    session.expires_at_utc_unix
                };
                Some(first.saturating_sub(now_utc_unix))
            } else {
                None
            },
            _ => None,
        }
    }

    /// Empties the form.
    pub fn reset_credentials(&mut self)
        ensures
            final(self)@ == old(self)@.without_credentials(),
            final(self).state == old(self).state,
    {
        secret::wipe_text(&mut self.password);
        secret::wipe_text(&mut self.username);
        self.terms_accepted = false;
        self.requested_initial_focus = false;
    }

    /// Takes note of what became of the record that was to be kept.
    pub fn record_save(&mut self, outcome: SaveOutcome)
        ensures
            final(self)@ == (GateView { store_notice: save_notice(outcome), ..old(self)@ }),
            final(self)@ == old(self)@.noted(outcome),
    {
        self.store_notice =
        match outcome {
            SaveOutcome::Saved => None,
            SaveOutcome::NotEncoded => Some("Saved access could not be encoded.".to_owned()),
            SaveOutcome::Failed(error) => {
                let mut notice =
                    "Access is active for this run, but the native credential store failed: ".to_owned();
                push_store_error(&mut notice, &error);
                Some(notice)
            },
        };
    }

    /// The state, leaving `Ready` in its place.
    fn take_state(&mut self) -> (r: GateState)
        ensures
            r == old(self).state,
            *final(self) == (AccessGate { state: GateState::Ready, ..*old(self) }),
    {
        let mut state = GateState::Ready;
        std::mem::swap(&mut state, &mut self.state);
        state
    }

    /// Asks the service to confirm `session`.
    pub fn start_validation(&mut self, session: Session, configured: Option<&str>) -> (r:
        GateEffect)
        ensures
            step(*final(self), r) == old(self)@.validating(
                session@,
                access::optional_chars(configured),
            ),
    {
        match access::configured_endpoint(configured) {
            Err(failure) => {
                self.state = GateState::RetryValidation(session, failure);
                GateEffect::Nothing
            },
            Ok(endpoint) => {
                let token = session.token.duplicate();
                self.pending = true;
                self.state = GateState::Validating(session);
                GateEffect::Validate { endpoint: endpoint.to_owned(), token }
            },
        }
    }

    /// Asks the service to revoke `session`.
    pub fn start_logout(&mut self, session: Session, configured: Option<&str>) -> (r: GateEffect)
        ensures
            step(*final(self), r) == old(self)@.revoking(
                session@,
                access::optional_chars(configured),
            ),
    {
        let endpoint = match access::configured_endpoint(configured) {
            Ok(endpoint) => Some(endpoint.to_owned()),
            Err(_) => None,
        };
        let token = session.token.duplicate();
        self.pending = true;
        self.state = GateState::SigningOut(session);
        GateEffect::Logout { endpoint, token }
    }

    /// Takes the service's answer, if one has come.
    pub fn poll_at(&mut self, received: Option<PendingAccessResult>, now_utc_unix: u64) -> (r:
        GateEffect)
        ensures
            step(*final(self), r) == old(self)@.polled(
                match received {
                    Some(answer) => Some(answer@),
                    None => None,
                },
                now_utc_unix,
            ),
    {
        if !self.pending {
            return GateEffect::Nothing;
        }
        let answer = match received {
            None => return GateEffect::Nothing,
            Some(answer) => answer,
        };
        self.pending = false;
        match answer {
            PendingAccessResult::Login(outcome) => self.take_login(outcome, now_utc_unix),
            PendingAccessResult::Validate(outcome) => {
                match self.take_state() {
                    GateState::Validating(session) => self.take_validation(
                        session,
                        outcome,
                        now_utc_unix,
                    ),
                    other => {
                        self.state = other;
                        GateEffect::Nothing
                    },
                }
            },
            PendingAccessResult::Logout(outcome) => {
                match self.take_state() {
                    GateState::SigningOut(session) => self.take_logout(session, outcome),
                    other => {
                        self.state = other;
                        GateEffect::Nothing
                    },
                }
            },
        }
    }

    fn take_login(&mut self, outcome: Result<Session, LoginFailure>, now_utc_unix: u64) -> (r:
        GateEffect)
        ensures
            step(*final(self), r) == old(self)@.logged_in(
                session::session_result(outcome),
                now_utc_unix,
            ),
    {
        match outcome {
            Ok(session) => {
                let mut session = session;
                if session.is_valid_at(now_utc_unix) {
                    secret::wipe_text(&mut self.username);
                    secret::wipe_text(&mut self.password);
                    let record = session::stored_session(&session);
                    self.state = GateState::Granted(session);
                    GateEffect::Save(record)
                } else {
                    session.zeroize();
                    self.state = GateState::Failed(LoginFailure::SessionExpired);
                    GateEffect::Nothing
                }
            },
            Err(failure) => {
                self.state = GateState::Failed(failure);
                GateEffect::Nothing
            },
        }
    }

    fn take_validation(
        &mut self,
        session: Session,
        outcome: Result<ValidatedSession, LoginFailure>,
        now_utc_unix: u64,
    ) -> (r: GateEffect)
        ensures
            step(*final(self), r) == old(self)@.confirmed(
                session@,
                session::expiry_result(outcome),
                now_utc_unix,
            ),
    {
        let mut session = session;
        match outcome {
            Ok(validated) => if validated.expires_at_utc_unix > now_utc_unix {
                session.expires_at_utc_unix = validated.expires_at_utc_unix;
                session.next_validation_utc_unix =
                now_utc_unix.saturating_add(SESSION_REVALIDATION_SECONDS);
                let record = session::stored_session(&session);
                self.state = GateState::Granted(session);
                return GateEffect::Save(record);
            },
            Err(LoginFailure::Network) => {
                self.state = GateState::RetryValidation(session, LoginFailure::Network);
                return GateEffect::Nothing;
            },
            Err(LoginFailure::Service) => {
                self.state = GateState::RetryValidation(session, LoginFailure::Service);
                return GateEffect::Nothing;
            },
            Err(_) => {},
        }
        session.zeroize();
        self.reset_credentials();
        self.state = GateState::Failed(LoginFailure::InvalidSession);
        GateEffect::Delete
    }

    fn take_logout(&mut self, session: Session, outcome: Result<(), LoginFailure>) -> (r:
        GateEffect)
        ensures
            step(*final(self), r) == old(self)@.signed_out(session@, outcome),
    {
        let mut session = session;
        match outcome {
            Ok(()) => {
                session.zeroize();
                self.reset_credentials();
                self.state = GateState::Ready;
                GateEffect::Delete
            },
            Err(failure) => {
                self.state = GateState::RetrySignOut(session, failure);
                GateEffect::Nothing
            },
        }
    }

    /// Takes the service's answer, if one has come, then looks at the time. The
    /// effects are to be carried out in order.
    pub fn tick(
        &mut self,
        received: Option<PendingAccessResult>,
        configured: Option<&str>,
        now_utc_unix: u64,
    ) -> (r: (GateEffect, GateEffect))
        ensures
            (final(self)@, r.0@, r.1@) == old(self)@.ticked(
                match received {
                    Some(answer) => Some(answer@),
                    None => None,
                },
                access::optional_chars(configured),
                now_utc_unix,
            ),
    {
        let first = self.poll_at(received, now_utc_unix);
        if self.pending {
            return (first, GateEffect::Nothing);
        }
        let second = match self.take_state() {
            GateState::Restoring(session) => self.start_validation(session, configured),
            GateState::Granted(session) => {
                let mut session = session;
                if !session.is_valid_at(now_utc_unix) {
                    session.zeroize();
                    self.reset_credentials();
                    self.state = GateState::Failed(LoginFailure::SessionExpired);
                    GateEffect::Delete
                } else if session.validation_due(now_utc_unix) {
                    self.start_validation(session, configured)
                } else {
                    self.state = GateState::Granted(session);
                    GateEffect::Nothing
                }
            },
            other => {
                self.state = other;
                GateEffect::Nothing
            },
        };
        (first, second)
    }

    /// The credentials are complete and the terms accepted.
    pub fn form_is_complete(&self) -> (r: bool)
        ensures
            r == self@.is_complete(),
    {
        !text::blank(self.username.as_str()) && !self.password.as_str().is_empty() && self.terms_accepted
    }

    /// Asks the service for a session with the credentials of the form.
    pub fn submit(&mut self, configured: Option<&str>, client: ClientInfo) -> (r: GateEffect)
        ensures
            step(*final(self), r) == old(self)@.submitted(
                access::optional_chars(configured),
                client,
            ),
    {
        if self.pending || !self.form_is_complete() {
            return GateEffect::Nothing;
        }
        let endpoint = match access::configured_endpoint(configured) {
            Err(failure) => {
                self.state = GateState::Failed(failure);
                return GateEffect::Nothing;
            },
            Ok(endpoint) => endpoint.to_owned(),
        };
        let chars = text::chars_of(self.username.as_str());
        let username = text::trimmed(chars.as_slice());
        let request = LoginRequest {
            username: text::string_of(username.as_slice()),
            password: self.password.as_str().to_owned(),
            terms_version: TERMS_VERSION,
            privacy_version: PRIVACY_VERSION,
            client,
        };
        secret::wipe_text(&mut self.password);
        self.pending = true;
        self.state = GateState::CheckingCredentials;
        GateEffect::Login { endpoint, request }
    }

    /// Asks the service once more to confirm the session that it could not.
    pub fn retry_saved_session(&mut self, configured: Option<&str>) -> (r: GateEffect)
        ensures
            step(*final(self), r) == old(self)@.retrying(access::optional_chars(configured)),
    {
        match self.take_state() {
            GateState::RetryValidation(session, _) => self.start_validation(session, configured),
            other => {
                self.state = other;
                GateEffect::Nothing
            },
        }
    }

    /// Asks the service to revoke the session that is held; the vault keeps its
    /// record until the service has confirmed. Without a session, only the
    /// vault's record is deleted.
    pub fn sign_out(&mut self, configured: Option<&str>) -> (r: GateEffect)
        ensures
            step(*final(self), r) == old(self)@.signing_out(access::optional_chars(configured)),
    {
        let session = match self.take_state() {
            GateState::Granted(session) => session,
            GateState::Restoring(session) => session,
            GateState::Validating(session) => session,
            GateState::RetryValidation(session, _) => session,
            GateState::SigningOut(session) => session,
            GateState::RetrySignOut(session, _) => session,
            _ => return GateEffect::Delete,
        };
        self.start_logout(session, configured)
    }

    /// Asks the service once more to revoke the session that it could not.
    pub fn retry_sign_out(&mut self, configured: Option<&str>) -> (r: GateEffect)
        ensures
            step(*final(self), r) == old(self)@.retrying_sign_out(
                access::optional_chars(configured),
            ),
    {
        match self.take_state() {
            GateState::RetrySignOut(session, _) => self.start_logout(session, configured),
            other => {
                self.state = other;
                GateEffect::Nothing
            },
        }
    }

    /// What the window shows.
    pub fn screen(&self) -> (r: Screen)
        ensures
            r == self@.shown(),
    {
        match &self.state {
            GateState::Restoring(_) => Screen::Validating,
            GateState::Validating(_) => Screen::Validating,
            GateState::SigningOut(_) => Screen::Revoking,
            GateState::RetrySignOut(_, failure) => Screen::RetrySignOut(*failure),
            GateState::RetryValidation(_, failure) => Screen::RetryValidation(*failure),
            GateState::Failed(failure) => Screen::Login {
                failure: Some(*failure),
                checking: false,
                can_submit: self.form_is_complete(),
            },
            GateState::CheckingCredentials => Screen::Login {
                failure: None,
                checking: true,
                can_submit: false,
            },
            _ => Screen::Login {
                failure: None,
                checking: false,
                can_submit: self.form_is_complete(),
            },
        }
    }
}

} // verus!
