use reyn_studio::access::{
    studio_lifecycle_action, LoginFailure, StudioLifecycleAction, MAX_SESSION_LIFETIME_SECONDS,
    PRIVACY_VERSION, SESSION_REVALIDATION_SECONDS, TERMS_VERSION,
};
use reyn_studio::credential_store::{SessionCredentialStore, StoreError};
use reyn_studio::gate::{
    AccessGate, GateEffect, GateState, PendingAccessResult, SaveOutcome, Screen,
};
use reyn_studio::secret::{wipe_text, SecretText};
use reyn_studio::session::{
    authenticate, fail_closed, load_stored_session, logout_call, logout_session,
    session_from_response, token_is_well_formed, unix_now, unix_seconds, user_agent, validate_session,
    validation_call, ClientInfo, LoadedRecord, LoginResponse, Reply, Session,
    SessionValidationResponse, StoredSession, ValidatedSession,
};
use serde_json::Value;
use std::cell::RefCell;
use std::time::{Duration, UNIX_EPOCH};

const ENDPOINT: &str = "https://reynflow.com/api/yc-access/v1/session";

#[derive(Default)]
struct MemorySessionStore {
    secret: RefCell<Option<Vec<u8>>>,
    deletes: RefCell<usize>,
}

impl SessionCredentialStore for MemorySessionStore {
    fn load(&self) -> Result<Option<Vec<u8>>, StoreError> {
        Ok(self.secret.borrow().clone())
    }

    fn save(&self, secret: &[u8]) -> Result<(), StoreError> {
        *self.secret.borrow_mut() = Some(secret.to_vec());
        Ok(())
    }

    fn delete(&self) -> Result<(), StoreError> {
        *self.secret.borrow_mut() = None;
        *self.deletes.borrow_mut() += 1;
        Ok(())
    }
}

fn encode(record: &StoredSession) -> Vec<u8> {
    let mut object = serde_json::Map::new();
    object.insert("token".into(), Value::from(record.token.clone()));
    object.insert("expires_at_utc_unix".into(), Value::from(record.expires_at_utc_unix));
    object.insert("terms_version".into(), Value::from(record.terms_version.clone()));
    object.insert("privacy_version".into(), Value::from(record.privacy_version.clone()));
    serde_json::to_vec(&Value::Object(object)).unwrap()
}

fn decode(bytes: &[u8]) -> LoadedRecord {
    let Ok(value) = serde_json::from_slice::<Value>(bytes) else {
        return LoadedRecord::Unreadable;
    };
    match (
        value["token"].as_str(),
        value["expires_at_utc_unix"].as_u64(),
        value["terms_version"].as_str(),
        value["privacy_version"].as_str(),
    ) {
        (Some(token), Some(expires), Some(terms), Some(privacy)) => {
            LoadedRecord::Record(StoredSession {
                token: token.into(),
                expires_at_utc_unix: expires,
                terms_version: terms.into(),
                privacy_version: privacy.into(),
            })
        }
        _ => LoadedRecord::Unreadable,
    }
}

fn restore(store: &MemorySessionStore, now: u64) -> Result<Option<Session>, StoreError> {
    let answer = store.load().map(|secret| match secret {
        Some(bytes) => decode(&bytes),
        None => LoadedRecord::Absent,
    });
    let restored = load_stored_session(answer, now);
    if restored.delete_record {
        let _ = store.delete();
    }
    restored.outcome
}

fn carry_out(effect: GateEffect, gate: &mut AccessGate, store: &MemorySessionStore) {
    match effect {
        GateEffect::Save(record) => {
            let outcome = match store.save(&encode(&record)) {
                Ok(()) => SaveOutcome::Saved,
                Err(error) => SaveOutcome::Failed(error),
            };
            gate.record_save(outcome);
        }
        GateEffect::Delete => store.delete().unwrap(),
        _ => {}
    }
}

fn test_session(expires_at_utc_unix: u64, next_validation_utc_unix: u64) -> Session {
    Session {
        token: SecretText::new("s".repeat(43)),
        expires_at_utc_unix,
        next_validation_utc_unix,
    }
}

fn gate_with_state(state: GateState, pending: bool) -> AccessGate {
    AccessGate {
        username: "invitee".to_owned(),
        password: "not-retained".to_owned(),
        terms_accepted: true,
        state,
        pending,
        requested_initial_focus: true,
        store_notice: None,
    }
}

fn client() -> ClientInfo {
    ClientInfo { app_version: "0.4.0", platform: "linux", architecture: "x86_64" }
}

fn record(token: &str, expires: u64, terms: &str) -> StoredSession {
    StoredSession {
        token: token.into(),
        expires_at_utc_unix: expires,
        terms_version: terms.into(),
        privacy_version: PRIVACY_VERSION.into(),
    }
}

#[test]
fn secure_store_restores_only_current_valid_sessions() {
    let store = MemorySessionStore::default();
    let now = unix_now().unwrap();
    let record = StoredSession {
        token: "s".repeat(43),
        expires_at_utc_unix: now + 3600,
        terms_version: TERMS_VERSION.into(),
        privacy_version: PRIVACY_VERSION.into(),
    };
    store.save(&encode(&record)).expect("store fixture");
    let restored = restore(&store, now).unwrap().expect("valid session");
    assert_eq!(restored.expires_at_utc_unix, now + 3600);
    assert_eq!(restored.next_validation_utc_unix, now);

    store.save(b"not-json").unwrap();
    assert!(restore(&store, now).unwrap().is_none());
    assert_eq!(*store.deletes.borrow(), 1);
    assert!(store.secret.borrow().is_none());
}

#[test]
fn secure_store_deletes_expired_malformed_and_legal_version_mismatches() {
    let store = MemorySessionStore::default();
    let now = unix_now().unwrap();
    for record in [
        StoredSession {
            token: "short".into(),
            expires_at_utc_unix: now + 60,
            terms_version: TERMS_VERSION.into(),
            privacy_version: PRIVACY_VERSION.into(),
        },
        StoredSession {
            token: "s".repeat(43),
            expires_at_utc_unix: now,
            terms_version: TERMS_VERSION.into(),
            privacy_version: PRIVACY_VERSION.into(),
        },
        StoredSession {
            token: "s".repeat(43),
            expires_at_utc_unix: now + 60,
            terms_version: "obsolete".into(),
            privacy_version: PRIVACY_VERSION.into(),
        },
    ] {
        store.save(&encode(&record)).expect("store invalid fixture");
        assert!(restore(&store, now).unwrap().is_none());
        assert!(store.secret.borrow().is_none());
    }
    assert_eq!(*store.deletes.borrow(), 3);
}

#[test]
fn first_login_persists_a_session_that_restart_can_restore() {
    let now = unix_now().unwrap();
    let store = MemorySessionStore::default();
    let mut gate = gate_with_state(GateState::CheckingCredentials, true);

    let effect = gate.poll_at(
        Some(PendingAccessResult::Login(Ok(test_session(
            now + 3_600,
            now + SESSION_REVALIDATION_SECONDS,
        )))),
        now,
    );
    carry_out(effect, &mut gate, &store);

    assert!(gate.is_granted());
    assert!(gate.username.is_empty());
    assert!(gate.password.is_empty());
    assert!(store.secret.borrow().is_some());
    let restored = restore(&store, now)
        .expect("read saved session")
        .expect("restore saved session");
    assert_eq!(restored.expires_at_utc_unix, now + 3_600);
    assert_eq!(restored.token.expose().len(), 43);
}

#[test]
fn validation_failure_retries_without_credentials_but_revocation_deletes_session() {
    let now = 1_000;
    let store = MemorySessionStore::default();
    store.save(b"vault-entry").expect("store fixture");
    let mut gate = gate_with_state(GateState::Validating(test_session(now + 3_600, now)), true);

    let effect = gate.poll_at(
        Some(PendingAccessResult::Validate(Err(LoginFailure::Network))),
        now,
    );
    carry_out(effect, &mut gate, &store);

    assert!(matches!(
        gate.state,
        GateState::RetryValidation(_, LoginFailure::Network)
    ));
    assert!(store.secret.borrow().is_some());
    assert_eq!(*store.deletes.borrow(), 0);

    let session = match std::mem::replace(&mut gate.state, GateState::Ready) {
        GateState::RetryValidation(session, _) => session,
        _ => unreachable!("retry state"),
    };
    gate.state = GateState::Validating(session);
    gate.pending = true;
    let effect = gate.poll_at(
        Some(PendingAccessResult::Validate(Err(LoginFailure::InvalidSession))),
        now,
    );
    carry_out(effect, &mut gate, &store);

    assert!(matches!(
        gate.state,
        GateState::Failed(LoginFailure::InvalidSession)
    ));
    assert!(store.secret.borrow().is_none());
    assert_eq!(*store.deletes.borrow(), 1);
}

#[test]
fn logout_keeps_the_vault_entry_until_server_revocation_succeeds() {
    let now = 1_000;
    let store = MemorySessionStore::default();
    store.save(b"vault-entry").expect("store fixture");
    let mut gate =
        gate_with_state(GateState::SigningOut(test_session(now + 3_600, now + 60)), true);

    let effect = gate.poll_at(
        Some(PendingAccessResult::Logout(Err(LoginFailure::Service))),
        now,
    );
    carry_out(effect, &mut gate, &store);

    assert!(matches!(
        gate.state,
        GateState::RetrySignOut(_, LoginFailure::Service)
    ));
    assert!(store.secret.borrow().is_some());
    assert_eq!(*store.deletes.borrow(), 0);

    let session = match std::mem::replace(&mut gate.state, GateState::Ready) {
        GateState::RetrySignOut(session, _) => session,
        _ => unreachable!("retry sign-out state"),
    };
    gate.state = GateState::SigningOut(session);
    gate.pending = true;
    let effect = gate.poll_at(Some(PendingAccessResult::Logout(Ok(()))), now);
    carry_out(effect, &mut gate, &store);

    assert!(matches!(gate.state, GateState::Ready));
    assert!(store.secret.borrow().is_none());
    assert_eq!(*store.deletes.borrow(), 1);
}

fn login_response(expires_at_utc_unix: Option<u64>) -> LoginResponse {
    LoginResponse {
        ok: true,
        session_token: Some("a".repeat(32)),
        expires_at_utc_unix,
        terms_version: TERMS_VERSION.to_owned(),
        privacy_version: PRIVACY_VERSION.to_owned(),
    }
}

fn optional<T>(value: &Value, read: impl Fn(&Value) -> Option<T>) -> Option<Option<T>> {
    if value.is_null() {
        Some(None)
    } else {
        read(value).map(Some)
    }
}

fn decode_login_response(text: &str) -> Option<LoginResponse> {
    let value: Value = serde_json::from_str(text).ok()?;
    Some(LoginResponse {
        ok: value["ok"].as_bool()?,
        session_token: optional(&value["session_token"], |token| {
            token.as_str().map(str::to_owned)
        })?,
        expires_at_utc_unix: optional(&value["expires_at_utc_unix"], Value::as_u64)?,
        terms_version: value["terms_version"].as_str()?.to_owned(),
        privacy_version: value["privacy_version"].as_str()?.to_owned(),
    })
}

#[test]
fn session_response_rejects_stale_malformed_and_unbounded_expiry() {
    let now = 1_000_000;
    assert!(matches!(
        session_from_response(login_response(Some(now)), now),
        Err(LoginFailure::SessionExpired)
    ));
    assert!(matches!(
        session_from_response(login_response(None), now),
        Err(LoginFailure::Service)
    ));
    assert!(matches!(
        session_from_response(
            login_response(Some(now + MAX_SESSION_LIFETIME_SECONDS + 1)),
            now,
        ),
        Err(LoginFailure::Service)
    ));
    let mut wrong_policy = login_response(Some(now + 60));
    wrong_policy.terms_version = "obsolete".to_owned();
    assert!(matches!(
        session_from_response(wrong_policy, now),
        Err(LoginFailure::PolicyOutdated)
    ));
    let malformed = decode_login_response(
        r#"{"ok":true,"expires_at_utc_unix":1000010,"terms_version":"1.0","privacy_version":"1.0"}"#,
    )
    .expect("optional token field deserializes");
    assert!(matches!(
        session_from_response(malformed, now),
        Err(LoginFailure::Service)
    ));
    assert!(decode_login_response(
        r#"{"ok":true,"session_token":7,"expires_at_utc_unix":"later"}"#
    )
    .is_none());
}

#[test]
fn expired_session_zeroizes_inputs_and_returns_to_login() {
    let mut gate = gate_with_state(GateState::Granted(test_session(100, 200)), false);

    let (first, second) = gate.tick(None, Some(ENDPOINT), 100);

    assert!(matches!(first, GateEffect::Nothing));
    assert!(matches!(second, GateEffect::Delete));
    assert!(matches!(
        gate.state,
        GateState::Failed(LoginFailure::SessionExpired)
    ));
    assert!(gate.username.is_empty());
    assert!(gate.password.is_empty());
    assert!(!gate.terms_accepted);
    assert!(!gate.requested_initial_focus);
    assert!(!gate.is_granted());
}

#[test]
fn granted_session_schedules_an_expiry_repaint() {
    let gate = gate_with_state(GateState::Granted(test_session(150, 200)), false);
    assert_eq!(gate.time_until_expiry(100), Some(50));
    assert_eq!(gate.time_until_expiry(150), None);
}

#[test]
fn queued_response_is_rechecked_before_unlocking() {
    let mut gate = gate_with_state(GateState::CheckingCredentials, true);

    let effect = gate.poll_at(
        Some(PendingAccessResult::Login(Ok(Session {
            token: SecretText::new("s".repeat(32)),
            expires_at_utc_unix: 100,
            next_validation_utc_unix: 200,
        }))),
        100,
    );

    assert!(matches!(effect, GateEffect::Nothing));
    assert!(matches!(
        gate.state,
        GateState::Failed(LoginFailure::SessionExpired)
    ));
    assert!(!gate.is_granted());
}

#[test]
fn validation_time_comes_first_where_it_is_earlier() {
    let gate = gate_with_state(GateState::Granted(test_session(500, 200)), false);
    assert_eq!(gate.time_until_expiry(100), Some(100));
    assert_eq!(gate.time_until_expiry(300), Some(0));
    let idle = gate_with_state(GateState::Ready, false);
    assert_eq!(idle.time_until_expiry(100), None);
}

#[test]
fn complete_login_answers_become_sessions() {
    let now = 1_000_000;
    let session = session_from_response(login_response(Some(now + 60)), now).ok().unwrap();
    assert_eq!(session.token.expose(), "a".repeat(32));
    assert_eq!(session.expires_at_utc_unix, now + 60);
    assert_eq!(session.next_validation_utc_unix, now + 900);
    let last = session_from_response(
        login_response(Some(now + MAX_SESSION_LIFETIME_SECONDS)),
        now,
    );
    assert!(last.is_ok());
    let mut refused = login_response(Some(now + 60));
    refused.ok = false;
    assert!(matches!(
        session_from_response(refused, now),
        Err(LoginFailure::Service)
    ));
    let end = session_from_response(login_response(Some(u64::MAX)), u64::MAX - 1).ok().unwrap();
    assert_eq!(end.next_validation_utc_unix, u64::MAX);
}

#[test]
fn tokens_are_bounded_ascii() {
    assert!(token_is_well_formed(&"aZ0-_".repeat(8)));
    assert!(token_is_well_formed(&"s".repeat(32)));
    assert!(token_is_well_formed(&"s".repeat(256)));
    assert!(!token_is_well_formed(&"s".repeat(31)));
    assert!(!token_is_well_formed(&"s".repeat(257)));
    assert!(!token_is_well_formed(&format!("{}.", "s".repeat(40))));
    assert!(!token_is_well_formed(&"é".repeat(40)));
    assert!(!token_is_well_formed(&"é".repeat(20)));
}

#[test]
fn unreadable_stores_and_far_expiries_are_told_apart() {
    let now = 10;
    let failed = load_stored_session(Err(StoreError::Unavailable("locked".into())), now);
    assert!(!failed.delete_record);
    assert!(matches!(failed.outcome, Err(StoreError::Unavailable(text)) if text == "locked"));
    let absent = load_stored_session(Ok(LoadedRecord::Absent), now);
    assert!(!absent.delete_record && matches!(absent.outcome, Ok(None)));
    let far = load_stored_session(
        Ok(LoadedRecord::Record(record(
            &"s".repeat(43),
            now + MAX_SESSION_LIFETIME_SECONDS + 1,
            TERMS_VERSION,
        ))),
        now,
    );
    assert!(far.delete_record && matches!(far.outcome, Ok(None)));
}

#[test]
fn login_statuses_name_their_failures() {
    let status = |status: u16| {
        authenticate(ENDPOINT, Reply::Answered { status, body: None }, Ok(10)).err()
    };
    assert_eq!(status(401), Some(LoginFailure::InvalidCredentials));
    assert_eq!(status(409), Some(LoginFailure::PolicyOutdated));
    assert_eq!(status(426), Some(LoginFailure::PolicyOutdated));
    assert_eq!(status(429), Some(LoginFailure::RateLimited));
    assert_eq!(status(500), Some(LoginFailure::Service));
    assert_eq!(status(302), Some(LoginFailure::Service));
    assert_eq!(status(200), Some(LoginFailure::Service));
    assert_eq!(
        authenticate(ENDPOINT, Reply::Unreachable, Ok(10)).err(),
        Some(LoginFailure::Network)
    );
    assert_eq!(
        authenticate("http://plain", Reply::Unreachable, Ok(10)).err(),
        Some(LoginFailure::Configuration("The preview access endpoint must use HTTPS."))
    );
}

#[test]
fn granted_logins_need_a_clock() {
    let answered = |clock| {
        authenticate(
            ENDPOINT,
            Reply::Answered { status: 200, body: Some(login_response(Some(1_060))) },
            clock,
        )
    };
    assert_eq!(answered(Ok(1_000)).ok().unwrap().expires_at_utc_unix, 1_060);
    assert_eq!(answered(Err(LoginFailure::Service)).err(), Some(LoginFailure::Service));
}

fn validation(expires: Option<u64>, ok: bool, terms: &str) -> SessionValidationResponse {
    SessionValidationResponse {
        ok,
        expires_at_utc_unix: expires,
        terms_version: terms.into(),
        privacy_version: PRIVACY_VERSION.into(),
    }
}

#[test]
fn validations_confirm_or_name_their_failures() {
    let now = 1_000;
    let ask = |body| {
        validate_session(ENDPOINT, Reply::Answered { status: 200, body }, Ok(now))
            .map(|validated| validated.expires_at_utc_unix)
    };
    assert_eq!(ask(Some(validation(Some(now + 5), true, TERMS_VERSION))), Ok(now + 5));
    assert_eq!(
        ask(Some(validation(Some(now), true, TERMS_VERSION))),
        Err(LoginFailure::SessionExpired)
    );
    assert_eq!(
        ask(Some(validation(
            Some(now + MAX_SESSION_LIFETIME_SECONDS + 1),
            true,
            TERMS_VERSION
        ))),
        Err(LoginFailure::Service)
    );
    assert_eq!(
        ask(Some(validation(Some(now + 5), false, TERMS_VERSION))),
        Err(LoginFailure::PolicyOutdated)
    );
    assert_eq!(
        ask(Some(validation(Some(now + 5), true, "0.9"))),
        Err(LoginFailure::PolicyOutdated)
    );
    assert_eq!(ask(Some(validation(None, true, TERMS_VERSION))), Err(LoginFailure::Service));
    assert_eq!(ask(None), Err(LoginFailure::Service));
    let status = |status| {
        validate_session(ENDPOINT, Reply::Answered { status, body: None }, Ok(now)).err()
    };
    assert_eq!(status(401), Some(LoginFailure::InvalidSession));
    assert_eq!(status(426), Some(LoginFailure::PolicyOutdated));
    assert_eq!(status(429), Some(LoginFailure::Service));
    assert_eq!(
        validate_session(ENDPOINT, Reply::Unreachable, Ok(now)).err(),
        Some(LoginFailure::Network)
    );
}

#[test]
fn logouts_succeed_for_unknown_sessions_too() {
    assert_eq!(logout_session(ENDPOINT, Some(200)), Ok(()));
    assert_eq!(logout_session(ENDPOINT, Some(401)), Ok(()));
    assert_eq!(logout_session(ENDPOINT, Some(503)), Err(LoginFailure::Service));
    assert_eq!(logout_session(ENDPOINT, Some(404)), Err(LoginFailure::Service));
    assert_eq!(logout_session(ENDPOINT, None), Err(LoginFailure::Network));
    assert_eq!(
        logout_session("https://a b", Some(200)),
        Err(LoginFailure::Configuration("The preview access endpoint is malformed."))
    );
}

#[test]
fn calls_bear_the_token_to_their_address() {
    let call = validation_call("https://a/v1", "tok").ok().unwrap();
    assert_eq!(call.url, "https://a/v1/validate");
    assert_eq!(call.authorization, "Bearer tok");
    assert_eq!(logout_call("https://a/v1", "tok").ok().unwrap().url, "https://a/v1/logout");
    assert!(logout_call("http://a/v1", "tok").is_err());
    assert_eq!(user_agent(&client()), "ReynStudio/0.4.0 (linux; x86_64)");
}

#[test]
fn broken_clocks_end_every_session() {
    assert_eq!(fail_closed(Ok(7)), 7);
    assert_eq!(fail_closed(Err(LoginFailure::Service)), u64::MAX);
    assert!(!test_session(u64::MAX, 0).is_valid_at(fail_closed(Err(LoginFailure::Service))));
    assert!(unix_now().unwrap() > 1_600_000_000);
}

#[test]
fn times_are_whole_seconds_since_the_epoch() {
    let after = |seconds, nanos| UNIX_EPOCH + Duration::new(seconds, nanos);
    assert_eq!(unix_seconds(UNIX_EPOCH), Ok(0));
    assert_eq!(unix_seconds(after(0, 999_999_900)), Ok(0));
    assert_eq!(unix_seconds(after(1_700_000_000, 0)), Ok(1_700_000_000));
    assert_eq!(unix_seconds(after(1_700_000_000, 999_999_900)), Ok(1_700_000_000));
    assert_eq!(
        unix_seconds(UNIX_EPOCH - Duration::from_micros(1)),
        Err(LoginFailure::Service)
    );
}

#[test]
fn secrets_are_kept_and_wiped() {
    let mut secret = SecretText::new("hush".into());
    assert_eq!(secret.expose(), "hush");
    assert_eq!(secret.duplicate().expose(), "hush");
    assert!(!secret.is_empty());
    secret.wipe();
    assert!(secret.is_empty());
    let mut text = String::from("hush");
    wipe_text(&mut text);
    assert_eq!(text, "");
    let mut session = test_session(5, 5);
    assert!(session.is_valid_at(4));
    session.zeroize();
    assert!(!session.is_valid_at(4));
    assert_eq!(session.expires_at_utc_unix, 5);
}

#[test]
fn startup_validates_before_it_unlocks() {
    let answer = Ok(LoadedRecord::Record(record(&"s".repeat(43), 2_000, TERMS_VERSION)));
    let (mut gate, delete) = AccessGate::new_with_store(Some(ENDPOINT), answer, 1_000);
    assert!(!delete);
    assert!(!gate.is_granted());
    assert!(matches!(gate.screen(), Screen::Validating));
    let (first, second) = gate.tick(None, Some(ENDPOINT), 1_000);
    assert!(matches!(first, GateEffect::Nothing));
    assert!(matches!(
        second,
        GateEffect::Validate { endpoint, token }
            if endpoint == ENDPOINT && token.expose() == "s".repeat(43)
    ));
    assert!(gate.pending && !gate.is_granted());
    let effect = gate.poll_at(
        Some(PendingAccessResult::Validate(Ok(ValidatedSession {
            expires_at_utc_unix: 3_000,
        }))),
        1_001,
    );
    assert!(matches!(
        effect,
        GateEffect::Save(record) if record.expires_at_utc_unix == 3_000
    ));
    assert!(gate.is_granted());
    assert_eq!(gate.time_until_expiry(1_001), Some(900));
}

#[test]
fn startup_reports_what_it_could_not_read() {
    let error = || StoreError::Unavailable("bad \"vault\"".into());
    let (gate, delete) = AccessGate::new_with_store(Some(ENDPOINT), Err(error()), 1_000);
    assert!(delete);
    assert_eq!(
        gate.store_notice.as_deref(),
        Some("Saved access could not be read securely: Unavailable(\"bad \\\"vault\\\"\")")
    );
    assert_eq!(
        gate.store_notice.unwrap(),
        format!("Saved access could not be read securely: {:?}", error())
    );
    let (gate, _) = AccessGate::new_with_store(Some(ENDPOINT), Err(StoreError::Malformed), 1_000);
    assert_eq!(
        gate.store_notice.as_deref(),
        Some("Saved access could not be read securely: Malformed")
    );
    let (gate, delete) = AccessGate::new_with_store(None, Err(error()), 1_000);
    assert!(!delete && gate.store_notice.is_none());
    assert!(matches!(gate.state, GateState::Failed(LoginFailure::Configuration(_))));
}

#[test]
fn saves_leave_a_notice_only_when_they_fail() {
    let mut gate = gate_with_state(GateState::Ready, false);
    gate.record_save(SaveOutcome::NotEncoded);
    assert_eq!(gate.store_notice.as_deref(), Some("Saved access could not be encoded."));
    gate.record_save(SaveOutcome::Failed(StoreError::Unavailable("full".into())));
    assert_eq!(
        gate.store_notice.as_deref(),
        Some(
            "Access is active for this run, but the native credential store failed: \
             Unavailable(\"full\")"
        )
    );
    gate.record_save(SaveOutcome::Saved);
    assert!(gate.store_notice.is_none());
}

#[test]
fn submitting_sends_the_password_once() {
    let mut gate = gate_with_state(GateState::Ready, false);
    gate.username = " invitee\u{a0}".into();
    assert!(matches!(gate.screen(), Screen::Login { failure: None, checking: false, can_submit: true }));
    match gate.submit(Some(ENDPOINT), client()) {
        GateEffect::Login { endpoint, request } => {
            assert_eq!(endpoint, ENDPOINT);
            assert_eq!(request.username, "invitee");
            assert_eq!(request.password, "not-retained");
            assert_eq!(request.terms_version, TERMS_VERSION);
            assert_eq!(request.privacy_version, PRIVACY_VERSION);
            assert_eq!(request.client.app_version, "0.4.0");
        }
        _ => panic!("a login was expected"),
    }
    assert!(gate.password.is_empty());
    assert!(gate.pending);
    assert!(matches!(gate.state, GateState::CheckingCredentials));
    assert!(matches!(
        gate.screen(),
        Screen::Login { failure: None, checking: true, can_submit: false }
    ));
    gate.password = "again".into();
    assert!(matches!(gate.submit(Some(ENDPOINT), client()), GateEffect::Nothing));
    assert_eq!(gate.password, "again");
}

#[test]
fn incomplete_forms_are_not_submitted() {
    let mut blank = gate_with_state(GateState::Ready, false);
    blank.username = " \t ".into();
    let mut silent = gate_with_state(GateState::Ready, false);
    silent.password = String::new();
    let mut unaccepted = gate_with_state(GateState::Ready, false);
    unaccepted.terms_accepted = false;
    for mut gate in [blank, silent, unaccepted] {
        assert!(!gate.form_is_complete());
        assert!(matches!(gate.submit(Some(ENDPOINT), client()), GateEffect::Nothing));
        assert!(matches!(gate.state, GateState::Ready));
    }
    let mut unconfigured = gate_with_state(GateState::Ready, false);
    assert!(matches!(unconfigured.submit(None, client()), GateEffect::Nothing));
    assert!(matches!(
        unconfigured.screen(),
        Screen::Login { failure: Some(LoginFailure::Configuration(_)), checking: false, can_submit: true }
    ));
    assert_eq!(unconfigured.password, "not-retained");
}

#[test]
fn retries_ask_again_with_the_same_session() {
    let mut gate = gate_with_state(
        GateState::RetryValidation(test_session(2_000, 0), LoginFailure::Network),
        false,
    );
    assert!(matches!(gate.screen(), Screen::RetryValidation(LoginFailure::Network)));
    assert!(matches!(
        gate.retry_saved_session(Some(ENDPOINT)),
        GateEffect::Validate { token, .. } if token.expose() == "s".repeat(43)
    ));
    assert!(matches!(gate.state, GateState::Validating(_)));
    let mut gate = gate_with_state(
        GateState::RetrySignOut(test_session(2_000, 0), LoginFailure::Service),
        false,
    );
    assert!(matches!(gate.screen(), Screen::RetrySignOut(LoginFailure::Service)));
    assert!(matches!(
        gate.retry_sign_out(Some(ENDPOINT)),
        GateEffect::Logout { endpoint: Some(endpoint), .. } if endpoint == ENDPOINT
    ));
    assert!(matches!(gate.screen(), Screen::Revoking));
    let mut idle = gate_with_state(GateState::Ready, false);
    assert!(matches!(idle.retry_saved_session(Some(ENDPOINT)), GateEffect::Nothing));
    assert!(matches!(idle.retry_sign_out(Some(ENDPOINT)), GateEffect::Nothing));
}

#[test]
fn signing_out_revokes_or_only_deletes() {
    let mut gate = gate_with_state(GateState::Granted(test_session(2_000, 1_500)), false);
    assert!(matches!(
        gate.sign_out(None),
        GateEffect::Logout { endpoint: None, token } if token.expose() == "s".repeat(43)
    ));
    assert!(gate.pending && !gate.is_granted());
    let mut leaving = gate_with_state(GateState::SigningOut(test_session(2_000, 1_500)), true);
    assert!(matches!(
        leaving.sign_out(Some(ENDPOINT)),
        GateEffect::Logout { endpoint: Some(_), token } if token.expose() == "s".repeat(43)
    ));
    assert!(leaving.pending && matches!(leaving.state, GateState::SigningOut(_)));
    let mut waiting = gate_with_state(GateState::CheckingCredentials, true);
    assert!(matches!(waiting.sign_out(Some(ENDPOINT)), GateEffect::Delete));
    assert!(matches!(waiting.state, GateState::Ready));
    assert!(waiting.pending);
}

#[test]
fn answers_out_of_turn_change_nothing() {
    let mut gate = gate_with_state(GateState::Ready, true);
    let effect = gate.poll_at(
        Some(PendingAccessResult::Validate(Ok(ValidatedSession {
            expires_at_utc_unix: 9_000,
        }))),
        1_000,
    );
    assert!(matches!(effect, GateEffect::Nothing));
    assert!(matches!(gate.state, GateState::Ready));
    assert!(!gate.pending);
    let mut idle = gate_with_state(GateState::Ready, false);
    let effect = idle.poll_at(
        Some(PendingAccessResult::Login(Ok(test_session(9_000, 9_000)))),
        1_000,
    );
    assert!(matches!(effect, GateEffect::Nothing));
    assert!(!idle.is_granted());
}

#[test]
fn due_sessions_are_validated_and_late_answers_are_refused() {
    let mut gate = gate_with_state(GateState::Granted(test_session(5_000, 1_000)), false);
    let (_, effect) = gate.tick(None, Some(ENDPOINT), 1_000);
    assert!(matches!(effect, GateEffect::Validate { .. }));
    let (effect, _) = gate.tick(
        Some(PendingAccessResult::Validate(Ok(ValidatedSession {
            expires_at_utc_unix: 1_100,
        }))),
        Some(ENDPOINT),
        1_100,
    );
    assert!(matches!(effect, GateEffect::Delete));
    assert!(matches!(gate.state, GateState::Failed(LoginFailure::InvalidSession)));
    let mut unconfigured = gate_with_state(GateState::Granted(test_session(5_000, 1_000)), false);
    let (_, effect) = unconfigured.tick(None, None, 1_000);
    assert!(matches!(effect, GateEffect::Nothing));
    assert!(matches!(
        unconfigured.state,
        GateState::RetryValidation(_, LoginFailure::Configuration(_))
    ));
}

#[test]
fn renewed_sessions_are_kept_under_their_new_expiry() {
    let store = MemorySessionStore::default();
    let mut gate = gate_with_state(GateState::Validating(test_session(1_500, 1_000)), true);
    let effect = gate.poll_at(
        Some(PendingAccessResult::Validate(Ok(ValidatedSession {
            expires_at_utc_unix: 4_000,
        }))),
        1_000,
    );
    carry_out(effect, &mut gate, &store);
    let restored = restore(&store, 3_999).unwrap().expect("renewed session");
    assert_eq!(restored.expires_at_utc_unix, 4_000);
    assert_eq!(restored.next_validation_utc_unix, 3_999);
    assert_eq!(restored.token.expose(), "s".repeat(43));
    assert!(restore(&store, 4_000).unwrap().is_none());
    assert!(store.secret.borrow().is_none());
}

#[test]
fn a_gated_studio_ends_with_its_session() {
    let mut gate = gate_with_state(GateState::Granted(test_session(2_000, 5_000)), false);
    gate.tick(None, Some(ENDPOINT), 1_999);
    assert_eq!(
        studio_lifecycle_action(true, gate.is_granted(), true),
        StudioLifecycleAction::Keep
    );
    gate.tick(None, Some(ENDPOINT), 2_000);
    assert_eq!(
        studio_lifecycle_action(true, gate.is_granted(), true),
        StudioLifecycleAction::Drop
    );
}

#[test]
fn unconfigured_builds_never_ask_for_access() {
    let answer = || Ok(LoadedRecord::Record(record(&"s".repeat(43), 2_000, TERMS_VERSION)));
    let (mut gate, delete) = AccessGate::new_with_store(Some("http://a"), answer(), 1_000);
    assert!(!delete);
    assert!(matches!(
        gate.state,
        GateState::Failed(LoginFailure::Configuration(
            "The preview access endpoint must use HTTPS."
        ))
    ));
    let (first, second) = gate.tick(None, Some("http://a"), 1_000);
    assert!(matches!(first, GateEffect::Nothing) && matches!(second, GateEffect::Nothing));
    gate.username = "invitee".into();
    gate.password = "word".into();
    gate.terms_accepted = true;
    assert!(matches!(gate.submit(Some("http://a"), client()), GateEffect::Nothing));
    assert!(!gate.pending && !gate.is_granted());
}
