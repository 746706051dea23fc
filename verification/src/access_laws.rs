//! What holds of preview access as a whole.

use crate::access;
use crate::access::{LoginFailure, StudioLifecycleAction};
use crate::credential_store::StoreError;
use crate::gate;
use crate::gate::{GateEffectView, GateStateView, GateView, PendingAccessResultView};
use crate::session;
use crate::session::{ClientInfo, LoadedRecord, LoginResponseView, SessionValidationResponseView, SessionView, StoredSession};
use crate::text;
use vstd::prelude::*;
use vstd::string::*;

verus! {

/// Whether the studio runs once `action` was carried out.
pub open spec fn running_after(action: StudioLifecycleAction, running: bool) -> bool {
    match action {
        StudioLifecycleAction::Start => true,
        StudioLifecycleAction::Drop => false,
        StudioLifecycleAction::Keep => running,
    }
}

/// The lifecycle never leaves a gated studio running without access, always
/// leaves one running that may, and asks for nothing that is already so.
pub proof fn studio_runs_only_with_access(required: bool, granted: bool, running: bool)
    ensures
        running_after(access::lifecycle(required, granted, running), running)
            == access::studio_may_run(required, granted),
        access::lifecycle(required, granted, running) is Start ==> !running,
        access::lifecycle(required, granted, running) is Drop ==> running,
{
}

/// A gate starts locked, whatever the vault holds, and waits for no answer. A
/// session out of the vault is not used before the service was asked: the first
/// tick leads to a validation, or to an offer to retry it.
pub proof fn gates_start_locked(
    configured: Option<Seq<char>>,
    answer: Result<LoadedRecord, StoreError>,
    start: u64,
    received: Option<PendingAccessResultView>,
    now: u64,
)
    ensures
        ({
            let gate = gate::initial(configured, answer, start);
            let (next, first, second) = gate.ticked(received, configured, now);
            &&& !gate.granted() && !gate.pending
            &&& !next.granted()
            &&& gate.state matches GateStateView::Restoring(session) ==> next.state
                == GateStateView::Validating(session) && second == GateEffectView::Validate {
                endpoint: configured->Some_0,
                token: session.token,
            }
        }),
{
}

/// Without a usable endpoint a gate starts with that failure, and nothing that
/// it does or is asked to do sends a login or a validation, or unlocks it.
pub proof fn unconfigured_builds_stay_locked(
    gate: GateView,
    configured: Option<Seq<char>>,
    client: ClientInfo,
    answer: Result<LoadedRecord, StoreError>,
    now: u64,
)
    requires
        access::configured_fault(configured) is Some,
        !gate.pending,
        !gate.granted(),
    ensures
        gate::initial(configured, answer, now).state == GateStateView::Failed(
            access::configured_fault(configured)->Some_0,
        ),
        ({
            let (submitted, login) = gate.submitted(configured, client);
            let (ticked, _, validation) = gate.ticked(None, configured, now);
            let (retried, retry) = gate.retrying(configured);
            &&& !submitted.granted() && !submitted.pending && login is Nothing
            &&& !ticked.granted() && !ticked.pending && !(validation is Validate)
            &&& !retried.granted() && !retried.pending && retry is Nothing
        }),
{
}

/// The answer unlocks a gate in this state at `now`.
pub open spec fn unlocks(
    gate: GateView,
    received: Option<PendingAccessResultView>,
    now: u64,
) -> bool {
    gate.pending && match received {
        Some(PendingAccessResultView::Login(Ok(session))) => session.valid_at(now),
        Some(PendingAccessResultView::Validate(Ok(expires))) => expires > now && gate.state
            is Validating,
        _ => false,
    }
}

/// Only an answer of the service that grants or confirms a session unlocks a
/// gate: no other operation does.
pub proof fn only_the_service_unlocks(
    gate: GateView,
    received: Option<PendingAccessResultView>,
    configured: Option<Seq<char>>,
    client: ClientInfo,
    session: SessionView,
    now: u64,
)
    requires
        !gate.granted(),
    ensures
        gate.polled(received, now).0.granted() ==> unlocks(gate, received, now),
        gate.ticked(received, configured, now).0.granted() ==> unlocks(gate, received, now),
        !gate.submitted(configured, client).0.granted(),
        !gate.validating(session, configured).0.granted(),
        !gate.revoking(session, configured).0.granted(),
        !gate.retrying(configured).0.granted(),
        !gate.signing_out(configured).0.granted(),
        !gate.retrying_sign_out(configured).0.granted(),
        !gate.without_credentials().granted(),
{
}

/// A gate with a granted session waits for no answer.
pub open spec fn is_settled(gate: GateView) -> bool {
    gate.state is Granted ==> !gate.pending
}

/// Every gate is settled from the start, and every operation keeps it so.
pub proof fn gates_stay_settled(
    gate: GateView,
    received: Option<PendingAccessResultView>,
    configured: Option<Seq<char>>,
    client: ClientInfo,
    session: SessionView,
    answer: Result<LoadedRecord, StoreError>,
    now: u64,
)
    requires
        is_settled(gate),
    ensures
        is_settled(gate::initial(configured, answer, now)),
        is_settled(gate.polled(received, now).0),
        is_settled(gate.ticked(received, configured, now).0),
        is_settled(gate.submitted(configured, client).0),
        is_settled(gate.validating(session, configured).0),
        is_settled(gate.revoking(session, configured).0),
        is_settled(gate.retrying(configured).0),
        is_settled(gate.signing_out(configured).0),
        is_settled(gate.retrying_sign_out(configured).0),
        is_settled(gate.without_credentials()),
{
}

/// After a tick at `now` a granted session is valid at `now` and does not have
/// to be confirmed yet.
pub proof fn unlocked_sessions_are_current(
    gate: GateView,
    received: Option<PendingAccessResultView>,
    configured: Option<Seq<char>>,
    now: u64,
)
    requires
        is_settled(gate),
    ensures
        gate.ticked(received, configured, now).0.state matches GateStateView::Granted(session)
            ==> session.valid_at(now) && !session.due_at(now),
{
}

/// A gated studio that runs after a frame at `now` does so under a session that
/// is valid at `now`, however it was running before.
pub proof fn gated_studios_run_under_a_current_session(
    gate: GateView,
    received: Option<PendingAccessResultView>,
    configured: Option<Seq<char>>,
    running: bool,
    now: u64,
)
    requires
        is_settled(gate),
    ensures
        ({
            let next = gate.ticked(received, configured, now).0;
            running_after(access::lifecycle(true, next.granted(), running), running) ==> (next.state
                matches GateStateView::Granted(session) && session.valid_at(now)
                && !session.due_at(now))
        }),
{
}

/// A session that has run out locks the access gate: its record is deleted and the
/// form is empty.
pub proof fn expired_sessions_lock(
    gate: GateView,
    session: SessionView,
    configured: Option<Seq<char>>,
    now: u64,
)
    requires
        gate.state == GateStateView::Granted(session),
        is_settled(gate),
        session.expires_at_utc_unix <= now,
    ensures
        gate.ticked(None, configured, now) == (
            GateView {
                state: GateStateView::Failed(LoginFailure::SessionExpired),
                ..gate.without_credentials()
            },
            GateEffectView::Nothing,
            GateEffectView::Delete,
        ),
{
}

/// A failure of the network or of the service costs no session: it is held for
/// another try, and the vault is left alone.
pub proof fn transient_failures_keep_the_session(
    gate: GateView,
    session: SessionView,
    failure: LoginFailure,
    configured: Option<Seq<char>>,
    now: u64,
)
    requires
        gate.pending,
        gate.state == GateStateView::Validating(session),
        failure is Network || failure is Service,
        access::configured_fault(configured) is None,
    ensures
        ({
            let (held, effect) = gate.polled(
                Some(PendingAccessResultView::Validate(Err(failure))),
                now,
            );
            &&& held.state == GateStateView::RetryValidation(session, failure)
            &&& effect is Nothing
            &&& held.username == gate.username && held.password == gate.password
            &&& held.retrying(configured) == (
                gate,
                GateEffectView::Validate { endpoint: configured->Some_0, token: session.token },
            )
        }),
{
}

/// A session that the service does not confirm for any other reason is
/// forgotten: the access gate holds none, and the vault's record is deleted.
pub proof fn revoked_sessions_are_forgotten(
    gate: GateView,
    session: SessionView,
    outcome: Result<u64, LoginFailure>,
    now: u64,
)
    requires
        gate.pending,
        gate.state == GateStateView::Validating(session),
        !gate::is_transient(outcome),
        outcome matches Ok(expires) ==> expires <= now,
    ensures
        ({
            let (locked, effect) = gate.polled(
                Some(PendingAccessResultView::Validate(outcome)),
                now,
            );
            &&& locked.state == GateStateView::Failed(LoginFailure::InvalidSession)
            &&& locked.held_session() is None
            &&& effect is Delete
        }),
{
}

/// Signing out of a session, in whatever state it is held, leaves the vault alone
/// until the service has confirmed it. Whatever fails, the session is held for another try, which
/// asks for the same token; once the service confirms, the record is deleted.
pub proof fn vault_keeps_sessions_until_signed_out(
    gate: GateView,
    session: SessionView,
    failure: LoginFailure,
    configured: Option<Seq<char>>,
    now: u64,
)
    requires
        gate.held_session() == Some(session),
    ensures
        ({
            let (leaving, asked) = gate.signing_out(configured);
            let (held, kept) = leaving.polled(
                Some(PendingAccessResultView::Logout(Err(failure))),
                now,
            );
            let (gone, deleted) = leaving.polled(
                Some(PendingAccessResultView::Logout(Ok(()))),
                now,
            );
            &&& leaving.state == GateStateView::SigningOut(session) && leaving.pending
            &&& !leaving.granted()
            &&& asked matches GateEffectView::Logout { token, .. } && token == session.token
            &&& held.state == GateStateView::RetrySignOut(session, failure)
            &&& kept is Nothing
            &&& held.retrying_sign_out(configured) == (leaving, asked)
            &&& gone.state is Ready
            &&& deleted is Delete
        }),
{
}

/// A session that a login grants has a well-formed token, is valid, lasts no
/// longer than a day and is confirmed again within a quarter of an hour, under
/// legal versions that are those of this build.
pub proof fn granted_sessions_are_bounded(body: LoginResponseView, now: u64)
    requires
        session::session_verdict(body, now) is Ok,
    ensures
        ({
            let session = session::session_verdict(body, now)->Ok_0;
            &&& body.ok && session::is_current_policy(body.terms_version, body.privacy_version)
            &&& session::is_token(session.token)
            &&& session.valid_at(now)
            &&& session.expires_at_utc_unix <= now + 24 * 60 * 60
            &&& now <= session.next_validation_utc_unix <= now + 15 * 60
        }),
{
}

/// A session that a login granted can be restored from the record that is kept
/// of it, at any time until it runs out: with its token and its expiry, and to
/// be confirmed at once.
pub proof fn kept_sessions_can_be_restored(
    gate: GateView,
    body: LoginResponseView,
    granted: u64,
    received: u64,
    stored: StoredSession,
    later: u64,
)
    requires
        gate.pending,
        session::session_verdict(body, granted) is Ok,
        granted <= later,
        ({
            let session = session::session_verdict(body, granted)->Ok_0;
            let login = Some(PendingAccessResultView::Login(Ok(session)));
            &&& session.expires_at_utc_unix > received
            &&& session.expires_at_utc_unix > later
            &&& gate.polled(login, received).1 == GateEffectView::Save(stored@)
        }),
    ensures
        ({
            let session = session::session_verdict(body, granted)->Ok_0;
            let answer = Ok::<LoadedRecord, StoreError>(LoadedRecord::Record(stored));
            &&& session::restored(answer, later) == Ok::<
                Option<SessionView>,
                crate::credential_store::StoreErrorView,
            >(Some(SessionView { next_validation_utc_unix: later, ..session }))
            &&& !session::holds_unusable_record(answer, later)
        }),
{
}

/// The same holds of a session that the service confirmed, under the expiry
/// that it confirmed.
pub proof fn renewed_sessions_can_be_restored(
    gate: GateView,
    session: SessionView,
    body: SessionValidationResponseView,
    confirmed: u64,
    received: u64,
    stored: StoredSession,
    later: u64,
)
    requires
        gate.pending,
        gate.state == GateStateView::Validating(session),
        session::is_token(session.token),
        session::confirmed_expiry(body, Ok(confirmed)) is Ok,
        confirmed <= later,
        ({
            let expires = session::confirmed_expiry(body, Ok(confirmed))->Ok_0;
            let validation = Some(PendingAccessResultView::Validate(Ok(expires)));
            &&& expires > received
            &&& expires > later
            &&& gate.polled(validation, received).1 == GateEffectView::Save(stored@)
        }),
    ensures
        ({
            let expires = session::confirmed_expiry(body, Ok(confirmed))->Ok_0;
            let answer = Ok::<LoadedRecord, StoreError>(LoadedRecord::Record(stored));
            &&& session::restored(answer, later) == Ok::<
                Option<SessionView>,
                crate::credential_store::StoreErrorView,
            >(
                Some(
                    SessionView {
                        token: session.token,
                        expires_at_utc_unix: expires,
                        next_validation_utc_unix: later,
                    },
                ),
            )
            &&& !session::holds_unusable_record(answer, later)
        }),
{
}

/// The password leaves the access gate with the one request that needs it, and what a
/// granted login leaves in the form is nothing. A request names someone.
pub proof fn credentials_are_not_retained(
    gate: GateView,
    configured: Option<Seq<char>>,
    client: ClientInfo,
    session: SessionView,
    now: u64,
)
    requires
        !gate.pending,
        gate.is_complete(),
        access::configured_fault(configured) is None,
        session.valid_at(now),
    ensures
        ({
            let (waiting, asked) = gate.submitted(configured, client);
            let (unlocked, kept) = waiting.polled(
                Some(PendingAccessResultView::Login(Ok(session))),
                now,
            );
            &&& waiting.password.len() == 0
            &&& asked matches GateEffectView::Login { request, .. } && request.password
                == gate.password && request.username.len() > 0
            &&& unlocked.granted()
            &&& unlocked.username.len() == 0 && unlocked.password.len() == 0
            &&& kept == GateEffectView::Save(session::record_of(session))
        }),
{
    text::blank_text_trims_to_nothing(gate.username);
}

/// The build contract has five members and no others, and states no endpoint
/// that could not be used.
pub proof fn contract_is_bounded(required: bool, endpoint: Option<Seq<char>>)
    ensures
        access::contract_members(required, endpoint).dom() =~= set![
            "schema"@,
            "required"@,
            "endpoint"@,
            "terms_version"@,
            "privacy_version"@,
        ],
        access::contract_members(required, endpoint)["endpoint"@] == (match endpoint {
            Some(endpoint) if access::endpoint_fault(endpoint) is None =>
                crate::json::JsonValueView::Text(endpoint),
            _ => crate::json::JsonValueView::Null,
        }),
{
    reveal_strlit("endpoint");
    reveal_strlit("terms_version");
    reveal_strlit("privacy_version");
    assert("endpoint"@.len() == 8);
    assert("terms_version"@.len() == 13);
    assert("privacy_version"@.len() == 15);
}

/// Neither `ok` nor `cr` stands at a place from `lo` up to `hi`.
spec fn lacks_pairs(text: Seq<char>, lo: int, hi: int) -> bool
    decreases hi - lo,
{
    if hi <= lo {
        true
    } else if hi == lo + 1 {
        !(text[lo] == 'o' && text[hi] == 'k') && !(text[lo] == 'c' && text[hi] == 'r')
    } else {
        lacks_pairs(text, lo, (lo + hi) / 2) && lacks_pairs(text, (lo + hi) / 2, hi)
    }
}

proof fn lemma_lacks_pairs(text: Seq<char>, lo: int, hi: int, i: int)
    requires
        lacks_pairs(text, lo, hi),
        lo <= i < hi,
    ensures
        !(text[i] == 'o' && text[i + 1] == 'k'),
        !(text[i] == 'c' && text[i + 1] == 'r'),
    decreases hi - lo,
{
    if hi > lo + 1 {
        if i < (lo + hi) / 2 {
            lemma_lacks_pairs(text, lo, (lo + hi) / 2, i);
        } else {
            lemma_lacks_pairs(text, (lo + hi) / 2, hi, i);
        }
    }
}

/// Without the pairs `ok` and `cr` up to its last character, a message holds
/// neither word.
proof fn lemma_words_absent(message: Seq<char>, last: int)
    requires
        message.len() == last + 1,
        lacks_pairs(message, 0, last),
    ensures
        !text::has_infix(message, "token"@),
        !text::has_infix(message, "secret"@),
{
    reveal_strlit("token");
    reveal_strlit("secret");
    assert forall|at: int| !text::occurs_at(message, "token"@, at) by {
        if text::occurs_at(message, "token"@, at) {
            lemma_lacks_pairs(message, 0, last, at + 1);
            assert(message[at + 1] == "token"@[1]);
            assert(message[at + 2] == "token"@[2]);
        }
    }
    assert forall|at: int| !text::occurs_at(message, "secret"@, at) by {
        if text::occurs_at(message, "secret"@, at) {
            lemma_lacks_pairs(message, 0, last, at + 2);
            assert(message[at + 2] == "secret"@[2]);
            assert(message[at + 3] == "secret"@[3]);
        }
    }
}

/// What the operator is told of a failure is never empty and speaks neither of
/// a token nor of a secret. A configuration failure says what it was made with.
pub proof fn failure_messages_are_safe(failure: LoginFailure)
    requires
        !(failure is Configuration),
    ensures
        access::failure_text(failure).len() > 0,
        !text::has_infix(access::failure_text(failure), "token"@),
        !text::has_infix(access::failure_text(failure), "secret"@),
{
    reveal_with_fuel(lacks_pairs, 8);
    match failure {
        LoginFailure::InvalidCredentials => {
            reveal_strlit(
                "That username or password was not accepted.",
            );
            lemma_words_absent(access::failure_text(failure), 42);
        },
        LoginFailure::RateLimited => {
            reveal_strlit(
                "Too many attempts. Wait one minute, then try again.",
            );
            lemma_words_absent(access::failure_text(failure), 50);
        },
        LoginFailure::PolicyOutdated => {
            reveal_strlit(
                "This build uses an outdated legal version. Download the latest official build.",
            );
            lemma_words_absent(access::failure_text(failure), 77);
        },
        LoginFailure::InvalidSession => {
            reveal_strlit(
                "Your saved access is no longer valid. Sign in again to continue.",
            );
            lemma_words_absent(access::failure_text(failure), 63);
        },
        LoginFailure::SessionExpired => {
            reveal_strlit(
                "Your preview session expired. Sign in again to continue.",
            );
            lemma_words_absent(access::failure_text(failure), 55);
        },
        LoginFailure::Network => {
            reveal_strlit(
                "Reyn could not reach the access service. Check your connection and try again.",
            );
            lemma_words_absent(access::failure_text(failure), 76);
        },
        LoginFailure::Service => {
            reveal_strlit(
                "The access service is unavailable. Try again shortly.",
            );
            lemma_words_absent(access::failure_text(failure), 52);
        },
        LoginFailure::Configuration(_) => {},
    }
}

} // verus!
