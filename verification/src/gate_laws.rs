//! What each operation of the access gate does to its state, field by field, and
//! what it asks of the application.

use crate::access;
use crate::access::LoginFailure;
use crate::credential_store::{StoreError, StoreErrorView};
use crate::gate;
use crate::gate::{
    AccessGate, GateEffect, GateEffectView, GateState, GateStateView, GateView,
    PendingAccessResult, PendingAccessResultView, SaveOutcome, Screen,
};
use crate::secret::SecretText;
use crate::session;
use crate::session::{
    ClientInfo, LoadedRecord, LoginRequest, Session, SessionView, StoredSession, StoredSessionView,
    ValidatedSession,
};
use crate::session_laws;
use crate::text;
use crate::text_laws;
use vstd::prelude::*;

verus! {

/// The record that is kept of a session.
pub open spec fn kept(token: Seq<char>, expires: u64) -> StoredSessionView {
    StoredSessionView {
        token,
        expires_at_utc_unix: expires,
        terms_version: "1.0"@,
        privacy_version: "1.0"@,
    }
}

/// A quarter of an hour from now, or the end of time.
pub open spec fn quarter_hour_from(now: u64) -> u64 {
    if now + 900 <= u64::MAX {
        (now + 900) as u64
    } else {
        u64::MAX
    }
}

/// A build has an endpoint that can be used.
pub open spec fn is_configured(configured: Option<Seq<char>>) -> bool {
    configured matches Some(endpoint) && session_laws::is_usable(endpoint)
}

proof fn lemma_configured(configured: Option<Seq<char>>)
    ensures
        access::configured_fault(configured) is None <==> is_configured(configured),
{
    if configured is Some {
        session_laws::endpoints_are_checked(configured->Some_0);
    }
}

/// The form is empty and its terms are not accepted; the rest is as before.
pub open spec fn is_emptied(gate: GateView, before: GateView) -> bool {
    &&& gate.username.len() == 0 && gate.password.len() == 0
    &&& !gate.terms_accepted && !gate.requested_initial_focus
    &&& gate.store_notice == before.store_notice
}

/// The form, its notice and its focus are as before.
pub open spec fn is_untouched(gate: GateView, before: GateView) -> bool {
    &&& gate.username == before.username && gate.password == before.password
    &&& gate.terms_accepted == before.terms_accepted
    &&& gate.requested_initial_focus == before.requested_initial_focus
    &&& gate.store_notice == before.store_notice
}

/// A login answer that is awaited: a session that is valid is granted, its record
/// is to be kept and the name and password are forgotten; one that is not fails
/// as expired; a failure is shown. Nothing else changes, and nothing is awaited
/// any more.
pub proof fn login_answers_are_taken(
    gate: GateView,
    session: SessionView,
    failure: LoginFailure,
    now: u64,
)
    requires
        gate.pending,
    ensures
        ({
            let (next, effect) = gate.polled(
                Some(PendingAccessResultView::Login(Ok(session))),
                now,
            );
            let valid = session.token.len() > 0 && session.expires_at_utc_unix > now;
            &&& !next.pending
            &&& valid ==> {
                &&& next.state == GateStateView::Granted(session)
                &&& next.username.len() == 0 && next.password.len() == 0
                &&& next.terms_accepted == gate.terms_accepted
                &&& next.requested_initial_focus == gate.requested_initial_focus
                &&& next.store_notice == gate.store_notice
                &&& effect == GateEffectView::Save(
                    kept(session.token, session.expires_at_utc_unix),
                )
            }
            &&& !valid ==> {
                &&& next.state == GateStateView::Failed(LoginFailure::SessionExpired)
                &&& is_untouched(next, gate)
                &&& effect is Nothing
            }
        }),
        ({
            let (next, effect) = gate.polled(
                Some(PendingAccessResultView::Login(Err(failure))),
                now,
            );
            &&& !next.pending
            &&& next.state == GateStateView::Failed(failure)
            &&& is_untouched(next, gate)
            &&& effect is Nothing
        }),
{
}

/// A validation answer that is awaited for a session: with an expiry that lies
/// ahead the session is granted under it, with its own token and to be confirmed
/// in a quarter of an hour, and its record is to be kept. Where the network or the
/// service failed, the session is held for another try with that failure. Any
/// other answer forgets it: the form is emptied and the record is to be deleted.
pub proof fn validation_answers_are_taken(
    gate: GateView,
    session: SessionView,
    expires: u64,
    failure: LoginFailure,
    now: u64,
)
    requires
        gate.pending,
        gate.state == GateStateView::Validating(session),
    ensures
        ({
            let (next, effect) = gate.polled(
                Some(PendingAccessResultView::Validate(Ok(expires))),
                now,
            );
            &&& !next.pending
            &&& expires > now ==> {
                &&& next.state == GateStateView::Granted(
                    SessionView {
                        token: session.token,
                        expires_at_utc_unix: expires,
                        next_validation_utc_unix: quarter_hour_from(now),
                    },
                )
                &&& is_untouched(next, gate)
                &&& effect == GateEffectView::Save(kept(session.token, expires))
            }
            &&& expires <= now ==> {
                &&& next.state == GateStateView::Failed(LoginFailure::InvalidSession)
                &&& is_emptied(next, gate)
                &&& effect is Delete
            }
        }),
        ({
            let (next, effect) = gate.polled(
                Some(PendingAccessResultView::Validate(Err(failure))),
                now,
            );
            let passing = failure == LoginFailure::Network || failure == LoginFailure::Service;
            &&& !next.pending
            &&& passing ==> {
                &&& next.state == GateStateView::RetryValidation(session, failure)
                &&& is_untouched(next, gate)
                &&& effect is Nothing
            }
            &&& !passing ==> {
                &&& next.state == GateStateView::Failed(LoginFailure::InvalidSession)
                &&& is_emptied(next, gate)
                &&& effect is Delete
            }
        }),
{
}

/// A sign-out answer that is awaited for a session: once it is revoked the form is
/// emptied and the record is to be deleted; where that failed the session is held
/// for another try with that failure, and the vault is left alone.
pub proof fn sign_out_answers_are_taken(
    gate: GateView,
    session: SessionView,
    failure: LoginFailure,
    now: u64,
)
    requires
        gate.pending,
        gate.state == GateStateView::SigningOut(session),
    ensures
        ({
            let (next, effect) = gate.polled(Some(PendingAccessResultView::Logout(Ok(()))), now);
            &&& !next.pending
            &&& next.state is Ready
            &&& is_emptied(next, gate)
            &&& effect is Delete
        }),
        ({
            let (next, effect) = gate.polled(
                Some(PendingAccessResultView::Logout(Err(failure))),
                now,
            );
            &&& !next.pending
            &&& next.state == GateStateView::RetrySignOut(session, failure)
            &&& is_untouched(next, gate)
            &&& effect is Nothing
        }),
{
}

/// What is not awaited changes nothing. An answer of a kind that the state does
/// not wait for ends the waiting and changes nothing else.
pub proof fn stray_answers_are_dropped(
    gate: GateView,
    received: Option<PendingAccessResultView>,
    validation: Result<u64, LoginFailure>,
    logout: Result<(), LoginFailure>,
    now: u64,
)
    ensures
        !gate.pending ==> gate.polled(received, now) == (gate, GateEffectView::Nothing),
        gate.polled(None, now) == (gate, GateEffectView::Nothing),
        gate.pending && !(gate.state is Validating) ==> {
            let (next, effect) = gate.polled(
                Some(PendingAccessResultView::Validate(validation)),
                now,
            );
            !next.pending && next.state == gate.state && is_untouched(next, gate) && effect
                is Nothing
        },
        gate.pending && !(gate.state is SigningOut) ==> {
            let (next, effect) = gate.polled(Some(PendingAccessResultView::Logout(logout)), now);
            !next.pending && next.state == gate.state && is_untouched(next, gate) && effect
                is Nothing
        },
{
}

/// A session is confirmed by asking a usable endpoint for its token, and waiting.
/// Without such an endpoint it is held for another try, and nothing is asked.
pub proof fn validations_are_asked_for(
    gate: GateView,
    session: SessionView,
    configured: Option<Seq<char>>,
)
    ensures
        ({
            let (next, effect) = gate.validating(session, configured);
            &&& is_untouched(next, gate)
            &&& is_configured(configured) ==> {
                &&& next.state == GateStateView::Validating(session)
                &&& next.pending
                &&& effect == GateEffectView::Validate {
                    endpoint: configured->Some_0,
                    token: session.token,
                }
            }
            &&& !is_configured(configured) ==> {
                &&& next.state == GateStateView::RetryValidation(
                    session,
                    access::configured_fault(configured)->Some_0,
                )
                &&& next.pending == gate.pending
                &&& effect is Nothing
            }
        }),
{
    lemma_configured(configured);
}

/// A session is revoked by asking for its token, at the endpoint where that can be
/// used, and waiting.
pub proof fn revocations_are_asked_for(
    gate: GateView,
    session: SessionView,
    configured: Option<Seq<char>>,
)
    ensures
        ({
            let (next, effect) = gate.revoking(session, configured);
            &&& is_untouched(next, gate)
            &&& next.state == GateStateView::SigningOut(session)
            &&& next.pending
            &&& is_configured(configured) ==> effect == GateEffectView::Logout {
                endpoint: configured,
                token: session.token,
            }
            &&& !is_configured(configured) ==> effect == GateEffectView::Logout {
                endpoint: None,
                token: session.token,
            }
        }),
{
    lemma_configured(configured);
}

/// A tick takes the answer first. While an answer is still awaited it does no
/// more. Otherwise it has a restored session confirmed; it ends a granted session
/// that is no longer valid, empties the form and has the record deleted; it has a
/// granted session confirmed that is due; and it leaves any other state alone.
pub proof fn ticks_look_at_the_time(
    gate: GateView,
    received: Option<PendingAccessResultView>,
    configured: Option<Seq<char>>,
    session: SessionView,
    now: u64,
)
    ensures
        ({
            let (next, first, second) = gate.ticked(received, configured, now);
            let polled = gate.polled(received, now).0;
            &&& first == gate.polled(received, now).1
            &&& polled.pending ==> next == polled && second is Nothing
            &&& !polled.pending && polled.state == GateStateView::Restoring(session) ==> (
                next,
                second,
            ) == polled.validating(session, configured)
            &&& !polled.pending && polled.state == GateStateView::Granted(session) ==> {
                let valid = session.token.len() > 0 && session.expires_at_utc_unix > now;
                &&& !valid ==> {
                    &&& next.state == GateStateView::Failed(LoginFailure::SessionExpired)
                    &&& is_emptied(next, polled)
                    &&& !next.pending
                    &&& second is Delete
                }
                &&& valid && session.next_validation_utc_unix <= now ==> (next, second)
                    == polled.validating(session, configured)
                &&& valid && session.next_validation_utc_unix > now ==> next == polled && second
                    is Nothing
            }
            &&& !polled.pending && !(polled.state is Restoring) && !(polled.state is Granted)
                ==> next == polled && second is Nothing
        }),
{
}

/// A form is complete with a name that is more than white space, a password and
/// the terms accepted.
pub proof fn forms_need_three_things(gate: GateView)
    ensures
        gate.is_complete() <==> {
            &&& !text_laws::is_space(gate.username)
            &&& gate.password.len() > 0
            &&& gate.terms_accepted
        },
{
    text_laws::blank_text_is_all_white_space(gate.username);
}

/// A complete form is submitted once: the name without white space around it and
/// the password as it is go to the endpoint, under the current legal versions and
/// with the client; the password is forgotten and the answer awaited. Without an
/// endpoint that can be used its failure is shown. A form that is not complete, or
/// while an answer is awaited, changes nothing.
pub proof fn forms_are_submitted(
    gate: GateView,
    lead: Seq<char>,
    name: Seq<char>,
    tail: Seq<char>,
    configured: Option<Seq<char>>,
    client: ClientInfo,
)
    requires
        gate.username == lead + name + tail,
        text_laws::is_space(lead) && text_laws::is_space(tail),
        text_laws::has_firm_ends(name),
    ensures
        ({
            let (next, effect) = gate.submitted(configured, client);
            let ready = !gate.pending && name.len() > 0 && gate.password.len() > 0
                && gate.terms_accepted;
            &&& !ready ==> next == gate && effect is Nothing
            &&& ready && is_configured(configured) ==> {
                &&& next.state is CheckingCredentials
                &&& next.pending
                &&& next.password.len() == 0
                &&& next.username == gate.username && next.terms_accepted
                &&& next.requested_initial_focus == gate.requested_initial_focus
                &&& next.store_notice == gate.store_notice
                &&& effect matches GateEffectView::Login { endpoint, request }
                &&& endpoint == configured->Some_0
                &&& request.username == name
                &&& request.password == gate.password
                &&& request.terms_version == "1.0"@
                &&& request.privacy_version == "1.0"@
                &&& request.client == client
            }
            &&& ready && !is_configured(configured) ==> {
                &&& next.state == GateStateView::Failed(
                    access::configured_fault(configured)->Some_0,
                )
                &&& !next.pending
                &&& is_untouched(next, gate)
                &&& effect is Nothing
            }
        }),
{
    lemma_configured(configured);
    text_laws::trimming_leaves_the_core(lead, name, tail);
    text_laws::blank_text_is_all_white_space(gate.username);
    if name.len() == 0 {
        assert forall|i: int| 0 <= i < gate.username.len() implies text::is_white_space(
            #[trigger] gate.username[i],
        ) by {
            if i < lead.len() {
                assert(gate.username[i] == lead[i]);
            } else {
                assert(gate.username[i] == tail[i - lead.len()]);
            }
        }
    } else {
        let at: int = lead.len() as int;
        assert(gate.username[at] == name[0]);
    }
}

/// Signing out has the session revoked that is held in any state; where none is
/// held the access gate is ready, and the record is to be deleted.
pub proof fn sign_outs_revoke_what_is_held(
    gate: GateView,
    session: SessionView,
    failure: LoginFailure,
    configured: Option<Seq<char>>,
)
    ensures
        ({
            let left = gate.signing_out(configured);
            &&& (gate.state == GateStateView::Granted(session) || gate.state
                == GateStateView::Restoring(session) || gate.state == GateStateView::Validating(
                session,
            ) || gate.state == GateStateView::RetryValidation(session, failure) || gate.state
                == GateStateView::SigningOut(session) || gate.state == GateStateView::RetrySignOut(
                session,
                failure,
            )) ==> left == gate.revoking(session, configured) && gate.held_session() == Some(
                session,
            )
            &&& (gate.state is Ready || gate.state is CheckingCredentials || gate.state is Failed)
                ==> {
                &&& gate.held_session() is None
                &&& left.0.state is Ready
                &&& left.0.pending == gate.pending
                &&& is_untouched(left.0, gate)
                &&& left.1 is Delete
            }
        }),
{
}

/// A retry asks again for the session that is held for it, and is nothing in any
/// other state.
pub proof fn retries_ask_again(
    gate: GateView,
    session: SessionView,
    failure: LoginFailure,
    configured: Option<Seq<char>>,
)
    ensures
        gate.state == GateStateView::RetryValidation(session, failure) ==> gate.retrying(configured)
            == gate.validating(session, configured),
        !(gate.state is RetryValidation) ==> gate.retrying(configured) == (
            gate,
            GateEffectView::Nothing,
        ),
        gate.state == GateStateView::RetrySignOut(session, failure) ==> gate.retrying_sign_out(
            configured,
        ) == gate.revoking(session, configured),
        !(gate.state is RetrySignOut) ==> gate.retrying_sign_out(configured) == (
            gate,
            GateEffectView::Nothing,
        ),
{
}

/// The studio is unlocked exactly by a granted session with a token.
pub proof fn granted_sessions_unlock(gate: GateView)
    ensures
        gate.granted() <==> gate.state is Granted && gate.state->Granted_0.token.len() > 0,
        is_emptied(gate.without_credentials(), gate),
        gate.without_credentials().state == gate.state,
        gate.without_credentials().pending == gate.pending,
{
}

/// What the window shows in each state.
pub proof fn states_have_their_screens(gate: GateView, session: SessionView, failure: LoginFailure)
    ensures
        ({
            let shown = gate.shown();
            let complete = !text_laws::is_space(gate.username) && gate.password.len() > 0
                && gate.terms_accepted;
            &&& gate.state is Restoring || gate.state is Validating ==> shown == Screen::Validating
            &&& gate.state is SigningOut ==> shown == Screen::Revoking
            &&& gate.state == GateStateView::RetrySignOut(session, failure) ==> shown
                == Screen::RetrySignOut(failure)
            &&& gate.state == GateStateView::RetryValidation(session, failure) ==> shown
                == Screen::RetryValidation(failure)
            &&& gate.state == GateStateView::Failed(failure) ==> shown == (Screen::Login {
                failure: Some(failure),
                checking: false,
                can_submit: complete,
            })
            &&& gate.state is CheckingCredentials ==> shown == (Screen::Login {
                failure: None,
                checking: true,
                can_submit: false,
            })
            &&& gate.state is Ready || gate.state is Granted ==> shown == (Screen::Login {
                failure: None,
                checking: false,
                can_submit: complete,
            })
        }),
{
    forms_need_three_things(gate);
}

/// How the access gate starts: empty, waiting for nothing. Without an endpoint that can
/// be used it shows that failure and leaves the vault alone. With one, it restores
/// the session that the vault gives back; where there is none it is ready, and the
/// record is to be deleted if it could not be used; and where the vault could not
/// be read it is ready, says so, and has the record deleted.
pub proof fn gates_start_with_what_the_vault_holds(
    configured: Option<Seq<char>>,
    answer: Result<LoadedRecord, StoreError>,
    error: StoreError,
    now: u64,
)
    ensures
        ({
            let start = gate::initial(configured, answer, now);
            let deletes = gate::initial_deletes(configured, answer, now);
            &&& start.username.len() == 0 && start.password.len() == 0
            &&& !start.terms_accepted && !start.pending && !start.requested_initial_focus
            &&& !is_configured(configured) ==> {
                &&& start.state == GateStateView::Failed(
                    access::configured_fault(configured)->Some_0,
                )
                &&& start.store_notice is None
                &&& !deletes
            }
            &&& is_configured(configured) && answer is Ok ==> {
                &&& start.store_notice is None
                &&& session::restored(answer, now)->Ok_0 is Some ==> start.state
                    == GateStateView::Restoring(session::restored(answer, now)->Ok_0->Some_0)
                &&& session::restored(answer, now)->Ok_0 is None ==> start.state is Ready
                &&& deletes <==> session::holds_unusable_record(answer, now)
            }
            &&& is_configured(configured) && answer == Err::<LoadedRecord, StoreError>(error) ==> {
                &&& start.state is Ready
                &&& start.store_notice == Some(
                    "Saved access could not be read securely: "@ + gate::store_error_text(error@),
                )
                &&& deletes
            }
        }),
{
    lemma_configured(configured);
}

/// What the operator is told of a record that was to be kept, and of an error of
/// the vault. Nothing else of the access gate changes.
pub proof fn saves_are_noted(gate: GateView, error: StoreError, said: Seq<char>)
    ensures
        gate.noted(SaveOutcome::Saved).store_notice is None,
        gate.noted(SaveOutcome::NotEncoded).store_notice == Some(
            "Saved access could not be encoded."@,
        ),
        gate.noted(SaveOutcome::Failed(error)).store_notice == Some(
            "Access is active for this run, but the native credential store failed: "@
                + gate::store_error_text(error@),
        ),
        gate::store_error_text(StoreErrorView::Malformed) == "Malformed"@,
        gate::store_error_text(StoreErrorView::Unavailable(said)) == "Unavailable("@ + gate::quoted(
            said,
        ) + ")"@,
        forall|outcome: SaveOutcome|
            {
                let next = #[trigger] gate.noted(outcome);
                &&& next.state == gate.state && next.pending == gate.pending
                &&& next.username == gate.username && next.password == gate.password
                &&& next.terms_accepted == gate.terms_accepted
                &&& next.requested_initial_focus == gate.requested_initial_focus
            },
{
}

/// How long the access gate can wait: a granted session that is valid runs out, or
/// has to be confirmed, after exactly these seconds and no earlier. In any other
/// state there is nothing to wait for.
pub proof fn gates_wait_for_the_first_change(gate: GateView, now: u64, later: u64)
    ensures
        gate.wait_at(now) is Some <==> gate.state is Granted && gate.state->Granted_0.token.len()
            > 0 && gate.state->Granted_0.expires_at_utc_unix > now,
        gate.wait_at(now) matches Some(seconds) ==> {
            let session = gate.state->Granted_0;
            &&& now <= later < now + seconds ==> later < session.expires_at_utc_unix && later
                < session.next_validation_utc_unix
            &&& later == now + seconds ==> session.expires_at_utc_unix <= later
                || session.next_validation_utc_unix <= later
        },
{
}

/// What is said of the access gate and of its effects is what they hold.
pub proof fn gate_views_are_faithful(
    gate: AccessGate,
    session: Session,
    record: StoredSession,
    endpoint: String,
    request: LoginRequest,
    token: SecretText,
    failure: LoginFailure,
    login: Result<Session, LoginFailure>,
    validation: Result<ValidatedSession, LoginFailure>,
    logout: Result<(), LoginFailure>,
    effect: GateEffect,
)
    ensures
        gate@.username == gate.username@ && gate@.password == gate.password@,
        gate@.terms_accepted == gate.terms_accepted && gate@.pending == gate.pending,
        gate@.requested_initial_focus == gate.requested_initial_focus,
        gate@.state == gate.state@,
        gate@.store_notice is Some <==> gate.store_notice is Some,
        gate.store_notice matches Some(notice) ==> gate@.store_notice == Some(notice@),
        GateState::Ready@ is Ready,
        GateState::CheckingCredentials@ is CheckingCredentials,
        GateState::Restoring(session)@ == GateStateView::Restoring(session@),
        GateState::Validating(session)@ == GateStateView::Validating(session@),
        GateState::Granted(session)@ == GateStateView::Granted(session@),
        GateState::SigningOut(session)@ == GateStateView::SigningOut(session@),
        GateState::RetryValidation(session, failure)@ == GateStateView::RetryValidation(
            session@,
            failure,
        ),
        GateState::RetrySignOut(session, failure)@ == GateStateView::RetrySignOut(
            session@,
            failure,
        ),
        GateState::Failed(failure)@ == GateStateView::Failed(failure),
        PendingAccessResult::Login(login)@ == PendingAccessResultView::Login(
            session::session_result(login),
        ),
        PendingAccessResult::Validate(validation)@ == PendingAccessResultView::Validate(
            session::expiry_result(validation),
        ),
        PendingAccessResult::Logout(logout)@ == PendingAccessResultView::Logout(logout),
        GateEffect::Nothing@ is Nothing,
        GateEffect::Delete@ is Delete,
        GateEffect::Save(record)@ == GateEffectView::Save(record@),
        ({
            let effect = GateEffect::Login { endpoint, request };
            &&& effect@ matches GateEffectView::Login { endpoint: place, request: asked }
            &&& place == endpoint@
            &&& asked.username == request.username@ && asked.password == request.password@
            &&& asked.terms_version == request.terms_version@
            &&& asked.privacy_version == request.privacy_version@
            &&& asked.client == request.client
        }),
        ({
            let effect = GateEffect::Validate { endpoint, token };
            &&& effect@ matches GateEffectView::Validate { endpoint: place, token: asked }
            &&& place == endpoint@ && asked == token@
        }),
        ({
            let effect = GateEffect::Logout { endpoint: Some(endpoint), token };
            &&& effect@ matches GateEffectView::Logout { endpoint: place, token: asked }
            &&& place == Some(endpoint@) && asked == token@
        }),
        ({
            let effect = GateEffect::Logout { endpoint: None, token };
            &&& effect@ matches GateEffectView::Logout { endpoint: place, token: asked }
            &&& place is None && asked == token@
        }),
        gate::step(gate, effect) == (gate@, effect@),
{
}

} // verus!
