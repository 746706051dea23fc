//! What holds of sessions: which answers of the service grant one, which records
//! give one back, and where requests go. Stated from the answers, the records and
//! the texts themselves.

use crate::access;
use crate::access::{LoginFailure, StudioLifecycleAction};
use crate::credential_store::{StoreError, StoreErrorView};
use crate::json::JsonValueView;
use crate::session;
use crate::session::{
    AccessCall, ClientInfo, LoadedRecord, LoginResponse, LoginResponseView, Reply, Session,
    SessionValidationResponse, SessionValidationResponseView, SessionView, StoredSession,
    ValidatedSession,
};
use crate::text;
use vstd::prelude::*;

verus! {

/// 32 to 256 characters, each an ASCII letter, a digit, a hyphen or an
/// underscore.
pub open spec fn is_well_formed(token: Seq<char>) -> bool {
    &&& token.len() >= 32
    &&& token.len() <= 256
    &&& forall|i: int|
        0 <= i < token.len() ==> {
            ||| 'a' <= #[trigger] token[i] && token[i] <= 'z'
            ||| 'A' <= token[i] && token[i] <= 'Z'
            ||| '0' <= token[i] && token[i] <= '9'
            ||| token[i] == '-'
            ||| token[i] == '_'
        }
}

/// The tokens that a session may have.
pub proof fn tokens_are_bounded(token: Seq<char>)
    ensures
        session::is_token(token) <==> is_well_formed(token),
{
    if is_well_formed(token) {
        assert forall|i: int| 0 <= i < token.len() implies session::is_token_char(
            #[trigger] token[i],
        ) by {}
    }
    if session::is_token(token) {
        assert forall|i: int| 0 <= i < token.len() implies {
            ||| 'a' <= #[trigger] token[i] && token[i] <= 'z'
            ||| 'A' <= token[i] && token[i] <= 'Z'
            ||| '0' <= token[i] && token[i] <= '9'
            ||| token[i] == '-'
            ||| token[i] == '_'
        } by {
            assert(session::is_token_char(token[i]));
        }
    }
}

/// What a login answer is worth.
///
/// Where it says ok under the current legal versions, with a well-formed token
/// and an expiry later than now by at most a day, it grants exactly that token
/// until exactly that expiry, to be confirmed after a quarter of an hour; and no
/// other answer grants anything. An answer without ok, without a token, without
/// an expiry, with another token or with a later expiry is a failure of the
/// service; one under other legal versions is outdated; one that has run out is
/// expired.
pub proof fn logins_grant_what_they_say(
    body: LoginResponseView,
    token: Seq<char>,
    expires: u64,
    now: u64,
)
    ensures
        ({
            let verdict = session::session_verdict(body, now);
            let current = body.terms_version == "1.0"@ && body.privacy_version == "1.0"@;
            let says = body.session_token == Some(token) && body.expires_at_utc_unix == Some(
                expires,
            );
            let silent = body.session_token is None || body.expires_at_utc_unix is None;
            &&& body.ok && current && says && is_well_formed(token) && expires > now && expires
                <= now + 24 * 60 * 60 ==> {
                &&& verdict matches Ok(granted)
                &&& granted.token == token
                &&& granted.expires_at_utc_unix == expires
                &&& now + 15 * 60 <= u64::MAX ==> granted.next_validation_utc_unix == now + 15 * 60
                &&& now + 15 * 60 > u64::MAX ==> granted.next_validation_utc_unix == u64::MAX
            }
            &&& verdict is Ok ==> body.ok && current && !silent && (says ==> is_well_formed(token)
                && now < expires <= now + 24 * 60 * 60)
            &&& !body.ok ==> verdict == Err::<SessionView, LoginFailure>(LoginFailure::Service)
            &&& body.ok && !current ==> verdict == Err::<SessionView, LoginFailure>(
                LoginFailure::PolicyOutdated,
            )
            &&& body.ok && current && silent ==> verdict == Err::<SessionView, LoginFailure>(
                LoginFailure::Service,
            )
            &&& body.ok && current && says && (!is_well_formed(token) || expires > now + 24 * 60
                * 60) ==> verdict == Err::<SessionView, LoginFailure>(LoginFailure::Service)
            &&& body.ok && current && says && is_well_formed(token) && expires <= now ==> verdict
                == Err::<SessionView, LoginFailure>(LoginFailure::SessionExpired)
        }),
{
    tokens_are_bounded(token);
    if body.session_token is Some {
        tokens_are_bounded(body.session_token->Some_0);
    }
}

/// A session is valid while it has a token and its expiry lies ahead, and due as
/// soon as its next validation does not; erasing it takes its token and no more.
pub proof fn sessions_run_out(session: SessionView, now: u64)
    ensures
        session.valid_at(now) <==> session.token.len() > 0 && now < session.expires_at_utc_unix,
        session.due_at(now) <==> session.next_validation_utc_unix <= now,
        session.erased().token.len() == 0,
        session.erased().expires_at_utc_unix == session.expires_at_utc_unix,
        session.erased().next_validation_utc_unix == session.next_validation_utc_unix,
        !session.erased().valid_at(now),
{
}

/// A record of the vault that gives a session back.
pub open spec fn is_good_record(record: StoredSession, now: u64) -> bool {
    &&& is_well_formed(record.token@)
    &&& record.terms_version@ == "1.0"@
    &&& record.privacy_version@ == "1.0"@
    &&& now < record.expires_at_utc_unix <= now + 24 * 60 * 60
}

/// What the vault gives back: the session of a record that is well formed, is
/// current and has not run out, with its token and expiry, and to be confirmed at
/// once. A record that is not is dropped and has to be deleted, as one that
/// cannot be read; an absent record leaves nothing to delete; an error is handed
/// on.
pub proof fn records_give_sessions_back(
    record: StoredSession,
    error: StoreError,
    now: u64,
)
    ensures
        ({
            let answer = Ok::<LoadedRecord, StoreError>(LoadedRecord::Record(record));
            let unreadable = Ok::<LoadedRecord, StoreError>(LoadedRecord::Unreadable);
            let absent = Ok::<LoadedRecord, StoreError>(LoadedRecord::Absent);
            let failed = Err::<LoadedRecord, StoreError>(error);
            &&& is_good_record(record, now) ==> {
                &&& session::restored(answer, now) matches Ok(Some(session))
                &&& session.token == record.token@
                &&& session.expires_at_utc_unix == record.expires_at_utc_unix
                &&& session.next_validation_utc_unix == now
            }
            &&& !is_good_record(record, now) ==> (session::restored(answer, now) == Ok::<Option<SessionView>, StoreErrorView>(None))
            &&& session::holds_unusable_record(answer, now) <==> !is_good_record(record, now)
            &&& session::restored(unreadable, now) == Ok::<Option<SessionView>, StoreErrorView>(None)
            &&& session::holds_unusable_record(unreadable, now)
            &&& session::restored(absent, now) == Ok::<Option<SessionView>, StoreErrorView>(None)
            &&& !session::holds_unusable_record(absent, now)
            &&& session::restored(failed, now) == Err::<Option<SessionView>, StoreErrorView>(error@)
            &&& !session::holds_unusable_record(failed, now)
        }),
{
    tokens_are_bounded(record.token@);
}

/// A record keeps the token and the expiry of its session, under the current
/// legal versions, and nothing else.
pub proof fn records_keep_token_and_expiry(session: SessionView)
    ensures
        session::record_of(session).token == session.token,
        session::record_of(session).expires_at_utc_unix == session.expires_at_utc_unix,
        session::record_of(session).terms_version == "1.0"@,
        session::record_of(session).privacy_version == "1.0"@,
{
}

/// What a validation answer confirms: where it says ok under the current legal
/// versions with an expiry later than now by at most a day, exactly that expiry.
/// Without ok or under other versions it is outdated; without an expiry it is a
/// failure of the service, and so with a later one; without a clock that failure
/// is told; and one that has run out is expired.
pub proof fn validations_confirm_what_they_say(
    body: SessionValidationResponseView,
    expires: u64,
    now: u64,
    failure: LoginFailure,
)
    ensures
        ({
            let verdict = session::confirmed_expiry(body, Ok(now));
            let blind = session::confirmed_expiry(body, Err(failure));
            let current = body.ok && body.terms_version == "1.0"@ && body.privacy_version == "1.0"@;
            let says = body.expires_at_utc_unix == Some(expires);
            &&& current && says && now < expires <= now + 24 * 60 * 60 ==> verdict == Ok::<
                u64,
                LoginFailure,
            >(expires)
            &&& verdict matches Ok(confirmed) ==> current && body.expires_at_utc_unix == Some(
                confirmed,
            ) && now < confirmed <= now + 24 * 60 * 60
            &&& !current ==> verdict == Err::<u64, LoginFailure>(LoginFailure::PolicyOutdated)
                && blind == verdict
            &&& current && body.expires_at_utc_unix is None ==> verdict == Err::<u64, LoginFailure>(
                LoginFailure::Service,
            ) && blind == verdict
            &&& current && says ==> blind == Err::<u64, LoginFailure>(failure)
            &&& current && says && expires <= now ==> verdict == Err::<u64, LoginFailure>(
                LoginFailure::SessionExpired,
            )
            &&& current && says && expires > now + 24 * 60 * 60 ==> verdict == Err::<
                u64,
                LoginFailure,
            >(LoginFailure::Service)
        }),
{
}

/// An endpoint that can be used: it begins with `https://` and holds no `@`, no
/// `#` and no white space.
pub open spec fn is_usable(endpoint: Seq<char>) -> bool {
    &&& endpoint.len() >= 8
    &&& endpoint.take(8) == "https://"@
    &&& forall|i: int|
        0 <= i < endpoint.len() ==> #[trigger] endpoint[i] != '@' && endpoint[i] != '#'
            && !text::is_white_space(endpoint[i])
}

proof fn lemma_https(endpoint: Seq<char>)
    ensures
        access::uses_https(endpoint) <==> endpoint.len() >= 8 && endpoint.take(8) == "https://"@,
{
    reveal_strlit("https://");
    if endpoint.len() >= 8 {
        assert(endpoint.take(8) =~= endpoint.subrange(0, 8));
    }
}

/// Which endpoints can be used, and what is said of the others.
pub proof fn endpoints_are_checked(endpoint: Seq<char>)
    ensures
        access::endpoint_fault(endpoint) is None <==> is_usable(endpoint),
        !(endpoint.len() >= 8 && endpoint.take(8) == "https://"@) ==> access::endpoint_fault(
            endpoint,
        ) == Some(LoginFailure::Configuration("The preview access endpoint must use HTTPS.")),
        endpoint.len() >= 8 && endpoint.take(8) == "https://"@ && !is_usable(endpoint)
            ==> access::endpoint_fault(endpoint) == Some(
            LoginFailure::Configuration("The preview access endpoint is malformed."),
        ),
        access::configured_fault(Some(endpoint)) == access::endpoint_fault(endpoint),
        access::configured_fault(None) == Some(
            LoginFailure::Configuration(
                "This official preview was built without an access endpoint.",
            ),
        ),
{
    lemma_https(endpoint);
    if is_usable(endpoint) {
        assert forall|i: int| 0 <= i < endpoint.len() implies !access::is_forbidden_in_endpoint(
            #[trigger] endpoint[i],
        ) by {}
    }
    if access::endpoint_fault(endpoint) is None {
        assert forall|i: int| 0 <= i < endpoint.len() implies #[trigger] endpoint[i] != '@'
            && endpoint[i] != '#' && !text::is_white_space(endpoint[i]) by {
            assert(!access::is_forbidden_in_endpoint(endpoint[i]));
        }
    }
}

/// A build is gated exactly when its flag is the single character `1` and it has
/// an endpoint, usable or not.
pub proof fn gating_takes_flag_and_endpoint(flag: Option<Seq<char>>, endpoint: Option<Seq<char>>)
    ensures
        access::is_gated(flag, endpoint) <==> endpoint is Some && (flag matches Some(value)
            && value.len() == 1 && value[0] == '1'),
        access::optional_chars(None) is None,
        forall|value: &str| #[trigger] access::optional_chars(Some(value)) == Some(value@),
{
    reveal_strlit("1");
    if flag is Some && flag->Some_0.len() == 1 && flag->Some_0[0] == '1' {
        assert(flag->Some_0 =~= "1"@);
    }
}

/// What the studio does: it is started where it may run and does not, dropped
/// where it runs and may not, and otherwise kept as it is. It may run where the
/// build is not gated or access is granted.
pub proof fn studios_follow_access(required: bool, granted: bool, running: bool)
    ensures
        access::studio_may_run(required, granted) <==> (required ==> granted),
        (required ==> granted) && !running ==> access::lifecycle(required, granted, running)
            == StudioLifecycleAction::Start,
        required && !granted && running ==> access::lifecycle(required, granted, running)
            == StudioLifecycleAction::Drop,
        (required ==> granted) && running ==> access::lifecycle(required, granted, running)
            == StudioLifecycleAction::Keep,
        required && !granted && !running ==> access::lifecycle(required, granted, running)
            == StudioLifecycleAction::Keep,
{
}

/// What the operator is told of each failure.
pub proof fn failures_are_told(message: &'static str)
    ensures
        access::failure_text(LoginFailure::Configuration(message)) == message@,
        access::failure_text(LoginFailure::InvalidCredentials)
            == "That username or password was not accepted."@,
        access::failure_text(LoginFailure::RateLimited)
            == "Too many attempts. Wait one minute, then try again."@,
        access::failure_text(LoginFailure::PolicyOutdated)
            == "This build uses an outdated legal version. Download the latest official build."@,
        access::failure_text(LoginFailure::InvalidSession)
            == "Your saved access is no longer valid. Sign in again to continue."@,
        access::failure_text(LoginFailure::SessionExpired)
            == "Your preview session expired. Sign in again to continue."@,
        access::failure_text(LoginFailure::Network)
            == "Reyn could not reach the access service. Check your connection and try again."@,
        access::failure_text(LoginFailure::Service)
            == "The access service is unavailable. Try again shortly."@,
{
}

/// What a build says, key by key: its schema, whether it is gated, its endpoint
/// where that can be used, and the legal versions.
pub proof fn build_contracts_read_back(flag: Option<Seq<char>>, configured: Option<Seq<char>>)
    ensures
        ({
            let members = access::build_members(flag, configured);
            &&& members["schema"@] == JsonValueView::Text("com.reyn.studio.preview-access/1"@)
            &&& members["required"@] == JsonValueView::Flag(
                configured is Some && (flag matches Some(value) && value.len() == 1 && value[0]
                    == '1'),
            )
            &&& configured is Some && is_usable(configured->Some_0) ==> members["endpoint"@]
                == JsonValueView::Text(configured->Some_0)
            &&& configured is None || !is_usable(configured->Some_0) ==> members["endpoint"@]
                == JsonValueView::Null
            &&& members["terms_version"@] == JsonValueView::Text("1.0"@)
            &&& members["privacy_version"@] == JsonValueView::Text("1.0"@)
            &&& members.dom() == set![
                "schema"@,
                "required"@,
                "endpoint"@,
                "terms_version"@,
                "privacy_version"@,
            ]
        }),
{
    reveal_strlit("schema");
    reveal_strlit("required");
    reveal_strlit("endpoint");
    reveal_strlit("terms_version");
    reveal_strlit("privacy_version");
    assert("schema"@.len() == 6);
    assert("required"@.len() == 8 && "required"@[0] == 'r');
    assert("endpoint"@.len() == 8 && "endpoint"@[0] == 'e');
    assert("terms_version"@.len() == 13);
    assert("privacy_version"@.len() == 15);
    gating_takes_flag_and_endpoint(flag, configured);
    if configured is Some {
        endpoints_are_checked(configured->Some_0);
    }
    let members = access::build_members(flag, configured);
    assert(members.dom() =~= set![
        "schema"@,
        "required"@,
        "endpoint"@,
        "terms_version"@,
        "privacy_version"@,
    ]);
}

/// The contract is asked for by its switch alone, after the executable's name.
pub proof fn contracts_are_asked_for(args: Seq<String>)
    ensures
        access::asks_for_contract(args) <==> args.len() == 2 && args[1]@
            == "--print-access-contract"@,
{
}

/// Where requests go: to the endpoint's path for validation or for logout, with
/// the token as a bearer; to an endpoint that cannot be used, nowhere.
pub proof fn requests_bear_the_token(
    call: Result<AccessCall, LoginFailure>,
    endpoint: Seq<char>,
    token: Seq<char>,
)
    ensures
        is_usable(endpoint) ==> (session::is_validation_call(call, endpoint, token) <==> (call
            matches Ok(call) && call.url@ == endpoint + "/validate"@ && call.authorization@
            == "Bearer "@ + token)),
        is_usable(endpoint) ==> (session::is_logout_call(call, endpoint, token) <==> (call
            matches Ok(call) && call.url@ == endpoint + "/logout"@ && call.authorization@
            == "Bearer "@ + token)),
        !is_usable(endpoint) && (session::is_validation_call(call, endpoint, token)
            || session::is_logout_call(call, endpoint, token)) ==> call == Err::<
            AccessCall,
            LoginFailure,
        >(access::endpoint_fault(endpoint)->Some_0),
{
    endpoints_are_checked(endpoint);
}

/// How a client names itself.
pub proof fn clients_name_themselves(client: ClientInfo)
    ensures
        session::agent_name(client) == "ReynStudio/"@ + client.app_version@ + " ("@
            + client.platform@ + "; "@ + client.architecture@ + ")"@,
{
}

/// What a login comes to: nothing is asked of an endpoint that cannot be used;
/// no answer is a failure of the network; each status has its failure, and only
/// 200 grants what the body says, by the clock.
pub proof fn login_replies_are_judged(
    endpoint: Seq<char>,
    status: u16,
    body: LoginResponse,
    clock: Result<u64, LoginFailure>,
    reply: Reply<LoginResponse>,
)
    ensures
        ({
            let empty = session::login_verdict(
                endpoint,
                Reply::Answered { status, body: None },
                clock,
            );
            let full = session::login_verdict(
                endpoint,
                Reply::Answered { status, body: Some(body) },
                clock,
            );
            let lost = session::login_verdict(endpoint, Reply::Unreachable, clock);
            &&& !is_usable(endpoint) ==> session::login_verdict(endpoint, reply, clock) == Err::<
                SessionView,
                LoginFailure,
            >(access::endpoint_fault(endpoint)->Some_0)
            &&& is_usable(endpoint) ==> {
                &&& lost == Err::<SessionView, LoginFailure>(LoginFailure::Network)
                &&& status != 200 ==> empty == full
                &&& status == 200 ==> empty == Err::<SessionView, LoginFailure>(
                    LoginFailure::Service,
                )
                &&& status == 200 && clock is Ok ==> full == session::session_verdict(
                    body@,
                    clock->Ok_0,
                )
                &&& status == 200 && clock is Err ==> full == Err::<SessionView, LoginFailure>(
                    clock->Err_0,
                )
                &&& status == 401 ==> full == Err::<SessionView, LoginFailure>(
                    LoginFailure::InvalidCredentials,
                )
                &&& status == 409 || status == 426 ==> full == Err::<SessionView, LoginFailure>(
                    LoginFailure::PolicyOutdated,
                )
                &&& status == 429 ==> full == Err::<SessionView, LoginFailure>(
                    LoginFailure::RateLimited,
                )
                &&& status != 200 && status != 401 && status != 409 && status != 426 && status
                    != 429 ==> full == Err::<SessionView, LoginFailure>(LoginFailure::Service)
            }
        }),
{
    endpoints_are_checked(endpoint);
}

/// What a validation comes to, likewise.
pub proof fn validation_replies_are_judged(
    endpoint: Seq<char>,
    status: u16,
    body: SessionValidationResponse,
    clock: Result<u64, LoginFailure>,
    reply: Reply<SessionValidationResponse>,
)
    ensures
        ({
            let empty = session::validation_verdict(
                endpoint,
                Reply::Answered { status, body: None },
                clock,
            );
            let full = session::validation_verdict(
                endpoint,
                Reply::Answered { status, body: Some(body) },
                clock,
            );
            let lost = session::validation_verdict(endpoint, Reply::Unreachable, clock);
            &&& !is_usable(endpoint) ==> session::validation_verdict(endpoint, reply, clock)
                == Err::<u64, LoginFailure>(access::endpoint_fault(endpoint)->Some_0)
            &&& is_usable(endpoint) ==> {
                &&& lost == Err::<u64, LoginFailure>(LoginFailure::Network)
                &&& status != 200 ==> empty == full
                &&& status == 200 ==> empty == Err::<u64, LoginFailure>(LoginFailure::Service)
                &&& status == 200 ==> full == session::confirmed_expiry(body@, clock)
                &&& status == 401 ==> full == Err::<u64, LoginFailure>(LoginFailure::InvalidSession)
                &&& status == 409 || status == 426 ==> full == Err::<u64, LoginFailure>(
                    LoginFailure::PolicyOutdated,
                )
                &&& status != 200 && status != 401 && status != 409 && status != 426 ==> full
                    == Err::<u64, LoginFailure>(LoginFailure::Service)
            }
        }),
{
    endpoints_are_checked(endpoint);
}

/// What a sign-out comes to: it is done where the service says so or does not
/// know the session.
pub proof fn sign_outs_are_judged(endpoint: Seq<char>, status: u16)
    ensures
        !is_usable(endpoint) ==> session::sign_out_verdict(endpoint, Some(status)) == Err::<
            (),
            LoginFailure,
        >(access::endpoint_fault(endpoint)->Some_0) && session::sign_out_verdict(endpoint, None)
            == session::sign_out_verdict(endpoint, Some(status)),
        is_usable(endpoint) ==> session::sign_out_verdict(endpoint, None) == Err::<
            (),
            LoginFailure,
        >(LoginFailure::Network),
        is_usable(endpoint) && (status == 200 || status == 401) ==> session::sign_out_verdict(
            endpoint,
            Some(status),
        ) is Ok,
        is_usable(endpoint) && status != 200 && status != 401 ==> session::sign_out_verdict(
            endpoint,
            Some(status),
        ) == Err::<(), LoginFailure>(LoginFailure::Service),
{
    endpoints_are_checked(endpoint);
}

/// A clock shows the whole seconds since the epoch, and fails before it. One that
/// fails is taken for the end of time, when nothing is valid.
pub proof fn clocks_show_whole_seconds(
    time: std::time::SystemTime,
    clock: Result<u64, LoginFailure>,
    failure: LoginFailure,
    session: SessionView,
    now: u64,
)
    ensures
        session::is_clock_reading(time, clock) && session::unix_nanos(time) >= 0 ==> (clock
            matches Ok(seconds) && seconds * 1_000_000_000 <= session::unix_nanos(time) < (seconds
            + 1) * 1_000_000_000),
        session::is_clock_reading(time, clock) && session::unix_nanos(time) < 0 ==> clock == Err::<
            u64,
            LoginFailure,
        >(LoginFailure::Service),
        session::closed_time(Ok(now)) == now,
        !session.valid_at(session::closed_time(Err(failure))),
        session.due_at(session::closed_time(Err(failure))),
{
}

/// What is said of sessions, records and answers is what they hold.
pub proof fn session_views_are_faithful(
    session: Session,
    record: StoredSession,
    login: LoginResponse,
    validation: SessionValidationResponse,
    confirmed: ValidatedSession,
    failure: LoginFailure,
    error: StoreError,
)
    ensures
        session@.token == session.token@,
        session@.expires_at_utc_unix == session.expires_at_utc_unix,
        session@.next_validation_utc_unix == session.next_validation_utc_unix,
        record@.token == record.token@,
        record@.expires_at_utc_unix == record.expires_at_utc_unix,
        record@.terms_version == record.terms_version@,
        record@.privacy_version == record.privacy_version@,
        login@.ok == login.ok,
        login@.session_token is Some <==> login.session_token is Some,
        login.session_token matches Some(token) ==> login@.session_token == Some(token@),
        login@.expires_at_utc_unix == login.expires_at_utc_unix,
        login@.terms_version == login.terms_version@,
        login@.privacy_version == login.privacy_version@,
        validation@.ok == validation.ok,
        validation@.expires_at_utc_unix == validation.expires_at_utc_unix,
        validation@.terms_version == validation.terms_version@,
        validation@.privacy_version == validation.privacy_version@,
        session::session_result(Ok(session)) == Ok::<SessionView, LoginFailure>(session@),
        session::session_result(Err(failure)) == Err::<SessionView, LoginFailure>(failure),
        session::expiry_result(Ok(confirmed)) == Ok::<u64, LoginFailure>(
            confirmed.expires_at_utc_unix,
        ),
        session::expiry_result(Err(failure)) == Err::<u64, LoginFailure>(failure),
        session::restored_outcome(Ok(Some(session))) matches Ok(Some(said)) && said == session@,
        session::restored_outcome(Ok(None)) matches Ok(None),
        session::restored_outcome(Err(error)) matches Err(said) && said == error@,
{
}

} // verus!
