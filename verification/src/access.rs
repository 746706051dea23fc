//! The invitation-only access gate of official preview binaries: its
//! configuration, its failures and the contract that a build prints.
//!
//! A build is gated only when it was made with both the required flag and an
//! endpoint, which names the access service; with an endpoint that cannot be
//! used it stays locked. Credentials and server secrets never enter a binary.

use crate::json;
use crate::json::{JsonValue, JsonValueView};
use crate::text;
use vstd::prelude::*;
use vstd::string::*;

verus! {

pub const TERMS_VERSION: &'static str = "1.0";

pub const PRIVACY_VERSION: &'static str = "1.0";

pub const RESPONSE_LIMIT_BYTES: u64 = 32_768;

pub const REQUEST_TIMEOUT_SECONDS: u64 = 15;

pub const MAX_SESSION_LIFETIME_SECONDS: u64 = 86_400;

pub const SESSION_REVALIDATION_SECONDS: u64 = 900;

/// Why access was not granted.
#[derive(Clone, Copy, Debug, PartialEq, Eq)]
pub enum LoginFailure {
    Configuration(&'static str),
    InvalidCredentials,
    RateLimited,
    PolicyOutdated,
    InvalidSession,
    SessionExpired,
    Network,
    Service,
}

/// What the operator is told of a failure.
pub open spec fn failure_text(failure: LoginFailure) -> Seq<char> {
    match failure {
        LoginFailure::Configuration(message) => message@,
        LoginFailure::InvalidCredentials => "That username or password was not accepted."@,
        LoginFailure::RateLimited => "Too many attempts. Wait one minute, then try again."@,
        LoginFailure::PolicyOutdated => "This build uses an outdated legal version. Download the latest official build."@,
        LoginFailure::InvalidSession => "Your saved access is no longer valid. Sign in again to continue."@,
        LoginFailure::SessionExpired => "Your preview session expired. Sign in again to continue."@,
        LoginFailure::Network => "Reyn could not reach the access service. Check your connection and try again."@,
        LoginFailure::Service => "The access service is unavailable. Try again shortly."@,
    }
}

impl LoginFailure {
    pub fn message(self) -> (r: &'static str)
        ensures
            r@ == failure_text(self),
    {
        match self {
            Self::Configuration(message) => message,
            Self::InvalidCredentials => "That username or password was not accepted.",
            Self::RateLimited => "Too many attempts. Wait one minute, then try again.",
            Self::PolicyOutdated => "This build uses an outdated legal version. Download the latest official build.",
            Self::InvalidSession => "Your saved access is no longer valid. Sign in again to continue.",
            Self::SessionExpired => "Your preview session expired. Sign in again to continue.",
            Self::Network => "Reyn could not reach the access service. Check your connection and try again.",
            Self::Service => "The access service is unavailable. Try again shortly.",
        }
    }
}

/// A build is gated: its required flag is exactly `1` and it has an endpoint.
pub open spec fn is_gated(flag: Option<Seq<char>>, endpoint: Option<Seq<char>>) -> bool {
    flag == Some("1"@) && endpoint is Some
}

/// Whether a build with this required flag and endpoint is gated.
pub fn access_required(flag: Option<&str>, endpoint: Option<&str>) -> (r: bool)
    ensures
        r == is_gated(optional_chars(flag), optional_chars(endpoint)),
{
    match (flag, endpoint) {
        (Some(value), Some(_)) => text::same_text(value, "1"),
        _ => false,
    }
}

pub open spec fn uses_https(endpoint: Seq<char>) -> bool {
    text::occurs_at(endpoint, "https://"@, 0)
}

/// A character that no endpoint may hold: one that would carry credentials or a
/// fragment, or white space.
pub open spec fn is_forbidden_in_endpoint(c: char) -> bool {
    c == '@' || c == '#' || text::is_white_space(c)
}

/// Why an endpoint cannot be used, if it cannot.
pub open spec fn endpoint_fault(endpoint: Seq<char>) -> Option<LoginFailure> {
    if !uses_https(endpoint) {
        Some(LoginFailure::Configuration("The preview access endpoint must use HTTPS."))
    } else if exists|i: int| 0 <= i < endpoint.len() && is_forbidden_in_endpoint(#[trigger] endpoint[i]) {
        Some(LoginFailure::Configuration("The preview access endpoint is malformed."))
    } else {
        None
    }
}

/// Accepts an endpoint only when it uses HTTPS and holds neither credentials
/// nor a fragment nor white space.
pub fn validate_endpoint(endpoint: &str) -> (r: Result<(), LoginFailure>)
    ensures
        r == (match endpoint_fault(endpoint@) {
            Some(failure) => Err(failure),
            None => Ok::<(), LoginFailure>(()),
        }),
{
    let chars = text::chars_of(endpoint);
    if !text::begins_with(chars.as_slice(), "https://") {
        return Err(LoginFailure::Configuration("The preview access endpoint must use HTTPS."));
    }
    let mut i: usize = 0;
    while i < chars.len()
        invariant
            i <= chars@.len(),
            chars@ == endpoint@,
            uses_https(endpoint@),
            forall|j: int| 0 <= j < i ==> !is_forbidden_in_endpoint(#[trigger] endpoint@[j]),
        decreases chars@.len() - i,
    {
        let c: char = chars[i];
        if c == '@' || c == '#' || text::white_space(c) {
            proof {
                assert(is_forbidden_in_endpoint(endpoint@[i as int]));
            }
            return Err(LoginFailure::Configuration("The preview access endpoint is malformed."));
        }
        i += 1;
    }
    Ok(())
}

/// Why a build has no usable endpoint, if it has none.
pub open spec fn configured_fault(configured: Option<Seq<char>>) -> Option<LoginFailure> {
    match configured {
        None => Some(
            LoginFailure::Configuration("This official preview was built without an access endpoint."),
        ),
        Some(endpoint) => endpoint_fault(endpoint),
    }
}

/// The characters of optional text.
pub open spec fn optional_chars(text: Option<&str>) -> Option<Seq<char>> {
    match text {
        Some(text) => Some(text@),
        None => None,
    }
}

/// The endpoint that a build was made with, if it can be used.
pub fn configured_endpoint<'a>(configured: Option<&'a str>) -> (r: Result<&'a str, LoginFailure>)
    ensures
        match configured_fault(optional_chars(configured)) {
            Some(failure) => r == Err::<&'a str, LoginFailure>(failure),
            None => configured matches Some(endpoint) && r == Ok::<&'a str, LoginFailure>(endpoint),
        },
{
    match configured {
        None => Err(
            LoginFailure::Configuration("This official preview was built without an access endpoint."),
        ),
        Some(endpoint) => match validate_endpoint(endpoint) {
            Ok(()) => Ok(endpoint),
            Err(failure) => Err(failure),
        },
    }
}

/// A command line that asks for the build contract.
pub open spec fn asks_for_contract(args: Seq<String>) -> bool {
    args.len() == 2 && args[1]@ == "--print-access-contract"@
}

/// Whether a command line asks for the build contract: the one switch, after
/// the name of the executable, and nothing else.
pub fn print_build_contract_requested(args: Vec<String>) -> (r: bool)
    ensures
        r == (args@.len() == 2 && args@[1]@ == "--print-access-contract"@),
        r == asks_for_contract(args@),
{
    args.len() == 2 && text::same_text(args[1].as_str(), "--print-access-contract")
}

#[derive(Clone, Copy, Debug, PartialEq, Eq, Structural)]
pub enum StudioLifecycleAction {
    Keep,
    Start,
    Drop,
}

/// The studio may run: the build is not gated, or access is granted.
pub open spec fn studio_may_run(gate_required: bool, access_granted: bool) -> bool {
    !gate_required || access_granted
}

/// What to do with the studio so that it runs exactly when it may.
pub open spec fn lifecycle(
    gate_required: bool,
    access_granted: bool,
    studio_running: bool,
) -> StudioLifecycleAction {
    if studio_may_run(gate_required, access_granted) == studio_running {
        StudioLifecycleAction::Keep
    } else if studio_running {
        StudioLifecycleAction::Drop
    } else {
        StudioLifecycleAction::Start
    }
}

pub fn studio_lifecycle_action(
    gate_required: bool,
    access_granted: bool,
    studio_running: bool,
) -> (r: StudioLifecycleAction)
    ensures
        r == lifecycle(gate_required, access_granted, studio_running),
{
    let should_run: bool = !gate_required || access_granted;
    match (should_run, studio_running) {
        (true, false) => StudioLifecycleAction::Start,
        (false, true) => StudioLifecycleAction::Drop,
        _ => StudioLifecycleAction::Keep,
    }
}

/// What the build contract says: the schema, whether the build is gated, its
/// endpoint where that is usable, and the legal versions. Nothing else.
pub open spec fn contract_members(required: bool, endpoint: Option<Seq<char>>) -> Map<
    Seq<char>,
    JsonValueView,
> {
    json::no_members().insert(
        "schema"@,
        JsonValueView::Text("com.reyn.studio.preview-access/1"@),
    ).insert("required"@, JsonValueView::Flag(required)).insert(
        "endpoint"@,
        match endpoint {
            Some(endpoint) if endpoint_fault(endpoint) is None => JsonValueView::Text(endpoint),
            _ => JsonValueView::Null,
        },
    ).insert("terms_version"@, JsonValueView::Text(TERMS_VERSION@)).insert(
        "privacy_version"@,
        JsonValueView::Text(PRIVACY_VERSION@),
    )
}

/// What a build says that was made with this required flag and endpoint.
pub open spec fn build_members(flag: Option<Seq<char>>, configured: Option<Seq<char>>) -> Map<
    Seq<char>,
    JsonValueView,
> {
    contract_members(is_gated(flag, configured), configured)
}

/// The contract of a build that was made with this required flag and endpoint.
pub fn build_contract_json(required_flag: Option<&str>, configured: Option<&str>) -> (r: String)
    ensures
        r@ == json::object_text(
            contract_members(
                is_gated(optional_chars(required_flag), optional_chars(configured)),
                optional_chars(configured),
            ),
        ),
        r@ == json::object_text(
            build_members(optional_chars(required_flag), optional_chars(configured)),
        ),
{
    let endpoint = match configured {
        Some(endpoint) => match validate_endpoint(endpoint) {
            Ok(()) => JsonValue::Text(endpoint.to_owned()),
            Err(_) => JsonValue::Null,
        },
        None => JsonValue::Null,
    };
    let mut object = json::empty_object();
    json::set_member(
        &mut object,
        "schema",
        JsonValue::Text("com.reyn.studio.preview-access/1".to_owned()),
    );
    json::set_member(&mut object, "required", JsonValue::Flag(access_required(required_flag, configured)));
    json::set_member(&mut object, "endpoint", endpoint);
    json::set_member(&mut object, "terms_version", JsonValue::Text(TERMS_VERSION.to_owned()));
    json::set_member(&mut object, "privacy_version", JsonValue::Text(PRIVACY_VERSION.to_owned()));
    json::write_object(object)
}

} // verus!
