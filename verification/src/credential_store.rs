//! Secure storage for the revocable preview-session token.
//!
//! Credentials are never written to settings or project files. The vaults of
//! macOS, Windows and Linux are asked by the application; how their answers
//! are understood is decided here. Other targets fail closed without a
//! plaintext fallback.

use crate::text;
use vstd::prelude::*;
use vstd::string::*;

verus! {

pub const SERVICE: &'static str = "com.reyn.studio.preview-access";

pub const ACCOUNT: &'static str = "session-v1";

/// The Keychain status of an item that is not there.
pub const KEYCHAIN_ITEM_NOT_FOUND: i32 = -25300;

/// The Credential Manager status of a record that is not there.
pub const CREDENTIAL_NOT_FOUND: u32 = 1168;

#[derive(Clone, Debug, PartialEq, Eq)]
pub enum StoreError {
    Unavailable(String),
    /// A Windows record without a secret, or a secret too long for one.
    Malformed,
}

/// What a [`StoreError`] says.
pub enum StoreErrorView {
    Unavailable(Seq<char>),
    Malformed,
}

impl View for StoreError {
    type V = StoreErrorView;

    open spec fn view(&self) -> StoreErrorView {
        match *self {
            StoreError::Unavailable(text) => StoreErrorView::Unavailable(text@),
            StoreError::Malformed => StoreErrorView::Malformed,
        }
    }
}

/// A place where one secret record can be kept.
pub trait SessionCredentialStore {
    fn load(&self) -> Result<Option<Vec<u8>>, StoreError>;

    fn save(&self, secret: &[u8]) -> Result<(), StoreError>;

    fn delete(&self) -> Result<(), StoreError>;
}

/// The outcome of reading a store, by what it holds.
pub open spec fn loaded(outcome: Result<Option<Vec<u8>>, StoreError>) -> Result<
    Option<Seq<u8>>,
    StoreErrorView,
> {
    match outcome {
        Ok(Some(secret)) => Ok(Some(secret@)),
        Ok(None) => Ok(None),
        Err(error) => Err(error@),
    }
}

/// The outcome of changing a store.
pub open spec fn changed(outcome: Result<(), StoreError>) -> Result<(), StoreErrorView> {
    match outcome {
        Ok(()) => Ok(()),
        Err(error) => Err(error@),
    }
}

/// `<failure> (status <code>)`.
pub open spec fn status_fault(failure: Seq<char>, code: int) -> StoreErrorView {
    StoreErrorView::Unavailable(failure + " (status "@ + text::signed_decimal(code) + ")"@)
}

fn status_error(failure: &str, code: i64) -> (r: StoreError)
    ensures
        r@ == status_fault(failure@, code as int),
{
    let mut message = failure.to_owned();
    message.append(" (status ");
    text::push_signed(&mut message, code);
    message.append(")");
    StoreError::Unavailable(message)
}

/// `<failure>: <reason>`.
pub open spec fn reasoned_fault(failure: Seq<char>, reason: Seq<char>) -> StoreErrorView {
    StoreErrorView::Unavailable(failure + ": "@ + reason)
}

fn reasoned_error(failure: &str, reason: &str) -> (r: StoreError)
    ensures
        r@ == reasoned_fault(failure@, reason@),
{
    let mut message = failure.to_owned();
    message.append(": ");
    message.append(reason);
    StoreError::Unavailable(message)
}

/// What the Keychain has, by its answer to a read.
pub open spec fn keychain_reading(answer: Result<Vec<u8>, i32>) -> Result<
    Option<Seq<u8>>,
    StoreErrorView,
> {
    match answer {
        Ok(secret) => Ok(Some(secret@)),
        Err(code) => if code == KEYCHAIN_ITEM_NOT_FOUND {
            Ok(None)
        } else {
            Err(status_fault("macOS Keychain read failed"@, code as int))
        },
    }
}

/// What the Keychain's answer to a read means: an item that is not there is no
/// failure.
pub fn keychain_loaded(answer: Result<Vec<u8>, i32>) -> (r: Result<Option<Vec<u8>>, StoreError>)
    ensures
        loaded(r) == (match answer {
            Ok(secret) => Ok(Some(secret@)),
            Err(code) => if code == KEYCHAIN_ITEM_NOT_FOUND {
                Ok(None)
            } else {
                Err(status_fault("macOS Keychain read failed"@, code as int))
            },
        }),
        loaded(r) == keychain_reading(answer),
{
    match answer {
        Ok(secret) => Ok(Some(secret)),
        Err(code) => if code == KEYCHAIN_ITEM_NOT_FOUND {
            Ok(None)
        } else {
            Err(status_error("macOS Keychain read failed", code as i64))
        },
    }
}

/// What the Keychain did, by its answer to a write.
pub open spec fn keychain_writing(answer: Result<(), i32>) -> Result<(), StoreErrorView> {
    match answer {
        Ok(()) => Ok(()),
        Err(code) => Err(status_fault("macOS Keychain write failed"@, code as int)),
    }
}

/// What the Keychain's answer to a write means.
pub fn keychain_saved(answer: Result<(), i32>) -> (r: Result<(), StoreError>)
    ensures
        changed(r) == (match answer {
            Ok(()) => Ok(()),
            Err(code) => Err(status_fault("macOS Keychain write failed"@, code as int)),
        }),
        changed(r) == keychain_writing(answer),
{
    match answer {
        Ok(()) => Ok(()),
        Err(code) => Err(status_error("macOS Keychain write failed", code as i64)),
    }
}

/// What the Keychain did, by its answer to a delete.
pub open spec fn keychain_deleting(answer: Result<(), i32>) -> Result<(), StoreErrorView> {
    match answer {
        Ok(()) => Ok(()),
        Err(code) => if code == KEYCHAIN_ITEM_NOT_FOUND {
            Ok(())
        } else {
            Err(status_fault("macOS Keychain delete failed"@, code as int))
        },
    }
}

/// What the Keychain's answer to a delete means: an item that is not there is
/// deleted.
pub fn keychain_deleted(answer: Result<(), i32>) -> (r: Result<(), StoreError>)
    ensures
        changed(r) == (match answer {
            Ok(()) => Ok(()),
            Err(code) => if code == KEYCHAIN_ITEM_NOT_FOUND {
                Ok(())
            } else {
                Err(status_fault("macOS Keychain delete failed"@, code as int))
            },
        }),
        changed(r) == keychain_deleting(answer),
{
    match answer {
        Ok(()) => Ok(()),
        Err(code) => if code == KEYCHAIN_ITEM_NOT_FOUND {
            Ok(())
        } else {
            Err(status_error("macOS Keychain delete failed", code as i64))
        },
    }
}

/// What the Credential Manager has, by its answer to a read.
pub open spec fn credential_reading(answer: Result<Option<Vec<u8>>, u32>) -> Result<
    Option<Seq<u8>>,
    StoreErrorView,
> {
    match answer {
        Ok(Some(secret)) => if secret@.len() == 0 {
            Err(StoreErrorView::Malformed)
        } else {
            Ok(Some(secret@))
        },
        Ok(None) => Err(StoreErrorView::Malformed),
        Err(code) => if code == CREDENTIAL_NOT_FOUND {
            Ok(None)
        } else {
            Err(status_fault("Windows Credential Manager read failed"@, code as int))
        },
    }
}

/// What the Credential Manager's answer to a read means. `Ok(None)` stands for
/// success without a record; a record without bytes holds no secret.
pub fn credential_loaded(answer: Result<Option<Vec<u8>>, u32>) -> (r: Result<
    Option<Vec<u8>>,
    StoreError,
>)
    ensures
        loaded(r) == (match answer {
            Ok(Some(secret)) => if secret@.len() == 0 {
                Err(StoreErrorView::Malformed)
            } else {
                Ok(Some(secret@))
            },
            Ok(None) => Err(StoreErrorView::Malformed),
            Err(code) => if code == CREDENTIAL_NOT_FOUND {
                Ok(None)
            } else {
                Err(status_fault("Windows Credential Manager read failed"@, code as int))
            },
        }),
        loaded(r) == credential_reading(answer),
{
    match answer {
        Ok(Some(secret)) => if secret.len() == 0 {
            Err(StoreError::Malformed)
        } else {
            Ok(Some(secret))
        },
        Ok(None) => Err(StoreError::Malformed),
        Err(code) => if code == CREDENTIAL_NOT_FOUND {
            Ok(None)
        } else {
            Err(status_error("Windows Credential Manager read failed", code as i64))
        },
    }
}

/// The size field for a secret of this length.
pub open spec fn blob_size(length: usize) -> Result<u32, StoreError> {
    if length <= u32::MAX {
        Ok(length as u32)
    } else {
        Err(StoreError::Malformed)
    }
}

/// The size field of a Credential Manager record for a secret of this length.
pub fn credential_blob_size(length: usize) -> (r: Result<u32, StoreError>)
    ensures
        length <= u32::MAX ==> r == Ok::<u32, StoreError>(length as u32),
        length > u32::MAX ==> r == Err::<u32, StoreError>(StoreError::Malformed),
        r == blob_size(length),
{
    if length as u64 <= 0xffff_ffff {
        Ok(length as u32)
    } else {
        Err(StoreError::Malformed)
    }
}

/// What the Credential Manager did, by its answer to a write.
pub open spec fn credential_writing(answer: Result<(), u32>) -> Result<(), StoreErrorView> {
    match answer {
        Ok(()) => Ok(()),
        Err(code) => Err(status_fault("Windows Credential Manager write failed"@, code as int)),
    }
}

/// What the Credential Manager's answer to a write means.
pub fn credential_saved(answer: Result<(), u32>) -> (r: Result<(), StoreError>)
    ensures
        changed(r) == (match answer {
            Ok(()) => Ok(()),
            Err(code) => Err(status_fault("Windows Credential Manager write failed"@, code as int)),
        }),
        changed(r) == credential_writing(answer),
{
    match answer {
        Ok(()) => Ok(()),
        Err(code) => Err(status_error("Windows Credential Manager write failed", code as i64)),
    }
}

/// What the Credential Manager did, by its answer to a delete.
pub open spec fn credential_deleting(answer: Result<(), u32>) -> Result<(), StoreErrorView> {
    match answer {
        Ok(()) => Ok(()),
        Err(code) => if code == CREDENTIAL_NOT_FOUND {
            Ok(())
        } else {
            Err(status_fault("Windows Credential Manager delete failed"@, code as int))
        },
    }
}

/// What the Credential Manager's answer to a delete means: a record that is
/// not there is deleted.
pub fn credential_deleted(answer: Result<(), u32>) -> (r: Result<(), StoreError>)
    ensures
        changed(r) == (match answer {
            Ok(()) => Ok(()),
            Err(code) => if code == CREDENTIAL_NOT_FOUND {
                Ok(())
            } else {
                Err(status_fault("Windows Credential Manager delete failed"@, code as int))
            },
        }),
        changed(r) == credential_deleting(answer),
{
    match answer {
        Ok(()) => Ok(()),
        Err(code) => if code == CREDENTIAL_NOT_FOUND {
            Ok(())
        } else {
            Err(status_error("Windows Credential Manager delete failed", code as i64))
        },
    }
}

/// The UTF-16 code units of one character: itself, or a surrogate pair.
pub open spec fn utf16_units(c: char) -> Seq<u16> {
    if c as u32 <= 0xffff {
        seq![c as u16]
    } else {
        seq![
            (0xd800 + (c as u32 - 0x10000) / 0x400) as u16,
            (0xdc00 + (c as u32 - 0x10000) % 0x400) as u16,
        ]
    }
}

/// The UTF-16 code units of a text.
pub open spec fn utf16(text: Seq<char>) -> Seq<u16>
    decreases text.len(),
{
    if text.len() == 0 {
        Seq::empty()
    } else {
        utf16(text.drop_last()) + utf16_units(text.last())
    }
}

/// Appends the code units of `c`.
fn push_utf16(out: &mut Vec<u16>, c: char)
    ensures
        final(out)@ == old(out)@ + utf16_units(c),
{
    let n: u32 = c as u32;
    if n <= 0xffff {
        out.push(n as u16);
    } else {
        let above: u32 = n - 0x10000;
        out.push((0xd800 + above / 0x400) as u16);
        out.push((0xdc00 + above % 0x400) as u16);
    }
    proof {
        assert(out@ =~= old(out)@ + utf16_units(c));
    }
}

/// A text as Windows takes it.
pub open spec fn wide_text(text: Seq<char>) -> Seq<u16> {
    utf16(text).push(0)
}

/// The text in UTF-16, ended by a zero.
pub fn wide(value: &str) -> (r: Vec<u16>)
    ensures
        r@ == utf16(value@).push(0),
        r@ == wide_text(value@),
{
    let chars = text::chars_of(value);
    let mut out: Vec<u16> = Vec::new();
    let mut i: usize = 0;
    while i < chars.len()
        invariant
            i <= chars@.len(),
            out@ == utf16(chars@.take(i as int)),
        decreases chars@.len() - i,
    {
        push_utf16(&mut out, chars[i]);
        proof {
            let read = chars@.take(i as int + 1);
            assert(read.drop_last() =~= chars@.take(i as int));
            assert(out@ =~= utf16(read.drop_last()) + utf16_units(read.last()));
        }
        i += 1;
    }
    proof {
        assert(chars@.take(i as int) =~= value@);
    }
    out.push(0);
    out
}

/// Why the Secret Service did not do what it was asked.
pub enum SecretServiceFailure {
    NoEntry,
    Failed(String),
}

/// An entry that cannot be addressed.
pub open spec fn unaddressed_fault(reason: Seq<char>) -> StoreErrorView {
    reasoned_fault("Linux Secret Service entry failed"@, reason)
}

/// The entry could not be addressed at all.
pub fn secret_service_unaddressed(reason: &str) -> (r: StoreError)
    ensures
        r@ == reasoned_fault("Linux Secret Service entry failed"@, reason@),
        r@ == unaddressed_fault(reason@),
{
    reasoned_error("Linux Secret Service entry failed", reason)
}

/// What the Secret Service has, by its answer to a read.
pub open spec fn secret_service_reading(answer: Result<Vec<u8>, SecretServiceFailure>) -> Result<
    Option<Seq<u8>>,
    StoreErrorView,
> {
    match answer {
        Ok(secret) => Ok(Some(secret@)),
        Err(SecretServiceFailure::NoEntry) => Ok(None),
        Err(SecretServiceFailure::Failed(reason)) => Err(
            reasoned_fault("Linux Secret Service read failed"@, reason@),
        ),
    }
}

/// What the Secret Service's answer to a read means: an entry that is not
/// there is no failure.
pub fn secret_service_loaded(answer: Result<Vec<u8>, SecretServiceFailure>) -> (r: Result<
    Option<Vec<u8>>,
    StoreError,
>)
    ensures
        loaded(r) == (match answer {
            Ok(secret) => Ok(Some(secret@)),
            Err(SecretServiceFailure::NoEntry) => Ok(None),
            Err(SecretServiceFailure::Failed(reason)) => Err(
                reasoned_fault("Linux Secret Service read failed"@, reason@),
            ),
        }),
        loaded(r) == secret_service_reading(answer),
{
    match answer {
        Ok(secret) => Ok(Some(secret)),
        Err(SecretServiceFailure::NoEntry) => Ok(None),
        Err(SecretServiceFailure::Failed(reason)) => Err(
            reasoned_error("Linux Secret Service read failed", reason.as_str()),
        ),
    }
}

/// What the Secret Service did, by its answer to a write.
pub open spec fn secret_service_writing(answer: Result<(), String>) -> Result<(), StoreErrorView> {
    match answer {
        Ok(()) => Ok(()),
        Err(reason) => Err(reasoned_fault("Linux Secret Service write failed"@, reason@)),
    }
}

/// What the Secret Service's answer to a write means.
pub fn secret_service_saved(answer: Result<(), String>) -> (r: Result<(), StoreError>)
    ensures
        changed(r) == (match answer {
            Ok(()) => Ok(()),
            Err(reason) => Err(reasoned_fault("Linux Secret Service write failed"@, reason@)),
        }),
        changed(r) == secret_service_writing(answer),
{
    match answer {
        Ok(()) => Ok(()),
        Err(reason) => Err(reasoned_error("Linux Secret Service write failed", reason.as_str())),
    }
}

/// What the Secret Service did, by its answer to a delete.
pub open spec fn secret_service_deleting(answer: Result<(), SecretServiceFailure>) -> Result<(), StoreErrorView> {
    match answer {
        Ok(()) => Ok(()),
        Err(SecretServiceFailure::NoEntry) => Ok(()),
        Err(SecretServiceFailure::Failed(reason)) => Err(
            reasoned_fault("Linux Secret Service delete failed"@, reason@),
        ),
    }
}

/// What the Secret Service's answer to a delete means: an entry that is not
/// there is deleted.
pub fn secret_service_deleted(answer: Result<(), SecretServiceFailure>) -> (r: Result<
    (),
    StoreError,
>)
    ensures
        changed(r) == (match answer {
            Ok(()) => Ok(()),
            Err(SecretServiceFailure::NoEntry) => Ok(()),
            Err(SecretServiceFailure::Failed(reason)) => Err(
                reasoned_fault("Linux Secret Service delete failed"@, reason@),
            ),
        }),
        changed(r) == secret_service_deleting(answer),
{
    match answer {
        Ok(()) => Ok(()),
        Err(SecretServiceFailure::NoEntry) => Ok(()),
        Err(SecretServiceFailure::Failed(reason)) => Err(
            reasoned_error("Linux Secret Service delete failed", reason.as_str()),
        ),
    }
}

/// The store of a platform without a credential vault: it keeps nothing, and
/// says so.
#[derive(Clone, Copy, Debug, Default)]
pub struct AbsentCredentialStore;

pub open spec fn no_vault() -> StoreErrorView {
    StoreErrorView::Unavailable("No native credential store is available on this platform"@)
}

impl SessionCredentialStore for AbsentCredentialStore {
    fn load(&self) -> (r: Result<Option<Vec<u8>>, StoreError>)
        ensures
            loaded(r) == Err::<Option<Seq<u8>>, StoreErrorView>(no_vault()),
    {
        Err(
            StoreError::Unavailable(
                "No native credential store is available on this platform".to_owned(),
            ),
        )
    }

    fn save(&self, _secret: &[u8]) -> (r: Result<(), StoreError>)
        ensures
            changed(r) == Err::<(), StoreErrorView>(no_vault()),
    {
        Err(
            StoreError::Unavailable(
                "No native credential store is available on this platform".to_owned(),
            ),
        )
    }

    fn delete(&self) -> (r: Result<(), StoreError>)
        ensures
            r == Ok::<(), StoreError>(()),
    {
        Ok(())
    }
}

} // verus!
