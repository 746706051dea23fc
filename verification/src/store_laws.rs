//! What holds of the credential vaults: what each of their answers means, and how
//! text is handed to them.

use crate::credential_store;
use crate::credential_store::{SecretServiceFailure, StoreError, StoreErrorView};
use crate::text;
use vstd::prelude::*;

verus! {

/// A failure with its status, as it is told.
pub open spec fn told_status(failure: Seq<char>, code: int) -> StoreErrorView {
    StoreErrorView::Unavailable(
        failure + " (status "@ + (if code < 0 {
            seq!['-'] + text::decimal((-code) as nat)
        } else {
            text::decimal(code as nat)
        }) + ")"@,
    )
}

/// A failure with its reason, as it is told.
pub open spec fn told_reason(failure: Seq<char>, reason: Seq<char>) -> StoreErrorView {
    StoreErrorView::Unavailable(failure + ": "@ + reason)
}

proof fn lemma_told_status(failure: Seq<char>, code: int)
    ensures
        credential_store::status_fault(failure, code) == told_status(failure, code),
{
}

/// What the Keychain's answers mean. The status -25300 says that there is no item:
/// then there is nothing to read, and nothing left to delete; a write fails with
/// it as with any other.
pub proof fn keychain_answers_are_understood(secret: Vec<u8>, code: i32)
    ensures
        credential_store::keychain_reading(Ok(secret)) == Ok::<Option<Seq<u8>>, StoreErrorView>(
            Some(secret@),
        ),
        code == -25300 ==> credential_store::keychain_reading(Err(code)) == Ok::<
            Option<Seq<u8>>,
            StoreErrorView,
        >(None),
        code != -25300 ==> credential_store::keychain_reading(Err(code)) == Err::<
            Option<Seq<u8>>,
            StoreErrorView,
        >(told_status("macOS Keychain read failed"@, code as int)),
        credential_store::keychain_writing(Ok(())) is Ok,
        credential_store::keychain_writing(Err(code)) == Err::<(), StoreErrorView>(
            told_status("macOS Keychain write failed"@, code as int),
        ),
        credential_store::keychain_deleting(Ok(())) is Ok,
        code == -25300 ==> credential_store::keychain_deleting(Err(code)) is Ok,
        code != -25300 ==> credential_store::keychain_deleting(Err(code)) == Err::<
            (),
            StoreErrorView,
        >(told_status("macOS Keychain delete failed"@, code as int)),
{
    lemma_told_status("macOS Keychain read failed"@, code as int);
    lemma_told_status("macOS Keychain write failed"@, code as int);
    lemma_told_status("macOS Keychain delete failed"@, code as int);
}

/// What the Credential Manager's answers mean. The status 1168 says that there is
/// no record; a record without bytes, or none at all after a success, is
/// malformed; a secret has to fit a 32-bit size.
pub proof fn credential_answers_are_understood(secret: Vec<u8>, code: u32, length: usize)
    ensures
        secret@.len() > 0 ==> credential_store::credential_reading(Ok(Some(secret))) == Ok::<
            Option<Seq<u8>>,
            StoreErrorView,
        >(Some(secret@)),
        secret@.len() == 0 ==> credential_store::credential_reading(Ok(Some(secret))) == Err::<
            Option<Seq<u8>>,
            StoreErrorView,
        >(StoreErrorView::Malformed),
        credential_store::credential_reading(Ok(None)) == Err::<Option<Seq<u8>>, StoreErrorView>(
            StoreErrorView::Malformed,
        ),
        code == 1168 ==> credential_store::credential_reading(Err(code)) == Ok::<
            Option<Seq<u8>>,
            StoreErrorView,
        >(None),
        code != 1168 ==> credential_store::credential_reading(Err(code)) == Err::<
            Option<Seq<u8>>,
            StoreErrorView,
        >(told_status("Windows Credential Manager read failed"@, code as int)),
        credential_store::credential_writing(Ok(())) is Ok,
        credential_store::credential_writing(Err(code)) == Err::<(), StoreErrorView>(
            told_status("Windows Credential Manager write failed"@, code as int),
        ),
        credential_store::credential_deleting(Ok(())) is Ok,
        code == 1168 ==> credential_store::credential_deleting(Err(code)) is Ok,
        code != 1168 ==> credential_store::credential_deleting(Err(code)) == Err::<
            (),
            StoreErrorView,
        >(told_status("Windows Credential Manager delete failed"@, code as int)),
        length < 4_294_967_296 ==> (credential_store::blob_size(length) matches Ok(size) && size
            == length),
        length >= 4_294_967_296 ==> credential_store::blob_size(length) == Err::<u32, StoreError>(
            StoreError::Malformed,
        ),
{
    lemma_told_status("Windows Credential Manager read failed"@, code as int);
    lemma_told_status("Windows Credential Manager write failed"@, code as int);
    lemma_told_status("Windows Credential Manager delete failed"@, code as int);
}

/// What the Secret Service's answers mean: an entry that is not there is nothing
/// to read and nothing left to delete.
pub proof fn secret_service_answers_are_understood(secret: Vec<u8>, reason: String)
    ensures
        credential_store::secret_service_reading(Ok(secret)) == Ok::<
            Option<Seq<u8>>,
            StoreErrorView,
        >(Some(secret@)),
        credential_store::secret_service_reading(Err(SecretServiceFailure::NoEntry)) == Ok::<
            Option<Seq<u8>>,
            StoreErrorView,
        >(None),
        credential_store::secret_service_reading(Err(SecretServiceFailure::Failed(reason)))
            == Err::<Option<Seq<u8>>, StoreErrorView>(
            told_reason("Linux Secret Service read failed"@, reason@),
        ),
        credential_store::secret_service_writing(Ok(())) is Ok,
        credential_store::secret_service_writing(Err(reason)) == Err::<(), StoreErrorView>(
            told_reason("Linux Secret Service write failed"@, reason@),
        ),
        credential_store::secret_service_deleting(Ok(())) is Ok,
        credential_store::secret_service_deleting(Err(SecretServiceFailure::NoEntry)) is Ok,
        credential_store::secret_service_deleting(Err(SecretServiceFailure::Failed(reason)))
            == Err::<(), StoreErrorView>(
            told_reason("Linux Secret Service delete failed"@, reason@),
        ),
        credential_store::unaddressed_fault(reason@) == told_reason(
            "Linux Secret Service entry failed"@,
            reason@,
        ),
{
}

/// A platform without a vault says so, and what is said of a store's outcome is
/// what it holds.
pub proof fn store_views_are_faithful(secret: Vec<u8>, message: String, error: StoreError)
    ensures
        credential_store::no_vault() == StoreErrorView::Unavailable(
            "No native credential store is available on this platform"@,
        ),
        StoreError::Unavailable(message)@ == StoreErrorView::Unavailable(message@),
        StoreError::Malformed@ == StoreErrorView::Malformed,
        credential_store::loaded(Ok(Some(secret))) == Ok::<Option<Seq<u8>>, StoreErrorView>(
            Some(secret@),
        ),
        credential_store::loaded(Ok(None)) == Ok::<Option<Seq<u8>>, StoreErrorView>(None),
        credential_store::loaded(Err(error)) == Err::<Option<Seq<u8>>, StoreErrorView>(error@),
        credential_store::changed(Ok(())) is Ok,
        credential_store::changed(Err(error)) == Err::<(), StoreErrorView>(error@),
{
}

/// The code units that stand for one character: below 0x10000 its own number;
/// above, a high and a low surrogate that carry what is left, ten bits each.
pub open spec fn stands_for(units: Seq<u16>, c: char) -> bool {
    ||| (c as u32) < 0x1_0000 && units.len() == 1 && units[0] == c as u32
    ||| (c as u32) >= 0x1_0000 && units.len() == 2 && 0xd800 <= units[0] < 0xdc00 && 0xdc00
        <= units[1] < 0xe000 && 0x1_0000 + (units[0] - 0xd800) * 0x400 + (units[1] - 0xdc00)
        == c as u32
}

proof fn lemma_utf16_adds(left: Seq<char>, right: Seq<char>)
    ensures
        credential_store::utf16(left + right) == credential_store::utf16(left)
            + credential_store::utf16(right),
    decreases right.len(),
{
    if right.len() == 0 {
        assert(left + right =~= left);
        assert(credential_store::utf16(left) + credential_store::utf16(right)
            =~= credential_store::utf16(left));
    } else {
        let all = left + right;
        assert(all.drop_last() =~= left + right.drop_last());
        assert(all.last() == right.last());
        lemma_utf16_adds(left, right.drop_last());
        assert(credential_store::utf16(all) =~= credential_store::utf16(left)
            + credential_store::utf16(right));
    }
}

/// A text is written in UTF-16 character by character, in order, and closed by a
/// zero.
pub proof fn wide_texts_are_utf16(left: Seq<char>, c: char, right: Seq<char>)
    ensures
        stands_for(credential_store::utf16(seq![c]), c),
        credential_store::utf16(left + right) == credential_store::utf16(left)
            + credential_store::utf16(right),
        credential_store::utf16(Seq::empty()).len() == 0,
        credential_store::wide_text(left).drop_last() == credential_store::utf16(left),
        credential_store::wide_text(left).last() == 0,
        credential_store::wide_text(left).len() == credential_store::utf16(left).len() + 1,
{
    lemma_utf16_adds(left, right);
    let one = seq![c];
    assert(one.drop_last() =~= Seq::<char>::empty());
    reveal_with_fuel(credential_store::utf16, 2);
    assert(credential_store::utf16(one) =~= credential_store::utf16_units(c));
    assert(credential_store::wide_text(left).drop_last() =~= credential_store::utf16(left));
    let above = (c as u32 - 0x1_0000) as int;
    if above >= 0 {
        assert(c as u32 <= 0x10_ffff);
        assert(above / 0x400 * 0x400 + above % 0x400 == above);
        assert(0 <= above / 0x400 < 0x400);
    }
}

} // verus!
