use reyn_studio::credential_store::{
    credential_blob_size, credential_deleted, credential_loaded, credential_saved,
    keychain_deleted, keychain_loaded, keychain_saved, secret_service_deleted,
    secret_service_loaded, secret_service_saved, secret_service_unaddressed, wide,
    AbsentCredentialStore, SecretServiceFailure, SessionCredentialStore, StoreError, ACCOUNT,
    SERVICE,
};
use reyn_studio::text::{
    begins_with, blank, contains, decimal_text, parse_unsigned, push_signed, to_upper, trimmed,
    white_space,
};

fn unavailable<T>(text: &str) -> Result<T, StoreError> {
    Err(StoreError::Unavailable(text.to_owned()))
}

#[test]
fn keychain_answers_are_understood() {
    assert_eq!(keychain_loaded(Ok(vec![1, 2])), Ok(Some(vec![1, 2])));
    assert_eq!(keychain_loaded(Err(-25300)), Ok(None));
    assert_eq!(
        keychain_loaded(Err(-25293)),
        unavailable("macOS Keychain read failed (status -25293)")
    );
    assert_eq!(keychain_saved(Ok(())), Ok(()));
    assert_eq!(
        keychain_saved(Err(-25300)),
        unavailable("macOS Keychain write failed (status -25300)")
    );
    assert_eq!(keychain_deleted(Err(-25300)), Ok(()));
    assert_eq!(keychain_deleted(Ok(())), Ok(()));
    assert_eq!(
        keychain_deleted(Err(i32::MIN)),
        unavailable("macOS Keychain delete failed (status -2147483648)")
    );
}

#[test]
fn credential_manager_answers_are_understood() {
    assert_eq!(credential_loaded(Ok(Some(vec![9]))), Ok(Some(vec![9])));
    assert_eq!(credential_loaded(Ok(Some(vec![]))), Err(StoreError::Malformed));
    assert_eq!(credential_loaded(Ok(None)), Err(StoreError::Malformed));
    assert_eq!(credential_loaded(Err(1168)), Ok(None));
    assert_eq!(
        credential_loaded(Err(5)),
        unavailable("Windows Credential Manager read failed (status 5)")
    );
    assert_eq!(credential_saved(Ok(())), Ok(()));
    assert_eq!(
        credential_saved(Err(1168)),
        unavailable("Windows Credential Manager write failed (status 1168)")
    );
    assert_eq!(credential_deleted(Err(1168)), Ok(()));
    assert_eq!(
        credential_deleted(Err(u32::MAX)),
        unavailable("Windows Credential Manager delete failed (status 4294967295)")
    );
    assert_eq!(credential_blob_size(512), Ok(512));
    assert_eq!(credential_blob_size(u32::MAX as usize + 1), Err(StoreError::Malformed));
}

#[test]
fn secret_service_answers_are_understood() {
    assert_eq!(secret_service_loaded(Ok(vec![3])), Ok(Some(vec![3])));
    assert_eq!(secret_service_loaded(Err(SecretServiceFailure::NoEntry)), Ok(None));
    assert_eq!(
        secret_service_loaded(Err(SecretServiceFailure::Failed("locked".into()))),
        unavailable("Linux Secret Service read failed: locked")
    );
    assert_eq!(secret_service_saved(Ok(())), Ok(()));
    assert_eq!(
        secret_service_saved(Err("locked".into())),
        unavailable("Linux Secret Service write failed: locked")
    );
    assert_eq!(secret_service_deleted(Ok(())), Ok(()));
    assert_eq!(secret_service_deleted(Err(SecretServiceFailure::NoEntry)), Ok(()));
    assert_eq!(
        secret_service_deleted(Err(SecretServiceFailure::Failed("locked".into()))),
        unavailable("Linux Secret Service delete failed: locked")
    );
    assert_eq!(
        secret_service_unaddressed("no bus"),
        StoreError::Unavailable("Linux Secret Service entry failed: no bus".into())
    );
}

#[test]
fn platforms_without_a_vault_fail_closed() {
    let store = AbsentCredentialStore;
    let reason = "No native credential store is available on this platform";
    assert_eq!(store.load(), unavailable(reason));
    assert_eq!(store.save(b"secret"), unavailable(reason));
    assert_eq!(store.delete(), Ok(()));
}

#[test]
fn wide_text_is_utf16_with_a_final_zero() {
    for text in [SERVICE, ACCOUNT, "", "é", "\u{ffff}", "a\u{10000}b", "\u{10ffff}😀"] {
        let expected: Vec<u16> = text.encode_utf16().chain(std::iter::once(0)).collect();
        assert_eq!(wide(text), expected);
    }
}

#[test]
fn white_space_is_that_of_unicode() {
    for c in '\0'..=char::MAX {
        assert_eq!(white_space(c), c.is_whitespace(), "{:?}", c);
    }
}

#[test]
fn text_helpers_agree_with_the_standard_library() {
    let chars = |text: &str| text.chars().collect::<Vec<char>>();
    for text in ["", " ", "a", " a b ", "\u{2003}x\u{85}", "\u{200b}", "\t\r\n"] {
        let trimmed: String = trimmed(&chars(text)).into_iter().collect();
        assert_eq!(trimmed, text.trim());
        assert_eq!(blank(text), text.trim().is_empty());
        let upper: String = to_upper(&chars(text)).into_iter().collect();
        assert_eq!(upper, text.to_ascii_uppercase());
    }
    let upper: String = to_upper(&chars("azAZ09éß@[`{")).into_iter().collect();
    assert_eq!(upper, "azAZ09éß@[`{".to_ascii_uppercase());
    for (text, pattern) in [("abcabd", "abd"), ("aab", "ab"), ("", ""), ("x", ""), ("ab", "abc")] {
        assert_eq!(contains(&chars(text), pattern), text.contains(pattern));
        assert_eq!(begins_with(&chars(text), pattern), text.starts_with(pattern));
    }
    for n in [0, 9, 10, 1_234_567_890, u64::MAX] {
        assert_eq!(decimal_text(n), n.to_string());
        assert_eq!(parse_unsigned(&chars(&n.to_string())), Some(n));
    }
    for text in ["", "+", "-1", "+1", "007", "1_0", " 1", "18446744073709551616", "１"] {
        assert_eq!(parse_unsigned(&chars(text)), text.parse::<u64>().ok());
    }
    for n in [0, -1, 42, i64::MAX, i64::MIN + 1, i64::MIN] {
        let mut out = String::from("n=");
        push_signed(&mut out, n);
        assert_eq!(out, format!("n={}", n));
    }
}
