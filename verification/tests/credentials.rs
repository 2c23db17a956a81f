use nexterm::credentials::backend::CredentialStore;
use nexterm::credentials::error::CredentialError;
use nexterm::credentials::keyring_os::{KeyringFailure, OsKeyringStore};
use nexterm::credentials::memory::MemoryCredentialStore;
use nexterm::credentials::secret::Secret;
use nexterm::protocols::traits::ResolvedCredentials;

#[test]
fn a_secret_does_not_show_itself() {
    let mut secret = Secret::new("hunter2".into());
    assert_eq!(secret.expose(), "hunter2");
    assert!(!secret.is_empty());
    assert_eq!(secret.debug_text(), "Secret(***)");
    let copy = secret.clone();
    secret.zeroize();
    assert!(secret.is_empty());
    assert_eq!(secret.expose(), "");
    assert_eq!(copy.expose(), "hunter2");
    assert!(Secret::new(String::new()).is_empty());
}

#[test]
fn resolved_credentials_are_redacted() {
    let both = ResolvedCredentials {
        password: Some(Secret::new("a".into())),
        key_passphrase: Some(Secret::new("b".into())),
    };
    assert_eq!(
        both.debug_text(),
        "ResolvedCredentials { password: Some(\"***\"), key_passphrase: Some(\"***\") }"
    );
    assert_eq!(
        ResolvedCredentials::default().debug_text(),
        "ResolvedCredentials { password: None, key_passphrase: None }"
    );
}

#[test]
fn memory_store_gives_back_what_it_was_given() {
    let mut store = MemoryCredentialStore::new();
    assert!(store.get_secret(1).unwrap().is_none());
    store.set_secret(1, &Secret::new("one".into())).unwrap();
    store.set_secret(2, &Secret::new("two".into())).unwrap();
    store.set_secret(1, &Secret::new("uno".into())).unwrap();
    assert_eq!(store.get_secret(1).unwrap().unwrap().expose(), "uno");
    store.delete_secret(1).unwrap();
    store.delete_secret(1).unwrap();
    assert!(store.get_secret(1).unwrap().is_none());
    assert_eq!(store.get_secret(2).unwrap().unwrap().expose(), "two");
}

#[test]
fn keyring_entries_and_outcomes() {
    let id = uuid::Uuid::parse_str("67e55044-10b1-426f-9247-bb680e5fe0c8").unwrap();
    let (service, account) = OsKeyringStore::entry_for(id.as_u128());
    assert_eq!(service, "rust-remote-suite");
    assert_eq!(account, "67e55044-10b1-426f-9247-bb680e5fe0c8");

    assert!(OsKeyringStore::set_secret(Ok(())).is_ok());
    assert!(matches!(
        OsKeyringStore::set_secret(Err(KeyringFailure::NoEntry("none".into()))),
        Err(CredentialError::Backend(e)) if e == "none"
    ));
    let found = OsKeyringStore::get_secret(Ok("pw".into())).unwrap().unwrap();
    assert_eq!(found.expose(), "pw");
    assert!(OsKeyringStore::get_secret(Err(KeyringFailure::NoEntry("none".into())))
        .unwrap()
        .is_none());
    assert!(matches!(
        OsKeyringStore::get_secret(Err(KeyringFailure::Entry("bad".into()))),
        Err(CredentialError::Backend(e)) if e == "bad"
    ));
    assert!(OsKeyringStore::delete_secret(Err(KeyringFailure::NoEntry("none".into()))).is_ok());
    assert!(matches!(
        OsKeyringStore::delete_secret(Err(KeyringFailure::Call("locked".into()))),
        Err(CredentialError::Backend(e)) if e == "locked"
    ));
    assert!(matches!(
        OsKeyringStore::delete_secret(Err(KeyringFailure::Join("gone".into()))),
        Err(CredentialError::Join(e)) if e == "gone"
    ));
    let _ = OsKeyringStore::new();
}

#[test]
fn credential_error_messages() {
    assert_eq!(
        CredentialError::Backend("x".into()).message(),
        "secret store backend error: x"
    );
    assert_eq!(CredentialError::Join("x".into()).message(), "background task join error: x");
}
