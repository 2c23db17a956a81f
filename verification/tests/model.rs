use nexterm::config::{AppConfig, ThemeMode};
use nexterm::error::{CoreError, ReadOutcome};
use nexterm::event::{AppEvent, LogLevel};
use nexterm::model::group::Group;
use nexterm::model::profile::{
    AuthMethod, ConnectionProfile, CredentialRef, ProtocolKind, ProtocolSettings, SshSettings,
};
use nexterm::model::session::{RuntimeSession, SessionState};
use nexterm::platform::{
    config_dir, current_os, data_dir, default_known_hosts, join, Os, APP_NAME,
};
use nexterm::registry::SessionRegistry;
use nexterm::store::{FileProfileStore, ProfileStore, StoreData};

#[test]
fn agent_forwarding_defaults_off() {
    // Safe default: agent forwarding is opt-in.
    assert!(!SshSettings::default().agent_forwarding);
    let profile = ConnectionProfile::new_ssh("h", "host", "user");
    if let ProtocolSettings::Ssh(s) = &profile.settings {
        assert!(!s.agent_forwarding);
    } else {
        panic!("expected SSH settings");
    }
}

#[test]
fn key_passphrase_defaults_to_none() {
    assert!(SshSettings::default().key_passphrase.is_none());
    let profile = ConnectionProfile::new_ssh("h", "host", "user");
    if let ProtocolSettings::Ssh(s) = &profile.settings {
        assert!(s.key_passphrase.is_none());
    } else {
        panic!("expected SSH settings");
    }
}

#[test]
fn new_profiles() {
    let profile = ConnectionProfile::new_ssh("h", "host", "user");
    assert_eq!(profile.name, "h");
    assert_eq!(profile.kind(), ProtocolKind::Ssh);
    assert!(profile.group_id.is_none() && profile.tags.is_empty());
    assert!(profile.credential.is_none() && profile.description.is_empty());
    match &profile.settings {
        ProtocolSettings::Ssh(s) => {
            assert_eq!((s.host.as_str(), s.username.as_str(), s.port), ("host", "user", 22));
            assert_eq!(
                s.auth_methods,
                vec![AuthMethod::Agent, AuthMethod::PublicKey, AuthMethod::Password]
            );
            assert!(s.strict_host_key_checking);
        }
        other => panic!("{other:?}"),
    }
    assert_eq!(profile.clone(), profile);
    let local = ConnectionProfile::new_local_shell("l", Some("/bin/sh".into()));
    assert_eq!(local.kind(), ProtocolKind::LocalShell);
    assert_eq!(
        local.settings,
        ProtocolSettings::LocalShell { program: Some("/bin/sh".into()) }
    );
    assert_ne!(local.id, profile.id);
    assert_eq!(CredentialRef::new("prod-root").label, "prod-root");
}

#[test]
fn password_and_passphrase_references_coexist() {
    let mut profile = ConnectionProfile::new_ssh("h", "host", "user");
    profile.credential = Some(CredentialRef::new("password"));
    let passphrase = CredentialRef::new("key-passphrase");
    if let ProtocolSettings::Ssh(s) = &mut profile.settings {
        s.key_passphrase = Some(passphrase.clone());
    }
    let copy = profile.clone();
    assert_eq!(copy.credential.as_ref().unwrap().label, "password");
    match &copy.settings {
        ProtocolSettings::Ssh(s) => assert_eq!(s.key_passphrase, Some(passphrase)),
        other => panic!("{other:?}"),
    }
}

#[test]
fn kinds_have_names() {
    let kinds = [
        ProtocolKind::Ssh,
        ProtocolKind::Telnet,
        ProtocolKind::Rlogin,
        ProtocolKind::Rdp,
        ProtocolKind::Vnc,
        ProtocolKind::Ftp,
        ProtocolKind::Sftp,
        ProtocolKind::Serial,
        ProtocolKind::LocalShell,
    ];
    for kind in kinds {
        assert_eq!(kind.name(), format!("{kind:?}"));
    }
}

#[test]
fn store_finds_what_was_put_in() {
    let mut store = StoreData::new();
    let a = ConnectionProfile::new_ssh("a", "h", "u");
    let b = ConnectionProfile::new_ssh("b", "h", "u");
    store.upsert_profile(a.clone()).unwrap();
    store.upsert_profile(b.clone()).unwrap();
    let mut renamed = a.clone();
    renamed.name = "a2".into();
    store.upsert_profile(renamed.clone()).unwrap();
    // An update keeps the place.
    assert_eq!(store.list_profiles().unwrap(), vec![renamed.clone(), b.clone()]);
    assert_eq!(store.get_profile(a.id).unwrap(), Some(renamed));
    assert_eq!(store.get_profile(7).unwrap(), None);
    assert_ne!(store.profiles[0].id, store.profiles[1].id);

    store.delete_profile(a.id).unwrap();
    store.delete_profile(7).unwrap();
    assert_eq!(store.get_profile(a.id).unwrap(), None);
    assert_eq!(store.list_profiles().unwrap(), vec![b]);

    let g = Group::new("servers");
    let mut nested = Group::new("inner");
    nested.parent_id = Some(g.id);
    store.upsert_group(g.clone()).unwrap();
    store.upsert_group(nested.clone()).unwrap();
    let mut moved = nested.clone();
    moved.parent_id = None;
    store.upsert_group(moved.clone()).unwrap();
    assert_eq!(store.list_groups().unwrap(), vec![g.clone(), moved.clone()]);
    store.delete_group(g.id).unwrap();
    assert_eq!(store.list_groups().unwrap(), vec![moved]);
    assert_eq!(store.list_profiles().unwrap().len(), 1);
}

#[test]
fn duplicates_in_a_file_are_deleted_together() {
    let a = ConnectionProfile::new_ssh("a", "h", "u");
    let b = ConnectionProfile::new_ssh("b", "h", "u");
    let mut twin = a.clone();
    twin.name = "twin".into();
    let mut store = StoreData {
        profiles: vec![a.clone(), b.clone(), twin],
        groups: Vec::new(),
    };
    // The first one is found.
    assert_eq!(store.get_profile(a.id).unwrap().unwrap().name, "a");
    store.delete_profile(a.id).unwrap();
    assert_eq!(store.profiles, vec![b]);
}

#[test]
fn store_files() {
    let store = FileProfileStore::default_store(Some(b"/home/me/.local/share".to_vec()));
    assert_eq!(store.path(), b"/home/me/.local/share/rust-remote-suite/profiles.json");
    assert_eq!(
        store.tmp_path(),
        b"/home/me/.local/share/rust-remote-suite/profiles.json.tmp"
    );
    assert_eq!(FileProfileStore::new(b"p".to_vec()).tmp_path(), b"p.tmp");
    assert!(FileProfileStore::read_data(ReadOutcome::Missing).unwrap().profiles.is_empty());
    assert!(matches!(
        FileProfileStore::read_data(ReadOutcome::Malformed("eof".into())),
        Err(CoreError::Serde(e)) if e == "eof"
    ));
    assert!(matches!(
        FileProfileStore::read_data(ReadOutcome::Failed("denied".into())),
        Err(CoreError::Io(e)) if e == "denied"
    ));
    let data = StoreData { profiles: Vec::new(), groups: vec![Group::new("g")] };
    assert_eq!(
        FileProfileStore::read_data(ReadOutcome::Parsed(data)).unwrap().groups.len(),
        1
    );
}

#[test]
fn configuration() {
    let config = AppConfig::default();
    assert_eq!(config.theme, ThemeMode::System);
    assert_eq!(config.default_ssh_port, 22);
    assert_eq!(config.log_filter, "info");
    assert!(config.confirm_dangerous_commands);
    assert_eq!(AppConfig::load_or_default(ReadOutcome::Missing).unwrap(), config);
    let mut other = config.clone();
    other.theme = ThemeMode::Dark;
    assert_eq!(
        AppConfig::load_or_default(ReadOutcome::Parsed(other.clone())).unwrap(),
        other
    );
    assert!(matches!(
        AppConfig::load_or_default(ReadOutcome::Malformed("m".into())),
        Err(CoreError::Serde(_))
    ));
    assert!(matches!(
        AppConfig::load_or_default(ReadOutcome::Failed("f".into())),
        Err(CoreError::Io(_))
    ));
    assert_eq!(
        AppConfig::default_path(None),
        b"./rust-remote-suite/config.toml"
    );
}

#[test]
fn platform_names_and_paths() {
    assert_eq!(APP_NAME, "rust-remote-suite");
    assert_eq!(current_os("linux"), Os::Linux);
    assert_eq!(current_os("windows"), Os::Windows);
    assert_eq!(current_os("macos"), Os::MacOs);
    assert_eq!(current_os("freebsd"), Os::Other);
    for base in ["/a", "/a/", "", "."] {
        let expected = std::path::Path::new(base).join("b");
        assert_eq!(
            String::from_utf8(join(&base.as_bytes().to_vec(), "b")).unwrap(),
            expected.to_str().unwrap()
        );
    }
    assert_eq!(config_dir(Some(b"/c".to_vec())), b"/c/rust-remote-suite");
    assert_eq!(data_dir(None), b"./rust-remote-suite");
    assert_eq!(
        default_known_hosts(Some(b"/home/me".to_vec())).unwrap(),
        b"/home/me/.ssh/known_hosts"
    );
    assert_eq!(default_known_hosts(None), None);
}

#[test]
fn registry_tracks_sessions() {
    let mut registry = SessionRegistry::new();
    let session = RuntimeSession::new("t", ProtocolKind::Ssh, Some(4));
    assert_eq!(session.state, SessionState::Connecting);
    let created = session.created_at;
    let id = registry.register(session);
    let event = registry.set_state(id, SessionState::Failed("x".into()));
    assert!(matches!(
        event,
        Some(AppEvent::SessionStateChanged { session_id, state: SessionState::Failed(e) })
            if session_id == id && e == "x"
    ));
    let seen = registry.get(id).unwrap();
    assert_eq!(seen.state, SessionState::Failed("x".into()));
    assert_eq!((seen.title.as_str(), seen.profile_id), ("t", Some(4)));
    assert_eq!(seen.created_at, created);
    assert!(registry.set_state(9, SessionState::Connected).is_none());
    assert!(registry.get(9).is_none());
    assert_eq!(registry.list().len(), 1);
    let (removed, event) = registry.remove(id).unwrap();
    assert_eq!(removed.id, id);
    assert!(matches!(event, AppEvent::SessionClosed { session_id } if session_id == id));
    assert!(registry.remove(id).is_none());
    assert!(registry.set_state(id, SessionState::Connected).is_none());
    assert!(registry.list().is_empty());
}

#[test]
fn events_can_be_copied() {
    let event = AppEvent::Log { level: LogLevel::Warn, message: "m".into() };
    assert!(matches!(
        event.clone(),
        AppEvent::Log { level: LogLevel::Warn, message } if message == "m"
    ));
}

#[test]
fn core_error_messages() {
    let cases = vec![
        (CoreError::Io("x".into()), "I/O error: x"),
        (CoreError::Serde("x".into()), "(de)serialization error: x"),
        (CoreError::Config("x".into()), "configuration error: x"),
        (CoreError::Store("x".into()), "storage error: x"),
        (CoreError::NotFound("x".into()), "entity not found: x"),
    ];
    for (error, expected) in cases {
        assert_eq!(error.message(), expected);
    }
}
