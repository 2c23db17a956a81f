use std::cell::RefCell;
use std::rc::Rc;

use nexterm::config::AppConfig;
use nexterm::credentials::backend::CredentialStore;
use nexterm::credentials::error::CredentialError;
use nexterm::credentials::memory::MemoryCredentialStore;
use nexterm::credentials::secret::Secret;
use nexterm::error::CoreError;
use nexterm::event::AppEvent;
use nexterm::miniservers::http::HttpFileServer;
use nexterm::model::profile::{
    ConnectionProfile, CredentialRef, ProtocolKind, ProtocolSettings, SshSettings,
};
use nexterm::model::session::SessionState;
use nexterm::protocols::error::ProtocolError;
use nexterm::protocols::mock::{MockConnector, MockSftp};
use nexterm::protocols::traits::{Connector, RemoteSession, ResolvedCredentials};
use nexterm::store::{ProfileStore, StoreData};
use nexterm::ui::app::{
    check_gateway, conclude, secret_stored, secret_target, ssh_jump_host, take_credentials,
    AppCore, AppError,
};

/// Connector that records which path was taken instead of touching a network.
#[derive(Clone, Default)]
struct SpyConnector {
    last: Rc<RefCell<Option<String>>>,
    refuse: bool,
}

impl SpyConnector {
    fn last(&self) -> Option<String> {
        self.last.borrow().clone()
    }

    fn record(&self, what: String) -> Result<(), ProtocolError> {
        *self.last.borrow_mut() = Some(what);
        if self.refuse {
            Err(ProtocolError::Auth("denied".into()))
        } else {
            Ok(())
        }
    }
}

fn password(creds: &ResolvedCredentials) -> String {
    match &creds.password {
        Some(secret) => format!("+{}", secret.expose()),
        None => String::new(),
    }
}

struct NullSession;

impl RemoteSession for NullSession {
    fn write(&mut self, _data: &[u8]) -> Result<(), ProtocolError> {
        Ok(())
    }

    fn read(&mut self) -> Result<Vec<u8>, ProtocolError> {
        Ok(Vec::new())
    }

    fn resize(&mut self, _cols: u16, _rows: u16) -> Result<(), ProtocolError> {
        Ok(())
    }

    fn close(&mut self) -> Result<(), ProtocolError> {
        Ok(())
    }
}

impl Connector for SpyConnector {
    type Session = NullSession;
    type Sftp = MockSftp;

    fn connect_shell(
        &self,
        profile: &ConnectionProfile,
        creds: &ResolvedCredentials,
    ) -> Result<NullSession, ProtocolError> {
        self.record(format!("shell:{}{}", profile.name, password(creds)))?;
        Ok(NullSession)
    }

    fn connect_shell_via_jump(
        &self,
        jump: &ConnectionProfile,
        jc: &ResolvedCredentials,
        target: &ConnectionProfile,
        tc: &ResolvedCredentials,
    ) -> Result<NullSession, ProtocolError> {
        self.record(format!(
            "jump:{}{}->{}{}",
            jump.name,
            password(jc),
            target.name,
            password(tc)
        ))?;
        Ok(NullSession)
    }

    fn connect_sftp(
        &self,
        profile: &ConnectionProfile,
        _creds: &ResolvedCredentials,
    ) -> Result<MockSftp, ProtocolError> {
        self.record(format!("sftp:{}", profile.name))?;
        Ok(MockSftp)
    }

    fn connect_sftp_via_jump(
        &self,
        jump: &ConnectionProfile,
        _jc: &ResolvedCredentials,
        target: &ConnectionProfile,
        _tc: &ResolvedCredentials,
    ) -> Result<MockSftp, ProtocolError> {
        self.record(format!("sftp_jump:{}->{}", jump.name, target.name))?;
        Ok(MockSftp)
    }
}

type Core = AppCore<StoreData, MemoryCredentialStore, SpyConnector, HttpFileServer>;

fn core_with(profiles: Vec<ConnectionProfile>, spy: &SpyConnector) -> Core {
    let mut store = StoreData::new();
    for profile in profiles {
        store.upsert_profile(profile).unwrap();
    }
    AppCore::new(AppConfig::default(), store, MemoryCredentialStore::new(), spy.clone())
}

fn ssh(name: &str) -> ConnectionProfile {
    ConnectionProfile::new_ssh(name, "host.example", "user")
}

fn with_jump(mut p: ConnectionProfile, jump_id: u128) -> ConnectionProfile {
    if let ProtocolSettings::Ssh(s) = &mut p.settings {
        s.jump_host = Some(jump_id);
    }
    p
}

#[test]
fn connect_without_jump_uses_direct_shell() {
    let spy = SpyConnector::default();
    let mut core = core_with(vec![], &spy);
    core.connect(&ssh("direct")).unwrap();
    assert_eq!(spy.last().as_deref(), Some("shell:direct"));
}

#[test]
fn connect_with_jump_resolves_gateway() {
    let spy = SpyConnector::default();
    let gw = ssh("gw");
    let target = with_jump(ssh("target"), gw.id);
    let mut core = core_with(vec![gw], &spy);
    core.connect(&target).unwrap();
    assert_eq!(spy.last().as_deref(), Some("jump:gw->target"));
}

#[test]
fn jump_profile_not_found_errors() {
    let spy = SpyConnector::default();
    let missing = uuid::Uuid::new_v4();
    let target = with_jump(ssh("target"), missing.as_u128());
    let mut core = core_with(vec![], &spy);
    let err = core.connect(&target).map(|_| ()).unwrap_err().message();
    assert!(err.contains("not found"), "unexpected error: {err}");
    assert_eq!(err, format!("connect failed: jump host profile {missing} not found"));
    assert_eq!(spy.last(), None, "connector must not be called");
}

#[test]
fn jump_profile_not_ssh_errors() {
    let spy = SpyConnector::default();
    let gw = ConnectionProfile::new_local_shell("local-gw", None);
    let target = with_jump(ssh("target"), gw.id);
    let mut core = core_with(vec![gw], &spy);
    let err = core.connect(&target).map(|_| ()).unwrap_err().message();
    assert!(err.contains("not an SSH profile"), "unexpected error: {err}");
    assert_eq!(
        err,
        "connect failed: jump host profile 'local-gw' is not an SSH profile (it is LocalShell)"
    );
}

#[test]
fn jump_chain_longer_than_one_hop_errors() {
    let spy = SpyConnector::default();
    let gw2 = ssh("gw2");
    let gw1 = with_jump(ssh("gw1"), gw2.id);
    let target = with_jump(ssh("target"), gw1.id);
    let mut core = core_with(vec![gw2, gw1], &spy);
    let err = core.connect(&target).map(|_| ()).unwrap_err().message();
    assert!(err.contains("longer than one hop"), "unexpected error: {err}");
    assert_eq!(spy.last(), None);
}

#[test]
fn connect_sftp_picks_direct_vs_jump() {
    // Direct.
    let spy = SpyConnector::default();
    let core = core_with(vec![], &spy);
    core.connect_sftp(&ssh("direct")).unwrap();
    assert_eq!(spy.last().as_deref(), Some("sftp:direct"));

    // Via jump.
    let spy2 = SpyConnector::default();
    let gw = ssh("gw");
    let target = with_jump(ssh("target"), gw.id);
    let core2 = core_with(vec![gw], &spy2);
    core2.connect_sftp(&target).unwrap();
    assert_eq!(spy2.last().as_deref(), Some("sftp_jump:gw->target"));
}

#[test]
fn ssh_jump_host_only_for_ssh_profiles() {
    assert_eq!(ssh_jump_host(&ssh("x")), None);
    let id = uuid::Uuid::new_v4().as_u128();
    assert_eq!(ssh_jump_host(&with_jump(ssh("x"), id)), Some(id));
    let local = ConnectionProfile::new_local_shell("l", None);
    assert_eq!(ssh_jump_host(&local), None);
    // Sanity: a default SshSettings has no jump host.
    assert!(SshSettings::default().jump_host.is_none());
}

#[test]
fn sessions_follow_the_attempt() {
    let spy = SpyConnector::default();
    let mut core = core_with(vec![], &spy);
    let profile = ssh("direct");
    let (id, _) = core.connect(&profile).unwrap();
    let session = core.sessions.get(id).unwrap();
    assert_eq!(session.state, SessionState::Connected);
    assert_eq!(session.title, "direct");
    assert_eq!(session.kind, ProtocolKind::Ssh);
    assert_eq!(session.profile_id, Some(profile.id));
    assert!(matches!(
        core.events.as_slice(),
        [AppEvent::SessionStateChanged { session_id, state: SessionState::Connected }]
            if *session_id == id
    ));

    let refusing = SpyConnector { refuse: true, ..SpyConnector::default() };
    let mut core = core_with(vec![], &refusing);
    let err = core.connect(&profile).map(|_| ()).unwrap_err();
    assert_eq!(err.message(), "connect failed: authentication failed: denied");
    let sessions = core.sessions.list();
    assert_eq!(sessions.len(), 1);
    assert_eq!(
        sessions[0].state,
        SessionState::Failed("authentication failed: denied".into())
    );
    assert_eq!(core.events.len(), 1);
    assert_eq!(
        core.connect_sftp(&profile).unwrap_err().message(),
        "sftp connect failed: authentication failed: denied"
    );
}

#[test]
fn local_shell_needs_its_own_connector() {
    let spy = SpyConnector::default();
    let local_spy = SpyConnector::default();
    let profile = ConnectionProfile::new_local_shell("sh", None);
    let mut core = core_with(vec![], &spy);
    let err = core.connect(&profile).map(|_| ()).unwrap_err();
    assert_eq!(err.message(), "local-shell support is not enabled in this build");
    assert!(core.sessions.list().is_empty());
    assert!(core.events.is_empty());

    let mut core = core.with_local_connector(local_spy.clone());
    core.connect(&profile).unwrap();
    assert_eq!(local_spy.last().as_deref(), Some("shell:sh"));
    assert_eq!(spy.last(), None);
}

#[test]
fn each_hop_gets_its_own_secret() {
    let spy = SpyConnector::default();
    let mut gw = ssh("gw");
    gw.credential = Some(CredentialRef::new("gw-password"));
    let mut target = with_jump(ssh("target"), gw.id);
    target.credential = Some(CredentialRef::new("target-password"));
    let mut core = core_with(vec![gw.clone()], &spy);

    // Nothing is stored yet.
    core.connect(&target).unwrap();
    assert_eq!(spy.last().as_deref(), Some("jump:gw->target"));

    core.set_profile_secret(&gw, Secret::new("g".into())).unwrap();
    core.set_profile_secret(&target, Secret::new("t".into())).unwrap();
    core.connect(&target).unwrap();
    assert_eq!(spy.last().as_deref(), Some("jump:gw+g->target+t"));

    let err = core.set_profile_secret(&ssh("plain"), Secret::new("x".into())).unwrap_err();
    assert_eq!(err.message(), "profile has no credential reference");
}

struct BrokenStore;

impl CredentialStore for BrokenStore {
    fn set_secret(&mut self, _id: u128, _secret: &Secret) -> Result<(), CredentialError> {
        Err(CredentialError::Backend("locked".into()))
    }

    fn get_secret(&self, _id: u128) -> Result<Option<Secret>, CredentialError> {
        Err(CredentialError::Backend("locked".into()))
    }

    fn delete_secret(&mut self, _id: u128) -> Result<(), CredentialError> {
        Ok(())
    }
}

#[test]
fn a_broken_secret_store_fails_the_attempt() {
    let spy = SpyConnector::default();
    let mut core: AppCore<StoreData, BrokenStore, SpyConnector, HttpFileServer> =
        AppCore::new(AppConfig::default(), StoreData::new(), BrokenStore, spy.clone());
    let mut profile = ssh("x");
    // Without a reference the store is not asked.
    core.connect(&profile).unwrap();
    profile.credential = Some(CredentialRef::new("password"));
    assert_eq!(
        core.connect(&profile).map(|_| ()).unwrap_err().message(),
        "connect failed: secret store backend error: locked"
    );
    assert_eq!(
        core.connect_sftp(&profile).unwrap_err().message(),
        "secret store backend error: locked"
    );
    assert_eq!(
        core.set_profile_secret(&profile, Secret::new("s".into())).unwrap_err().message(),
        "secret store backend error: locked"
    );
}

#[test]
fn mock_transport_through_the_facade() {
    let mut core: AppCore<StoreData, MemoryCredentialStore, MockConnector, HttpFileServer> =
        AppCore::with_defaults(
            Ok(AppConfig::default()),
            StoreData::new(),
            MemoryCredentialStore::new(),
            MockConnector,
        )
        .unwrap();
    let (_, mut session) = core.connect(&ssh("demo")).unwrap();
    assert_eq!(session.read().unwrap(), b"[mock] connected to 'demo' (Ssh)\r\n$ ");
    session.write(b"uname -a").unwrap();
    assert_eq!(session.read().unwrap(), b"uname -a\r\n$ ");
    assert!(session.read().unwrap().is_empty());
    assert_eq!(
        core.connect_sftp(&ssh("demo")).map(|_| ()).unwrap_err().message(),
        "sftp connect failed: feature not implemented yet: SFTP is not supported by this connector"
    );
    let gw = ssh("gw");
    let target = with_jump(ssh("t"), gw.id);
    core.profiles.upsert_profile(gw).unwrap();
    assert_eq!(
        core.connect(&target).map(|_| ()).unwrap_err().message(),
        "connect failed: feature not implemented yet: jump-host shell is not supported by this connector"
    );
    assert_eq!(core.profiles().list_profiles().unwrap().len(), 1);
    assert!(Core::is_ssh(&target));
    assert!(!Core::is_ssh(&ConnectionProfile::new_local_shell("l", None)));
}

#[test]
fn decisions_on_given_answers() {
    let gw = ssh("gw");
    assert_eq!(check_gateway(gw.id, Ok(Some(gw.clone()))).unwrap(), gw);
    assert!(matches!(check_gateway(5, Ok(None)), Err(AppError::GatewayNotFound(5))));
    let err = check_gateway(5, Err(CoreError::Io("disk".into()))).unwrap_err();
    assert_eq!(err.message(), "loading jump host profile");
    assert!(matches!(err, AppError::LoadingGateway(CoreError::Io(e)) if e == "disk"));
    assert!(matches!(
        check_gateway(5, Ok(Some(with_jump(ssh("far"), 6)))),
        Err(AppError::ChainTooLong { gateway }) if gateway == "far"
    ));

    let creds = take_credentials(Ok(Some(Secret::new("pw".into())))).unwrap();
    assert_eq!(creds.password.as_ref().unwrap().expose(), "pw");
    assert!(creds.key_passphrase.is_none());
    assert!(take_credentials(Ok(None)).unwrap().password.is_none());
    assert!(take_credentials(Err(CredentialError::Join("x".into()))).is_err());

    let (state, r) = conclude(3, Ok::<u8, AppError>(9));
    assert_eq!(state, SessionState::Connected);
    assert_eq!(r.unwrap(), (3, 9));
    let (state, r) = conclude::<u8>(3, Err(AppError::GatewayNotFound(0)));
    let text = "jump host profile 00000000-0000-0000-0000-000000000000 not found";
    assert_eq!(state, SessionState::Failed(text.into()));
    assert_eq!(r.unwrap_err().message(), format!("connect failed: {text}"));

    assert!(secret_target(&gw).is_err());
    assert!(secret_stored(Ok(())).is_ok());
    let failed: Result<Core, AppError> = AppCore::with_defaults(
        Err(CoreError::Serde("bad".into())),
        StoreData::new(),
        MemoryCredentialStore::new(),
        SpyConnector::default(),
    );
    assert_eq!(failed.map(|_| ()).unwrap_err().message(), "loading config");
}

/// A secret store that names the secret it could not read.
struct NamingStore;

impl CredentialStore for NamingStore {
    fn set_secret(&mut self, _id: u128, _secret: &Secret) -> Result<(), CredentialError> {
        Ok(())
    }

    fn get_secret(&self, id: u128) -> Result<Option<Secret>, CredentialError> {
        Err(CredentialError::Backend(format!("secret {id}")))
    }

    fn delete_secret(&mut self, _id: u128) -> Result<(), CredentialError> {
        Ok(())
    }
}

#[test]
fn credentials_of_the_gateway_come_first() {
    let spy = SpyConnector::default();
    let mut gw = ssh("gw");
    gw.credential = Some(CredentialRef::new("gw"));
    let gw_secret = gw.credential.as_ref().unwrap().id;
    let mut target = with_jump(ssh("target"), gw.id);
    target.credential = Some(CredentialRef::new("target"));
    let mut store = StoreData::new();
    store.upsert_profile(gw).unwrap();
    let mut core: AppCore<StoreData, NamingStore, SpyConnector, HttpFileServer> =
        AppCore::new(AppConfig::default(), store, NamingStore, spy.clone());
    assert_eq!(
        core.connect(&target).map(|_| ()).unwrap_err().message(),
        format!("connect failed: secret store backend error: secret {gw_secret}")
    );
    assert_eq!(spy.last(), None);
}
