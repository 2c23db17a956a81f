//! Application facade shared by all frontends.
//!
//! `AppCore` wires together config, the profile store, the credential store,
//! the session registry, and mini-servers, and exposes the high-level
//! operations the UI needs. Frontends never touch transports or storage
//! directly, which is what lets us add protocols and swap backends without
//! changing UI code.

use vstd::prelude::*;
use vstd::string::*;
use vstd::utf8::*;

use crate::config::AppConfig;
use crate::credentials::backend::CredentialStore;
use crate::credentials::error::CredentialError;
use crate::credentials::memory;
use crate::credentials::memory::MemoryCredentialStore;
use crate::credentials::secret::Secret;
use crate::error::CoreError;
use crate::event::AppEvent;
use crate::ids;
use crate::ids::{format_id, Id};
use crate::miniservers::service::{MiniServer, MiniServerManager};
use crate::model::profile;
use crate::model::profile::{ConnectionProfile, CredentialRef, ProtocolKind, ProtocolSettings};
use crate::model::session::{RuntimeSession, SessionState};
use crate::protocols::error::ProtocolError;
use crate::protocols::mock;
use crate::protocols::mock::{MockConnector, MockSession};
use crate::protocols::traits::{Connector, ResolvedCredentials};
use crate::registry;
use crate::registry::SessionRegistry;
use crate::store;
use crate::store::{Keyed, ProfileStore, StoreData};
use crate::text::concat;

verus! {

/// Errors of the facade.
#[derive(Debug)]
pub enum AppError {
    /// A local-shell profile, and no connector for it.
    LocalShellDisabled,
    /// The gateway profile could not be loaded.
    LoadingGateway(CoreError),
    /// There is no gateway profile with this id.
    GatewayNotFound(Id),
    /// The gateway itself names a jump host.
    ChainTooLong { gateway: String },
    /// The gateway is not an SSH profile.
    GatewayNotSsh { name: String, kind: ProtocolKind },
    /// The secret store failed.
    Credential(CredentialError),
    /// The transport failed.
    Transport(ProtocolError),
    /// A session could not be connected; says why.
    ConnectFailed(String),
    /// An SFTP client could not be opened.
    SftpFailed(ProtocolError),
    /// The profile names no secret to set.
    NoCredentialRef,
    /// The configuration could not be loaded.
    LoadingConfig(CoreError),
}

impl AppError {
    /// What [`AppError::message`] says.
    pub open spec fn message_text(self) -> Seq<char> {
        match self {
            AppError::LocalShellDisabled => "local-shell support is not enabled in this build"@,
            AppError::LoadingGateway(_) => "loading jump host profile"@,
            AppError::GatewayNotFound(id) => "jump host profile "@ + ids::id_text(id)
                + " not found"@,
            AppError::ChainTooLong { gateway } =>
                "jump host chains longer than one hop are not supported yet (gateway '"@ + gateway@
                + "' itself names a jump host)"@,
            AppError::GatewayNotSsh { name, kind } => "jump host profile '"@ + name@
                + "' is not an SSH profile (it is "@ + kind.name_text() + ")"@,
            AppError::Credential(e) => e.message_text(),
            AppError::Transport(e) => e.message_text(),
            AppError::ConnectFailed(why) => "connect failed: "@ + why@,
            AppError::SftpFailed(e) => "sftp connect failed: "@ + e.message_text(),
            AppError::NoCredentialRef => "profile has no credential reference"@,
            AppError::LoadingConfig(_) => "loading config"@,
        }
    }

    /// The error in words.
    pub fn message(&self) -> (r: String)
        ensures
            r@ == self.message_text(),
    {
        match self {
            AppError::LocalShellDisabled =>
                "local-shell support is not enabled in this build".to_string(),
            AppError::LoadingGateway(_) => "loading jump host profile".to_string(),
            AppError::GatewayNotFound(id) => {
                let mut r = concat("jump host profile ", format_id(*id).as_str());
                r.append(" not found");
                r
            },
            AppError::ChainTooLong { gateway } => {
                let mut r = concat(
                    "jump host chains longer than one hop are not supported yet (gateway '",
                    gateway.as_str(),
                );
                r.append("' itself names a jump host)");
                r
            },
            AppError::GatewayNotSsh { name, kind } => {
                let mut r = concat("jump host profile '", name.as_str());
                r.append("' is not an SSH profile (it is ");
                r.append(kind.name());
                r.append(")");
                r
            },
            AppError::Credential(e) => e.message(),
            AppError::Transport(e) => e.message(),
            AppError::ConnectFailed(why) => concat("connect failed: ", why.as_str()),
            AppError::SftpFailed(e) => concat("sftp connect failed: ", e.message().as_str()),
            AppError::NoCredentialRef => "profile has no credential reference".to_string(),
            AppError::LoadingConfig(_) => "loading config".to_string(),
        }
    }
}

/// The jump-host gateway id for an SSH profile, if any. Non-SSH profiles never
/// have one.
pub open spec fn jump_host_of(profile: profile::ProfileModel) -> Option<Id> {
    match profile.settings {
        profile::SettingsModel::Ssh(ssh) => ssh.jump_host,
        _ => None,
    }
}

/// The jump-host gateway id for an SSH profile, if any. Non-SSH profiles never
/// have one.
pub fn ssh_jump_host(profile: &ConnectionProfile) -> (r: Option<Id>)
    ensures
        r == jump_host_of(profile@),
{
    match &profile.settings {
        ProtocolSettings::Ssh(ssh) => ssh.jump_host,
        _ => None,
    }
}

/// Whether a profile can serve as the gateway of a single hop: it is SSH, and
/// names no jump host itself.
pub open spec fn is_gateway(profile: profile::ProfileModel) -> bool {
    profile.settings is Ssh && jump_host_of(profile) is None
}

// ---------------------------------------------------------------------------
// Decisions on what the stores and connectors answered
// ---------------------------------------------------------------------------

/// The gateway, from what the profile store answered: gateway not found, not
/// SSH, or a chain longer than one hop are explicit errors.
pub open spec fn gateway_from(
    jump_id: Id,
    answer: Result<Option<ConnectionProfile>, CoreError>,
) -> Result<ConnectionProfile, AppError> {
    match answer {
        Err(e) => Err(AppError::LoadingGateway(e)),
        Ok(None) => Err(AppError::GatewayNotFound(jump_id)),
        Ok(Some(jump)) => if !(jump@.settings is Ssh) {
            Err(
                AppError::GatewayNotSsh {
                    name: jump.name,
                    kind: profile::kind_of(jump@.settings),
                },
            )
        } else if jump_host_of(jump@) is Some {
            Err(AppError::ChainTooLong { gateway: jump.name })
        } else {
            Ok(jump)
        },
    }
}

/// The gateway, from what the profile store answered.
pub fn check_gateway(jump_id: Id, answer: Result<Option<ConnectionProfile>, CoreError>) -> (r:
    Result<ConnectionProfile, AppError>)
    ensures
        r == gateway_from(jump_id, answer),
{
    match answer {
        Err(e) => Err(AppError::LoadingGateway(e)),
        Ok(None) => Err(AppError::GatewayNotFound(jump_id)),
        Ok(Some(jump)) => {
            let kind: ProtocolKind = jump.kind();
            if kind != ProtocolKind::Ssh {
                return Err(AppError::GatewayNotSsh { name: jump.name, kind });
            }
            if ssh_jump_host(&jump).is_some() {
                return Err(AppError::ChainTooLong { gateway: jump.name });
            }
            Ok(jump)
        },
    }
}

/// The credentials, from what the secret store answered. The stored secret is
/// treated as the password.
pub open spec fn credentials_from(answer: Result<Option<Secret>, CredentialError>) -> Result<
    ResolvedCredentials,
    AppError,
> {
    match answer {
        Ok(password) => Ok(ResolvedCredentials { password, key_passphrase: None }),
        Err(e) => Err(AppError::Credential(e)),
    }
}

/// The credentials, from what the secret store answered.
pub fn take_credentials(answer: Result<Option<Secret>, CredentialError>) -> (r: Result<
    ResolvedCredentials,
    AppError,
>)
    ensures
        r == credentials_from(answer),
{
    match answer {
        Ok(password) => Ok(ResolvedCredentials { password, key_passphrase: None }),
        Err(e) => Err(AppError::Credential(e)),
    }
}

/// Under which id the secret of a profile is stored.
pub fn secret_target(profile: &ConnectionProfile) -> (r: Result<Id, AppError>)
    ensures
        r == (match profile.credential {
            Some(cref) => Ok::<Id, AppError>(cref.id),
            None => Err(AppError::NoCredentialRef),
        }),
{
    match &profile.credential {
        Some(cref) => Ok(cref.id),
        None => Err(AppError::NoCredentialRef),
    }
}

/// Whether `r` is what storing a secret comes to.
pub open spec fn stored_outcome(
    outcome: Result<(), CredentialError>,
    r: Result<(), AppError>,
) -> bool {
    match outcome {
        Ok(_) => r is Ok,
        Err(e) => r == Err::<(), AppError>(AppError::Credential(e)),
    }
}

/// What storing a secret comes to.
pub fn secret_stored(outcome: Result<(), CredentialError>) -> (r: Result<(), AppError>)
    ensures
        stored_outcome(outcome, r),
{
    match outcome {
        Ok(_) => Ok(()),
        Err(e) => Err(AppError::Credential(e)),
    }
}

/// What a connection attempt comes to: the state of its session, and what the
/// caller gets.
pub open spec fn attempt_result<T>(
    id: Id,
    outcome: Result<T, AppError>,
    state: SessionState,
    r: Result<(Id, T), AppError>,
) -> bool {
    match outcome {
        Ok(transport) => {
            &&& state == SessionState::Connected
            &&& r == Ok::<(Id, T), AppError>((id, transport))
        },
        Err(e) => {
            &&& state matches SessionState::Failed(why)
            &&& why@ == e.message_text()
            &&& r matches Err(AppError::ConnectFailed(what))
            &&& what@ == e.message_text()
        },
    }
}

/// What a connection attempt comes to. Resolution failures (jump profile missing
/// / not SSH / chain too long) and transport failures alike mark the session
/// failed.
pub fn conclude<T>(id: Id, outcome: Result<T, AppError>) -> (r: (
    SessionState,
    Result<(Id, T), AppError>,
))
    ensures
        attempt_result(id, outcome, r.0, r.1),
{
    match outcome {
        Ok(transport) => (SessionState::Connected, Ok((id, transport))),
        Err(e) => {
            let why = e.message();
            (SessionState::Failed(why.clone()), Err(AppError::ConnectFailed(why)))
        },
    }
}

// ---------------------------------------------------------------------------
// Orchestration
// ---------------------------------------------------------------------------

/// Whether `r` is what resolving a profile's secret may give: the store is asked
/// for the secret that the profile refers to, and for nothing without one.
pub open spec fn may_resolve<C: CredentialStore>(
    credentials: C,
    profile: profile::ProfileModel,
    r: Result<ResolvedCredentials, AppError>,
) -> bool {
    match profile.credential {
        None => r matches Ok(creds) && creds.password is None && creds.key_passphrase is None,
        Some(cref) => exists|answer: Result<Option<Secret>, CredentialError>|
            #[trigger] call_ensures(C::get_secret, (&credentials, cref.id), answer) && r
                == credentials_from(answer),
    }
}

/// Whether a profile's secret may resolve.
pub open spec fn can_resolve<C: CredentialStore>(
    credentials: C,
    profile: profile::ProfileModel,
) -> bool {
    exists|creds: ResolvedCredentials| #[trigger]
        may_resolve(credentials, profile, Ok::<ResolvedCredentials, AppError>(creds))
}

/// Whether `r` is what resolving a single-hop jump chain may give: the gateway
/// profile and the credentials of both hops. Those of the target are asked for
/// only where those of the gateway resolve.
pub open spec fn may_resolve_jump<P: ProfileStore, C: CredentialStore>(
    profiles: P,
    credentials: C,
    target: profile::ProfileModel,
    jump_id: Id,
    r: Result<(ConnectionProfile, ResolvedCredentials, ResolvedCredentials), AppError>,
) -> bool {
    exists|answer: Result<Option<ConnectionProfile>, CoreError>|
        #[trigger] call_ensures(P::get_profile, (&profiles, jump_id), answer) && match gateway_from(
            jump_id,
            answer,
        ) {
            Err(e) => r matches Err(e2) && e2 == e,
            Ok(jump) => match r {
                Ok((used, jump_creds, target_creds)) => {
                    &&& used == jump
                    &&& may_resolve(
                        credentials,
                        jump@,
                        Ok::<ResolvedCredentials, AppError>(jump_creds),
                    )
                    &&& may_resolve(
                        credentials,
                        target,
                        Ok::<ResolvedCredentials, AppError>(target_creds),
                    )
                },
                Err(e) => {
                    ||| may_resolve(credentials, jump@, Err::<ResolvedCredentials, AppError>(e))
                    ||| {
                        &&& can_resolve(credentials, jump@)
                        &&& may_resolve(credentials, target, Err::<ResolvedCredentials, AppError>(e))
                    }
                },
            },
        }
}

/// Whether `outcome` is what opening a shell may come to. The connector is
/// handed the profile with its own credentials, and, where the profile names a
/// gateway, the gateway with its own.
pub open spec fn may_open_shell<P: ProfileStore, C: CredentialStore, K: Connector>(
    profiles: P,
    credentials: C,
    connector: K,
    target: ConnectionProfile,
    outcome: Result<K::Session, AppError>,
) -> bool {
    match jump_host_of(target@) {
        None => exists|resolved: Result<ResolvedCredentials, AppError>|
            #[trigger] may_resolve(credentials, target@, resolved) && match resolved {
                Err(e) => outcome == Err::<K::Session, AppError>(e),
                Ok(creds) => exists|answer: Result<K::Session, ProtocolError>|
                    #[trigger] call_ensures(
                        K::connect_shell,
                        (&connector, &target, &creds),
                        answer,
                    ) && outcome == transport_outcome(answer),
            },
        Some(jump_id) => exists|
            resolved: Result<
                (ConnectionProfile, ResolvedCredentials, ResolvedCredentials),
                AppError,
            >,
        |
            #[trigger] may_resolve_jump(profiles, credentials, target@, jump_id, resolved)
                && match resolved {
                Err(e) => outcome == Err::<K::Session, AppError>(e),
                Ok((jump, jump_creds, target_creds)) => exists|
                    answer: Result<K::Session, ProtocolError>,
                |
                    #[trigger] call_ensures(
                        K::connect_shell_via_jump,
                        (&connector, &jump, &jump_creds, &target, &target_creds),
                        answer,
                    ) && outcome == transport_outcome(answer),
            },
    }
}

/// What a transport's answer comes to.
pub open spec fn transport_outcome<T>(answer: Result<T, ProtocolError>) -> Result<T, AppError> {
    match answer {
        Ok(transport) => Ok(transport),
        Err(e) => Err(AppError::Transport(e)),
    }
}

/// What the answer to opening an SFTP client comes to.
pub open spec fn sftp_outcome<T>(answer: Result<T, ProtocolError>) -> Result<T, AppError> {
    match answer {
        Ok(client) => Ok(client),
        Err(e) => Err(AppError::SftpFailed(e)),
    }
}

/// Whether `outcome` is what opening an SFTP client may come to.
pub open spec fn may_open_sftp<P: ProfileStore, C: CredentialStore, K: Connector>(
    profiles: P,
    credentials: C,
    connector: K,
    target: ConnectionProfile,
    outcome: Result<K::Sftp, AppError>,
) -> bool {
    match jump_host_of(target@) {
        None => exists|resolved: Result<ResolvedCredentials, AppError>|
            #[trigger] may_resolve(credentials, target@, resolved) && match resolved {
                Err(e) => outcome == Err::<K::Sftp, AppError>(e),
                Ok(creds) => exists|answer: Result<K::Sftp, ProtocolError>|
                    #[trigger] call_ensures(
                        K::connect_sftp,
                        (&connector, &target, &creds),
                        answer,
                    ) && outcome == sftp_outcome(answer),
            },
        Some(jump_id) => exists|
            resolved: Result<
                (ConnectionProfile, ResolvedCredentials, ResolvedCredentials),
                AppError,
            >,
        |
            #[trigger] may_resolve_jump(profiles, credentials, target@, jump_id, resolved)
                && match resolved {
                Err(e) => outcome == Err::<K::Sftp, AppError>(e),
                Ok((jump, jump_creds, target_creds)) => exists|
                    answer: Result<K::Sftp, ProtocolError>,
                |
                    #[trigger] call_ensures(
                        K::connect_sftp_via_jump,
                        (&connector, &jump, &jump_creds, &target, &target_creds),
                        answer,
                    ) && outcome == sftp_outcome(answer),
            },
    }
}

/// The central application object.
pub struct AppCore<P: ProfileStore, C: CredentialStore, K: Connector, S: MiniServer> {
    pub config: AppConfig,
    pub sessions: SessionRegistry,
    /// Events raised and not yet published, oldest first.
    pub events: Vec<AppEvent>,
    pub profiles: P,
    pub credentials: C,
    /// The SSH connector to use. Swappable (mock vs real) without touching
    /// callers.
    pub connector: K,
    /// Optional connector for local-shell profiles. Without one, connecting a
    /// local-shell profile fails with a clear error.
    pub local_connector: Option<K>,
    pub miniservers: MiniServerManager<S>,
}

impl<P: ProfileStore, C: CredentialStore, K: Connector, S: MiniServer> AppCore<P, C, K, S> {
    /// The connector for a protocol family, if there is one.
    pub open spec fn chosen_connector(self, kind: ProtocolKind) -> Option<K> {
        if kind == ProtocolKind::LocalShell {
            self.local_connector
        } else {
            Some(self.connector)
        }
    }

    /// Whether another state of the object has the same parts: only sessions and
    /// events may differ.
    pub open spec fn same_parts(self, other: Self) -> bool {
        &&& self.config == other.config
        &&& self.profiles == other.profiles
        &&& self.credentials == other.credentials
        &&& self.connector == other.connector
        &&& self.local_connector == other.local_connector
        &&& self.miniservers == other.miniservers
    }

    /// Build an `AppCore` from its parts.
    pub fn new(config: AppConfig, profiles: P, credentials: C, connector: K) -> (r: Self)
        ensures
            r.config == config,
            r.sessions@ == Map::<Id, RuntimeSession>::empty(),
            r.events@ == Seq::<AppEvent>::empty(),
            r.profiles == profiles,
            r.credentials == credentials,
            r.connector == connector,
            r.local_connector is None,
            r.miniservers@ == Map::<Id, S>::empty(),
    {
        AppCore {
            config,
            sessions: SessionRegistry::new(),
            events: Vec::new(),
            profiles,
            credentials,
            connector,
            local_connector: None,
            miniservers: MiniServerManager::new(),
        }
    }

    /// Attach a connector to use for local-shell profiles. Builder-style so the
    /// app can wire it without changing `new`'s signature.
    pub fn with_local_connector(self, connector: K) -> (r: Self)
        ensures
            r.config == self.config,
            r.sessions == self.sessions,
            r.events == self.events,
            r.profiles == self.profiles,
            r.credentials == self.credentials,
            r.connector == self.connector,
            r.local_connector == Some(connector),
            r.miniservers == self.miniservers,
    {
        AppCore {
            config: self.config,
            sessions: self.sessions,
            events: self.events,
            profiles: self.profiles,
            credentials: self.credentials,
            connector: self.connector,
            local_connector: Some(connector),
            miniservers: self.miniservers,
        }
    }

    /// Convenience constructor for a configuration that was to be loaded.
    pub fn with_defaults(
        config: Result<AppConfig, CoreError>,
        profiles: P,
        credentials: C,
        connector: K,
    ) -> (r: Result<Self, AppError>)
        ensures
            match config {
                Ok(config) => {
                    &&& r matches Ok(core)
                    &&& core.config == config
                    &&& core.sessions@ == Map::<Id, RuntimeSession>::empty()
                    &&& core.events@ == Seq::<AppEvent>::empty()
                    &&& core.profiles == profiles
                    &&& core.credentials == credentials
                    &&& core.connector == connector
                    &&& core.local_connector is None
                    &&& core.miniservers@ == Map::<Id, S>::empty()
                },
                Err(e) => r matches Err(AppError::LoadingConfig(e2)) && e2 == e,
            },
    {
        match config {
            Ok(config) => Ok(AppCore::new(config, profiles, credentials, connector)),
            Err(e) => Err(AppError::LoadingConfig(e)),
        }
    }

    /// Access the profile store (e.g. for the connection manager UI).
    pub fn profiles(&self) -> (r: &P)
        ensures
            *r == self.profiles,
    {
        &self.profiles
    }

    /// Pick the connector for `profile`'s protocol family.
    fn connector_for(&self, profile: &ConnectionProfile) -> (r: Result<&K, AppError>)
        ensures
            match self.chosen_connector(profile::kind_of(profile@.settings)) {
                Some(connector) => r matches Ok(k) && *k == connector,
                None => r matches Err(e) && e == AppError::LocalShellDisabled,
            },
    {
        match profile.kind() {
            ProtocolKind::LocalShell => match &self.local_connector {
                Some(connector) => Ok(connector),
                None => Err(AppError::LocalShellDisabled),
            },
            _ => Ok(&self.connector),
        }
    }

    /// Resolve a profile's secret from the credential store (transiently).
    ///
    /// The returned [`ResolvedCredentials`] holds secrets that are wiped on drop
    /// and is meant to be passed straight into a connector, never stored or
    /// logged.
    fn resolve_credentials(&self, profile: &ConnectionProfile) -> (r: Result<
        ResolvedCredentials,
        AppError,
    >)
        ensures
            may_resolve(self.credentials, profile@, r),
    {
        match &profile.credential {
            None => Ok(ResolvedCredentials::default()),
            Some(cref) => {
                let answer = self.credentials.get_secret(cref.id);
                take_credentials(answer)
            },
        }
    }

    /// Resolve a single-hop jump chain: load the gateway profile from the store,
    /// validate it, and resolve transient credentials for both hops.
    fn resolve_jump(&self, target: &ConnectionProfile, jump_id: Id) -> (r: Result<
        (ConnectionProfile, ResolvedCredentials, ResolvedCredentials),
        AppError,
    >)
        ensures
            may_resolve_jump(self.profiles, self.credentials, target@, jump_id, r),
    {
        let answer = self.profiles.get_profile(jump_id);
        match check_gateway(jump_id, answer) {
            Err(e) => Err(e),
            Ok(jump) => match self.resolve_credentials(&jump) {
                Err(e) => Err(e),
                Ok(jump_creds) => match self.resolve_credentials(target) {
                    Err(e) => Err(e),
                    Ok(target_creds) => Ok((jump, jump_creds, target_creds)),
                },
            },
        }
    }

    /// Open a shell for `profile`, dispatching to the jump-host path when the
    /// profile names a gateway. Pure orchestration over the [`Connector`] trait.
    fn open_shell(&self, connector: &K, profile: &ConnectionProfile) -> (r: Result<
        K::Session,
        AppError,
    >)
        ensures
            may_open_shell(
                self.profiles,
                self.credentials,
                *connector,
                *profile,
                r,
            ),
    {
        if let Some(jump_id) = ssh_jump_host(profile) {
            let resolved = self.resolve_jump(profile, jump_id);
            assert(may_resolve_jump(
                self.profiles,
                self.credentials,
                profile@,
                jump_id,
                resolved,
            ));
            match resolved {
                Err(e) => Err(e),
                Ok((jump, jump_creds, target_creds)) => {
                    let answer = connector.connect_shell_via_jump(
                        &jump,
                        &jump_creds,
                        profile,
                        &target_creds,
                    );
                    match answer {
                        Ok(transport) => Ok(transport),
                        Err(e) => Err(AppError::Transport(e)),
                    }
                },
            }
        } else {
            let resolved = self.resolve_credentials(profile);
            assert(may_resolve(self.credentials, profile@, resolved));
            match resolved {
                Err(e) => Err(e),
                Ok(creds) => {
                    let answer = connector.connect_shell(profile, &creds);
                    match answer {
                        Ok(transport) => Ok(transport),
                        Err(e) => Err(AppError::Transport(e)),
                    }
                },
            }
        }
    }

    /// Connect a profile and register the resulting session.
    ///
    /// Returns the new session id and the live transport. The caller (frontend)
    /// owns the transport and pumps its read/write loop into a terminal widget.
    ///
    /// If the profile is SSH and names a `jump_host`, the gateway profile and
    /// both hops' secrets are resolved here (orchestration stays in `AppCore`,
    /// not the `Connector`) and the session is opened on the **target** through
    /// the gateway.
    pub fn connect(&mut self, profile: &ConnectionProfile) -> (r: Result<
        (Id, K::Session),
        AppError,
    >)
        ensures
            final(self).same_parts(*old(self)),
            match old(self).chosen_connector(profile::kind_of(profile@.settings)) {
                None => {
                    &&& r matches Err(e)
                    &&& e == AppError::LocalShellDisabled
                    &&& *final(self) == *old(self)
                },
                Some(connector) => exists|
                    session: RuntimeSession,
                    outcome: Result<K::Session, AppError>,
                    state: SessionState,
                |
                    {
                        &&& is_session_for(session, profile@)
                        &&& #[trigger] may_open_shell(
                            old(self).profiles,
                            old(self).credentials,
                            connector,
                            *profile,
                            outcome,
                        )
                        &&& attempt_result(session.id, outcome, state, r)
                        &&& final(self).sessions@ == #[trigger] registry::with_state(
                            old(self).sessions@.insert(session.id, session),
                            session.id,
                            state,
                        )
                        &&& final(self).events@ == old(self).events@.push(
                            AppEvent::SessionStateChanged { session_id: session.id, state },
                        )
                    },
            },
    {
        // The connector comes first so that an unsupported profile fails before
        // a dangling session is registered.
        if let Err(e) = self.connector_for(profile) {
            return Err(e);
        }
        let session = RuntimeSession::new(profile.name.as_str(), profile.kind(), Some(profile.id));
        let ghost registered = session;
        let id: Id = self.sessions.register(session);
        let outcome: Result<K::Session, AppError> = match self.connector_for(profile) {
            Ok(connector) => self.open_shell(connector, profile),
            Err(e) => Err(e),
        };
        let ghost opened = outcome;
        let (state, r) = conclude(id, outcome);
        let ghost new_state = state;
        if let Some(event) = self.sessions.set_state(id, state) {
            self.events.push(event);
        }
        assert(is_session_for(registered, profile@));
        assert(attempt_result(registered.id, opened, new_state, r));
        assert(self.sessions@ == registry::with_state(
            old(self).sessions@.insert(registered.id, registered),
            registered.id,
            new_state,
        ));
        r
    }

    /// Open an SFTP client for `profile` (UI-friendly facade for the file
    /// browser). Works directly or, when the profile names a `jump_host`,
    /// through the gateway: the same orchestration as [`connect`](Self::connect).
    ///
    /// SFTP is SSH-only, so this always uses the main SSH connector; a non-SSH
    /// profile yields a clear error from the connector.
    pub fn connect_sftp(&self, profile: &ConnectionProfile) -> (r: Result<K::Sftp, AppError>)
        ensures
            may_open_sftp(
                self.profiles,
                self.credentials,
                self.connector,
                *profile,
                r,
            ),
    {
        let connector: &K = &self.connector;
        if let Some(jump_id) = ssh_jump_host(profile) {
            let resolved = self.resolve_jump(profile, jump_id);
            assert(may_resolve_jump(
                self.profiles,
                self.credentials,
                profile@,
                jump_id,
                resolved,
            ));
            match resolved {
                Err(e) => Err(e),
                Ok((jump, jump_creds, target_creds)) => {
                    let answer = connector.connect_sftp_via_jump(
                        &jump,
                        &jump_creds,
                        profile,
                        &target_creds,
                    );
                    match answer {
                        Ok(client) => Ok(client),
                        Err(e) => Err(AppError::SftpFailed(e)),
                    }
                },
            }
        } else {
            let resolved = self.resolve_credentials(profile);
            assert(may_resolve(self.credentials, profile@, resolved));
            match resolved {
                Err(e) => Err(e),
                Ok(creds) => {
                    let answer = connector.connect_sftp(profile, &creds);
                    match answer {
                        Ok(client) => Ok(client),
                        Err(e) => Err(AppError::SftpFailed(e)),
                    }
                },
            }
        }
    }

    /// Store a secret for a profile's credential reference.
    pub fn set_profile_secret(&mut self, profile: &ConnectionProfile, secret: Secret) -> (r: Result<
        (),
        AppError,
    >)
        ensures
            final(self).config == old(self).config,
            final(self).sessions == old(self).sessions,
            final(self).events == old(self).events,
            final(self).profiles == old(self).profiles,
            final(self).connector == old(self).connector,
            final(self).local_connector == old(self).local_connector,
            final(self).miniservers == old(self).miniservers,
            profile.credential is None ==> {
                &&& r matches Err(e)
                &&& e == AppError::NoCredentialRef
                &&& final(self).credentials == old(self).credentials
            },
            profile.credential matches Some(cref) ==> exists|
                store: &mut C,
                outcome: Result<(), CredentialError>,
            |
                {
                    &&& #[trigger] call_ensures(C::set_secret, (store, cref.id, &secret), outcome)
                    &&& *store == old(self).credentials
                    &&& *final(store) == final(self).credentials
                    &&& stored_outcome(outcome, r)
                },
    {
        match secret_target(profile) {
            Err(e) => Err(e),
            Ok(id) => {
                let outcome = self.credentials.set_secret(id, &secret);
                secret_stored(outcome)
            },
        }
    }

    /// Whether a profile is SSH (small helper for the UI).
    pub fn is_ssh(profile: &ConnectionProfile) -> (r: bool)
        ensures
            r == (profile@.settings is Ssh),
    {
        match &profile.settings {
            ProtocolSettings::Ssh(_) => true,
            _ => false,
        }
    }
}

/// Whether a session is a new one for a profile: it bears the profile's name and
/// kind, points back at it, and is being connected.
pub open spec fn is_session_for(session: RuntimeSession, profile: profile::ProfileModel) -> bool {
    &&& ids::is_random_id(session.id)
    &&& session.profile_id == Some(profile.id)
    &&& session.title@ == profile.name@
    &&& session.kind == profile::kind_of(profile.settings)
    &&& session.state == SessionState::Connecting
}

// ---------------------------------------------------------------------------
// Laws
// ---------------------------------------------------------------------------

/// A gateway that is accepted is the one that the store knows under the id, is
/// SSH, and names no jump host itself.
pub proof fn law_accepted_gateway(
    jump_id: Id,
    answer: Result<Option<ConnectionProfile>, CoreError>,
    jump: ConnectionProfile,
)
    requires
        gateway_from(jump_id, answer) == Ok::<ConnectionProfile, AppError>(jump),
    ensures
        answer == Ok::<Option<ConnectionProfile>, CoreError>(Some(jump)),
        is_gateway(jump@),
{
}

/// The gateway that is handed to a connector is SSH and names no jump host
/// itself.
pub proof fn law_resolved_gateway_is_single_hop<P: ProfileStore, C: CredentialStore>(
    profiles: P,
    credentials: C,
    target: profile::ProfileModel,
    jump_id: Id,
    jump: ConnectionProfile,
    jump_creds: ResolvedCredentials,
    target_creds: ResolvedCredentials,
)
    requires
        may_resolve_jump(
            profiles,
            credentials,
            target,
            jump_id,
            Ok((jump, jump_creds, target_creds)),
        ),
    ensures
        is_gateway(jump@),
{
}

/// Whether every answer that the store may give about the gateway is refused.
pub open spec fn gateway_refused<P: ProfileStore>(profiles: P, jump_id: Id) -> bool {
    forall|answer: Result<Option<ConnectionProfile>, CoreError>|
        #[trigger] call_ensures(P::get_profile, (&profiles, jump_id), answer) ==> gateway_from(
            jump_id,
            answer,
        ) is Err
}

/// A refused gateway connects nothing: neither a shell nor an SFTP client comes
/// out, whatever the connector would have answered.
pub proof fn law_refused_gateway_connects_nothing<
    P: ProfileStore,
    C: CredentialStore,
    K: Connector,
>(
    profiles: P,
    credentials: C,
    connector: K,
    target: ConnectionProfile,
    shell: Result<K::Session, AppError>,
    sftp: Result<K::Sftp, AppError>,
)
    requires
        jump_host_of(target@) is Some,
        gateway_refused(profiles, jump_host_of(target@)->0),
        may_open_shell(profiles, credentials, connector, target, shell),
        may_open_sftp(profiles, credentials, connector, target, sftp),
    ensures
        shell is Err,
        sftp is Err,
{
}

/// A failed attempt is never reported as connected, and a successful one never
/// as failed.
pub proof fn law_state_tells_outcome<T>(
    id: Id,
    outcome: Result<T, AppError>,
    state: SessionState,
    r: Result<(Id, T), AppError>,
)
    requires
        attempt_result(id, outcome, state, r),
    ensures
        state == SessionState::Connected <==> r is Ok,
        state is Failed <==> r is Err,
        outcome is Ok <==> r is Ok,
{
}

/// The secret that the in-memory store holds for a profile is handed to the
/// connector as its password, and a key passphrase is never made up.
pub proof fn law_stored_secret_becomes_password(
    credentials: MemoryCredentialStore,
    profile: profile::ProfileModel,
    r: Result<ResolvedCredentials, AppError>,
)
    requires
        may_resolve(credentials, profile, r),
    ensures
        r is Ok,
        r->Ok_0.key_passphrase is None,
        match profile.credential {
            Some(cref) => match memory::stored(credentials@, cref.id) {
                Some(secret) => r->Ok_0.password matches Some(p) && p@ == secret,
                None => r->Ok_0.password is None,
            },
            None => r->Ok_0.password is None,
        },
{
}

/// Setting a secret in the in-memory store succeeds, and the store then holds it
/// and everything else that it held.
pub proof fn law_set_secret_is_stored(
    before: MemoryCredentialStore,
    after: MemoryCredentialStore,
    id: Id,
    secret: Secret,
    outcome: Result<(), CredentialError>,
)
    requires
        exists|store: &mut MemoryCredentialStore|
            {
                &&& #[trigger] call_ensures(
                    MemoryCredentialStore::set_secret,
                    (store, id, &secret),
                    outcome,
                )
                &&& *store == before
                &&& *final(store) == after
            },
    ensures
        outcome is Ok,
        after@ == before@.insert(id, secret@),
{
}

/// Over the fake transport and the in-memory secret store, every profile without
/// a gateway connects, and shows its banner.
pub proof fn law_mock_shell_connects<P: ProfileStore>(
    profiles: P,
    credentials: MemoryCredentialStore,
    target: ConnectionProfile,
    outcome: Result<MockSession, AppError>,
)
    requires
        jump_host_of(target@) is None,
        may_open_shell(profiles, credentials, MockConnector, target, outcome),
    ensures
        outcome matches Ok(session) && session@ == seq![encode_utf8(mock::banner(target@))],
{
    let resolved = choose|resolved: Result<ResolvedCredentials, AppError>|
        #[trigger] may_resolve(credentials, target@, resolved) && match resolved {
            Err(e) => outcome == Err::<MockSession, AppError>(e),
            Ok(creds) => exists|answer: Result<MockSession, ProtocolError>|
                #[trigger] call_ensures(
                    MockConnector::connect_shell,
                    (&MockConnector, &target, &creds),
                    answer,
                ) && outcome == transport_outcome(answer),
        };
    law_stored_secret_becomes_password(credentials, target@, resolved);
}

/// What a connector was handed: the gateway, where there is one, and the target,
/// each with the password for it, and whether a key passphrase was among it.
pub struct Handed {
    pub gateway: Option<(profile::ProfileModel, Option<Seq<char>>)>,
    pub target: (profile::ProfileModel, Option<Seq<char>>),
    pub passphrases: bool,
}

/// The text of a secret that may be there.
pub open spec fn text_of(secret: Option<Secret>) -> Option<Seq<char>> {
    match secret {
        Some(s) => Some(s@),
        None => None,
    }
}

/// With the in-memory stores, an SFTP client behind a gateway is opened by handing the
/// connector the gateway's profile with the gateway's own stored secret, and the
/// target's profile with the target's own. `told` is what the connector's answer
/// tells of what it was handed.
pub proof fn law_sftp_hops_get_their_own_secrets<K: Connector>(
    profiles: StoreData,
    credentials: MemoryCredentialStore,
    connector: K,
    target: ConnectionProfile,
    at: int,
    outcome: Result<K::Sftp, AppError>,
    told: spec_fn(Result<K::Sftp, ProtocolError>) -> Handed,
)
    requires
        0 <= at < profiles.profiles@.len(),
        target.settings matches ProtocolSettings::Ssh(ssh) && ssh.jump_host == Some(
            profiles.profiles@[at].id,
        ),
        forall|i: int|
            0 <= i < at ==> (#[trigger] profiles.profiles@[i]).id != profiles.profiles@[at].id,
        profiles.profiles@[at].settings matches ProtocolSettings::Ssh(ssh) && ssh.jump_host is None,
        forall|
            gateway: ConnectionProfile,
            gateway_creds: ResolvedCredentials,
            reached: ConnectionProfile,
            creds: ResolvedCredentials,
            answer: Result<K::Sftp, ProtocolError>,
        |
            #[trigger] call_ensures(
                K::connect_sftp_via_jump,
                (&connector, &gateway, &gateway_creds, &reached, &creds),
                answer,
            ) ==> told(answer) == (Handed {
                gateway: Some((gateway@, text_of(gateway_creds.password))),
                target: (reached@, text_of(creds.password)),
                passphrases: text_of(gateway_creds.key_passphrase) is Some || text_of(
                    creds.key_passphrase,
                ) is Some,
            }),
        may_open_sftp(profiles, credentials, connector, target, outcome),
    ensures
        exists|answer: Result<K::Sftp, ProtocolError>|
            {
                &&& #[trigger] told(answer) == (Handed {
                    gateway: Some(
                        (
                            profiles.profiles@[at]@,
                            match profiles.profiles@[at].credential {
                                Some(cref) => if credentials@.contains_key(cref.id) {
                                    Some(credentials@[cref.id])
                                } else {
                                    None
                                },
                                None => None,
                            },
                        ),
                    ),
                    target: (
                        target@,
                        match target.credential {
                            Some(cref) => if credentials@.contains_key(cref.id) {
                                Some(credentials@[cref.id])
                            } else {
                                None
                            },
                            None => None,
                        },
                    ),
                    passphrases: false,
                })
                &&& match answer {
                    Ok(opened) => outcome == Ok::<K::Sftp, AppError>(opened),
                    Err(e) => outcome == Err::<K::Sftp, AppError>(AppError::SftpFailed(e)),
                }
            },
{
    let gateway = profiles.profiles@[at];
    let jump_id = gateway.id;
    assert(jump_host_of(target@) == Some(jump_id));
    assert forall|i: int| 0 <= i < at implies (#[trigger] profiles.profiles@[i]).key_of()
        != jump_id by {
        assert(profiles.profiles@[i].id != jump_id);
    }
    store::law_lookup_finds_the_first(profiles.profiles@, jump_id, at);
    let resolved = choose|
        resolved: Result<(ConnectionProfile, ResolvedCredentials, ResolvedCredentials), AppError>,
    |
        #[trigger] may_resolve_jump(profiles, credentials, target@, jump_id, resolved)
            && match resolved {
            Err(e) => outcome == Err::<K::Sftp, AppError>(e),
            Ok((jump, jump_creds, target_creds)) => exists|answer: Result<K::Sftp, ProtocolError>|
                #[trigger] call_ensures(
                    K::connect_sftp_via_jump,
                    (&connector, &jump, &jump_creds, &target, &target_creds),
                    answer,
                ) && outcome == sftp_outcome(answer),
        };
    if let Err(e) = resolved {
        assert forall|r: Result<ResolvedCredentials, AppError>|
            #[trigger] may_resolve(credentials, gateway@, r) implies r is Ok by {
            law_stored_secret_becomes_password(credentials, gateway@, r);
        }
        assert forall|r: Result<ResolvedCredentials, AppError>|
            #[trigger] may_resolve(credentials, target@, r) implies r is Ok by {
            law_stored_secret_becomes_password(credentials, target@, r);
        }
        assert(false);
    }
    let (jump, jump_creds, target_creds) = resolved->Ok_0;
    law_stored_secret_becomes_password(
        credentials,
        gateway@,
        Ok::<ResolvedCredentials, AppError>(jump_creds),
    );
    law_stored_secret_becomes_password(
        credentials,
        target@,
        Ok::<ResolvedCredentials, AppError>(target_creds),
    );
    let answer = choose|answer: Result<K::Sftp, ProtocolError>|
        #[trigger] call_ensures(
            K::connect_sftp_via_jump,
            (&connector, &jump, &jump_creds, &target, &target_creds),
            answer,
        ) && outcome == sftp_outcome(answer);
    assert(told(answer).target.0 == target@);
}

/// With the in-memory secret store, an SFTP client without a gateway is opened by handing
/// the connector the profile with its own stored secret.
pub proof fn law_sftp_gets_the_stored_secret<P: ProfileStore, K: Connector>(
    profiles: P,
    credentials: MemoryCredentialStore,
    connector: K,
    target: ConnectionProfile,
    outcome: Result<K::Sftp, AppError>,
    told: spec_fn(Result<K::Sftp, ProtocolError>) -> Handed,
)
    requires
        target.settings matches ProtocolSettings::Ssh(ssh) ==> ssh.jump_host is None,
        forall|
            reached: ConnectionProfile,
            creds: ResolvedCredentials,
            answer: Result<K::Sftp, ProtocolError>,
        |
            #[trigger] call_ensures(K::connect_sftp, (&connector, &reached, &creds), answer) ==> told(
                answer,
            ) == (Handed {
                gateway: None,
                target: (reached@, text_of(creds.password)),
                passphrases: text_of(creds.key_passphrase) is Some,
            }),
        may_open_sftp(profiles, credentials, connector, target, outcome),
    ensures
        exists|answer: Result<K::Sftp, ProtocolError>|
            {
                &&& #[trigger] told(answer) == (Handed {
                    gateway: None,
                    target: (
                        target@,
                        match target.credential {
                            Some(cref) => if credentials@.contains_key(cref.id) {
                                Some(credentials@[cref.id])
                            } else {
                                None
                            },
                            None => None,
                        },
                    ),
                    passphrases: false,
                })
                &&& match answer {
                    Ok(opened) => outcome == Ok::<K::Sftp, AppError>(opened),
                    Err(e) => outcome == Err::<K::Sftp, AppError>(AppError::SftpFailed(e)),
                }
            },
{
    assert(jump_host_of(target@) is None);
    let resolved = choose|resolved: Result<ResolvedCredentials, AppError>|
        #[trigger] may_resolve(credentials, target@, resolved) && match resolved {
            Err(e) => outcome == Err::<K::Sftp, AppError>(e),
            Ok(creds) => exists|answer: Result<K::Sftp, ProtocolError>|
                #[trigger] call_ensures(K::connect_sftp, (&connector, &target, &creds), answer)
                    && outcome == sftp_outcome(answer),
        };
    law_stored_secret_becomes_password(credentials, target@, resolved);
    let creds = resolved->Ok_0;
    let answer = choose|answer: Result<K::Sftp, ProtocolError>|
        #[trigger] call_ensures(K::connect_sftp, (&connector, &target, &creds), answer) && outcome
            == sftp_outcome(answer);
    assert(told(answer).target.0 == target@);
}

/// With the in-memory stores, a shell behind a gateway is opened by handing the
/// connector the gateway's profile with the gateway's own stored secret, and the
/// target's profile with the target's own. `told` is what the connector's answer
/// tells of what it was handed.
pub proof fn law_shell_hops_get_their_own_secrets<K: Connector>(
    profiles: StoreData,
    credentials: MemoryCredentialStore,
    connector: K,
    target: ConnectionProfile,
    at: int,
    outcome: Result<K::Session, AppError>,
    told: spec_fn(Result<K::Session, ProtocolError>) -> Handed,
)
    requires
        0 <= at < profiles.profiles@.len(),
        target.settings matches ProtocolSettings::Ssh(ssh) && ssh.jump_host == Some(
            profiles.profiles@[at].id,
        ),
        forall|i: int|
            0 <= i < at ==> (#[trigger] profiles.profiles@[i]).id != profiles.profiles@[at].id,
        profiles.profiles@[at].settings matches ProtocolSettings::Ssh(ssh) && ssh.jump_host is None,
        forall|
            gateway: ConnectionProfile,
            gateway_creds: ResolvedCredentials,
            reached: ConnectionProfile,
            creds: ResolvedCredentials,
            answer: Result<K::Session, ProtocolError>,
        |
            #[trigger] call_ensures(
                K::connect_shell_via_jump,
                (&connector, &gateway, &gateway_creds, &reached, &creds),
                answer,
            ) ==> told(answer) == (Handed {
                gateway: Some((gateway@, text_of(gateway_creds.password))),
                target: (reached@, text_of(creds.password)),
                passphrases: text_of(gateway_creds.key_passphrase) is Some || text_of(
                    creds.key_passphrase,
                ) is Some,
            }),
        may_open_shell(profiles, credentials, connector, target, outcome),
    ensures
        exists|answer: Result<K::Session, ProtocolError>|
            {
                &&& #[trigger] told(answer) == (Handed {
                    gateway: Some(
                        (
                            profiles.profiles@[at]@,
                            match profiles.profiles@[at].credential {
                                Some(cref) => if credentials@.contains_key(cref.id) {
                                    Some(credentials@[cref.id])
                                } else {
                                    None
                                },
                                None => None,
                            },
                        ),
                    ),
                    target: (
                        target@,
                        match target.credential {
                            Some(cref) => if credentials@.contains_key(cref.id) {
                                Some(credentials@[cref.id])
                            } else {
                                None
                            },
                            None => None,
                        },
                    ),
                    passphrases: false,
                })
                &&& match answer {
                    Ok(opened) => outcome == Ok::<K::Session, AppError>(opened),
                    Err(e) => outcome == Err::<K::Session, AppError>(AppError::Transport(e)),
                }
            },
{
    let gateway = profiles.profiles@[at];
    let jump_id = gateway.id;
    assert(jump_host_of(target@) == Some(jump_id));
    assert forall|i: int| 0 <= i < at implies (#[trigger] profiles.profiles@[i]).key_of()
        != jump_id by {
        assert(profiles.profiles@[i].id != jump_id);
    }
    store::law_lookup_finds_the_first(profiles.profiles@, jump_id, at);
    let resolved = choose|
        resolved: Result<(ConnectionProfile, ResolvedCredentials, ResolvedCredentials), AppError>,
    |
        #[trigger] may_resolve_jump(profiles, credentials, target@, jump_id, resolved)
            && match resolved {
            Err(e) => outcome == Err::<K::Session, AppError>(e),
            Ok((jump, jump_creds, target_creds)) => exists|answer: Result<K::Session, ProtocolError>|
                #[trigger] call_ensures(
                    K::connect_shell_via_jump,
                    (&connector, &jump, &jump_creds, &target, &target_creds),
                    answer,
                ) && outcome == transport_outcome(answer),
        };
    if let Err(e) = resolved {
        assert forall|r: Result<ResolvedCredentials, AppError>|
            #[trigger] may_resolve(credentials, gateway@, r) implies r is Ok by {
            law_stored_secret_becomes_password(credentials, gateway@, r);
        }
        assert forall|r: Result<ResolvedCredentials, AppError>|
            #[trigger] may_resolve(credentials, target@, r) implies r is Ok by {
            law_stored_secret_becomes_password(credentials, target@, r);
        }
        assert(false);
    }
    let (jump, jump_creds, target_creds) = resolved->Ok_0;
    law_stored_secret_becomes_password(
        credentials,
        gateway@,
        Ok::<ResolvedCredentials, AppError>(jump_creds),
    );
    law_stored_secret_becomes_password(
        credentials,
        target@,
        Ok::<ResolvedCredentials, AppError>(target_creds),
    );
    let answer = choose|answer: Result<K::Session, ProtocolError>|
        #[trigger] call_ensures(
            K::connect_shell_via_jump,
            (&connector, &jump, &jump_creds, &target, &target_creds),
            answer,
        ) && outcome == transport_outcome(answer);
    assert(told(answer).target.0 == target@);
}

/// With the in-memory secret store, a shell without a gateway is opened by handing
/// the connector the profile with its own stored secret.
pub proof fn law_shell_gets_the_stored_secret<P: ProfileStore, K: Connector>(
    profiles: P,
    credentials: MemoryCredentialStore,
    connector: K,
    target: ConnectionProfile,
    outcome: Result<K::Session, AppError>,
    told: spec_fn(Result<K::Session, ProtocolError>) -> Handed,
)
    requires
        target.settings matches ProtocolSettings::Ssh(ssh) ==> ssh.jump_host is None,
        forall|
            reached: ConnectionProfile,
            creds: ResolvedCredentials,
            answer: Result<K::Session, ProtocolError>,
        |
            #[trigger] call_ensures(K::connect_shell, (&connector, &reached, &creds), answer) ==> told(
                answer,
            ) == (Handed {
                gateway: None,
                target: (reached@, text_of(creds.password)),
                passphrases: text_of(creds.key_passphrase) is Some,
            }),
        may_open_shell(profiles, credentials, connector, target, outcome),
    ensures
        exists|answer: Result<K::Session, ProtocolError>|
            {
                &&& #[trigger] told(answer) == (Handed {
                    gateway: None,
                    target: (
                        target@,
                        match target.credential {
                            Some(cref) => if credentials@.contains_key(cref.id) {
                                Some(credentials@[cref.id])
                            } else {
                                None
                            },
                            None => None,
                        },
                    ),
                    passphrases: false,
                })
                &&& match answer {
                    Ok(opened) => outcome == Ok::<K::Session, AppError>(opened),
                    Err(e) => outcome == Err::<K::Session, AppError>(AppError::Transport(e)),
                }
            },
{
    assert(jump_host_of(target@) is None);
    let resolved = choose|resolved: Result<ResolvedCredentials, AppError>|
        #[trigger] may_resolve(credentials, target@, resolved) && match resolved {
            Err(e) => outcome == Err::<K::Session, AppError>(e),
            Ok(creds) => exists|answer: Result<K::Session, ProtocolError>|
                #[trigger] call_ensures(K::connect_shell, (&connector, &target, &creds), answer)
                    && outcome == transport_outcome(answer),
        };
    law_stored_secret_becomes_password(credentials, target@, resolved);
    let creds = resolved->Ok_0;
    let answer = choose|answer: Result<K::Session, ProtocolError>|
        #[trigger] call_ensures(K::connect_shell, (&connector, &target, &creds), answer) && outcome
            == transport_outcome(answer);
    assert(told(answer).target.0 == target@);
}

/// Through a gateway, a connector is handed the profile that the store knows
/// under the id that the target names, with what that profile's own credential
/// reference resolves to, and the target with what the target's resolves to.
pub proof fn law_each_hop_gets_its_own_credentials<
    P: ProfileStore,
    C: CredentialStore,
    K: Connector,
>(
    profiles: P,
    credentials: C,
    connector: K,
    target: ConnectionProfile,
    jump_id: Id,
    shell: K::Session,
    sftp: K::Sftp,
)
    requires
        target.settings matches ProtocolSettings::Ssh(ssh) && ssh.jump_host == Some(jump_id),
    ensures
        may_open_shell(
            profiles,
            credentials,
            connector,
            target,
            Ok::<K::Session, AppError>(shell),
        ) ==> exists|
            gateway: ConnectionProfile,
            gateway_creds: ResolvedCredentials,
            creds: ResolvedCredentials,
        |
            {
                &&& call_ensures(
                    P::get_profile,
                    (&profiles, jump_id),
                    Ok::<Option<ConnectionProfile>, CoreError>(Some(gateway)),
                )
                &&& gateway.settings is Ssh
                &&& gateway.settings->Ssh_0.jump_host is None
                &&& resolves_to(credentials, gateway.credential, gateway_creds)
                &&& resolves_to(credentials, target.credential, creds)
                &&& #[trigger] call_ensures(
                    K::connect_shell_via_jump,
                    (&connector, &gateway, &gateway_creds, &target, &creds),
                    Ok::<K::Session, ProtocolError>(shell),
                )
            },
        may_open_sftp(
            profiles,
            credentials,
            connector,
            target,
            Ok::<K::Sftp, AppError>(sftp),
        ) ==> exists|
            gateway: ConnectionProfile,
            gateway_creds: ResolvedCredentials,
            creds: ResolvedCredentials,
        |
            {
                &&& call_ensures(
                    P::get_profile,
                    (&profiles, jump_id),
                    Ok::<Option<ConnectionProfile>, CoreError>(Some(gateway)),
                )
                &&& gateway.settings is Ssh
                &&& gateway.settings->Ssh_0.jump_host is None
                &&& resolves_to(credentials, gateway.credential, gateway_creds)
                &&& resolves_to(credentials, target.credential, creds)
                &&& #[trigger] call_ensures(
                    K::connect_sftp_via_jump,
                    (&connector, &gateway, &gateway_creds, &target, &creds),
                    Ok::<K::Sftp, ProtocolError>(sftp),
                )
            },
{
    assert(jump_host_of(target@) == Some(jump_id));
}

/// Whether credentials are what a reference resolves to: the password that the
/// store gives under the id of the reference, and none without a reference.
pub open spec fn resolves_to<C: CredentialStore>(
    credentials: C,
    reference: Option<CredentialRef>,
    creds: ResolvedCredentials,
) -> bool {
    &&& creds.key_passphrase is None
    &&& match reference {
        Some(cref) => call_ensures(
            C::get_secret,
            (&credentials, cref.id),
            Ok::<Option<Secret>, CredentialError>(creds.password),
        ),
        None => creds.password is None,
    }
}

/// Each way in which a gateway is unfit has its own error.
pub proof fn law_unfit_gateways(
    jump_id: Id,
    error: CoreError,
    gateway: ConnectionProfile,
)
    ensures
        gateway_from(jump_id, Err(error)) == Err::<ConnectionProfile, AppError>(
            AppError::LoadingGateway(error),
        ),
        gateway_from(jump_id, Ok(None)) == Err::<ConnectionProfile, AppError>(
            AppError::GatewayNotFound(jump_id),
        ),
        gateway.settings is LocalShell ==> gateway_from(jump_id, Ok(Some(gateway))) == Err::<
            ConnectionProfile,
            AppError,
        >(AppError::GatewayNotSsh { name: gateway.name, kind: ProtocolKind::LocalShell }),
        gateway.settings matches ProtocolSettings::Ssh(ssh) ==> gateway_from(
            jump_id,
            Ok(Some(gateway)),
        ) == (if ssh.jump_host is Some {
            Err::<ConnectionProfile, AppError>(AppError::ChainTooLong { gateway: gateway.name })
        } else {
            Ok(gateway)
        }),
{
}

/// A local shell is opened by the connector for local shells, and everything
/// else by the main one.
pub proof fn law_connector_follows_the_protocol<
    P: ProfileStore,
    C: CredentialStore,
    K: Connector,
    S: MiniServer,
>(core: AppCore<P, C, K, S>, profile: ConnectionProfile)
    ensures
        profile.settings is LocalShell ==> core.chosen_connector(profile::kind_of(profile@.settings))
            == core.local_connector,
        profile.settings is Ssh ==> core.chosen_connector(profile::kind_of(profile@.settings))
            == Some(core.connector),
{
}

/// What an attempt comes to: the transport under the id of the session where it
/// was opened, and otherwise one and the same reason for the session and for the
/// caller.
pub proof fn law_attempt_is_reported<T>(
    id: Id,
    outcome: Result<T, AppError>,
    state: SessionState,
    r: Result<(Id, T), AppError>,
)
    requires
        attempt_result(id, outcome, state, r),
    ensures
        outcome matches Ok(transport) ==> state == SessionState::Connected && r == Ok::<
            (Id, T),
            AppError,
        >((id, transport)),
        outcome matches Err(e) ==> {
            &&& state matches SessionState::Failed(why)
            &&& why@ == e.message_text()
            &&& r matches Err(AppError::ConnectFailed(what))
            &&& what@ == why@
        },
{
}

/// The session that an attempt registers is about its profile and begins as
/// being connected, and nothing but sessions and events is touched.
pub proof fn law_attempt_touches_sessions_only<
    P: ProfileStore,
    C: CredentialStore,
    K: Connector,
    S: MiniServer,
>(
    before: AppCore<P, C, K, S>,
    after: AppCore<P, C, K, S>,
    session: RuntimeSession,
    profile: ConnectionProfile,
)
    ensures
        after.same_parts(before) ==> after.config == before.config && after.profiles
            == before.profiles && after.credentials == before.credentials && after.connector
            == before.connector && after.local_connector == before.local_connector
            && after.miniservers == before.miniservers,
        is_session_for(session, profile@) ==> session.profile_id == Some(profile.id)
            && session.title@ == profile.name@ && session.state == SessionState::Connecting
            && session.kind == (if profile.settings is Ssh {
            ProtocolKind::Ssh
        } else {
            ProtocolKind::LocalShell
        }),
{
}

/// The gateway that a profile names is that of its SSH settings, and a local
/// shell names none.
pub proof fn law_gateway_that_a_profile_names(profile: ConnectionProfile)
    ensures
        profile.settings matches ProtocolSettings::Ssh(ssh) ==> jump_host_of(profile@)
            == ssh.jump_host,
        profile.settings is LocalShell ==> jump_host_of(profile@) is None,
{
}

/// A failing secret store fails the attempt with its own error, and storing a
/// secret is reported as the store reports it.
pub proof fn law_errors_of_the_secret_store(e: CredentialError, r: Result<(), AppError>)
    ensures
        credentials_from(Err(e)) == Err::<ResolvedCredentials, AppError>(AppError::Credential(e)),
        stored_outcome(Err(e), r) ==> r == Err::<(), AppError>(AppError::Credential(e)),
        stored_outcome(Ok(()), r) ==> r is Ok,
{
}

/// The secret of the gateway is asked for before that of the target: where it
/// cannot be had, that is the error, whatever there is to say of the target's.
pub proof fn law_gateway_is_resolved_first<P: ProfileStore, C: CredentialStore>(
    profiles: P,
    credentials: C,
    target: ConnectionProfile,
    jump_id: Id,
    gateway: ConnectionProfile,
    cref: CredentialRef,
    r: Result<(ConnectionProfile, ResolvedCredentials, ResolvedCredentials), AppError>,
)
    requires
        forall|answer: Result<Option<ConnectionProfile>, CoreError>|
            #[trigger] call_ensures(P::get_profile, (&profiles, jump_id), answer) ==> answer == Ok::<
                Option<ConnectionProfile>,
                CoreError,
            >(Some(gateway)),
        gateway.settings is Ssh,
        gateway.settings->Ssh_0.jump_host is None,
        gateway.credential == Some(cref),
        forall|answer: Result<Option<Secret>, CredentialError>|
            #[trigger] call_ensures(C::get_secret, (&credentials, cref.id), answer) ==> answer
                is Err,
        may_resolve_jump(profiles, credentials, target@, jump_id, r),
    ensures
        exists|e: CredentialError|
            {
                &&& #[trigger] call_ensures(
                    C::get_secret,
                    (&credentials, cref.id),
                    Err::<Option<Secret>, CredentialError>(e),
                )
                &&& r matches Err(error)
                &&& error == AppError::Credential(e)
            },
{
    assert forall|creds: ResolvedCredentials| !#[trigger]
        may_resolve(credentials, gateway@, Ok::<ResolvedCredentials, AppError>(creds)) by {}
    assert(may_resolve(credentials, gateway@, Err::<ResolvedCredentials, AppError>(r->Err_0)));
    let answer = choose|answer: Result<Option<Secret>, CredentialError>|
        #[trigger] call_ensures(C::get_secret, (&credentials, cref.id), answer) && Err::<
            ResolvedCredentials,
            AppError,
        >(r->Err_0) == credentials_from(answer);
    assert(answer == Err::<Option<Secret>, CredentialError>(answer->Err_0));
}

} // verus!
