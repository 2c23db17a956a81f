//! Connection profiles.

use vstd::prelude::*;
use vstd::string::*;

use crate::ids;
use crate::ids::{new_id, Id};

verus! {

/// A pointer to secret material stored in the OS secret service.
///
/// This struct is safe to put into the profile database: it contains no secret,
/// only a stable id (the key in the secret store) and a human label.
#[derive(Debug, PartialEq, Eq)]
pub struct CredentialRef {
    /// Stable identifier; used as the account/key in the secret store.
    pub id: Id,
    /// Human-friendly, non-secret label (e.g. "prod-root").
    pub label: String,
}

impl Clone for CredentialRef {
    fn clone(&self) -> (r: Self)
        ensures
            r == *self,
    {
        CredentialRef { id: self.id, label: self.label.clone() }
    }
}

impl CredentialRef {
    pub fn new(label: &str) -> (r: CredentialRef)
        ensures
            ids::is_random_id(r.id),
            r.label@ == label@,
    {
        CredentialRef { id: new_id(), label: label.to_string() }
    }
}

/// Supported / planned protocols. The enum is additive: new protocols are new
/// variants.
#[derive(Debug, Clone, Copy, PartialEq, Eq, Structural)]
pub enum ProtocolKind {
    Ssh,
    Telnet,
    Rlogin,
    Rdp,
    Vnc,
    Ftp,
    Sftp,
    Serial,
    LocalShell,
}

impl ProtocolKind {
    /// The name of the kind.
    pub open spec fn name_text(self) -> Seq<char> {
        match self {
            ProtocolKind::Ssh => "Ssh"@,
            ProtocolKind::Telnet => "Telnet"@,
            ProtocolKind::Rlogin => "Rlogin"@,
            ProtocolKind::Rdp => "Rdp"@,
            ProtocolKind::Vnc => "Vnc"@,
            ProtocolKind::Ftp => "Ftp"@,
            ProtocolKind::Sftp => "Sftp"@,
            ProtocolKind::Serial => "Serial"@,
            ProtocolKind::LocalShell => "LocalShell"@,
        }
    }

    /// The name of the kind, as it stands in messages.
    pub fn name(self) -> (r: &'static str)
        ensures
            r@ == self.name_text(),
    {
        match self {
            ProtocolKind::Ssh => "Ssh",
            ProtocolKind::Telnet => "Telnet",
            ProtocolKind::Rlogin => "Rlogin",
            ProtocolKind::Rdp => "Rdp",
            ProtocolKind::Vnc => "Vnc",
            ProtocolKind::Ftp => "Ftp",
            ProtocolKind::Sftp => "Sftp",
            ProtocolKind::Serial => "Serial",
            ProtocolKind::LocalShell => "LocalShell",
        }
    }
}

/// SSH authentication methods, in the order they should be attempted.
#[derive(Debug, Clone, Copy, PartialEq, Eq, Structural)]
pub enum AuthMethod {
    Password,
    PublicKey,
    Agent,
    KeyboardInteractive,
}

/// SSH-specific connection settings (no secrets).
#[derive(Debug, PartialEq, Eq)]
pub struct SshSettings {
    pub host: String,
    pub port: u16,
    pub username: String,
    pub auth_methods: Vec<AuthMethod>,
    /// Path to a private key file on disk.
    pub private_key_path: Option<String>,
    /// Reference to the **private key's passphrase** secret, if the key is
    /// encrypted. A pointer into the secret store, never the passphrase itself.
    ///
    /// This is independent from the profile's password credential
    /// ([`ConnectionProfile::credential`]): a password and a key passphrase are
    /// different secrets and must never be confused.
    pub key_passphrase: Option<CredentialRef>,
    /// Optional jump host (gateway). Points at another profile's id, enabling
    /// `ProxyJump`-style chaining.
    pub jump_host: Option<Id>,
    /// Verify the server key against `known_hosts` (recommended).
    pub strict_host_key_checking: bool,
    /// Forward the local SSH agent to the remote.
    pub agent_forwarding: bool,
}

/// SSH settings, with the methods as a sequence.
pub struct SshModel {
    pub host: String,
    pub port: u16,
    pub username: String,
    pub auth_methods: Seq<AuthMethod>,
    pub private_key_path: Option<String>,
    pub key_passphrase: Option<CredentialRef>,
    pub jump_host: Option<Id>,
    pub strict_host_key_checking: bool,
    pub agent_forwarding: bool,
}

impl View for SshSettings {
    type V = SshModel;

    open spec fn view(&self) -> SshModel {
        SshModel {
            host: self.host,
            port: self.port,
            username: self.username,
            auth_methods: self.auth_methods@,
            private_key_path: self.private_key_path,
            key_passphrase: self.key_passphrase,
            jump_host: self.jump_host,
            strict_host_key_checking: self.strict_host_key_checking,
            agent_forwarding: self.agent_forwarding,
        }
    }
}

impl Clone for SshSettings {
    fn clone(&self) -> (r: Self)
        ensures
            r@ == self@,
    {
        let auth_methods = self.auth_methods.clone();
        assert(auth_methods@ =~= self.auth_methods@);
        SshSettings {
            host: self.host.clone(),
            port: self.port,
            username: self.username.clone(),
            auth_methods,
            private_key_path: self.private_key_path.clone(),
            key_passphrase: self.key_passphrase.clone(),
            jump_host: self.jump_host,
            strict_host_key_checking: self.strict_host_key_checking,
            agent_forwarding: self.agent_forwarding,
        }
    }
}

/// Whether settings are the default ones but for host and user: port 22, agent
/// before key before password, host keys checked, the agent not forwarded.
pub open spec fn has_ssh_defaults(ssh: SshSettings) -> bool {
    &&& ssh.port == 22
    &&& ssh.auth_methods@ == seq![AuthMethod::Agent, AuthMethod::PublicKey, AuthMethod::Password]
    &&& ssh.private_key_path is None
    &&& ssh.key_passphrase is None
    &&& ssh.jump_host is None
    &&& ssh.strict_host_key_checking
    &&& !ssh.agent_forwarding
}

impl Default for SshSettings {
    fn default() -> (r: Self)
        ensures
            r.host@ == Seq::<char>::empty(),
            r.username@ == Seq::<char>::empty(),
            has_ssh_defaults(r),
    {
        let auth_methods: Vec<AuthMethod> = vec![
            AuthMethod::Agent,
            AuthMethod::PublicKey,
            AuthMethod::Password,
        ];
        assert(auth_methods@ =~= seq![
            AuthMethod::Agent,
            AuthMethod::PublicKey,
            AuthMethod::Password,
        ]);
        SshSettings {
            host: String::new(),
            port: 22,
            username: String::new(),
            auth_methods,
            private_key_path: None,
            key_passphrase: None,
            jump_host: None,
            strict_host_key_checking: true,
            agent_forwarding: false,
        }
    }
}

/// Protocol-specific settings.
#[derive(Debug, PartialEq, Eq)]
pub enum ProtocolSettings {
    Ssh(SshSettings),
    /// A local shell session (no network).
    LocalShell {
        /// Program to launch; `None` means the user's default shell.
        program: Option<String>,
    },
}

/// Protocol-specific settings, with sequences in place of vectors.
pub enum SettingsModel {
    Ssh(SshModel),
    LocalShell { program: Option<String> },
}

impl View for ProtocolSettings {
    type V = SettingsModel;

    open spec fn view(&self) -> SettingsModel {
        match self {
            ProtocolSettings::Ssh(ssh) => SettingsModel::Ssh(ssh@),
            ProtocolSettings::LocalShell { program } => SettingsModel::LocalShell {
                program: *program,
            },
        }
    }
}

impl Clone for ProtocolSettings {
    fn clone(&self) -> (r: Self)
        ensures
            r@ == self@,
    {
        match self {
            ProtocolSettings::Ssh(ssh) => ProtocolSettings::Ssh(ssh.clone()),
            ProtocolSettings::LocalShell { program } => ProtocolSettings::LocalShell {
                program: program.clone(),
            },
        }
    }
}

/// The protocol family of settings.
pub open spec fn kind_of(settings: SettingsModel) -> ProtocolKind {
    match settings {
        SettingsModel::Ssh(_) => ProtocolKind::Ssh,
        SettingsModel::LocalShell { program: _ } => ProtocolKind::LocalShell,
    }
}

impl ProtocolSettings {
    /// The protocol family for this settings value.
    pub fn kind(&self) -> (r: ProtocolKind)
        ensures
            r == kind_of(self@),
    {
        match self {
            ProtocolSettings::Ssh(_) => ProtocolKind::Ssh,
            ProtocolSettings::LocalShell { program: _ } => ProtocolKind::LocalShell,
        }
    }
}

/// A saved connection definition.
#[derive(Debug, PartialEq, Eq)]
pub struct ConnectionProfile {
    pub id: Id,
    pub name: String,
    /// Group this profile belongs to (folder in the session tree).
    pub group_id: Option<Id>,
    pub tags: Vec<String>,
    pub settings: ProtocolSettings,
    /// Reference to secret material. Never contains the secret itself.
    pub credential: Option<CredentialRef>,
    pub description: String,
}

/// A profile, with sequences in place of vectors.
pub struct ProfileModel {
    pub id: Id,
    pub name: String,
    pub group_id: Option<Id>,
    pub tags: Seq<String>,
    pub settings: SettingsModel,
    pub credential: Option<CredentialRef>,
    pub description: String,
}

impl View for ConnectionProfile {
    type V = ProfileModel;

    open spec fn view(&self) -> ProfileModel {
        ProfileModel {
            id: self.id,
            name: self.name,
            group_id: self.group_id,
            tags: self.tags@,
            settings: self.settings@,
            credential: self.credential,
            description: self.description,
        }
    }
}

impl Clone for ConnectionProfile {
    fn clone(&self) -> (r: Self)
        ensures
            r@ == self@,
    {
        let tags = self.tags.clone();
        assert(tags@ =~= self.tags@);
        ConnectionProfile {
            id: self.id,
            name: self.name.clone(),
            group_id: self.group_id,
            tags,
            settings: self.settings.clone(),
            credential: self.credential.clone(),
            description: self.description.clone(),
        }
    }
}

/// Whether a profile is a new one with this name: nothing is set beside its
/// settings.
pub open spec fn is_new_profile(profile: ConnectionProfile, name: Seq<char>) -> bool {
    &&& ids::is_random_id(profile.id)
    &&& profile.name@ == name
    &&& profile.group_id is None
    &&& profile.tags@ == Seq::<String>::empty()
    &&& profile.credential is None
    &&& profile.description@ == Seq::<char>::empty()
}

impl ConnectionProfile {
    /// Create a new SSH profile with sensible defaults.
    pub fn new_ssh(name: &str, host: &str, username: &str) -> (r: ConnectionProfile)
        ensures
            is_new_profile(r, name@),
            r.settings matches ProtocolSettings::Ssh(ssh) && ssh.host@ == host@ && ssh.username@
                == username@ && has_ssh_defaults(ssh),
    {
        let mut ssh = SshSettings::default();
        ssh.host = host.to_string();
        ssh.username = username.to_string();
        ConnectionProfile {
            id: new_id(),
            name: name.to_string(),
            group_id: None,
            tags: Vec::new(),
            settings: ProtocolSettings::Ssh(ssh),
            credential: None,
            description: String::new(),
        }
    }

    /// Create a new local-shell profile. `program` of `None` launches the
    /// user's default shell.
    pub fn new_local_shell(name: &str, program: Option<String>) -> (r: ConnectionProfile)
        ensures
            is_new_profile(r, name@),
            r.settings == (ProtocolSettings::LocalShell { program }),
    {
        ConnectionProfile {
            id: new_id(),
            name: name.to_string(),
            group_id: None,
            tags: Vec::new(),
            settings: ProtocolSettings::LocalShell { program },
            credential: None,
            description: String::new(),
        }
    }

    pub fn kind(&self) -> (r: ProtocolKind)
        ensures
            r == kind_of(self@.settings),
    {
        self.settings.kind()
    }
}

/// New SSH settings use port 22, try the agent before a key before a password,
/// check host keys and forward no agent.
pub proof fn law_ssh_defaults(ssh: SshSettings)
    requires
        has_ssh_defaults(ssh),
    ensures
        ssh.port == 22,
        ssh.auth_methods@.len() == 3,
        ssh.auth_methods@[0] == AuthMethod::Agent,
        ssh.auth_methods@[1] == AuthMethod::PublicKey,
        ssh.auth_methods@[2] == AuthMethod::Password,
        ssh.private_key_path is None,
        ssh.key_passphrase is None,
        ssh.jump_host is None,
        ssh.strict_host_key_checking,
        !ssh.agent_forwarding,
{
}

/// A new profile carries its name and settings, and no secret, group, tag or
/// description.
pub proof fn law_new_profile_is_bare(profile: ConnectionProfile, name: Seq<char>)
    requires
        is_new_profile(profile, name),
    ensures
        ids::is_random_id(profile.id),
        profile.name@ == name,
        profile.group_id is None,
        profile.tags@.len() == 0,
        profile.credential is None,
        profile.description@.len() == 0,
{
}

/// The kind of a profile is that of its settings, and goes by its name.
pub proof fn law_kind_follows_settings(settings: ProtocolSettings)
    ensures
        settings is Ssh ==> kind_of(settings@) == ProtocolKind::Ssh,
        settings is LocalShell ==> kind_of(settings@) == ProtocolKind::LocalShell,
        ProtocolKind::Ssh.name_text() == "Ssh"@,
        ProtocolKind::LocalShell.name_text() == "LocalShell"@,
{
}

} // verus!
