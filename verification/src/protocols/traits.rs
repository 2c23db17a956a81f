//! Protocol-agnostic connection and file-transfer abstractions.
//!
//! Concrete transports (SSH, Telnet, ...) implement these traits. UI code talks
//! only to the traits, so adding a protocol never requires touching the UI.

use vstd::prelude::*;
use vstd::string::*;

use crate::credentials::secret::Secret;
use crate::model::profile::ConnectionProfile;
use crate::protocols::error::ProtocolError;

verus! {

/// Secrets resolved transiently for a single connection attempt.
///
/// Built by the orchestration layer from the OS secret store and handed to a
/// [`Connector`]. Never stored or logged (note the redacting
/// [`ResolvedCredentials::debug_text`]).
pub struct ResolvedCredentials {
    pub password: Option<Secret>,
    pub key_passphrase: Option<Secret>,
}

impl Default for ResolvedCredentials {
    fn default() -> (r: Self)
        ensures
            r.password is None,
            r.key_passphrase is None,
    {
        ResolvedCredentials { password: None, key_passphrase: None }
    }
}

/// What stands for a secret that may be there.
pub open spec fn redacted(present: bool) -> Seq<char> {
    if present {
        "Some(\"***\")"@
    } else {
        "None"@
    }
}

fn redact(secret: &Option<Secret>) -> (r: &'static str)
    ensures
        r@ == redacted(secret is Some),
{
    match secret {
        Some(_) => "Some(\"***\")",
        None => "None",
    }
}

impl ResolvedCredentials {
    /// What stands for credentials in logs: which secrets are there, and nothing
    /// of what they are.
    pub fn debug_text(&self) -> (r: String)
        ensures
            r@ == "ResolvedCredentials { password: "@ + redacted(self.password is Some)
                + ", key_passphrase: "@ + redacted(self.key_passphrase is Some) + " }"@,
    {
        let mut r = "ResolvedCredentials { password: ".to_string();
        r.append(redact(&self.password));
        r.append(", key_passphrase: ");
        r.append(redact(&self.key_passphrase));
        r.append(" }");
        r
    }
}

/// An interactive remote shell session: a bidirectional byte stream plus resize.
pub trait RemoteSession {
    /// Send bytes to the remote (e.g. keystrokes).
    fn write(&mut self, data: &[u8]) -> (r: Result<(), ProtocolError>);

    /// Read the next chunk of output. Implementations may block until data is
    /// available or the session closes (returning an empty `Vec` on clean EOF).
    fn read(&mut self) -> (r: Result<Vec<u8>, ProtocolError>);

    /// Inform the remote of a new terminal size.
    fn resize(&mut self, cols: u16, rows: u16) -> (r: Result<(), ProtocolError>);

    /// Close the session.
    fn close(&mut self) -> (r: Result<(), ProtocolError>);
}

/// Opens connections for a particular protocol.
///
/// The jump-host and SFTP methods have default implementations that report
/// `NotImplemented`, so a connector only overrides what it actually supports.
/// Orchestration (resolving the second hop's profile + secret) lives in the
/// caller: a `Connector` is handed fully-resolved profiles and credentials and
/// never touches the profile/credential stores itself.
pub trait Connector {
    /// The sessions it opens.
    type Session: RemoteSession;

    /// The SFTP clients it opens.
    type Sftp: SftpClient;

    /// Open an interactive shell using `profile` and transient `creds`.
    fn connect_shell(&self, profile: &ConnectionProfile, creds: &ResolvedCredentials) -> (r: Result<
        Self::Session,
        ProtocolError,
    >);

    /// Open an interactive shell on `target` by tunnelling through the gateway
    /// `jump` (single-hop `ProxyJump`). Each hop carries its own transient
    /// credentials. Both hosts are verified independently.
    fn connect_shell_via_jump(
        &self,
        jump: &ConnectionProfile,
        jump_creds: &ResolvedCredentials,
        target: &ConnectionProfile,
        target_creds: &ResolvedCredentials,
    ) -> (r: Result<Self::Session, ProtocolError>)
        default_ensures
            r == Err::<Self::Session, ProtocolError>(
                ProtocolError::NotImplemented("jump-host shell is not supported by this connector"),
            ),
    {
        Err(ProtocolError::NotImplemented("jump-host shell is not supported by this connector"))
    }

    /// Open an SFTP client for `profile` using transient `creds`.
    fn connect_sftp(&self, profile: &ConnectionProfile, creds: &ResolvedCredentials) -> (r: Result<
        Self::Sftp,
        ProtocolError,
    >)
        default_ensures
            r == Err::<Self::Sftp, ProtocolError>(
                ProtocolError::NotImplemented("SFTP is not supported by this connector"),
            ),
    {
        Err(ProtocolError::NotImplemented("SFTP is not supported by this connector"))
    }

    /// Open an SFTP client on `target` through the gateway `jump` (single-hop).
    fn connect_sftp_via_jump(
        &self,
        jump: &ConnectionProfile,
        jump_creds: &ResolvedCredentials,
        target: &ConnectionProfile,
        target_creds: &ResolvedCredentials,
    ) -> (r: Result<Self::Sftp, ProtocolError>)
        default_ensures
            r == Err::<Self::Sftp, ProtocolError>(
                ProtocolError::NotImplemented(
                    "SFTP over a jump host is not supported by this connector",
                ),
            ),
    {
        Err(
            ProtocolError::NotImplemented(
                "SFTP over a jump host is not supported by this connector",
            ),
        )
    }
}

/// Kind of a remote filesystem entry.
#[derive(Debug, Clone, Copy, PartialEq, Eq, Structural)]
pub enum EntryKind {
    File,
    Dir,
    Symlink,
    Other,
}

/// A single remote directory entry (for the SFTP browser).
#[derive(Debug)]
pub struct DirEntry {
    pub name: String,
    pub kind: EntryKind,
    pub size: u64,
    /// Unix permission bits (e.g. 0o644), if known.
    pub permissions: Option<u32>,
    /// Modified time as seconds since the Unix epoch, if known.
    pub modified_unix: Option<i64>,
}

impl Clone for DirEntry {
    fn clone(&self) -> (r: Self)
        ensures
            r == *self,
    {
        DirEntry {
            name: self.name.clone(),
            kind: self.kind,
            size: self.size,
            permissions: self.permissions,
            modified_unix: self.modified_unix,
        }
    }
}

/// Remote file operations backing the SFTP browser.
///
/// Mirrors the operations the UI needs: list / stat / read / write / mkdir /
/// rename / remove / chmod.
pub trait SftpClient {
    fn list_dir(&self, path: &str) -> (r: Result<Vec<DirEntry>, ProtocolError>);

    fn stat(&self, path: &str) -> (r: Result<DirEntry, ProtocolError>);

    fn read_file(&self, path: &str) -> (r: Result<Vec<u8>, ProtocolError>);

    fn write_file(&self, path: &str, data: &[u8]) -> (r: Result<(), ProtocolError>);

    fn make_dir(&self, path: &str) -> (r: Result<(), ProtocolError>);

    fn remove_file(&self, path: &str) -> (r: Result<(), ProtocolError>);

    fn remove_dir(&self, path: &str) -> (r: Result<(), ProtocolError>);

    fn rename(&self, from: &str, to: &str) -> (r: Result<(), ProtocolError>);

    fn set_permissions(&self, path: &str, mode: u32) -> (r: Result<(), ProtocolError>);
}

/// Nothing of a secret is shown but whether it is there.
pub proof fn law_secrets_are_redacted()
    ensures
        redacted(true) == "Some(\"***\")"@,
        redacted(false) == "None"@,
{
}

} // verus!
