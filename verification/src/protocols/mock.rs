//! A fake SSH implementation for tests and the CLI demo.
//!
//! `MockSession` echoes input back and emits a small banner, so the higher
//! layers (terminal plumbing, multi-exec, UI) can be exercised without a server.

use std::collections::VecDeque;

use vstd::prelude::*;
use vstd::string::*;
use vstd::utf8::*;

use crate::model::profile;
use crate::model::profile::ConnectionProfile;
use crate::protocols::error::ProtocolError;
use crate::protocols::traits::{
    Connector, DirEntry, EntryKind, RemoteSession, ResolvedCredentials, SftpClient,
};
use crate::text::{bytes_of, chars_of, concat, string_of, text_eq};

verus! {

/// What follows every echo: a line break and a fresh prompt.
pub open spec fn prompt() -> Seq<u8> {
    seq![13u8, 10, 36, 32]
}

/// What a session shows first.
pub open spec fn banner(profile: profile::ProfileModel) -> Seq<char> {
    "[mock] connected to '"@ + profile.name@ + "' ("@ + profile::kind_of(
        profile.settings,
    ).name_text() + ")\r\n$ "@
}

/// Fake interactive session: echoes everything written to it.
pub struct MockSession {
    pending: VecDeque<Vec<u8>>,
}

impl View for MockSession {
    type V = Seq<Seq<u8>>;

    /// The chunks of output that wait to be read.
    closed spec fn view(&self) -> Seq<Seq<u8>> {
        Seq::new(self.pending@.len(), |i: int| self.pending@[i]@)
    }
}

impl RemoteSession for MockSession {
    /// Echoes the input, then a fresh prompt: enough to look alive in a demo.
    fn write(&mut self, data: &[u8]) -> (r: Result<(), ProtocolError>)
        ensures
            r is Ok,
            final(self)@ == old(self)@.push(data@ + prompt()),
    {
        let mut echo: Vec<u8> = bytes_of(data);
        echo.push(13);
        echo.push(10);
        echo.push(36);
        echo.push(32);
        assert(echo@ =~= data@ + prompt());
        self.pending.push_back(echo);
        assert(self@ =~= old(self)@.push(data@ + prompt()));
        Ok(())
    }

    fn read(&mut self) -> (r: Result<Vec<u8>, ProtocolError>)
        ensures
            match r {
                Ok(chunk) => if old(self)@.len() > 0 {
                    chunk@ == old(self)@[0] && final(self)@ == old(self)@.skip(1)
                } else {
                    chunk@ == Seq::<u8>::empty() && final(self)@ == old(self)@
                },
                Err(_) => false,
            },
    {
        match self.pending.pop_front() {
            Some(chunk) => {
                assert(self@ =~= old(self)@.skip(1));
                Ok(chunk)
            },
            None => Ok(Vec::new()),
        }
    }

    fn resize(&mut self, cols: u16, rows: u16) -> (r: Result<(), ProtocolError>)
        ensures
            r is Ok,
            final(self)@ == old(self)@,
    {
        Ok(())
    }

    fn close(&mut self) -> (r: Result<(), ProtocolError>)
        ensures
            r is Ok,
            final(self)@ == old(self)@,
    {
        Ok(())
    }
}

/// Fake connector; always "connects" successfully.
#[derive(Debug, Clone, Copy, Default)]
pub struct MockConnector;

impl Connector for MockConnector {
    type Session = MockSession;

    type Sftp = MockSftp;

    fn connect_shell(&self, profile: &ConnectionProfile, creds: &ResolvedCredentials) -> (r: Result<
        MockSession,
        ProtocolError,
    >)
        ensures
            r matches Ok(session) && session@ == seq![encode_utf8(banner(profile@))],
    {
        let mut text = concat("[mock] connected to '", profile.name.as_str());
        text.append("' (");
        text.append(profile.kind().name());
        text.append(")\r\n$ ");
        assert(text@ =~= banner(profile@));
        let mut pending: VecDeque<Vec<u8>> = VecDeque::new();
        pending.push_back(bytes_of(text.as_str().as_bytes()));
        let session = MockSession { pending };
        assert(session@ =~= seq![encode_utf8(banner(profile@))]);
        Ok(session)
    }
}

/// In-memory SFTP for tests / demo: a tiny fixed tree.
#[derive(Debug, Clone, Copy, Default)]
pub struct MockSftp;

/// Whether an entry has this name, kind, size and mode, and no known time.
pub open spec fn is_entry(
    entry: DirEntry,
    name: Seq<char>,
    kind: EntryKind,
    size: u64,
    mode: u32,
) -> bool {
    &&& entry.name@ == name
    &&& entry.kind == kind
    &&& entry.size == size
    &&& entry.permissions == Some(mode)
    &&& entry.modified_unix is None
}

/// Where the last part of a path begins: behind its last `/`.
pub open spec fn last_part_at(path: Seq<char>) -> int
    decreases path.len(),
{
    if path.len() == 0 || path.last() == '/' {
        path.len() as int
    } else {
        last_part_at(path.drop_last())
    }
}

fn entry(name: &str, kind: EntryKind, size: u64, mode: u32) -> (r: DirEntry)
    ensures
        is_entry(r, name@, kind, size, mode),
{
    DirEntry {
        name: name.to_string(),
        kind,
        size,
        permissions: Some(mode),
        modified_unix: None,
    }
}

fn last_part(path: &str) -> (r: String)
    ensures
        r@ == path@.skip(last_part_at(path@)),
{
    let chars = chars_of(path);
    let mut at: usize = chars.len();
    assert(chars@.take(chars@.len() as int) =~= chars@);
    while at > 0 && chars[at - 1] != '/'
        invariant
            at <= chars@.len(),
            last_part_at(chars@) == last_part_at(chars@.take(at as int)),
        decreases at,
    {
        assert(chars@.take(at as int).drop_last() =~= chars@.take(at - 1));
        at = at - 1;
    }
    let r = string_of(&chars, at, chars.len());
    assert(r@ =~= path@.skip(last_part_at(path@)));
    r
}

impl SftpClient for MockSftp {
    fn list_dir(&self, path: &str) -> (r: Result<Vec<DirEntry>, ProtocolError>)
        ensures
            r is Ok,
            path@ == "/"@ || path@.len() == 0 ==> {
                &&& r->Ok_0@.len() == 3
                &&& is_entry(r->Ok_0@[0], "etc"@, EntryKind::Dir, 4096, 0o755)
                &&& is_entry(r->Ok_0@[1], "home"@, EntryKind::Dir, 4096, 0o755)
                &&& is_entry(r->Ok_0@[2], "readme.txt"@, EntryKind::File, 12, 0o644)
            },
            !(path@ == "/"@ || path@.len() == 0) ==> r->Ok_0@.len() == 0,
    {
        if text_eq(path, "/") || path.is_empty() {
            Ok(
                vec![
                    entry("etc", EntryKind::Dir, 4096, 0o755),
                    entry("home", EntryKind::Dir, 4096, 0o755),
                    entry("readme.txt", EntryKind::File, 12, 0o644),
                ],
            )
        } else {
            Ok(Vec::new())
        }
    }

    fn stat(&self, path: &str) -> (r: Result<DirEntry, ProtocolError>)
        ensures
            r matches Ok(e) && is_entry(
                e,
                path@.skip(last_part_at(path@)),
                EntryKind::File,
                12,
                0o644,
            ),
    {
        Ok(entry(last_part(path).as_str(), EntryKind::File, 12, 0o644))
    }

    fn read_file(&self, path: &str) -> (r: Result<Vec<u8>, ProtocolError>)
        ensures
            r matches Ok(data) && data@ == encode_utf8("hello world\n"@),
    {
        Ok(bytes_of("hello world\n".as_bytes()))
    }

    fn write_file(&self, path: &str, data: &[u8]) -> (r: Result<(), ProtocolError>)
        ensures
            r is Ok,
    {
        Ok(())
    }

    fn make_dir(&self, path: &str) -> (r: Result<(), ProtocolError>)
        ensures
            r is Ok,
    {
        Ok(())
    }

    fn remove_file(&self, path: &str) -> (r: Result<(), ProtocolError>)
        ensures
            r is Ok,
    {
        Ok(())
    }

    fn remove_dir(&self, path: &str) -> (r: Result<(), ProtocolError>)
        ensures
            r is Ok,
    {
        Ok(())
    }

    fn rename(&self, from: &str, to: &str) -> (r: Result<(), ProtocolError>)
        ensures
            r is Ok,
    {
        Ok(())
    }

    fn set_permissions(&self, path: &str, mode: u32) -> (r: Result<(), ProtocolError>)
        ensures
            r is Ok,
    {
        Ok(())
    }
}

/// Output comes out in the order in which the input that it echoes went in:
/// what is read first is what waited first, and what is written last is read
/// last.
pub proof fn law_echo_is_first_in_first_out(pending: Seq<Seq<u8>>, data: Seq<u8>)
    requires
        pending.len() > 0,
    ensures
        pending.push(data + prompt())[0] == pending[0],
        pending.push(data + prompt()).skip(1) == pending.skip(1).push(data + prompt()),
{
    assert(pending.push(data + prompt()).skip(1) =~= pending.skip(1).push(data + prompt()));
}

/// The fake session greets with the name and the kind of its profile, and shows
/// a line break and `$ ` behind each echo.
pub proof fn law_what_the_mock_shows(profile: profile::ProfileModel)
    ensures
        banner(profile) == "[mock] connected to '"@ + profile.name@ + "' ("@ + (match profile.settings {
            profile::SettingsModel::Ssh(_) => "Ssh"@,
            profile::SettingsModel::LocalShell { program: _ } => "LocalShell"@,
        }) + ")\r\n$ "@,
        prompt() == seq![13u8, 10, 36, 32],
{
}

/// The last part of a path is what stands behind its last slash.
pub proof fn law_last_part_of_a_path(path: Seq<char>)
    ensures
        0 <= last_part_at(path) <= path.len(),
        last_part_at(path) > 0 ==> path[last_part_at(path) - 1] == '/',
        forall|i: int| last_part_at(path) <= i < path.len() ==> #[trigger] path[i] != '/',
    decreases path.len(),
{
    if path.len() > 0 && path.last() != '/' {
        let shorter = path.drop_last();
        law_last_part_of_a_path(shorter);
        assert forall|i: int| last_part_at(path) <= i < path.len() implies #[trigger] path[i]
            != '/' by {
            if i < shorter.len() {
                assert(path[i] == shorter[i]);
            }
        }
    }
}

/// An entry of the fake tree is what it is said to be.
pub proof fn law_mock_entry(
    entry: DirEntry,
    name: Seq<char>,
    kind: EntryKind,
    size: u64,
    mode: u32,
)
    requires
        is_entry(entry, name, kind, size, mode),
    ensures
        entry.name@ == name,
        entry.kind == kind,
        entry.size == size,
        entry.permissions == Some(mode),
        entry.modified_unix is None,
{
}

} // verus!
