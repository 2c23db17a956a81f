//! Platform abstraction layer: names and paths.
//!
//! Linux-first. A path is the bytes that make it up, with `/` between its
//! parts. Where the user's directories are is for the caller to find out.

use vstd::prelude::*;
use vstd::string::*;
use vstd::utf8::*;

use crate::text::{bytes_of, text_eq};

verus! {

/// Canonical application name used for config/data directories and service ids.
pub const APP_NAME: &'static str = "rust-remote-suite";

/// Detected operating system family.
#[derive(Debug, Clone, Copy, PartialEq, Eq, Structural)]
pub enum Os {
    Linux,
    Windows,
    MacOs,
    Other,
}

/// The OS family of a target, by the name that the compiler has for it.
pub open spec fn os_named(target_os: Seq<char>) -> Os {
    if target_os == "linux"@ {
        Os::Linux
    } else if target_os == "windows"@ {
        Os::Windows
    } else if target_os == "macos"@ {
        Os::MacOs
    } else {
        Os::Other
    }
}

/// Returns the OS family of the target that a binary was compiled for.
pub fn current_os(target_os: &str) -> (r: Os)
    ensures
        r == os_named(target_os@),
{
    if text_eq(target_os, "linux") {
        Os::Linux
    } else if text_eq(target_os, "windows") {
        Os::Windows
    } else if text_eq(target_os, "macos") {
        Os::MacOs
    } else {
        Os::Other
    }
}

/// `base` with the relative path `part` behind it.
pub open spec fn joined(base: Seq<u8>, part: Seq<u8>) -> Seq<u8> {
    if base.len() == 0 || base.last() == 47 {
        base + part
    } else {
        base.push(47) + part
    }
}

/// `base` with the relative path `part` behind it.
pub fn join(base: &Vec<u8>, part: &str) -> (r: Vec<u8>)
    ensures
        r@ == joined(base@, encode_utf8(part@)),
{
    let mut r: Vec<u8> = bytes_of(base.as_slice());
    if r.len() > 0 && r[r.len() - 1] != 47 {
        r.push(47);
    }
    let tail: Vec<u8> = bytes_of(part.as_bytes());
    let ghost head = r@;
    r.extend_from_slice(tail.as_slice());
    assert(r@ =~= head + tail@);
    r
}

/// The base directory, or the current one where none is known. Falling back to
/// the current directory keeps the app usable in odd environments.
pub open spec fn base_or_current(base: Option<Vec<u8>>) -> Seq<u8> {
    match base {
        Some(dir) => dir@,
        None => seq![46u8],
    }
}

fn base_or_cwd(base: Option<Vec<u8>>) -> (r: Vec<u8>)
    ensures
        r@ == base_or_current(base),
{
    match base {
        Some(dir) => dir,
        None => {
            let r: Vec<u8> = vec![46u8];
            assert(r@ =~= seq![46u8]);
            r
        },
    }
}

/// The application's directory below a base directory.
pub open spec fn app_dir(base: Option<Vec<u8>>) -> Seq<u8> {
    joined(base_or_current(base), encode_utf8("rust-remote-suite"@))
}

/// Directory for user configuration (`AppConfig`), below the user's
/// configuration directory. Never stores secrets.
///
/// Linux: `$XDG_CONFIG_HOME/rust-remote-suite` (usually `~/.config/...`).
pub fn config_dir(base: Option<Vec<u8>>) -> (r: Vec<u8>)
    ensures
        r@ == app_dir(base),
{
    join(&base_or_cwd(base), APP_NAME)
}

/// Directory for application data (profile database, logs), below the user's
/// data directory.
///
/// Linux: `$XDG_DATA_HOME/rust-remote-suite` (usually `~/.local/share/...`).
pub fn data_dir(base: Option<Vec<u8>>) -> (r: Vec<u8>)
    ensures
        r@ == app_dir(base),
{
    join(&base_or_cwd(base), APP_NAME)
}

/// Default OpenSSH `known_hosts` location, if a home directory is known.
pub fn default_known_hosts(home: Option<Vec<u8>>) -> (r: Option<Vec<u8>>)
    ensures
        match home {
            Some(dir) => r matches Some(path) && path@ == joined(
                joined(dir@, encode_utf8(".ssh"@)),
                encode_utf8("known_hosts"@),
            ),
            None => r is None,
        },
{
    match home {
        Some(dir) => Some(join(&join(&dir, ".ssh"), "known_hosts")),
        None => None,
    }
}

/// A path is put together with exactly one `/` between its parts: one is added
/// unless the first part is empty or ends with one.
pub proof fn law_paths_are_joined_with_one_slash(base: Seq<u8>, part: Seq<u8>)
    ensures
        base.len() == 0 ==> joined(base, part) == part,
        base.len() > 0 && base[base.len() - 1] == 47 ==> joined(base, part) == base + part,
        base.len() > 0 && base[base.len() - 1] != 47 ==> joined(base, part) == base + seq![47u8]
            + part,
{
    if base.len() == 0 {
        assert(base + part =~= part);
    }
    assert(base.push(47u8) =~= base + seq![47u8]);
}

/// The application's directory lies below the base directory, or below the
/// current one where none is known.
pub proof fn law_application_directory(base: Option<Vec<u8>>)
    ensures
        base matches Some(dir) ==> app_dir(base) == joined(
            dir@,
            encode_utf8("rust-remote-suite"@),
        ),
        base is None ==> app_dir(base) == joined(seq![46u8], encode_utf8("rust-remote-suite"@)),
{
}

/// The OS families go by the names that the compiler has for them.
pub proof fn law_names_of_the_os_families(name: Seq<char>)
    ensures
        name == "linux"@ ==> os_named(name) == Os::Linux,
        name == "windows"@ ==> os_named(name) == Os::Windows,
        name == "macos"@ ==> os_named(name) == Os::MacOs,
        name != "linux"@ && name != "windows"@ && name != "macos"@ ==> os_named(name) == Os::Other,
{
    reveal_strlit("linux");
    reveal_strlit("windows");
    reveal_strlit("macos");
    assert("linux"@[0] == 'l' && "macos"@[0] == 'm');
    assert("windows"@.len() == 7 && "linux"@.len() == 5 && "macos"@.len() == 5);
}

} // verus!
