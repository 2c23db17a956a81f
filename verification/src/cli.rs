//! What the command line makes of its arguments, and how it shows results.

use vstd::prelude::*;
use vstd::string::*;

use crate::credentials::secret::Secret;
use crate::ids;
use crate::ids::{format_id, Id};
use crate::model::profile;
use crate::model::profile::{ConnectionProfile, ProtocolSettings};
use crate::protocols::traits::{DirEntry, EntryKind, ResolvedCredentials};
use crate::terminal::highlight::HighlightSpan;
use crate::text;
use crate::text::{chars_of, concat, push_decimal, string_of};
use crate::tunnels::manager::{TunnelKind, TunnelSpec};
use crate::ui::safety::DangerWarning;

verus! {

// ---------------------------------------------------------------------------
// host:port
// ---------------------------------------------------------------------------

/// Why an argument is not a `host:port`; holds the argument.
#[derive(Debug)]
pub enum EndpointError {
    NoColon(String),
    EmptyHost(String),
    BadPort(String),
}

impl EndpointError {
    /// What [`EndpointError::message`] says.
    pub open spec fn message_text(self) -> Seq<char> {
        match self {
            EndpointError::NoColon(s) => "expected host:port, got `"@ + s@ + "`"@,
            EndpointError::EmptyHost(s) => "empty host in `"@ + s@ + "`"@,
            EndpointError::BadPort(s) => "invalid port in `"@ + s@ + "`"@,
        }
    }

    /// The error in words.
    pub fn message(&self) -> (r: String)
        ensures
            r@ == self.message_text(),
    {
        let mut r = match self {
            EndpointError::NoColon(s) => concat("expected host:port, got `", s.as_str()),
            EndpointError::EmptyHost(s) => concat("empty host in `", s.as_str()),
            EndpointError::BadPort(s) => concat("invalid port in `", s.as_str()),
        };
        r.append("`");
        r
    }
}

/// Where the last colon stands.
pub open spec fn last_colon(s: Seq<char>) -> Option<int>
    decreases s.len(),
{
    if s.len() == 0 {
        None
    } else if s.last() == ':' {
        Some(s.len() - 1)
    } else {
        last_colon(s.drop_last())
    }
}

/// Whether a character is a decimal digit.
pub open spec fn is_digit(c: char) -> bool {
    '0' <= c <= '9'
}

/// The number that decimal digits write.
pub open spec fn digits_value(digits: Seq<char>) -> nat
    decreases digits.len(),
{
    if digits.len() == 0 {
        0
    } else {
        digits_value(digits.drop_last()) * 10 + (digits.last() as nat - '0' as nat) as nat
    }
}

/// The digits of a number, without the plus sign that may stand before them.
pub open spec fn unsigned_part(s: Seq<char>) -> Seq<char> {
    if s.len() > 0 && s[0] == '+' {
        s.skip(1)
    } else {
        s
    }
}

/// The port that a text writes: decimal digits, with or without a plus sign
/// before them, of a number that fits.
pub open spec fn port_of(s: Seq<char>) -> Option<u16> {
    let digits = unsigned_part(s);
    if digits.len() > 0 && (forall|i: int| 0 <= i < digits.len() ==> is_digit(#[trigger] digits[i]))
        && digits_value(digits) <= u16::MAX {
        Some(digits_value(digits) as u16)
    } else {
        None
    }
}

/// What splitting a `host:port` gives, or why it is none.
pub open spec fn endpoint_of(s: Seq<char>, r: Result<(String, u16), EndpointError>) -> bool {
    match last_colon(s) {
        None => r matches Err(EndpointError::NoColon(arg)) && arg@ == s,
        Some(at) => if at == 0 {
            r matches Err(EndpointError::EmptyHost(arg)) && arg@ == s
        } else {
            match port_of(s.skip(at + 1)) {
                None => r matches Err(EndpointError::BadPort(arg)) && arg@ == s,
                Some(port) => r matches Ok((host, p)) && host@ == s.take(at) && p == port,
            }
        },
    }
}

fn parse_port(chars: &Vec<char>, from: usize) -> (r: Option<u16>)
    requires
        from <= chars@.len(),
    ensures
        r == port_of(chars@.skip(from as int)),
{
    let ghost part = chars@.skip(from as int);
    let ghost digits = unsigned_part(part);
    let start: usize = if from < chars.len() && chars[from] == '+' {
        from + 1
    } else {
        from
    };
    assert(digits =~= chars@.skip(start as int));
    if start == chars.len() {
        return None;
    }
    let mut value: u32 = 0;
    let mut k: usize = start;
    while k < chars.len()
        invariant
            start <= k <= chars@.len(),
            digits == chars@.skip(start as int),
            digits == unsigned_part(chars@.skip(from as int)),
            forall|i: int| 0 <= i < k - start ==> is_digit(#[trigger] digits[i]),
            value <= 65536,
            value == digits_value(digits.take(k - start)) || (value == 65536 && digits_value(
                digits.take(k - start),
            ) >= 65536),
        decreases chars@.len() - k,
    {
        let c: char = chars[k];
        if !('0' <= c && c <= '9') {
            assert(digits[k - start] == c);
            return None;
        }
        assert(digits.take(k - start + 1).drop_last() =~= digits.take(k - start));
        assert(digits.take(k - start + 1).last() == c);
        let wide: u32 = value * 10 + (c as u32 - '0' as u32);
        value =
        if wide > 65536 {
            65536
        } else {
            wide
        };
        k = k + 1;
    }
    assert(digits.take(chars@.len() - start) =~= digits);
    if value > 65535 {
        None
    } else {
        Some(value as u16)
    }
}

/// Split a `host:port` string (splits on the last colon, so bare IPv4/hostnames
/// work; IPv6 literals would need brackets).
pub fn split_host_port(s: &str) -> (r: Result<(String, u16), EndpointError>)
    ensures
        endpoint_of(s@, r),
{
    let chars: Vec<char> = chars_of(s);
    let mut end: usize = chars.len();
    assert(chars@.take(chars@.len() as int) =~= chars@);
    while end > 0 && chars[end - 1] != ':'
        invariant
            end <= chars@.len(),
            last_colon(chars@) == last_colon(chars@.take(end as int)),
        decreases end,
    {
        assert(chars@.take(end as int).drop_last() =~= chars@.take(end - 1));
        end = end - 1;
    }
    if end == 0 {
        return Err(EndpointError::NoColon(s.to_string()));
    }
    let at: usize = end - 1;
    if at == 0 {
        return Err(EndpointError::EmptyHost(s.to_string()));
    }
    match parse_port(&chars, end) {
        None => Err(EndpointError::BadPort(s.to_string())),
        Some(port) => {
            let host = string_of(&chars, 0, at);
            assert(host@ =~= s@.take(at as int));
            Ok((host, port))
        },
    }
}

// ---------------------------------------------------------------------------
// Profiles, credentials and tunnels from flags
// ---------------------------------------------------------------------------

/// Build an SSH profile for one hop from CLI flags.
pub fn ssh_profile(
    name: &str,
    host: &str,
    port: u16,
    user: &str,
    key: Option<String>,
    strict: bool,
) -> (r: ConnectionProfile)
    ensures
        profile::is_new_profile(r, name@),
        r.settings matches ProtocolSettings::Ssh(ssh) && ssh.host@ == host@ && ssh.username@
            == user@ && ssh.port == port && ssh.private_key_path == key
            && ssh.strict_host_key_checking == strict && ssh.auth_methods@ == seq![
            profile::AuthMethod::Agent,
            profile::AuthMethod::PublicKey,
            profile::AuthMethod::Password,
        ] && ssh.key_passphrase is None && ssh.jump_host is None && !ssh.agent_forwarding,
{
    let made = ConnectionProfile::new_ssh(name, host, user);
    let settings = match made.settings {
        ProtocolSettings::Ssh(ssh) => {
            let mut changed = ssh;
            changed.port = port;
            changed.private_key_path = key;
            changed.strict_host_key_checking = strict;
            ProtocolSettings::Ssh(changed)
        },
        other => other,
    };
    ConnectionProfile {
        id: made.id,
        name: made.name,
        group_id: made.group_id,
        tags: made.tags,
        settings,
        credential: made.credential,
        description: made.description,
    }
}

/// One SSH host, as flags name it.
#[derive(Debug)]
pub struct HostFlags {
    pub host: String,
    pub port: u16,
    pub user: String,
    /// Path to a private key file.
    pub key: Option<String>,
}

/// Whether a profile is the one for a host: agent, key and password are tried in
/// this order, and the agent is not forwarded.
pub open spec fn is_profile_for(
    profile: ConnectionProfile,
    name: Seq<char>,
    host: HostFlags,
    strict: bool,
) -> bool {
    &&& profile::is_new_profile(profile, name)
    &&& profile.settings matches ProtocolSettings::Ssh(ssh)
    &&& ssh.host@ == host.host@
    &&& ssh.port == host.port
    &&& ssh.username@ == host.user@
    &&& ssh.private_key_path == host.key
    &&& ssh.strict_host_key_checking == strict
    &&& ssh.auth_methods@ == seq![
        profile::AuthMethod::Agent,
        profile::AuthMethod::PublicKey,
        profile::AuthMethod::Password,
    ]
    &&& ssh.key_passphrase is None
    &&& ssh.jump_host is None
    &&& !ssh.agent_forwarding
}

/// The profiles of a gateway and of the target behind it. Host keys of both hops
/// are checked unless that is switched off.
pub fn jump_profiles(jump: HostFlags, target: HostFlags, insecure: bool) -> (r: (
    ConnectionProfile,
    ConnectionProfile,
))
    ensures
        is_profile_for(r.0, "jump"@, jump, !insecure),
        is_profile_for(r.1, "target"@, target, !insecure),
{
    (
        ssh_profile(
            "jump",
            jump.host.as_str(),
            jump.port,
            jump.user.as_str(),
            jump.key,
            !insecure,
        ),
        ssh_profile(
            "target",
            target.host.as_str(),
            target.port,
            target.user.as_str(),
            target.key,
            !insecure,
        ),
    )
}

/// What is shown before a target is reached through a gateway.
pub fn jump_notice(what: &str, jump: &HostFlags, target: &HostFlags) -> (r: String)
    ensures
        r@ == what@ + " to "@ + target.host@ + ":"@ + text::decimal(target.port as nat)
            + " via jump host "@ + jump.host@ + ":"@ + text::decimal(jump.port as nat) + " ..."@,
{
    let mut r = concat(what, " to ");
    r.append(target.host.as_str());
    r.append(":");
    push_decimal(&mut r, target.port as u64);
    r.append(" via jump host ");
    r.append(jump.host.as_str());
    r.append(":");
    push_decimal(&mut r, jump.port as u64);
    r.append(" ...");
    r
}

/// The password that a variable of the environment holds: an unset or empty one
/// yields none (key/agent auth still apply).
pub fn password_from_env(value: Option<String>) -> (r: Option<Secret>)
    ensures
        match value {
            Some(password) => if password@.len() == 0 {
                r is None
            } else {
                r matches Some(secret) && secret@ == password@
            },
            None => r is None,
        },
{
    match value {
        Some(password) => {
            if password.as_str().is_empty() {
                None
            } else {
                Some(Secret::new(password))
            }
        },
        None => None,
    }
}

/// Transient credentials from a variable of the environment.
pub fn creds_from_env(value: Option<String>) -> (r: ResolvedCredentials)
    ensures
        r.key_passphrase is None,
        match value {
            Some(password) => if password@.len() == 0 {
                r.password is None
            } else {
                r.password matches Some(secret) && secret@ == password@
            },
            None => r.password is None,
        },
{
    ResolvedCredentials { password: password_from_env(value), key_passphrase: None }
}

/// The local forward that the command line asks for.
pub fn local_tunnel(
    ssh_profile_id: Id,
    bind_address: String,
    bind_port: u16,
    target_host: &str,
    target_port: u16,
) -> (r: TunnelSpec)
    ensures
        ids::is_random_id(r.id),
        r.name@ == "cli-local"@,
        r.kind == TunnelKind::Local,
        r.ssh_profile_id == ssh_profile_id,
        r.bind_address == bind_address,
        r.bind_port == bind_port,
        r.target_host matches Some(h) && h@ == target_host@,
        r.target_port == Some(target_port),
        !r.autostart,
{
    let mut r = TunnelSpec::new_local(
        "cli-local",
        ssh_profile_id,
        bind_port,
        target_host,
        target_port,
    );
    r.bind_address = bind_address;
    r
}

/// What is sent to a shell to have it run one command: the command, then `exit`,
/// so that the shell closes and a clean EOF is observed instead of a prompt.
pub fn shell_input(command: Option<String>, default: &str) -> (r: String)
    ensures
        r@ == (match command {
            Some(c) => c@,
            None => default@,
        }) + "\nexit\n"@,
{
    match command {
        Some(c) => concat(c.as_str(), "\nexit\n"),
        None => concat(default, "\nexit\n"),
    }
}

// ---------------------------------------------------------------------------
// Output
// ---------------------------------------------------------------------------

/// `s` at the right of a column of this width.
pub open spec fn right_aligned(s: Seq<char>, width: int) -> Seq<char> {
    if s.len() >= width {
        s
    } else {
        Seq::new((width - s.len()) as nat, |i: int| ' ') + s
    }
}

/// `s` at the left of a column of this width.
pub open spec fn left_aligned(s: Seq<char>, width: int) -> Seq<char> {
    if s.len() >= width {
        s
    } else {
        s + Seq::new((width - s.len()) as nat, |i: int| ' ')
    }
}

/// The letter of an entry kind.
pub open spec fn kind_letter(kind: EntryKind) -> char {
    match kind {
        EntryKind::Dir => 'd',
        EntryKind::Symlink => 'l',
        EntryKind::File => '-',
        EntryKind::Other => '?',
    }
}

/// The line that shows an entry: its kind, its size in a column of twelve, and
/// its name.
pub open spec fn entry_line(entry: DirEntry) -> Seq<char> {
    "  "@ + seq![kind_letter(entry.kind)] + " "@ + right_aligned(
        text::decimal(entry.size as nat),
        12,
    ) + " "@ + entry.name@
}

/// Appends the blanks that a text of this length leaves of a column.
fn push_blanks(out: &mut String, len: usize, width: usize)
    ensures
        final(out)@ == old(out)@ + Seq::new(
            (if len < width {
                width - len
            } else {
                0
            }) as nat,
            |i: int| ' ',
        ),
{
    let mut k: usize = len;
    let ghost before = out@;
    assert(out@ =~= before + Seq::new(0, |i: int| ' '));
    while k < width
        invariant
            len <= k,
            len < width ==> k <= width,
            len >= width ==> k == len,
            out@ == before + Seq::new((k - len) as nat, |i: int| ' '),
        decreases width - k,
    {
        out.push(' ');
        k = k + 1;
        assert(out@ =~= before + Seq::new((k - len) as nat, |i: int| ' '));
    }
}

fn push_right_aligned(out: &mut String, s: &str, width: usize)
    ensures
        final(out)@ == old(out)@ + right_aligned(s@, width as int),
{
    push_blanks(out, chars_of(s).len(), width);
    out.append(s);
    assert(out@ =~= old(out)@ + right_aligned(s@, width as int));
}

fn push_left_aligned(out: &mut String, s: &str, width: usize)
    ensures
        final(out)@ == old(out)@ + left_aligned(s@, width as int),
{
    out.append(s);
    push_blanks(out, chars_of(s).len(), width);
    assert(out@ =~= old(out)@ + left_aligned(s@, width as int));
}

/// The line that shows a directory entry.
pub fn listing_line(entry: &DirEntry) -> (r: String)
    ensures
        r@ == entry_line(*entry),
{
    let mut r = "  ".to_string();
    let letter: char = match entry.kind {
        EntryKind::Dir => 'd',
        EntryKind::Symlink => 'l',
        EntryKind::File => '-',
        EntryKind::Other => '?',
    };
    r.push(letter);
    r.append(" ");
    let mut size = String::new();
    push_decimal(&mut size, entry.size);
    push_right_aligned(&mut r, size.as_str(), 12);
    r.append(" ");
    r.append(entry.name.as_str());
    assert(r@ =~= entry_line(*entry));
    r
}

/// The lines of a directory listing: the path, one line per entry, and how many
/// there are.
pub fn listing(path: &str, entries: &Vec<DirEntry>) -> (r: Vec<String>)
    ensures
        r@.len() == entries@.len() + 2,
        r@[0]@ == path@ + ":"@,
        forall|i: int|
            0 <= i < entries@.len() ==> (#[trigger] r@[i + 1])@ == entry_line(entries@[i]),
        r@[entries@.len() as int + 1]@ == "("@ + text::decimal(entries@.len()) + " entries)"@,
{
    let mut r: Vec<String> = Vec::new();
    r.push(concat(path, ":"));
    for k in 0..entries.len()
        invariant
            r@.len() == k + 1,
            r@[0]@ == path@ + ":"@,
            forall|i: int| 0 <= i < k ==> (#[trigger] r@[i + 1])@ == entry_line(entries@[i]),
    {
        r.push(listing_line(&entries[k]));
    }
    let mut last = "(".to_string();
    push_decimal(&mut last, entries.len() as u64);
    last.append(" entries)");
    r.push(last);
    r
}

/// The line that shows a stored profile.
pub fn profile_line(profile: &ConnectionProfile) -> (r: String)
    ensures
        r@ == ids::id_text(profile.id) + "  "@ + profile.name@ + "  ["@ + profile::kind_of(
            profile@.settings,
        ).name_text() + "]"@,
{
    let mut r = concat(format_id(profile.id).as_str(), "  ");
    r.append(profile.name.as_str());
    r.append("  [");
    r.append(profile.kind().name());
    r.append("]");
    r
}

/// The line that shows a highlighted span: where it begins and ends, in columns
/// of three, its style, and what it covers, which is given in quotes.
pub fn span_line(span: &HighlightSpan, quoted: &str) -> (r: String)
    ensures
        r@ == "  ["@ + right_aligned(text::decimal(span.start as nat), 3) + ".."@ + left_aligned(
            text::decimal(span.end as nat),
            3,
        ) + "] "@ + span.style.name_text() + "  "@ + quoted@,
{
    let mut r = "  [".to_string();
    let mut start = String::new();
    push_decimal(&mut start, span.start as u64);
    push_right_aligned(&mut r, start.as_str(), 3);
    r.append("..");
    let mut end = String::new();
    push_decimal(&mut end, span.end as u64);
    push_left_aligned(&mut r, end.as_str(), 3);
    r.append("] ");
    r.append(span.style.name());
    r.append("  ");
    r.append(quoted);
    assert(start@ =~= text::decimal(span.start as nat));
    assert(end@ =~= text::decimal(span.end as nat));
    r
}

/// The line that shows a warning.
pub fn warning_line(warning: &DangerWarning) -> (r: String)
    ensures
        r@ == "  - "@ + warning.matched@ + " ("@ + warning.reason@ + ")"@,
{
    let mut r = concat("  - ", warning.matched.as_str());
    r.append(" (");
    r.append(warning.reason.as_str());
    r.append(")");
    r
}

// ---------------------------------------------------------------------------
// Laws
// ---------------------------------------------------------------------------

proof fn lemma_last_colon_at(host: Seq<char>, port: Seq<char>)
    requires
        forall|i: int| 0 <= i < port.len() ==> #[trigger] port[i] != ':',
    ensures
        last_colon(host.push(':') + port) == Some(host.len() as int),
    decreases port.len(),
{
    let s = host.push(':') + port;
    if port.len() == 0 {
        assert(s =~= host.push(':'));
    } else {
        let shorter = port.drop_last();
        assert forall|i: int| 0 <= i < shorter.len() implies #[trigger] shorter[i] != ':' by {
            assert(port[i] != ':');
        }
        lemma_last_colon_at(host, shorter);
        assert(s.drop_last() =~= host.push(':') + shorter);
        assert(s.last() == port[port.len() - 1]);
    }
}

proof fn lemma_decimal_digits(n: nat)
    ensures
        text::decimal(n).len() > 0,
        forall|i: int| 0 <= i < text::decimal(n).len() ==> is_digit(#[trigger] text::decimal(n)[i]),
        digits_value(text::decimal(n)) == n,
    decreases n,
{
    let d = text::decimal(n);
    if n < 10 {
        assert(d.drop_last() =~= Seq::empty());
        assert(digits_value(d.drop_last()) == 0);
    } else {
        lemma_decimal_digits(n / 10);
        assert(d.drop_last() =~= text::decimal(n / 10));
        assert forall|i: int| 0 <= i < d.len() implies is_digit(#[trigger] d[i]) by {
            if i < d.len() - 1 {
                assert(d[i] == text::decimal(n / 10)[i]);
            }
        }
    }
}

/// A host, a colon and a port in decimal split back into that host and that
/// port, whatever colons the host holds.
pub proof fn law_host_port_round_trip(
    host: Seq<char>,
    port: u16,
    r: Result<(String, u16), EndpointError>,
)
    requires
        host.len() > 0,
        endpoint_of(host.push(':') + text::decimal(port as nat), r),
    ensures
        r matches Ok((h, p)) && h@ == host && p == port,
{
    let digits = text::decimal(port as nat);
    let s = host.push(':') + digits;
    lemma_decimal_digits(port as nat);
    assert forall|i: int| 0 <= i < digits.len() implies #[trigger] digits[i] != ':' by {
        assert(is_digit(digits[i]));
    }
    lemma_last_colon_at(host, digits);
    assert(s.skip(host.len() as int + 1) =~= digits);
    assert(s.take(host.len() as int) =~= host);
    assert(is_digit(digits[0]));
}

proof fn lemma_last_colon(s: Seq<char>, at: int)
    requires
        0 <= at < s.len(),
        s[at] == ':',
        forall|i: int| at < i < s.len() ==> #[trigger] s[i] != ':',
    ensures
        last_colon(s) == Some(at),
{
    let host = s.take(at);
    let port = s.skip(at + 1);
    assert forall|i: int| 0 <= i < port.len() implies #[trigger] port[i] != ':' by {
        assert(s[at + 1 + i] != ':');
    }
    lemma_last_colon_at(host, port);
    assert(host.push(':') + port =~= s);
}

proof fn lemma_no_colon(s: Seq<char>)
    requires
        forall|i: int| 0 <= i < s.len() ==> #[trigger] s[i] != ':',
    ensures
        last_colon(s) is None,
    decreases s.len(),
{
    if s.len() > 0 {
        let shorter = s.drop_last();
        assert forall|i: int| 0 <= i < shorter.len() implies #[trigger] shorter[i] != ':' by {
            assert(s[i] != ':');
        }
        assert(s[s.len() - 1] != ':');
        lemma_no_colon(shorter);
    }
}

/// Decimal digits write a number in the usual way.
pub proof fn law_digits_write_numbers(digits: Seq<char>, d: char)
    requires
        '0' <= d <= '9',
    ensures
        digits_value(Seq::empty()) == 0,
        digits_value(digits.push(d)) == digits_value(digits) * 10 + (d as int - '0' as int),
{
    assert(digits.push(d).drop_last() =~= digits);
}

/// An argument without a colon, or with nothing before its last one, is refused
/// for that.
pub proof fn law_argument_without_a_host(s: Seq<char>, r: Result<(String, u16), EndpointError>)
    requires
        endpoint_of(s, r),
    ensures
        (forall|i: int| 0 <= i < s.len() ==> #[trigger] s[i] != ':') ==> (r matches Err(
            EndpointError::NoColon(arg),
        ) && arg@ == s),
        s.len() > 0 && s[0] == ':' && (forall|i: int| 0 < i < s.len() ==> #[trigger] s[i] != ':')
            ==> (r matches Err(EndpointError::EmptyHost(arg)) && arg@ == s),
{
    if forall|i: int| 0 <= i < s.len() ==> #[trigger] s[i] != ':' {
        lemma_no_colon(s);
    }
    if s.len() > 0 && s[0] == ':' && (forall|i: int| 0 < i < s.len() ==> #[trigger] s[i] != ':') {
        lemma_last_colon(s, 0);
    }
}

/// An argument is split at its last colon. What stands before it is the host;
/// what stands behind it is the port, where it is one or more digits, with or
/// without a plus sign before them, of a number up to 65535, and is refused
/// otherwise.
pub proof fn law_argument_is_split_at_the_last_colon(
    s: Seq<char>,
    at: int,
    digits: Seq<char>,
    r: Result<(String, u16), EndpointError>,
)
    requires
        0 < at < s.len(),
        s[at] == ':',
        forall|i: int| at < i < s.len() ==> #[trigger] s[i] != ':',
        digits == s.skip(at + 1) || (s.skip(at + 1) == seq!['+'] + digits),
        digits.len() > 0 ==> digits[0] != '+',
        s.skip(at + 1).len() > 0 && s.skip(at + 1)[0] == '+' ==> digits.len() == s.skip(at + 1).len()
            - 1,
        endpoint_of(s, r),
    ensures
        digits.len() > 0 && (forall|i: int|
            0 <= i < digits.len() ==> '0' <= #[trigger] digits[i] <= '9') && digits_value(digits)
            <= 65535 ==> (r matches Ok((host, port)) && host@ == s.take(at) && port == digits_value(
            digits,
        )),
        !(digits.len() > 0 && (forall|i: int|
            0 <= i < digits.len() ==> '0' <= #[trigger] digits[i] <= '9') && digits_value(digits)
            <= 65535) ==> (r matches Err(EndpointError::BadPort(arg)) && arg@ == s),
{
    lemma_last_colon(s, at);
    let part = s.skip(at + 1);
    assert(unsigned_part(part) =~= digits);
    if digits.len() > 0 && (forall|i: int|
        0 <= i < digits.len() ==> '0' <= #[trigger] digits[i] <= '9') {
        assert forall|i: int| 0 <= i < digits.len() implies is_digit(#[trigger] digits[i]) by {}
    }
    if forall|i: int| 0 <= i < digits.len() ==> is_digit(#[trigger] digits[i]) {
        assert forall|i: int| 0 <= i < digits.len() implies '0' <= #[trigger] digits[i] <= '9' by {
            assert(is_digit(digits[i]));
        }
    }
}

/// A text in a column is filled up with blanks to the width of the column, on
/// the left where it is aligned to the right and the other way round, and is
/// never cut.
pub proof fn law_columns(s: Seq<char>, width: int, i: int)
    ensures
        s.len() >= width ==> right_aligned(s, width) == s && left_aligned(s, width) == s,
        s.len() < width ==> {
            &&& right_aligned(s, width).len() == width
            &&& right_aligned(s, width).skip(width - s.len()) == s
            &&& 0 <= i < width - s.len() ==> right_aligned(s, width)[i] == ' '
            &&& left_aligned(s, width).len() == width
            &&& left_aligned(s, width).take(s.len() as int) == s
            &&& s.len() <= i < width ==> left_aligned(s, width)[i] == ' '
        },
{
    if s.len() < width {
        assert(right_aligned(s, width).skip(width - s.len()) =~= s);
        assert(left_aligned(s, width).take(s.len() as int) =~= s);
    }
}

/// The line of a directory entry begins with the letter of its kind and goes on
/// with its size in a column of twelve and its name.
pub proof fn law_line_of_an_entry(entry: DirEntry)
    ensures
        kind_letter(EntryKind::Dir) == 'd',
        kind_letter(EntryKind::Symlink) == 'l',
        kind_letter(EntryKind::File) == '-',
        kind_letter(EntryKind::Other) == '?',
        entry_line(entry) == "  "@ + seq![kind_letter(entry.kind)] + " "@ + right_aligned(
            text::decimal(entry.size as nat),
            12,
        ) + " "@ + entry.name@,
{
}

/// The profile of a hop is that of its host: its own address, port, user and key,
/// agent before key before password, host keys checked as asked, and nothing
/// forwarded or chained.
pub proof fn law_profile_of_a_hop(
    profile: ConnectionProfile,
    name: Seq<char>,
    host: HostFlags,
    strict: bool,
)
    requires
        is_profile_for(profile, name, host, strict),
    ensures
        profile.name@ == name,
        profile.credential is None,
        profile.settings matches ProtocolSettings::Ssh(ssh) && ssh.host@ == host.host@ && ssh.port
            == host.port && ssh.username@ == host.user@ && ssh.private_key_path == host.key
            && ssh.strict_host_key_checking == strict && ssh.auth_methods@ == seq![
            profile::AuthMethod::Agent,
            profile::AuthMethod::PublicKey,
            profile::AuthMethod::Password,
        ] && ssh.key_passphrase is None && ssh.jump_host is None && !ssh.agent_forwarding,
{
}

} // verus!
