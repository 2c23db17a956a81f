use nexterm::cli::{
    creds_from_env, jump_notice, jump_profiles, listing, local_tunnel, password_from_env,
    profile_line, shell_input, span_line, split_host_port, ssh_profile, warning_line,
    EndpointError, HostFlags,
};
use nexterm::model::profile::{AuthMethod, ConnectionProfile, ProtocolSettings};
use nexterm::protocols::traits::{DirEntry, EntryKind};
use nexterm::tasks::{cargo_args, HELP};
use nexterm::terminal::highlight::{HighlightSpan, HighlightStyle};
use nexterm::ui::safety::DangerWarning;

#[test]
fn endpoints_split_on_the_last_colon() {
    assert_eq!(split_host_port("127.0.0.1:18080").unwrap(), ("127.0.0.1".to_string(), 18080));
    assert_eq!(split_host_port("::1:22").unwrap(), ("::1".to_string(), 22));
    assert_eq!(split_host_port("h:0080").unwrap(), ("h".to_string(), 80));
    assert_eq!(split_host_port("h:65535").unwrap().1, 65535);
    for (arg, expected) in [
        ("nohost", "expected host:port, got `nohost`"),
        ("", "expected host:port, got ``"),
        (":80", "empty host in `:80`"),
        ("h:", "invalid port in `h:`"),
        ("h:65536", "invalid port in `h:65536`"),
        ("h:99999999999999999999", "invalid port in `h:99999999999999999999`"),
        ("h:8a", "invalid port in `h:8a`"),
        ("h:-1", "invalid port in `h:-1`"),
    ] {
        assert_eq!(split_host_port(arg).unwrap_err().message(), expected);
    }
    assert!(matches!(split_host_port("x"), Err(EndpointError::NoColon(s)) if s == "x"));
}

#[test]
fn ports_are_read_as_the_standard_library_reads_them() {
    for text in ["0", "1", "22", "+22", "+", "++1", "00022", "65535", "65536", "", " 1", "1 ", "-0", "１"] {
        let arg = format!("h:{text}");
        assert_eq!(
            split_host_port(&arg).ok().map(|(_, port)| port),
            text.parse::<u16>().ok(),
            "{text:?}"
        );
    }
}

#[test]
fn profiles_from_flags() {
    let profile = ssh_profile("jump", "gw", 2222, "me", Some("/k".into()), false);
    assert_eq!(profile.name, "jump");
    match &profile.settings {
        ProtocolSettings::Ssh(s) => {
            assert_eq!((s.host.as_str(), s.port, s.username.as_str()), ("gw", 2222, "me"));
            assert_eq!(s.private_key_path.as_deref(), Some("/k"));
            assert!(!s.strict_host_key_checking);
            assert_eq!(s.auth_methods.len(), 3);
        }
        other => panic!("{other:?}"),
    }
}

#[test]
fn hops_from_flags() {
    let flags = |host: &str, port| HostFlags {
        host: host.into(),
        port,
        user: "me".into(),
        key: None,
    };
    let (jump, target) = (flags("gw", 22), flags("10.0.0.5", 2222));
    assert_eq!(
        jump_notice("connecting", &jump, &target),
        "connecting to 10.0.0.5:2222 via jump host gw:22 ..."
    );
    let (jump, target) = jump_profiles(jump, target, true);
    assert_eq!((jump.name.as_str(), target.name.as_str()), ("jump", "target"));
    match (&jump.settings, &target.settings) {
        (ProtocolSettings::Ssh(j), ProtocolSettings::Ssh(t)) => {
            assert_eq!((j.host.as_str(), t.host.as_str(), t.port), ("gw", "10.0.0.5", 2222));
            assert!(!j.strict_host_key_checking && !t.strict_host_key_checking);
            for hop in [j, t] {
                assert_eq!(
                    hop.auth_methods,
                    vec![AuthMethod::Agent, AuthMethod::PublicKey, AuthMethod::Password]
                );
                assert!(!hop.agent_forwarding);
                assert!(hop.key_passphrase.is_none() && hop.jump_host.is_none());
            }
        }
        other => panic!("{other:?}"),
    }
}

#[test]
fn passwords_from_the_environment() {
    assert_eq!(password_from_env(Some("pw".into())).unwrap().expose(), "pw");
    assert!(password_from_env(Some(String::new())).is_none());
    assert!(password_from_env(None).is_none());
    let creds = creds_from_env(Some("pw".into()));
    assert_eq!(creds.password.as_ref().unwrap().expose(), "pw");
    assert!(creds.key_passphrase.is_none());
    assert!(creds_from_env(None).password.is_none());
}

#[test]
fn tunnels_from_flags() {
    let spec = local_tunnel(4, "0.0.0.0".into(), 18080, "10.0.0.5", 80);
    assert_eq!(spec.name, "cli-local");
    assert_eq!(spec.bind_endpoint(), ("0.0.0.0".to_string(), 18080));
    assert_eq!(spec.local_forward_target().unwrap(), ("10.0.0.5".to_string(), 80));
}

#[test]
fn shell_scripts_exit() {
    assert_eq!(shell_input(Some("ls".into()), "echo hi"), "ls\nexit\n");
    assert_eq!(shell_input(None, "echo hi"), "echo hi\nexit\n");
}

#[test]
fn listings() {
    let entry = |name: &str, kind, size| DirEntry {
        name: name.into(),
        kind,
        size,
        permissions: None,
        modified_unix: None,
    };
    let entries = vec![
        entry("etc", EntryKind::Dir, 4096),
        entry("a b", EntryKind::File, 0),
        entry("link", EntryKind::Symlink, 123456789012),
        entry("dev", EntryKind::Other, u64::MAX),
    ];
    let lines = listing("/", &entries);
    let mut expected = vec!["/:".to_string()];
    for (letter, e) in ['d', '-', 'l', '?'].into_iter().zip(&entries) {
        expected.push(format!("  {letter} {:>12} {}", e.size, e.name));
    }
    expected.push("(4 entries)".to_string());
    assert_eq!(lines, expected);
    assert_eq!(listing("x", &vec![]), vec!["x:".to_string(), "(0 entries)".to_string()]);
}

#[test]
fn lines_for_profiles_and_warnings() {
    let mut profile = ConnectionProfile::new_ssh("web", "h", "u");
    profile.id = 0x67e5504410b1426f9247bb680e5fe0c8;
    assert_eq!(
        profile_line(&profile),
        "67e55044-10b1-426f-9247-bb680e5fe0c8  web  [Ssh]"
    );
    let warning = DangerWarning { matched: "reboot".into(), reason: "power".into() };
    assert_eq!(warning_line(&warning), "  - reboot (power)");
}

#[test]
fn tasks() {
    assert_eq!(cargo_args("build").unwrap(), vec!["build", "--workspace"]);
    assert_eq!(
        cargo_args("build-release").unwrap(),
        vec!["build", "--workspace", "--release"]
    );
    assert_eq!(cargo_args("test").unwrap(), vec!["test", "--workspace"]);
    assert_eq!(cargo_args("fmt").unwrap(), vec!["fmt", "--all"]);
    assert_eq!(
        cargo_args("lint").unwrap(),
        vec!["clippy", "--workspace", "--all-targets"]
    );
    assert_eq!(
        cargo_args("run-cli").unwrap(),
        vec!["run", "-p", "rrs-cli", "--", "check"]
    );
    assert!(cargo_args("help").is_none());
    assert!(HELP.contains("run-cli"));
}

#[test]
fn lines_for_highlighted_spans() {
    let span = HighlightSpan { start: 5, end: 12, style: HighlightStyle::Address };
    assert_eq!(span_line(&span, "\"1.2.3.4\""), "  [  5..12 ] Address  \"1.2.3.4\"");
    for style in [
        HighlightStyle::Info,
        HighlightStyle::Warning,
        HighlightStyle::Error,
        HighlightStyle::Success,
        HighlightStyle::Address,
        HighlightStyle::Accent,
    ] {
        let span = HighlightSpan { start: 1000, end: 1234, style };
        assert_eq!(
            span_line(&span, "\"x\""),
            format!("  [{:>3}..{:<3}] {:?}  {:?}", 1000, 1234, style, "x")
        );
    }
}
