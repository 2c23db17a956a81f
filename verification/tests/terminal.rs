use nexterm::terminal::altscreen::AltScreenTracker;
use nexterm::terminal::error::TerminalError;
use nexterm::terminal::highlight::{
    builtin_profiles, check_rules, spans_of_matches, HighlightProfile, HighlightRule,
    HighlightSpan, HighlightStyle, LineHighlighter,
};
use nexterm::terminal::pty::choose_shell;

#[test]
fn enters_and_leaves_alt_screen() {
    let mut t = AltScreenTracker::new();
    assert!(!t.in_alt_screen());
    t.feed(b"\x1b[?1049h");
    assert!(t.in_alt_screen());
    t.feed(b"some full-screen drawing");
    assert!(t.in_alt_screen());
    t.feed(b"\x1b[?1049l");
    assert!(!t.in_alt_screen());
}

fn after(chunks: &[&[u8]]) -> bool {
    let mut t = AltScreenTracker::new();
    for chunk in chunks {
        t.feed(chunk);
    }
    t.in_alt_screen()
}

#[test]
fn alt_screen_sequences() {
    assert!(after(&[b"\x1b[?47h"]));
    assert!(after(&[b"\x1b[?1047h"]));
    assert!(after(&[b"\x1b[?001049h"]));
    // Other modes, other endings, no digits.
    assert!(!after(&[b"\x1b[?25h"]));
    assert!(!after(&[b"\x1b[?1049x"]));
    assert!(!after(&[b"\x1b[?h"]));
    assert!(!after(&[b"\x1b[1049h"]));
    // A number too large for 32 bits is no mode.
    assert!(!after(&[b"\x1b[?4294968345h"]));
    // The last switch decides.
    assert!(after(&[b"x\x1b[?1049h y\x1b[?1049l\x1b[?47h z"]));
    assert!(!after(&[b"\x1b[?1049h\x1b[?1049l"]));
    assert!(after(&[b"\x1b[?\x1b[?1049h"]));
    // A sequence that is cut in two is not recognised.
    assert!(!after(&[b"\x1b[?10", b"49h"]));
    assert!(after(&[b"ab\x1b[?1049h", b"cd"]));
}

#[test]
fn matches_ip_and_status() {
    let profile = &builtin_profiles()[0];
    let hl = LineHighlighter::from_profile(profile).expect("compile");
    let spans = hl.spans("iface eth0 is up at 10.0.0.1");
    assert!(spans.iter().any(|s| s.style == HighlightStyle::Address));
    assert!(spans.iter().any(|s| s.style == HighlightStyle::Success));
}

#[test]
fn spans_are_exact() {
    let hl = LineHighlighter::from_profile(&builtin_profiles()[0]).expect("compile");
    assert_eq!(
        hl.spans("iface eth0 is up at 10.0.0.1"),
        vec![
            HighlightSpan { start: 14, end: 16, style: HighlightStyle::Success },
            HighlightSpan { start: 20, end: 28, style: HighlightStyle::Address },
        ]
    );
    let line = "é ERROR at aa:bb:cc:dd:ee:ff: deprecated";
    let spans = hl.spans(line);
    let texts: Vec<&str> = spans.iter().map(|s| &line[s.start..s.end]).collect();
    assert_eq!(texts, vec!["ERROR", "aa:bb:cc:dd:ee:ff", "deprecated"]);
    assert_eq!(spans[0].style, HighlightStyle::Error);
    assert_eq!(spans[2].style, HighlightStyle::Warning);
    assert!(hl.spans("nothing here").is_empty());
}

fn rule(name: &str, pattern: &str, enabled: bool) -> HighlightRule {
    HighlightRule {
        name: name.into(),
        pattern: pattern.into(),
        style: HighlightStyle::Info,
        enabled,
    }
}

#[test]
fn rejects_bad_regex() {
    let profile = HighlightProfile {
        name: "bad".into(),
        rules: vec![HighlightRule {
            name: "oops".into(),
            pattern: "(".into(),
            style: HighlightStyle::Info,
            enabled: true,
        }],
    };
    assert!(LineHighlighter::from_profile(&profile).is_err());
}

#[test]
fn the_first_enabled_bad_rule_is_reported() {
    let profile = HighlightProfile {
        name: "bad".into(),
        rules: vec![
            rule("off", "(", false),
            rule("fine", "a+", true),
            rule("second", "[", true),
            rule("third", "(", true),
        ],
    };
    match LineHighlighter::from_profile(&profile) {
        Err(TerminalError::BadRegex { name, source }) => {
            assert_eq!(name, "second");
            assert_eq!(source, regex::Regex::new("[").unwrap_err().to_string());
        }
        _ => panic!("expected the second rule to be reported"),
    }
    // A disabled rule is neither compiled nor used.
    let disabled = HighlightProfile {
        name: "off".into(),
        rules: vec![rule("off", "(", false), rule("fine", "a+", true)],
    };
    let hl = LineHighlighter::from_profile(&disabled.clone()).expect("compile");
    assert_eq!(hl.spans("baa").len(), 1);
}

#[test]
fn check_rules_on_given_errors() {
    let rules = vec![rule("a", "", false), rule("b", "", true), rule("c", "", true)];
    let why = |s: &str| Some(s.to_string());
    assert!(check_rules(&rules, &vec![why("x"), None, None]).is_ok());
    match check_rules(&rules, &vec![why("x"), why("y"), why("z")]) {
        Err(TerminalError::BadRegex { name, source }) => {
            assert_eq!((name.as_str(), source.as_str()), ("b", "y"))
        }
        other => panic!("{other:?}"),
    }
}

#[test]
fn earlier_rules_win_and_spans_are_sorted() {
    let (a, b) = (HighlightStyle::Info, HighlightStyle::Accent);
    let span = |start, end, style| HighlightSpan { start, end, style };
    // The second rule's match is dropped where it overlaps, kept where it does not.
    assert_eq!(
        spans_of_matches(&vec![a, b], &vec![vec![(4, 8)], vec![(0, 4), (6, 9), (8, 9)]]),
        vec![span(0, 4, b), span(4, 8, a), span(8, 9, b)]
    );
    // Empty matches overlap nothing and keep their order at one place.
    assert_eq!(
        spans_of_matches(&vec![a, b], &vec![vec![(2, 2)], vec![(2, 3), (2, 2)]]),
        vec![span(2, 2, a), span(2, 3, b), span(2, 2, b)]
    );
    assert!(spans_of_matches(&vec![], &vec![]).is_empty());
}

#[test]
fn builtin_rules() {
    let profiles = builtin_profiles();
    assert_eq!(profiles.len(), 1);
    assert_eq!(profiles[0].name, "generic-network");
    let names: Vec<&str> = profiles[0].rules.iter().map(|r| r.name.as_str()).collect();
    assert_eq!(names, vec!["ipv4", "mac", "error", "warning", "up-ok"]);
    assert!(profiles[0].rules.iter().all(|r| r.enabled));
}

#[test]
fn terminal_error_messages() {
    assert_eq!(TerminalError::Pty("x".into()).message(), "pty error: x");
    assert_eq!(
        TerminalError::BadRegex { name: "n".into(), source: "s".into() }.message(),
        "invalid regex in highlight rule 'n': s"
    );
    assert_eq!(TerminalError::Io("x".into()).message(), "I/O error: x");
}

#[test]
fn shell_choice() {
    assert_eq!(choose_shell(Some("/bin/zsh"), Some("/bin/bash")), "/bin/zsh");
    assert_eq!(choose_shell(None, Some("/bin/bash")), "/bin/bash");
    assert_eq!(choose_shell(None, None), "/bin/sh");
}
