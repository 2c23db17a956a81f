use nexterm::model::profile::ConnectionProfile;
use nexterm::protocols::error::ProtocolError;
use nexterm::protocols::local::{
    LocalPtySession, LocalShellConnector, Reception, SpawnFailure,
};
use nexterm::protocols::mock::{MockConnector, MockSftp};
use nexterm::protocols::russh_impl::RusshConnector;
use nexterm::protocols::traits::{
    Connector, EntryKind, RemoteSession, ResolvedCredentials, SftpClient,
};

#[test]
fn mock_session_echoes_in_order() {
    let profile = ConnectionProfile::new_local_shell("box", None);
    let mut session =
        MockConnector.connect_shell(&profile, &ResolvedCredentials::default()).unwrap();
    session.write(b"a").unwrap();
    session.write(b"b").unwrap();
    session.resize(80, 24).unwrap();
    assert_eq!(session.read().unwrap(), b"[mock] connected to 'box' (LocalShell)\r\n$ ");
    assert_eq!(session.read().unwrap(), b"a\r\n$ ");
    assert_eq!(session.read().unwrap(), b"b\r\n$ ");
    assert!(session.read().unwrap().is_empty());
    session.close().unwrap();
}

#[test]
fn connectors_report_what_they_lack() {
    let profile = ConnectionProfile::new_ssh("n", "h", "u");
    let creds = ResolvedCredentials::default();
    assert!(matches!(
        MockConnector.connect_sftp_via_jump(&profile, &creds, &profile, &creds),
        Err(ProtocolError::NotImplemented(
            "SFTP over a jump host is not supported by this connector"
        ))
    ));
    let r = RusshConnector.connect_shell(&profile, &creds).map(|_| ());
    assert!(matches!(r, Err(ProtocolError::NotImplemented(_))));
}

#[test]
fn mock_sftp_tree() {
    let sftp = MockSftp;
    for path in ["/", ""] {
        let entries = sftp.list_dir(path).unwrap();
        let names: Vec<&str> = entries.iter().map(|e| e.name.as_str()).collect();
        assert_eq!(names, vec!["etc", "home", "readme.txt"]);
        assert_eq!(entries[0].kind, EntryKind::Dir);
        assert_eq!((entries[2].size, entries[2].permissions), (12, Some(0o644)));
    }
    assert!(sftp.list_dir("/etc").unwrap().is_empty());
    for path in ["/a/b.txt", "b.txt", "/dir/", "/", ""] {
        assert_eq!(sftp.stat(path).unwrap().name, path.rsplit('/').next().unwrap());
    }
    assert_eq!(sftp.read_file("x").unwrap(), b"hello world\n");
    assert!(sftp.write_file("x", b"y").is_ok());
    assert!(sftp.make_dir("x").is_ok() && sftp.remove_dir("x").is_ok());
    assert!(sftp.rename("x", "y").is_ok() && sftp.remove_file("y").is_ok());
    assert!(sftp.set_permissions("y", 0o600).is_ok());
}

#[test]
fn local_shell_plans() {
    let connector = LocalShellConnector;
    let plan = connector
        .connect_shell(&ConnectionProfile::new_local_shell("t", Some("/bin/sh".into())))
        .unwrap();
    assert_eq!(plan.program.as_deref(), Some("/bin/sh"));
    assert_eq!((plan.cols, plan.rows), (80, 24));
    match connector.connect_shell(&ConnectionProfile::new_ssh("n", "h", "u")) {
        Err(ProtocolError::Connect(e)) => {
            assert_eq!(e, "LocalShellConnector cannot open a Ssh profile")
        }
        other => panic!("{other:?}"),
    }
    assert!(matches!(
        LocalShellConnector::spawned(Err(SpawnFailure::Task("t".into()))),
        Err(ProtocolError::Connect(e)) if e == "pty spawn task failed: t"
    ));
    assert!(matches!(
        LocalShellConnector::spawned(Err(SpawnFailure::Pty("pty error: p".into()))),
        Err(ProtocolError::Connect(e)) if e == "pty error: p"
    ));
}

#[test]
fn local_shell_reads_until_eof() {
    let mut session = LocalShellConnector::spawned(Ok(())).unwrap();
    assert!(session.wants_output());
    assert_eq!(session.read(Reception::Chunk(b"x".to_vec())).unwrap(), b"x");
    assert!(session.read(Reception::Ended).unwrap().is_empty());
    assert!(!session.wants_output());
    assert!(session.read(Reception::Chunk(b"y".to_vec())).unwrap().is_empty());

    let mut session = LocalShellConnector::spawned(Ok(())).unwrap();
    assert!(matches!(
        session.read(Reception::TaskFailed("t".into())),
        Err(ProtocolError::Channel(e)) if e == "pty read task failed: t"
    ));
    assert!(!session.wants_output());

    let mut session = LocalShellConnector::spawned(Ok(())).unwrap();
    session.close();
    assert!(!session.wants_output());
    assert!(LocalPtySession::performed(Ok(())).is_ok());
    assert!(matches!(
        LocalPtySession::performed(Err("w".into())),
        Err(ProtocolError::Channel(e)) if e == "w"
    ));
}

#[test]
fn protocol_error_messages() {
    let cases = vec![
        (ProtocolError::Connect("x".into()), "connection failed: x"),
        (ProtocolError::Auth("x".into()), "authentication failed: x"),
        (ProtocolError::Channel("x".into()), "channel error: x"),
        (ProtocolError::Agent("x".into()), "agent forwarding error: x"),
        (ProtocolError::Sftp("x".into()), "sftp error: x"),
        (ProtocolError::Io("x".into()), "I/O error: x"),
        (ProtocolError::NotImplemented("x"), "feature not implemented yet: x"),
    ];
    for (error, expected) in cases {
        assert_eq!(error.message(), expected);
    }
}
