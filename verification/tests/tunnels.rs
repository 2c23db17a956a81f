use std::cell::RefCell;

use nexterm::tunnels::driver::{
    forward_mode_for, start_step, ConnMode, ForwardMode, ForwardedReceiver, ListenFailure,
    RusshTunnelDriver, StartAction, StartEvent, StartStep, StopStep, TunnelStart,
};
use nexterm::tunnels::error::TunnelError;
use nexterm::tunnels::manager::{
    MockTunnelDriver, TunnelDriver, TunnelKind, TunnelManager, TunnelSpec, TunnelStatus,
};

#[test]
fn lifecycle_with_mock_driver() {
    let mut mgr = TunnelManager::new(MockTunnelDriver);
    let profile = uuid::Uuid::new_v4().as_u128();
    let id = mgr.add(TunnelSpec::new_local("web", profile, 8080, "10.0.0.5", 80));
    assert_eq!(mgr.status(id), Some(TunnelStatus::Stopped));
    mgr.start(id).unwrap();
    assert_eq!(mgr.status(id), Some(TunnelStatus::Running));
    // Starting an already-running tunnel is an error.
    assert!(mgr.start(id).is_err());
    mgr.stop(id).unwrap();
    assert_eq!(mgr.status(id), Some(TunnelStatus::Stopped));

    let exported = mgr.export_specs();
    let mut mgr2 = TunnelManager::new(MockTunnelDriver);
    mgr2.import_specs(exported);
    assert_eq!(mgr2.list().len(), 1);
}

#[test]
fn forward_mode_dispatch() {
    let profile = uuid::Uuid::new_v4().as_u128();

    let local = TunnelSpec::new_local("l", profile, 8080, "10.0.0.5", 80);
    assert_eq!(
        forward_mode_for(&local).unwrap(),
        ForwardMode::Local { host: "10.0.0.5".into(), port: 80 }
    );

    let dynamic = TunnelSpec::new_dynamic("d", profile, "127.0.0.1", 1080);
    assert_eq!(forward_mode_for(&dynamic).unwrap(), ForwardMode::Dynamic);

    // Remote (`-R`): remote bind + local target.
    let remote = TunnelSpec::new_remote("r", profile, "127.0.0.1", 18080, "127.0.0.1", 8080);
    assert_eq!(
        forward_mode_for(&remote).unwrap(),
        ForwardMode::Remote {
            remote_host: "127.0.0.1".into(),
            remote_port: 18080,
            local_host: "127.0.0.1".into(),
            local_port: 8080,
        }
    );

    // A Local spec missing its target is rejected before any socket opens.
    let mut bad_local = TunnelSpec::new_local("b", profile, 8080, "x", 1);
    bad_local.target_host = None;
    assert!(matches!(forward_mode_for(&bad_local), Err(TunnelError::InvalidSpec(_))));

    // A Remote spec missing its local target is rejected.
    let mut bad_remote = TunnelSpec::new_remote("br", profile, "127.0.0.1", 1, "x", 1);
    bad_remote.target_port = None;
    assert!(matches!(forward_mode_for(&bad_remote), Err(TunnelError::InvalidSpec(_))));
}

/// A driver that fails for some ports, and records what it was asked.
struct PickyDriver {
    refused_port: u16,
    asked: RefCell<Vec<String>>,
}

impl TunnelDriver for &PickyDriver {
    fn start(&self, spec: &TunnelSpec) -> Result<(), TunnelError> {
        self.asked.borrow_mut().push(format!("start {}", spec.name));
        if spec.bind_port == self.refused_port {
            Err(TunnelError::Driver("refused".into()))
        } else {
            Ok(())
        }
    }

    fn stop(&self, id: u128) -> Result<(), TunnelError> {
        self.asked.borrow_mut().push(format!("stop {id}"));
        Err(TunnelError::Driver("stuck".into()))
    }
}

#[test]
fn a_driver_failure_is_remembered_and_can_be_retried() {
    let driver = PickyDriver { refused_port: 1, asked: RefCell::new(Vec::new()) };
    let mut mgr = TunnelManager::new(&driver);
    let bad = mgr.add(TunnelSpec::new_dynamic("bad", 7, "127.0.0.1", 1));
    assert!(matches!(mgr.start(bad), Err(TunnelError::Driver(e)) if e == "refused"));
    assert_eq!(mgr.status(bad), Some(TunnelStatus::Failed));
    assert!(mgr.start(bad).is_err());
    assert_eq!(*driver.asked.borrow(), vec!["start bad", "start bad"]);

    let good = mgr.add(TunnelSpec::new_dynamic("good", 7, "127.0.0.1", 2));
    mgr.start(good).unwrap();
    // A failed stop leaves the status.
    assert!(mgr.stop(good).is_err());
    assert_eq!(mgr.status(good), Some(TunnelStatus::Running));
    assert_eq!(mgr.status(bad), Some(TunnelStatus::Failed));
}

#[test]
fn unknown_tunnels_are_reported() {
    let mut mgr = TunnelManager::new(MockTunnelDriver);
    assert!(matches!(mgr.start(5), Err(TunnelError::NotFound(5))));
    assert!(matches!(mgr.stop(5), Err(TunnelError::NotFound(5))));
    assert_eq!(mgr.status(5), None);
    assert!(matches!(mgr.startable(5), Err(TunnelError::NotFound(5))));
    let id = mgr.add(TunnelSpec::new_dynamic("d", 7, "127.0.0.1", 2));
    assert_eq!(mgr.startable(id).unwrap().name, "d");
    mgr.start(id).unwrap();
    match mgr.start(id) {
        Err(TunnelError::AlreadyRunning(running)) => assert_eq!(running, id),
        other => panic!("{other:?}"),
    }
}

#[test]
fn autostart_starts_what_is_marked_and_reports_failures() {
    let driver = PickyDriver { refused_port: 1, asked: RefCell::new(Vec::new()) };
    let mut mgr = TunnelManager::new(&driver);
    let mut marked = TunnelSpec::new_dynamic("marked", 7, "127.0.0.1", 2);
    marked.autostart = true;
    let mut refused = TunnelSpec::new_dynamic("refused", 7, "127.0.0.1", 1);
    refused.autostart = true;
    let mut running = TunnelSpec::new_dynamic("running", 7, "127.0.0.1", 3);
    running.autostart = true;
    let marked = mgr.add(marked);
    let refused = mgr.add(refused);
    let running = mgr.add(running);
    let plain = mgr.add(TunnelSpec::new_dynamic("plain", 7, "127.0.0.1", 4));
    mgr.start(running).unwrap();

    let mut failed = mgr.start_autostart();
    failed.sort();
    let mut expected = vec![refused, running];
    expected.sort();
    assert_eq!(failed, expected);
    assert_eq!(mgr.status(marked), Some(TunnelStatus::Running));
    assert_eq!(mgr.status(refused), Some(TunnelStatus::Failed));
    assert_eq!(mgr.status(running), Some(TunnelStatus::Running));
    assert_eq!(mgr.status(plain), Some(TunnelStatus::Stopped));
}

#[test]
fn import_replaces_and_stops_everything() {
    let mut mgr = TunnelManager::new(MockTunnelDriver);
    let a = mgr.add(TunnelSpec::new_dynamic("a", 7, "127.0.0.1", 2));
    let b = mgr.add(TunnelSpec::new_local("b", 7, 3, "h", 4));
    mgr.start(a).unwrap();
    let exported = mgr.export_specs();
    assert_eq!(exported.len(), 2);

    let mut other = TunnelManager::new(MockTunnelDriver);
    let old = other.add(TunnelSpec::new_dynamic("old", 7, "127.0.0.1", 2));
    other.import_specs(exported);
    assert_eq!(other.status(old), None);
    assert_eq!(other.status(a), Some(TunnelStatus::Stopped));
    assert_eq!(other.status(b), Some(TunnelStatus::Stopped));

    // Of two definitions with one id the later one stays.
    let first = TunnelSpec::new_dynamic("first", 7, "127.0.0.1", 2);
    let mut second = first.clone();
    second.name = "second".into();
    other.import_specs(vec![first, second]);
    let listed = other.list();
    assert_eq!(listed.len(), 1);
    assert_eq!(listed[0].0.name, "second");
}

#[test]
fn new_definitions() {
    let local = TunnelSpec::new_local("web", 9, 8080, "10.0.0.5", 80);
    assert_eq!(local.kind, TunnelKind::Local);
    assert_eq!(local.bind_endpoint(), ("127.0.0.1".to_string(), 8080));
    assert_eq!(local.local_forward_target().unwrap(), ("10.0.0.5".to_string(), 80));
    assert!(!local.autostart);
    assert_eq!(local.ssh_profile_id, 9);
    // The id is a random one: version 4, and different every time.
    assert_eq!(uuid::Uuid::from_u128(local.id).get_version_num(), 4);
    assert_ne!(local.id, TunnelSpec::new_local("web", 9, 8080, "10.0.0.5", 80).id);
    let remote = TunnelSpec::new_remote("r", 9, "0.0.0.0", 1, "h", 2);
    assert_eq!(
        remote.remote_forward_endpoints().unwrap(),
        (("0.0.0.0".to_string(), 1), ("h".to_string(), 2))
    );
}

#[test]
fn driver_steps_for_listeners() {
    let mut driver = RusshTunnelDriver::from_connection();
    let local = TunnelSpec::new_local("l", 7, 8080, "10.0.0.5", 80);
    assert_eq!(
        start_step(&local).unwrap(),
        StartStep::Listen {
            bind_address: "127.0.0.1".into(),
            bind_port: 8080,
            mode: ConnMode::Local { host: "10.0.0.5".into(), port: 80 },
        }
    );
    match driver.listening(&local, Err(ListenFailure::Bind("in use".into()))) {
        Err(TunnelError::Driver(e)) => assert_eq!(e, "bind 127.0.0.1:8080 failed: in use"),
        other => panic!("{other:?}"),
    }
    match driver.listening(&local, Err(ListenFailure::LocalAddr("no address".into()))) {
        Err(TunnelError::Driver(e)) => assert_eq!(e, "no address"),
        other => panic!("{other:?}"),
    }
    assert_eq!(driver.running_count(), 0);
    driver.listening(&local, Ok(())).unwrap();
    assert_eq!(driver.running_count(), 1);
    assert_eq!(driver.stop(local.id), StopStep::EndTasks);
    assert_eq!(driver.stop(local.id), StopStep::Nothing);
    assert_eq!(driver.running_count(), 0);

    let dynamic = TunnelSpec::new_dynamic("d", 7, "127.0.0.1", 1080);
    assert_eq!(
        start_step(&dynamic).unwrap(),
        StartStep::Listen {
            bind_address: "127.0.0.1".into(),
            bind_port: 1080,
            mode: ConnMode::Dynamic,
        }
    );
}

#[test]
fn driver_hosts_one_remote_forward() {
    let mut driver = RusshTunnelDriver::connect(Ok(())).unwrap();
    let remote = TunnelSpec::new_remote("r", 7, "127.0.0.1", 0, "127.0.0.1", 8080);
    assert_eq!(
        start_step(&remote).unwrap(),
        StartStep::RequestRemote {
            remote_host: "127.0.0.1".into(),
            remote_port: 0,
            local_host: "127.0.0.1".into(),
            local_port: 8080,
        }
    );
    driver.take_forwarded(true).unwrap();
    assert_eq!(driver.receiver(), ForwardedReceiver::Taken);
    driver.remote_bound(&remote, Ok(18080)).unwrap();
    match driver.take_forwarded(true) {
        Err(TunnelError::Driver(e)) => {
            assert_eq!(e, "a remote forward is already active on this SSH connection")
        }
        other => panic!("{other:?}"),
    }
    assert_eq!(
        driver.stop(remote.id),
        StopStep::EndTasksAndCancel { bind_address: "127.0.0.1".into(), port: 18080 }
    );
    // The receiver is not given back.
    assert_eq!(driver.receiver(), ForwardedReceiver::Spent);
    assert!(driver.take_forwarded(true).is_err());

    let mut refused = RusshTunnelDriver::from_connection();
    refused.take_forwarded(true).unwrap();
    match refused.remote_bound(&remote, Err("denied".into())) {
        Err(TunnelError::Driver(e)) => assert_eq!(e, "denied"),
        other => panic!("{other:?}"),
    }
    assert_eq!(refused.running_count(), 0);
    assert!(RusshTunnelDriver::from_connection().take_forwarded(false).is_err());
    assert!(matches!(
        RusshTunnelDriver::connect(Err("no route".into())),
        Err(TunnelError::Driver(e)) if e == "no route"
    ));
}

#[test]
fn starting_a_remote_forward_takes_the_receiver_first() {
    let mut driver = RusshTunnelDriver::from_connection();
    let remote = TunnelSpec::new_remote("r", 7, "0.0.0.0", 0, "127.0.0.1", 8080);
    let (mut start, action) = TunnelStart::begin(remote.clone());
    assert!(matches!(action, StartAction::TakeForwarded));
    match start.advance(&mut driver, StartEvent::Receiver { available: true }) {
        StartAction::RequestRemote { remote_host, remote_port, local_host, local_port } => {
            assert_eq!((remote_host.as_str(), remote_port), ("0.0.0.0", 0));
            assert_eq!((local_host.as_str(), local_port), ("127.0.0.1", 8080));
        }
        other => panic!("{other:?}"),
    }
    assert_eq!(driver.running_count(), 0);
    assert!(matches!(
        start.advance(&mut driver, StartEvent::Assigned(Ok(18080))),
        StartAction::Done(Ok(()))
    ));
    assert_eq!(driver.running_count(), 1);
    assert_eq!(
        driver.stop(remote.id),
        StopStep::EndTasksAndCancel { bind_address: "0.0.0.0".into(), port: 18080 }
    );
    assert_eq!(driver.running_count(), 0);

    // A second one fails before the server is asked.
    let second = TunnelSpec::new_remote("s", 7, "0.0.0.0", 0, "127.0.0.1", 8081);
    let (mut start, _) = TunnelStart::begin(second);
    match start.advance(&mut driver, StartEvent::Receiver { available: false }) {
        StartAction::Done(Err(TunnelError::Driver(e))) => {
            assert_eq!(e, "a remote forward is already active on this SSH connection")
        }
        other => panic!("{other:?}"),
    }
}

#[test]
fn starting_a_refused_tunnel_runs_nothing() {
    let mut driver = RusshTunnelDriver::from_connection();
    let mut incomplete = TunnelSpec::new_local("l", 7, 8080, "10.0.0.5", 80);
    incomplete.target_host = None;
    let (_, action) = TunnelStart::begin(incomplete);
    assert!(matches!(action, StartAction::Done(Err(TunnelError::InvalidSpec(_)))));

    let local = TunnelSpec::new_local("l", 7, 8080, "10.0.0.5", 80);
    let (mut start, action) = TunnelStart::begin(local.clone());
    assert!(matches!(
        action,
        StartAction::Bind { bind_address, bind_port: 8080, mode: ConnMode::Local { port: 80, .. } }
            if bind_address == "127.0.0.1"
    ));
    match start.advance(
        &mut driver,
        StartEvent::Bound(Err(ListenFailure::Bind("in use".into()))),
    ) {
        StartAction::Done(Err(TunnelError::Driver(e))) => {
            assert_eq!(e, "bind 127.0.0.1:8080 failed: in use")
        }
        other => panic!("{other:?}"),
    }
    let (mut start, _) = TunnelStart::begin(local.clone());
    match start.advance(&mut driver, StartEvent::Receiver { available: true }) {
        StartAction::Done(Err(TunnelError::Driver(e))) => {
            assert_eq!(e, "the start of the tunnel was interrupted")
        }
        other => panic!("{other:?}"),
    }
    let (mut start, _) = TunnelStart::begin(TunnelSpec::new_remote("r", 7, "0.0.0.0", 0, "h", 1));
    start.advance(&mut driver, StartEvent::Receiver { available: true });
    match start.advance(&mut driver, StartEvent::Assigned(Err("denied".into()))) {
        StartAction::Done(Err(TunnelError::Driver(e))) => assert_eq!(e, "denied"),
        other => panic!("{other:?}"),
    }
    assert_eq!(driver.running_count(), 0);

    let (mut start, _) = TunnelStart::begin(local);
    assert!(matches!(
        start.advance(&mut driver, StartEvent::Bound(Ok(()))),
        StartAction::Done(Ok(()))
    ));
    assert_eq!(driver.running_count(), 1);
}

#[test]
fn a_whole_start_raises_the_count_and_its_stop_undoes_it() {
    let mut driver = RusshTunnelDriver::from_connection();
    let asked = std::cell::RefCell::new(Vec::new());
    let perform = |action: StartAction| match action {
        StartAction::Bind { bind_port, .. } => {
            asked.borrow_mut().push(format!("bind {bind_port}"));
            StartEvent::Bound(Ok(()))
        }
        StartAction::TakeForwarded => {
            asked.borrow_mut().push("take".to_string());
            StartEvent::Receiver { available: true }
        }
        StartAction::RequestRemote { remote_port, .. } => {
            asked.borrow_mut().push(format!("request {remote_port}"));
            StartEvent::Assigned(Ok(18080))
        }
        StartAction::Done(_) => panic!("nothing is left to perform"),
    };
    let local = TunnelSpec::new_local("l", 7, 8080, "10.0.0.5", 80);
    let remote = TunnelSpec::new_remote("r", 7, "0.0.0.0", 9, "127.0.0.1", 8080);
    let second = TunnelSpec::new_remote("s", 7, "0.0.0.0", 9, "127.0.0.1", 8081);
    let mut incomplete = local.clone();
    incomplete.target_port = None;
    assert!(matches!(driver.start(&incomplete, perform), Err(TunnelError::InvalidSpec(_))));
    assert!(asked.borrow().is_empty());
    driver.start(&local, perform).unwrap();
    assert_eq!(driver.running_count(), 1);
    driver.start(&remote, perform).unwrap();
    assert_eq!(driver.running_count(), 2);
    // A second remote forward fails before the server is asked.
    assert!(matches!(driver.start(&second, perform), Err(TunnelError::Driver(_))));
    assert_eq!(driver.running_count(), 2);
    assert_eq!(*asked.borrow(), ["bind 8080", "take", "request 9", "take"]);
    assert_eq!(
        driver.stop(remote.id),
        StopStep::EndTasksAndCancel { bind_address: "0.0.0.0".into(), port: 18080 }
    );
    assert_eq!(driver.running_count(), 1);
    assert_eq!(driver.stop(local.id), StopStep::EndTasks);
    assert_eq!(driver.running_count(), 0);
}

#[test]
fn tunnel_error_messages() {
    let id = uuid::Uuid::parse_str("67e55044-10b1-426f-9247-bb680e5fe0c8").unwrap().as_u128();
    assert_eq!(
        TunnelError::NotFound(id).message(),
        "tunnel not found: 67e55044-10b1-426f-9247-bb680e5fe0c8"
    );
    assert_eq!(
        TunnelError::AlreadyRunning(id).message(),
        "tunnel already running: 67e55044-10b1-426f-9247-bb680e5fe0c8"
    );
    assert_eq!(TunnelError::InvalidSpec("x".into()).message(), "invalid tunnel spec: x");
    assert_eq!(TunnelError::Driver("x".into()).message(), "driver error: x");
    assert_eq!(TunnelError::Serde("x".into()).message(), "(de)serialization error: x");
}
