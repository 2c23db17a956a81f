use std::time::Duration;

use nexterm::miniservers::any::AnyServer;
use nexterm::miniservers::error::MiniServerError;
use nexterm::miniservers::http::HttpFileServer;
use nexterm::miniservers::scheduler::{ScheduledTask, SchedulerServer};
use nexterm::miniservers::service::{
    MiniServer, MiniServerConfig, MiniServerKind, MiniServerManager, ServerState,
};

#[test]
fn http_configs_are_safe_by_default() {
    let mut config = MiniServerConfig::http("files", 8080, "/srv");
    assert_eq!(config.kind, MiniServerKind::Http);
    assert_eq!((config.bind_address.as_str(), config.port), ("127.0.0.1", 8080));
    assert_eq!(config.root_dir.as_deref(), Some("/srv"));
    assert!(config.read_only && !config.autostart);
    assert_eq!(config.security_warning(), None);
    config.bind_address = "::1".into();
    assert_eq!(config.security_warning(), None);
    config.bind_address = "0.0.0.0".into();
    assert_eq!(
        config.security_warning().unwrap(),
        "Server 'files' binds 0.0.0.0 (not loopback) and will be reachable from \
         the network. Ensure this is intended and access is controlled."
    );
}

#[test]
fn http_lifecycle() {
    let mut server = HttpFileServer::new(MiniServerConfig::http("files", 80, "/srv"));
    let plan = server.plan().unwrap();
    assert_eq!((plan.root.as_str(), plan.bind_address.as_str(), plan.port), ("/srv", "127.0.0.1", 80));
    match server.start(Err("in use".into())) {
        Err(MiniServerError::Start(e)) => assert_eq!(e, "bind 127.0.0.1:80: in use"),
        other => panic!("{other:?}"),
    }
    assert_eq!(server.state(), ServerState::Stopped);
    server.start(Ok(())).unwrap();
    assert_eq!(server.state(), ServerState::Running);
    // A running server is not launched again.
    assert!(server.plan().is_none());
    server.start(Err("ignored".into())).unwrap();
    assert_eq!(server.state(), ServerState::Running);
    server.stop().unwrap();
    assert_eq!(server.state(), ServerState::Stopped);

    let mut config = MiniServerConfig::http("files", 80, "/srv");
    config.root_dir = None;
    assert_eq!(HttpFileServer::new(config).plan().unwrap().root, ".");
}

#[test]
fn scheduler_lifecycle() {
    let tasks = vec![ScheduledTask {
        name: "tick".to_string(),
        every: Duration::from_secs(5),
        action: 7u8,
    }];
    let mut server = SchedulerServer::new(MiniServerConfig::http("s", 0, "."), tasks);
    let planned = server.plan().unwrap();
    assert_eq!(planned.len(), 1);
    assert_eq!((planned[0].name.as_str(), planned[0].action), ("tick", 7));
    server.start(Ok(())).unwrap();
    assert!(server.plan().is_none());
    server.stop().unwrap();
    assert!(matches!(server.start(Err("x".into())), Err(MiniServerError::Start(e)) if e == "x"));
    assert_eq!(server.config().name, "s");
}

#[test]
fn manager_controls_servers() {
    let mut manager = MiniServerManager::new();
    let a = manager.register(HttpFileServer::new(MiniServerConfig::http("a", 1, "/a")));
    let b = manager.register(HttpFileServer::new(MiniServerConfig::http("b", 2, "/b")));
    manager.start(a, Ok(())).unwrap();
    assert!(matches!(
        manager.start(b, Err("busy".into())),
        Err(MiniServerError::Start(e)) if e == "bind 127.0.0.1:2: busy"
    ));
    let mut listed: Vec<(String, ServerState)> =
        manager.list().into_iter().map(|(c, s)| (c.name, s)).collect();
    listed.sort_by(|x, y| x.0.cmp(&y.0));
    assert_eq!(
        listed,
        vec![("a".to_string(), ServerState::Running), ("b".to_string(), ServerState::Stopped)]
    );
    assert!(manager.get(b).unwrap().plan().is_some());
    manager.stop(a).unwrap();
    assert_eq!(manager.get(a).unwrap().state(), ServerState::Stopped);
    assert!(matches!(manager.start(9, Ok(())), Err(MiniServerError::NotFound(9))));
    assert!(matches!(manager.stop(9), Err(MiniServerError::NotFound(9))));
    assert!(matches!(manager.get(9), Err(MiniServerError::NotFound(9))));
}

#[test]
fn manager_holds_servers_of_different_kinds() {
    let mut manager = MiniServerManager::new();
    let http = HttpFileServer::new(MiniServerConfig::http("files", 80, "/srv"));
    let tasks = vec![ScheduledTask {
        name: "tick".to_string(),
        every: Duration::from_secs(5),
        action: 7u8,
    }];
    let scheduler = SchedulerServer::new(MiniServerConfig::http("ticks", 0, "."), tasks);
    let a = manager.register(AnyServer::Http(http));
    let b = manager.register(AnyServer::Scheduler(scheduler));
    // Each kind reports a failed start in its own words.
    assert!(matches!(
        manager.start(a, Err("busy".into())),
        Err(MiniServerError::Start(e)) if e == "bind 127.0.0.1:80: busy"
    ));
    assert!(matches!(
        manager.start(b, Err("busy".into())),
        Err(MiniServerError::Start(e)) if e == "busy"
    ));
    manager.start(b, Ok(())).unwrap();
    assert_eq!(manager.get(a).unwrap().state(), ServerState::Stopped);
    assert_eq!(manager.get(b).unwrap().state(), ServerState::Running);
    manager.start(a, Ok(())).unwrap();
    manager.stop(b).unwrap();
    assert_eq!(manager.get(a).unwrap().state(), ServerState::Running);
    assert_eq!(manager.get(a).unwrap().config().name, "files");
    match manager.get(b).unwrap() {
        AnyServer::Scheduler(server) => assert_eq!(server.plan().unwrap()[0].action, 7),
        AnyServer::Http(_) => panic!("a scheduler was registered"),
    }
    assert_eq!(manager.list().len(), 2);
}

/// A server that fails in its own way.
struct Stubborn {
    config: MiniServerConfig,
}

impl MiniServer for Stubborn {
    fn config_of(self) -> MiniServerConfig {
        self.config
    }

    fn state_of(self) -> ServerState {
        ServerState::Running
    }

    fn config(&self) -> &MiniServerConfig {
        &self.config
    }

    fn state(&self) -> ServerState {
        ServerState::Running
    }

    fn start(&mut self, _launched: Result<(), String>) -> Result<(), MiniServerError> {
        Err(MiniServerError::Io("no device".into()))
    }

    fn stop(&mut self) -> Result<(), MiniServerError> {
        Err(MiniServerError::Io("busy".into()))
    }
}

#[test]
fn manager_hands_on_the_errors_of_a_server() {
    let mut manager = MiniServerManager::new();
    let id = manager.register(Stubborn { config: MiniServerConfig::http("s", 1, ".") });
    assert!(matches!(manager.start(id, Ok(())), Err(MiniServerError::Io(e)) if e == "no device"));
    assert!(matches!(manager.stop(id), Err(MiniServerError::Io(e)) if e == "busy"));
    assert_eq!(manager.list().len(), 1);
}

#[test]
fn server_error_messages() {
    assert_eq!(
        MiniServerError::NotFound(0).message(),
        "server not found: 00000000-0000-0000-0000-000000000000"
    );
    assert_eq!(MiniServerError::Start("x".into()).message(), "failed to start server: x");
    assert_eq!(MiniServerError::Io("x".into()).message(), "I/O error: x");
}
