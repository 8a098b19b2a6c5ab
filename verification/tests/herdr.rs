use std::collections::VecDeque;
use std::io;
use std::sync::Mutex;

use bootmux::env::Env;
use bootmux::herdr::{
    check_output, default_state_index_path, expect_result_type, pane_rename_arguments,
    readiness_step, validate_component, validate_server, xdg_state_home, ClientStatus, Endpoint,
    Herdr, HerdrError, HerdrVersion, LockOptions, ManagedWorkspace, PaneDirection, PaneFocus,
    PaneInfo, PaneTarget, Probe, Readiness, RecoveryStrategy, ServerStatus, SessionSnapshot,
    StateIndex, StateStore, TabCreate, WorkspaceCreate, WorkspaceInfo, HERDR_CLIENT_SOCKET_PATH,
    HERDR_SESSION, HERDR_SOCKET_PATH, STATE_INDEX_VERSION,
};
use bootmux::process::{CommandOutput, CommandRunner, Invocation};

#[derive(Default)]
struct FakeRunner {
    outputs: Mutex<VecDeque<CommandOutput>>,
    invocations: Mutex<Vec<Invocation>>,
}

impl FakeRunner {
    fn with_outputs(outputs: impl IntoIterator<Item = CommandOutput>) -> Self {
        Self {
            outputs: Mutex::new(outputs.into_iter().collect()),
            ..Self::default()
        }
    }
}

impl CommandRunner for FakeRunner {
    fn run(&self, invocation: &Invocation) -> io::Result<CommandOutput> {
        self.invocations.lock().unwrap().push(invocation.clone());
        self.outputs
            .lock()
            .unwrap()
            .pop_front()
            .ok_or_else(|| io::Error::other("no fake output"))
    }

    fn spawn_detached(&self, invocation: &Invocation) -> io::Result<u32> {
        self.invocations.lock().unwrap().push(invocation.clone());
        Ok(42)
    }

    fn error_envelope(&self, output: &[u8]) -> Option<(String, String)> {
        envelope(output)
    }
}

fn success(json: &str) -> CommandOutput {
    CommandOutput {
        success: true,
        code: Some(0),
        stdout: json.as_bytes().to_vec(),
        stderr: Vec::new(),
    }
}

fn env_var<'a>(invocation: &'a Invocation, name: &str) -> Option<&'a Option<String>> {
    invocation
        .env
        .iter()
        .find(|(key, _)| key == name)
        .map(|(_, value)| value)
}

fn strings(items: &[&str]) -> Vec<String> {
    items.iter().map(|item| item.to_string()).collect()
}

#[test]
fn endpoint_clears_ambient_selectors_and_applies_named_session() {
    let runner = FakeRunner::with_outputs([success(
        r#"{"result":{"type":"workspace_list","workspaces":[]}}"#,
    )]);
    let herdr = Herdr::with_runner(
        "herdr".to_string(),
        Endpoint::NamedSession("work".into()),
        runner,
    );
    herdr.list_workspaces().unwrap();

    let invocation = herdr.runner().invocations.lock().unwrap()[0].clone();
    assert_eq!(invocation.args, strings(&["--session", "work", "workspace", "list"]));
    assert_eq!(env_var(&invocation, HERDR_SOCKET_PATH), Some(&None));
    assert_eq!(env_var(&invocation, HERDR_SESSION), Some(&None));
    assert_eq!(env_var(&invocation, HERDR_CLIENT_SOCKET_PATH), Some(&None));
}

#[test]
fn a_socket_endpoint_pins_its_path_in_the_environment() {
    let (args, env) = Endpoint::SocketPath("/tmp/h.sock".into()).apply();
    assert!(args.is_empty());
    assert_eq!(
        env,
        vec![
            (HERDR_CLIENT_SOCKET_PATH.to_string(), None),
            (HERDR_SESSION.to_string(), None),
            (HERDR_SOCKET_PATH.to_string(), Some("/tmp/h.sock".to_string())),
        ]
    );
    let (args, _) = Endpoint::Default.apply();
    assert!(args.is_empty());
}

#[test]
fn pane_focus_uses_directional_cli_shape() {
    let focus = PaneFocus {
        source: PaneTarget::PaneId("w:p1".into()),
        direction: PaneDirection::Right,
    };
    assert_eq!(
        focus.args(),
        strings(&["pane", "focus", "--direction", "right", "--pane", "w:p1"])
    );
    let current = PaneFocus {
        source: PaneTarget::Current,
        direction: PaneDirection::Up,
    };
    assert_eq!(current.args(), strings(&["pane", "focus", "--direction", "up", "--current"]));
    let focused = PaneFocus {
        source: PaneTarget::Focused,
        direction: PaneDirection::Left,
    };
    assert_eq!(focused.args(), strings(&["pane", "focus", "--direction", "left"]));
}

#[test]
fn topology_requests_use_the_cli_shapes() {
    let workspace = WorkspaceCreate {
        cwd: Some("/repo".into()),
        label: Some("api".into()),
        env: vec![("A".into(), "1".into())],
        focus: false,
    };
    assert_eq!(
        workspace.args(),
        strings(&[
            "workspace", "create", "--cwd", "/repo", "--label", "api", "--env", "A=1",
            "--no-focus"
        ])
    );
    let tab = TabCreate {
        workspace_id: Some("w1".into()),
        focus: true,
        ..TabCreate::default()
    };
    assert_eq!(
        tab.args(),
        strings(&["tab", "create", "--workspace", "w1", "--focus"])
    );
    assert_eq!(
        pane_rename_arguments("w:p1", Some("vim")),
        strings(&["pane", "rename", "w:p1", "vim"])
    );
    assert_eq!(
        pane_rename_arguments("w:p1", None),
        strings(&["pane", "rename", "w:p1", "--clear"])
    );
}

#[test]
fn run_in_pane_uses_the_pane_run_helper_and_expects_no_output() {
    let runner = FakeRunner::with_outputs([success("  \n"), success("oops")]);
    let herdr = Herdr::with_runner("herdr".to_string(), Endpoint::Default, runner);
    herdr.run_in_pane("w:p1", "npm test").unwrap();
    assert!(matches!(
        herdr.run_in_pane("w:p1", "npm test"),
        Err(HerdrError::UnexpectedOutput { .. })
    ));
    let invocation = herdr.runner().invocations.lock().unwrap()[0].clone();
    assert_eq!(invocation.args, strings(&["pane", "run", "w:p1", "npm test"]));
}

fn server(running: bool, protocol: Option<u32>) -> ServerStatus {
    ServerStatus {
        status: if running { "running" } else { "not_running" }.to_string(),
        running,
        version: Some("0.7.5".into()),
        protocol,
        compatible: Some(true),
        socket: "/tmp/h.sock".into(),
        session: None,
        restart_needed: None,
    }
}

#[test]
fn readiness_polls_until_a_compatible_server_runs() {
    assert!(matches!(
        readiness_step(17, Ok(server(false, None)), None),
        Readiness::Pending(None)
    ));
    assert!(matches!(
        readiness_step(17, Ok(server(true, Some(17))), None),
        Readiness::Ready(status) if status.running
    ));
    assert!(matches!(
        readiness_step(17, Ok(server(true, Some(16))), None),
        Readiness::Failed(HerdrError::ProtocolMismatch { client: 17, server: 16 })
    ));
    assert!(matches!(
        readiness_step(17, Ok(server(true, None)), None),
        Readiness::Failed(HerdrError::MissingStatusField { field: "protocol", .. })
    ));
    let transient = HerdrError::ServerNotRunning { socket: "/tmp/h.sock".into() };
    assert!(matches!(
        readiness_step(17, Err(transient), Some("not yet".into())),
        Readiness::Pending(Some(message)) if message == "not yet"
    ));
}

#[test]
fn versions_and_protocols_are_checked_against_the_minimum() {
    assert!(validate_component("client", "0.7.5", 17).is_ok());
    assert!(validate_component("client", "v1.0.0-rc.1", 17).is_ok());
    assert!(matches!(
        validate_component("client", "0.7.4", 17),
        Err(HerdrError::UnsupportedVersion { .. })
    ));
    assert!(matches!(
        validate_component("client", "0.7.5-rc.1", 17),
        Err(HerdrError::UnsupportedVersion { .. })
    ));
    assert!(matches!(
        validate_component("server", "seven", 17),
        Err(HerdrError::InvalidVersion { component: "server", .. })
    ));
    assert!(validate_component("server", "0.7.5", 19).is_ok());
    assert!(matches!(
        validate_component("server", "0.8.0", 18),
        Err(HerdrError::UnsupportedProtocol { found: 18, required: 17, .. })
    ));
    assert!(matches!(
        validate_component("server", "0.8.0", 16),
        Err(HerdrError::UnsupportedProtocol { found: 16, required: 17, .. })
    ));
    let a = HerdrVersion::parse("0.7.5").unwrap();
    let b = HerdrVersion::parse("0.7.5-alpha").unwrap();
    assert_eq!(a.compare(&b), 1);
    assert_eq!(b.compare(&a), -1);
    assert_eq!(a.compare(&a), 0);
    assert_eq!(
        HerdrVersion::parse("0.7"),
        Some(HerdrVersion { major: 0, minor: 7, patch: 0, prerelease: None })
    );
    assert!(HerdrVersion::parse("0.7.5.1").is_none());
    assert!(HerdrVersion::parse("0.7.5-").is_none());
    assert_eq!(
        HerdrVersion::parse(" v0.7.6+build ").unwrap(),
        HerdrVersion { major: 0, minor: 7, patch: 6, prerelease: None }
    );

    let client = ClientStatus {
        version: "0.7.5".into(),
        protocol: 17,
        channel: None,
        binary: None,
        session: None,
    };
    assert!(validate_server(&client, &server(true, Some(17))).is_ok());
    assert!(Probe::from_status(client.clone(), server(true, Some(17))).is_ok());
    assert!(matches!(
        validate_server(&client, &ServerStatus { version: None, ..server(true, Some(17)) }),
        Err(HerdrError::MissingStatusField { field: "version", .. })
    ));
    assert!(expect_result_type("workspace_list", "workspace_list").is_ok());
    assert!(matches!(
        expect_result_type("tab_list", "workspace_list"),
        Err(HerdrError::UnexpectedResult { expected: "workspace_list", .. })
    ));
}

#[test]
fn failed_commands_report_herdrs_error_envelope() {
    let failed = CommandOutput {
        success: false,
        code: Some(1),
        stdout: Vec::new(),
        stderr: br#"{"error":{"code":"not_found","message":"no such pane"}}"#.to_vec(),
    };
    let stderr_envelope = envelope(&failed.stderr);
    let stdout_envelope = envelope(&failed.stdout);
    match check_output("herdr pane run".to_string(), failed, stderr_envelope, stdout_envelope) {
        Err(HerdrError::Cli { code, message, status, .. }) => {
            assert_eq!(code, "not_found");
            assert_eq!(message, "no such pane");
            assert_eq!(status, Some(1));
        }
        other => panic!("unexpected {other:?}"),
    }
    let plain = CommandOutput {
        success: false,
        code: Some(2),
        stdout: b" partial \n".to_vec(),
        stderr: b"boom\n".to_vec(),
    };
    match check_output("herdr x".to_string(), plain, None, None) {
        Err(HerdrError::CommandFailed { stdout, stderr, .. }) => {
            assert_eq!(stdout, "partial");
            assert_eq!(stderr, "boom");
        }
        other => panic!("unexpected {other:?}"),
    }
}

fn workspace(id: &str) -> WorkspaceInfo {
    WorkspaceInfo {
        workspace_id: id.into(),
        number: 1,
        label: "api".into(),
        focused: false,
        pane_count: 1,
        tab_count: 1,
        active_tab_id: format!("{id}:1"),
        worktree: None,
    }
}

fn pane(id: &str, workspace_id: &str) -> PaneInfo {
    PaneInfo {
        pane_id: id.into(),
        terminal_id: format!("t-{id}"),
        workspace_id: workspace_id.into(),
        tab_id: format!("{workspace_id}:1"),
        focused: false,
        cwd: Some("/repo".into()),
        foreground_cwd: None,
        label: None,
        agent: None,
        title: None,
        revision: 0,
    }
}

fn managed() -> ManagedWorkspace {
    ManagedWorkspace {
        endpoint: Endpoint::Default,
        launch_endpoint: None,
        workspace_id: "w1".into(),
        label: "api".into(),
        root_cwd: "/repo".into(),
        config_path: "/repo/.bootmux.yml".into(),
        project_name: "api".into(),
        root_pane_id: Some("w1:p1".into()),
        stop_hook: Some("echo stopped".into()),
    }
}

#[test]
fn snapshot_recovery_prefers_id_and_rejects_ambiguous_fallback() {
    let snapshot = SessionSnapshot {
        version: "0.7.5".into(),
        protocol: 17,
        focused_workspace_id: None,
        focused_tab_id: None,
        focused_pane_id: None,
        workspaces: vec![workspace("w1"), workspace("w2")],
        tabs: vec![],
        panes: vec![pane("w1:p1", "w1"), pane("w2:p1", "w2")],
    };
    let managed = managed();
    assert_eq!(
        snapshot
            .recover_workspace(&managed)
            .unwrap()
            .unwrap()
            .strategy,
        RecoveryStrategy::ExactId
    );

    let renamed = ManagedWorkspace {
        label: "renamed".into(),
        ..managed.clone()
    };
    assert!(matches!(
        snapshot.recover_workspace(&renamed),
        Err(HerdrError::OwnershipMismatch { .. })
    ));

    let missing = ManagedWorkspace {
        workspace_id: "gone".into(),
        ..managed
    };
    assert!(matches!(
        snapshot.recover_workspace(&missing),
        Err(HerdrError::AmbiguousRecovery { matches: 2, .. })
    ));
}

#[test]
fn a_unique_label_and_root_recovers_a_renumbered_workspace() {
    let snapshot = SessionSnapshot {
        version: "0.7.5".into(),
        protocol: 17,
        focused_workspace_id: None,
        focused_tab_id: None,
        focused_pane_id: None,
        workspaces: vec![workspace("w2")],
        tabs: vec![],
        panes: vec![pane("w2:p1", "w2")],
    };
    let recovered = snapshot.recover_workspace(&managed()).unwrap().unwrap();
    assert_eq!(recovered.strategy, RecoveryStrategy::ExactLabelAndRootCwd);
    assert_eq!(recovered.workspace.workspace_id, "w2");
    assert!(snapshot.workspace_by_exact_id("w2").is_some());
    assert!(snapshot.pane_by_exact_id("w2:p1").is_some());
    assert!(snapshot.pane_by_exact_id("w1:p1").is_none());

    let empty = SessionSnapshot { workspaces: vec![], panes: vec![], ..snapshot };
    assert!(empty.recover_workspace(&managed()).unwrap().is_none());
}

#[test]
fn the_state_index_upserts_and_removes_by_endpoint_and_id() {
    let mut index = StateIndex::default();
    assert_eq!(index.version, STATE_INDEX_VERSION);
    index.upsert(managed());
    index.upsert(ManagedWorkspace { label: "second".into(), ..managed() });
    assert_eq!(index.managed_workspaces.len(), 1);
    assert_eq!(
        index.managed_by_exact_id(&Endpoint::Default, "w1").unwrap().label,
        "second"
    );
    let other = ManagedWorkspace {
        endpoint: Endpoint::NamedSession("work".into()),
        ..managed()
    };
    index.upsert(other);
    assert_eq!(index.managed_workspaces.len(), 2);
    assert!(index.remove_exact_id(&Endpoint::Default, "w1"));
    assert!(!index.remove_exact_id(&Endpoint::Default, "w1"));
    assert!(index.managed_by_exact_id(&Endpoint::Default, "w1").is_none());
    assert!(index
        .managed_by_exact_id(&Endpoint::NamedSession("work".into()), "w1")
        .is_some());
}

#[test]
fn the_state_store_accepts_only_its_own_version() {
    let store = StateStore::new("/state/herdr-workspaces.json".into())
        .with_lock_options(LockOptions { timeout_ms: 0, poll_interval_ms: 0 });
    assert_eq!(store.path(), "/state/herdr-workspaces.json");
    assert_eq!(store.lock_options(), LockOptions { timeout_ms: 0, poll_interval_ms: 0 });
    assert!(store.check_version(&StateIndex::default()).is_ok());
    let future = StateIndex { version: 2, managed_workspaces: vec![] };
    assert!(matches!(
        store.check_version(&future),
        Err(HerdrError::UnsupportedStateVersion { found: 2, supported: 1, .. })
    ));
    assert_eq!(LockOptions::default(), LockOptions { timeout_ms: 2000, poll_interval_ms: 20 });
}

#[test]
fn the_state_index_lives_under_the_xdg_state_home() {
    let env = |vars: &[(&str, &str)]| Env {
        all: vars.iter().map(|(k, v)| (k.to_string(), v.to_string())).collect(),
        ..Env::default()
    };
    assert_eq!(
        xdg_state_home(&env(&[("XDG_STATE_HOME", "/xdg"), ("HOME", "/h")])).unwrap(),
        "/xdg"
    );
    assert_eq!(
        xdg_state_home(&env(&[("XDG_STATE_HOME", "relative"), ("HOME", "/h")])).unwrap(),
        "/h/.local/state"
    );
    assert!(matches!(
        xdg_state_home(&env(&[])),
        Err(HerdrError::StateHomeUnavailable)
    ));
    assert_eq!(
        default_state_index_path(&env(&[("HOME", "/h")])).unwrap(),
        "/h/.local/state/bootmux/herdr-workspaces.json"
    );
}

#[test]
fn herdr_errors_read_as_their_messages() {
    let failed = HerdrError::CommandFailed {
        command: "herdr tab create".into(),
        status: None,
        stdout: "out".into(),
        stderr: String::new(),
    };
    assert_eq!(failed.message(), "`herdr tab create` failed with status unknown: out");
    let cli = HerdrError::Cli {
        command: "herdr pane run".into(),
        status: Some(-2),
        code: "not_found".into(),
        message: "gone".into(),
    };
    assert_eq!(cli.message(), "`herdr pane run` failed with status -2 (not_found): gone");
    assert_eq!(
        HerdrError::ProtocolMismatch { client: 17, server: 19 }.message(),
        "Herdr client/server protocol mismatch (client 17, server 19)"
    );
    assert_eq!(
        HerdrError::ServerNotReady { timeout_ms: 1500, last_error: Some("refused".into()) }
            .message(),
        "Herdr server did not become ready within 1500ms: refused"
    );
    assert_eq!(
        HerdrError::AmbiguousRecovery { label: "api".into(), root_cwd: "/repo".into(), matches: 2 }
            .message(),
        "cannot recover Herdr workspace: 2 exact matches for label `api` and cwd /repo"
    );
    assert_eq!(
        HerdrError::StateHomeUnavailable.message(),
        "cannot locate XDG state home (HOME is unset)"
    );
    let io = HerdrError::Execute {
        command: "herdr status".into(),
        source: io::Error::other("no such file"),
    };
    assert_eq!(io.message(), "failed to execute `herdr status`: no such file");
}

/// Herdr's error envelope in some output, read the way a runner reads it.
fn envelope(output: &[u8]) -> Option<(String, String)> {
    let value: serde_json::Value = serde_json::from_slice(output).ok()?;
    let error = value.get("error")?;
    Some((
        error.get("code")?.as_str()?.to_string(),
        error.get("message")?.as_str()?.to_string(),
    ))
}

#[test]
fn a_command_failure_prefers_the_envelope_on_stderr() {
    let failed = CommandOutput {
        success: false,
        code: Some(3),
        stdout: Vec::new(),
        stderr: Vec::new(),
    };
    match check_output(
        "herdr y".to_string(),
        failed,
        Some(("from_stderr".to_string(), "a".to_string())),
        Some(("from_stdout".to_string(), "b".to_string())),
    ) {
        Err(HerdrError::Cli { code, message, .. }) => {
            assert_eq!(code, "from_stderr");
            assert_eq!(message, "a");
        }
        other => panic!("unexpected {other:?}"),
    }
}
