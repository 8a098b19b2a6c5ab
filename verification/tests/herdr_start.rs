use bootmux::env::Env;
use bootmux::herdr::{
    readiness_step, wait_step, Endpoint, HerdrError, ManagedWorkspace, PaneInfo, Readiness, ServerStatus,
    SessionSnapshot, StateIndex, WaitStep, WorkspaceInfo,
};
use bootmux::herdr_backend::{process_info_backend, start_decision, ForegroundProcess, StartAction};
use bootmux::project::LoadOptions;
use bootmux::project_spec::{project_name, project_root, ProjectSpec};
use bootmux::settings::Backend;
use bootmux::yaml_ext::Yaml;

fn s(text: &str) -> Yaml {
    Yaml::String(text.to_string())
}

fn spec() -> ProjectSpec {
    let env = Env { home: "/home/test".into(), cwd: "/work".into(), ..Env::default() };
    let yaml = Yaml::Mapping(vec![
        (s("name"), s("demo")),
        (s("root"), s("/srv/demo")),
        (s("on_project_restart"), s("echo again")),
        (s("on_project_stop"), s("echo bye")),
        (s("windows"), Yaml::Sequence(vec![Yaml::Mapping(vec![(s("editor"), s("vim"))])])),
    ]);
    let name = project_name(&yaml, None).unwrap();
    let root = project_root(&yaml, &env);
    ProjectSpec::from_yaml("/work/demo.yml".to_string(), &yaml, name, root, &LoadOptions::default(), &env, Backend::Herdr)
        .unwrap()
}

fn entry(workspace_id: &str, stop_hook: Option<&str>, launch: Option<Endpoint>) -> ManagedWorkspace {
    ManagedWorkspace {
        endpoint: Endpoint::Default,
        launch_endpoint: launch,
        workspace_id: workspace_id.into(),
        label: "demo".into(),
        root_cwd: "/srv/demo".into(),
        config_path: "/work/demo.yml".into(),
        project_name: "demo".into(),
        root_pane_id: Some("old-pane".into()),
        stop_hook: stop_hook.map(str::to_string),
    }
}

fn workspace(id: &str, label: &str) -> WorkspaceInfo {
    WorkspaceInfo {
        workspace_id: id.into(),
        number: 1,
        label: label.into(),
        focused: false,
        pane_count: 1,
        tab_count: 1,
        active_tab_id: format!("{id}:1"),
        worktree: None,
    }
}

fn pane(id: &str, workspace: &str, cwd: &str) -> PaneInfo {
    PaneInfo {
        pane_id: id.into(),
        terminal_id: format!("t-{id}"),
        workspace_id: workspace.into(),
        tab_id: format!("{workspace}:1"),
        focused: false,
        cwd: Some(cwd.into()),
        foreground_cwd: None,
        label: None,
        agent: None,
        title: None,
        revision: 0,
    }
}

fn snapshot(workspaces: Vec<WorkspaceInfo>, panes: Vec<PaneInfo>) -> SessionSnapshot {
    SessionSnapshot {
        version: "0.7.5".into(),
        protocol: 17,
        focused_workspace_id: None,
        focused_tab_id: None,
        focused_pane_id: None,
        workspaces,
        tabs: vec![],
        panes,
    }
}

#[test]
fn an_unchanged_managed_workspace_is_reused_without_storing_it_again() {
    let index = StateIndex {
        managed_workspaces: vec![entry("w1", Some("echo bye"), Some(Endpoint::Default))],
        ..StateIndex::default()
    };
    let snap = snapshot(vec![workspace("w1", "demo")], vec![pane("w1:p1", "w1", "/srv/demo")]);
    match start_decision(&index, &Endpoint::Default, &Endpoint::Default, &spec(), &snap).unwrap() {
        StartAction::Reuse { workspace_id, managed_id, record, hook } => {
            assert_eq!(workspace_id, "w1");
            assert_eq!(managed_id, "w1");
            assert!(record.is_none());
            assert_eq!(hook.as_deref(), Some("echo again"));
        }
        other => panic!("unexpected {other:?}"),
    }
}

#[test]
fn a_reused_workspace_found_by_label_is_stored_with_its_new_id_launch_and_hook() {
    let index = StateIndex { managed_workspaces: vec![entry("gone", None, None)], ..StateIndex::default() };
    let snap = snapshot(vec![workspace("w2", "demo")], vec![pane("w2:p1", "w2", "/srv/demo")]);
    let launch = Endpoint::NamedSession("work".into());
    match start_decision(&index, &Endpoint::Default, &launch, &spec(), &snap).unwrap() {
        StartAction::Reuse { workspace_id, managed_id, record, .. } => {
            assert_eq!(workspace_id, "w2");
            assert_eq!(managed_id, "gone");
            let record = record.expect("the entry changed");
            assert_eq!(record.workspace_id, "w2");
            assert_eq!(record.root_pane_id.as_deref(), Some("w2:p1"));
            assert_eq!(record.launch_endpoint, Some(launch));
            assert_eq!(record.stop_hook.as_deref(), Some("echo bye"));
        }
        other => panic!("unexpected {other:?}"),
    }
}

#[test]
fn a_start_is_refused_when_two_workspaces_carry_the_project_label_and_root() {
    let snap = snapshot(
        vec![workspace("w1", "demo"), workspace("w2", "demo")],
        vec![pane("w1:p1", "w1", "/srv/demo"), pane("w2:p1", "w2", "/srv/demo")],
    );
    let error = start_decision(&StateIndex::default(), &Endpoint::Default, &Endpoint::Default, &spec(), &snap)
        .unwrap_err();
    assert_eq!(error, "cannot recover Herdr workspace: 2 exact matches for label `demo` and cwd /srv/demo");
}

#[test]
fn a_managed_id_under_another_label_refuses_the_start() {
    let index = StateIndex {
        managed_workspaces: vec![entry("w1", Some("echo bye"), Some(Endpoint::Default))],
        ..StateIndex::default()
    };
    let snap = snapshot(vec![workspace("w1", "other")], vec![pane("w1:p1", "w1", "/srv/demo")]);
    let error = start_decision(&index, &Endpoint::Default, &Endpoint::Default, &spec(), &snap).unwrap_err();
    assert_eq!(
        error,
        "managed Herdr workspace `w1` still exists but no longer matches owned label `demo` and root /srv/demo; refusing to discard ownership"
    );
}

fn status(protocol: u32) -> ServerStatus {
    ServerStatus {
        status: "running".to_string(),
        running: true,
        version: Some("0.7.5".into()),
        protocol: Some(protocol),
        compatible: Some(true),
        socket: "/tmp/h.sock".into(),
        session: None,
        restart_needed: None,
    }
}

#[test]
fn waiting_for_a_server_keeps_the_last_error_and_gives_up_at_the_deadline() {
    let pending = readiness_step(17, Err(HerdrError::StateHomeUnavailable), Some("not yet".to_string()));
    match wait_step(pending, None, false, 500) {
        WaitStep::Wait(last) => assert_eq!(last.as_deref(), Some("not yet")),
        _ => panic!("expected to wait"),
    }
    match wait_step(Readiness::Pending(None), Some("not yet".to_string()), true, 500) {
        WaitStep::Failed(HerdrError::ServerNotReady { timeout_ms, last_error }) => {
            assert_eq!(timeout_ms, 500);
            assert_eq!(last_error.as_deref(), Some("not yet"));
        }
        _ => panic!("expected the wait to fail"),
    }
    match wait_step(readiness_step(17, Ok(status(17)), None), None, true, 500) {
        WaitStep::Ready(server) => assert_eq!(server.protocol, Some(17)),
        _ => panic!("expected a ready server"),
    }
}

#[test]
fn the_foreground_backend_is_tmux_when_a_process_is_named_tmux() {
    let process = |name: Option<&str>, argv0: Option<&str>| ForegroundProcess {
        name: name.map(str::to_string),
        argv0: argv0.map(str::to_string),
    };
    assert_eq!(process_info_backend(&vec![]), None);
    assert_eq!(process_info_backend(&vec![process(Some("zsh"), None), process(None, Some("/usr/bin/tmux"))]), Some(Backend::Tmux));
    assert_eq!(process_info_backend(&vec![process(Some("vim"), Some("vim"))]), Some(Backend::Herdr));
    assert_eq!(process_info_backend(&vec![process(None, None)]), Some(Backend::Herdr));
}
