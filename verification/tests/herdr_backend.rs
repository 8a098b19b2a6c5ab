use bootmux::env::Env;
use bootmux::herdr::{Endpoint, ManagedWorkspace, PaneInfo, SessionSnapshot, StateIndex};
use bootmux::herdr_backend::{
    require_no_managed_config_on_other_endpoint, append_workspace, attached_to_socket, socket_variables,
    ambient_endpoint, current_workspace_id, describe_endpoint, endpoint_for, managed_for_spec,
    remove_project_entries, require_managed_endpoint_identity, require_managed_project_identity,
    require_managed_stop_hook_snapshot, root_pane_for, running_inside_herdr, stop_hook_snapshot,
    validate_session_name,
};

fn env_with(vars: &[(&str, &str)]) -> Env {
    Env {
        cwd: "/work".into(),
        home: "/home/u".into(),
        all: vars
            .iter()
            .map(|(key, value)| (key.to_string(), value.to_string()))
            .collect(),
        ..Env::default()
    }
}

fn managed(workspace_id: &str, project: &str) -> ManagedWorkspace {
    ManagedWorkspace {
        endpoint: Endpoint::Default,
        launch_endpoint: None,
        workspace_id: workspace_id.into(),
        label: project.into(),
        root_cwd: "/tmp/correct".into(),
        config_path: "/tmp/work.yml".into(),
        project_name: project.into(),
        root_pane_id: None,
        stop_hook: None,
    }
}

#[test]
fn stop_all_endpoint_identity_check_fails_closed_on_selector_drift() {
    let managed = ManagedWorkspace {
        endpoint: Endpoint::SocketPath("/tmp/original.sock".into()),
        launch_endpoint: Some(Endpoint::NamedSession("work".into())),
        workspace_id: "workspace-1".into(),
        label: "work".into(),
        root_cwd: "/tmp/work".into(),
        config_path: "/tmp/work.yml".into(),
        project_name: "work".into(),
        root_pane_id: None,
        stop_hook: None,
    };
    require_managed_endpoint_identity(&managed, "/tmp/original.sock", None).unwrap();
    let error =
        require_managed_endpoint_identity(&managed, "/tmp/rebound.sock", None).unwrap_err();
    assert!(error.contains("refusing to stop"));
    assert!(error.contains("original.sock"));
    assert!(error.contains("rebound.sock"));
}

#[test]
fn endpoint_precedence_is_socket_then_name_then_ambient() {
    let env = env_with(&[("HERDR_SOCKET_PATH", "/tmp/ambient.sock")]);
    assert_eq!(
        endpoint_for(Some("/tmp/explicit.sock"), Some("named"), &env).unwrap(),
        Endpoint::SocketPath("/tmp/explicit.sock".into())
    );
    assert_eq!(
        endpoint_for(None, Some("named"), &env).unwrap(),
        Endpoint::NamedSession("named".into())
    );
    assert_eq!(
        endpoint_for(None, None, &env).unwrap(),
        Endpoint::SocketPath("/tmp/ambient.sock".into())
    );
    assert_eq!(
        endpoint_for(Some("sockets/h.sock"), None, &env).unwrap(),
        Endpoint::SocketPath("/work/sockets/h.sock".into())
    );
    assert!(endpoint_for(None, Some("bad name"), &env).is_err());
}

#[test]
fn socket_selection_alone_does_not_claim_an_attached_herdr_client() {
    let mut env = Env::default();
    env.all.push(("HERDR_SOCKET_PATH".into(), "/tmp/herdr.sock".into()));
    assert!(!running_inside_herdr(&env));

    env.all.push(("HERDR_PANE_ID".into(), "w:t:p".into()));
    assert!(running_inside_herdr(&env));
    assert!(running_inside_herdr(&env_with(&[("HERDR_ACTIVE_PANE_ID", "p")])));
    assert!(!running_inside_herdr(&env_with(&[("HERDR_PANE_ID", "")])));
}

#[test]
fn regular_stop_identity_check_rejects_wrong_template_settings() {
    let managed = managed("workspace-1", "correct");
    require_managed_project_identity(&managed, "/tmp/work.yml", "correct", "/tmp/correct")
        .unwrap();

    let error =
        require_managed_project_identity(&managed, "/tmp/work.yml", "wrong-setting", "/tmp/correct")
            .unwrap_err();
    assert!(error.contains("identity-mismatched"));
    assert!(error.contains("same template settings"));

    assert!(require_managed_project_identity(
        &managed,
        "/tmp/work.yml",
        "correct",
        "/tmp/wrong-root"
    )
    .is_err());

    let managed_with_hook = ManagedWorkspace {
        stop_hook: Some("echo original".into()),
        ..managed.clone()
    };
    let error = require_managed_stop_hook_snapshot(
        &managed_with_hook,
        "/tmp/work.yml",
        Some("echo changed"),
    )
    .unwrap_err();
    assert!(error.contains("unverified hook"));
    assert!(error.contains("same template settings"));
    require_managed_stop_hook_snapshot(&managed_with_hook, "/tmp/work.yml", Some("echo original"))
        .unwrap();
    require_managed_stop_hook_snapshot(&managed, "/tmp/work.yml", Some("anything")).unwrap();

    let index = StateIndex {
        managed_workspaces: vec![managed],
        ..StateIndex::default()
    };
    let wrong_endpoint = Endpoint::SocketPath("/tmp/wrong.sock".into());
    let error = require_no_managed_config_on_other_endpoint(&index, &wrong_endpoint, "/tmp/work.yml").unwrap_err();
    assert!(error.contains("same socket settings"));
    assert!(error.contains("refusing a silent no-op"));
    assert!(require_no_managed_config_on_other_endpoint(&index, &Endpoint::Default, "/tmp/work.yml").is_ok());
    assert!(require_no_managed_config_on_other_endpoint(&index, &wrong_endpoint, "/tmp/other.yml").is_ok());
}

#[test]
fn an_absent_stop_hook_is_still_a_persisted_snapshot() {
    assert_eq!(stop_hook_snapshot(None), Some(String::new()));
    assert_eq!(stop_hook_snapshot(Some("echo bye")), Some("echo bye".to_string()));
    let snapshotted = ManagedWorkspace {
        stop_hook: Some(String::new()),
        ..managed("workspace-1", "work")
    };
    assert!(require_managed_stop_hook_snapshot(&snapshotted, "/tmp/work.yml", None).is_ok());
    assert!(require_managed_stop_hook_snapshot(
        &snapshotted,
        "/tmp/work.yml",
        Some("echo newly-added")
    )
    .is_err());
}

#[test]
fn endpoints_are_described_and_read_from_the_environment() {
    assert_eq!(describe_endpoint(&Endpoint::Default), "default");
    assert_eq!(
        describe_endpoint(&Endpoint::NamedSession("work".into())),
        "session:work"
    );
    assert_eq!(
        describe_endpoint(&Endpoint::SocketPath("/s".into())),
        "socket:/s"
    );
    assert_eq!(
        ambient_endpoint(&env_with(&[("HERDR_SESSION", "work")])),
        Endpoint::NamedSession("work".into())
    );
    assert_eq!(
        ambient_endpoint(&env_with(&[("HERDR_SOCKET_PATH", ""), ("HERDR_SESSION", "")])),
        Endpoint::Default
    );
    assert_eq!(
        current_workspace_id(&env_with(&[
            ("HERDR_WORKSPACE_ID", "w1"),
            ("HERDR_ACTIVE_WORKSPACE_ID", "w2")
        ])),
        Some("w2".to_string())
    );
    assert_eq!(current_workspace_id(&env_with(&[("HERDR_WORKSPACE_ID", "")])), None);
}

#[test]
fn session_names_are_short_and_plain() {
    assert!(validate_session_name("work-1.a_b").is_ok());
    assert!(validate_session_name("").is_err());
    assert!(validate_session_name(&"x".repeat(65)).is_err());
    assert_eq!(
        validate_session_name("a b").unwrap_err(),
        "Herdr session name `a b` must be 1-64 ASCII letters, digits, `.`, `_`, or `-`."
    );
}

#[test]
fn ownership_entries_are_found_and_removed_per_project() {
    let mut index = StateIndex::default();
    index.managed_workspaces.push(managed("w1", "api"));
    index.managed_workspaces.push(managed("w2", "web"));
    let other_endpoint = ManagedWorkspace {
        endpoint: Endpoint::NamedSession("s".into()),
        ..managed("w3", "api")
    };
    index.managed_workspaces.push(other_endpoint);

    let error = managed_for_spec(&index, &Endpoint::Default, "/tmp/work.yml", "db").unwrap_err();
    assert!(error.contains("multiple ownership entries"), "{error}");
    assert_eq!(
        managed_for_spec(&index, &Endpoint::Default, "/tmp/work.yml", "api")
            .unwrap()
            .unwrap()
            .workspace_id,
        "w1"
    );
    assert!(managed_for_spec(&index, &Endpoint::Default, "/tmp/other.yml", "api")
        .unwrap()
        .is_none());

    remove_project_entries(&mut index, &Endpoint::Default, "/tmp/work.yml", "api");
    let ids: Vec<&str> = index
        .managed_workspaces
        .iter()
        .map(|m| m.workspace_id.as_str())
        .collect();
    assert_eq!(ids, vec!["w2", "w3"]);
}

#[test]
fn the_root_pane_is_the_smallest_id_launched_in_the_root() {
    let pane = |id: &str, workspace: &str, cwd: &str| PaneInfo {
        pane_id: id.into(),
        terminal_id: format!("t-{id}"),
        workspace_id: workspace.into(),
        tab_id: format!("{workspace}:1"),
        focused: false,
        cwd: Some(cwd.into()),
        foreground_cwd: None,
        label: None,
        agent: None,
        title: None,
        revision: 0,
    };
    let snapshot = SessionSnapshot {
        version: "0.7.5".into(),
        protocol: 17,
        focused_workspace_id: None,
        focused_tab_id: None,
        focused_pane_id: None,
        workspaces: vec![],
        tabs: vec![],
        panes: vec![
            pane("w1:p3", "w1", "/repo"),
            pane("w1:p1", "w1", "/elsewhere"),
            pane("w1:p2", "w1", "/repo/"),
            pane("w2:p0", "w2", "/repo"),
        ],
    };
    assert_eq!(root_pane_for(&snapshot, "w1", "/repo"), Some("w1:p2".to_string()));
    assert_eq!(root_pane_for(&snapshot, "w3", "/repo"), None);
}

fn simple_window(layout: Option<&str>, pane_count: usize) -> bootmux::project_spec::WindowSpec {
    bootmux::project_spec::WindowSpec {
        name: None,
        root: "/tmp".into(),
        pre: None,
        commands: Vec::new(),
        panes: (0..pane_count)
            .map(|_| bootmux::project_spec::PaneSpec {
                title: None,
                commands: Vec::new(),
                split: None,
            })
            .collect(),
        layout: layout.map(str::to_string),
        pane_chain: false,
        focused_pane: 0,
    }
}

#[test]
fn named_layouts_and_tiled_have_the_configured_panes() {
    for layout in [
        None,
        Some("tiled"),
        Some("even-horizontal"),
        Some("even-vertical"),
        Some("main-horizontal"),
        Some("main-vertical"),
    ] {
        assert_eq!(
            bootmux::herdr_backend::layout_for(&simple_window(layout, 4))
                .unwrap()
                .pane_count(),
            4
        );
    }
}

#[test]
fn unrepresentable_ratios_fail_instead_of_clamping() {
    let layout = bootmux::layout::Layout::Split {
        direction: bootmux::layout::SplitDirection::Right,
        ratio: bootmux::layout::Ratio { first: 5, whole: 100 },
        first: Box::new(bootmux::layout::Layout::Pane(0)),
        second: Box::new(bootmux::layout::Layout::Pane(1)),
    };
    assert!(bootmux::herdr_backend::validate_herdr_ratios(&layout)
        .unwrap_err()
        .contains("cannot be represented"));
}

#[test]
fn preflight_rejects_a_late_invalid_layout_before_lifecycle_work() {
    let payload = "100x10,0,0{5x10,0,0,8,94x10,6,0,4}";
    let serialized = format!(
        "{:04x},{payload}",
        bootmux::layout::tmux_layout_checksum(payload)
    );
    let spec = bootmux::project_spec::ProjectSpec {
        source_path: "/tmp/a.yml".into(),
        name: "a".into(),
        root: "/tmp".into(),
        attach: false,
        append: false,
        socket_name: None,
        socket_path: None,
        startup_window: 0,
        startup_pane: None,
        pre_window: None,
        hooks: Default::default(),
        windows: vec![simple_window(None, 1), simple_window(Some(&serialized), 2)],
        warnings: Vec::new(),
    };

    assert!(bootmux::herdr_backend::preflight_spec(&spec)
        .unwrap_err()
        .contains("cannot be represented"));
}

#[test]
fn a_config_on_other_endpoints_names_each_endpoint_once_in_order() {
    let on = |id: &str, endpoint: Endpoint| ManagedWorkspace { endpoint, ..managed(id, "work") };
    let index = StateIndex {
        managed_workspaces: vec![
            on("w1", Endpoint::SocketPath("/tmp/b.sock".into())),
            on("w2", Endpoint::NamedSession("a".into())),
            on("w3", Endpoint::SocketPath("/tmp/b.sock".into())),
            on("w4", Endpoint::Default),
        ],
        ..StateIndex::default()
    };
    let error = require_no_managed_config_on_other_endpoint(&index, &Endpoint::Default, "/tmp/work.yml").unwrap_err();
    assert_eq!(
        error,
        "config /tmp/work.yml is managed on Herdr endpoint(s) session:a, socket:/tmp/b.sock, but the current template \
         settings select default; refusing a silent no-op. Pass the same socket settings used when the workspace was started."
    );
    assert!(require_no_managed_config_on_other_endpoint(&index, &Endpoint::Default, "/tmp/other.yml").is_ok());
}

#[test]
fn append_targets_the_active_workspace_or_explains_why_not() {
    let inside = env_with(&[("HERDR_ACTIVE_WORKSPACE_ID", "w7"), ("HERDR_WORKSPACE_ID", "w1")]);
    assert_eq!(append_workspace(&inside), Ok("w7".to_string()));
    assert_eq!(
        append_workspace(&env_with(&[])),
        Err("`--append` with Herdr requires running inside a Herdr workspace or popup.".to_string())
    );
}

#[test]
fn attachment_is_judged_on_the_resolved_sockets_of_the_environment() {
    let env = env_with(&[
        ("HERDR_ACTIVE_PANE_ID", "p1"),
        ("HERDR_SOCKET_PATH", ""),
        ("HERDR_CLIENT_SOCKET_PATH", "/run/h.sock"),
    ]);
    assert_eq!(socket_variables(&env), vec!["/run/h.sock".to_string()]);
    let target = Endpoint::SocketPath("/run/h.sock".into());
    assert!(attached_to_socket(&env, &target, &vec!["/run//h.sock".to_string()]));
    assert!(!attached_to_socket(&env, &target, &vec!["/run/other.sock".to_string()]));
    assert!(!attached_to_socket(&env, &Endpoint::Default, &vec!["/run/h.sock".to_string()]));
    assert!(!attached_to_socket(&env_with(&[]), &target, &vec!["/run/h.sock".to_string()]));
}
