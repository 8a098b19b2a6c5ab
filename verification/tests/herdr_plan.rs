use bootmux::env::Env;
use bootmux::herdr::{Endpoint, ManagedWorkspace, SessionSnapshot, StateIndex};
use bootmux::herdr_backend::{
    build_failure_message, persist_failure_message, start_decision, stop_all_order, stop_all_step, StartAction, StopStep,
};
use bootmux::herdr_plan::herdr_debug_plan;
use bootmux::project::LoadOptions;
use bootmux::project_spec::{project_name, project_root, ProjectSpec};
use bootmux::settings::Backend;
use bootmux::yaml_ext::Yaml;

fn to_yaml(value: serde_norway::Value) -> Yaml {
    match value {
        serde_norway::Value::Null => Yaml::Null,
        serde_norway::Value::Bool(b) => Yaml::Bool(b),
        serde_norway::Value::Number(n) => Yaml::Number(n.to_string()),
        serde_norway::Value::String(s) => Yaml::String(s),
        serde_norway::Value::Sequence(items) => Yaml::Sequence(items.into_iter().map(to_yaml).collect()),
        serde_norway::Value::Mapping(map) => {
            Yaml::Mapping(map.into_iter().map(|(key, value)| (to_yaml(key), to_yaml(value))).collect())
        }
        serde_norway::Value::Tagged(tagged) => Yaml::Tagged(tagged.tag.to_string(), Box::new(to_yaml(tagged.value))),
    }
}

fn spec(source: &str) -> ProjectSpec {
    let env = Env { home: "/home/test".into(), cwd: "/work".into(), ..Env::default() };
    let yaml = to_yaml(serde_norway::from_str(source).unwrap());
    let name = project_name(&yaml, None).unwrap();
    let root = project_root(&yaml, &env);
    ProjectSpec::from_yaml("/work/demo.yml".to_string(), &yaml, name, root, &LoadOptions::default(), &env, Backend::Herdr)
        .unwrap()
}

fn managed(workspace_id: &str, endpoint: Endpoint, hook: Option<&str>) -> ManagedWorkspace {
    ManagedWorkspace {
        endpoint,
        launch_endpoint: None,
        workspace_id: workspace_id.into(),
        label: "demo".into(),
        root_cwd: "/srv/demo".into(),
        config_path: "/work/demo.yml".into(),
        project_name: "demo".into(),
        root_pane_id: None,
        stop_hook: hook.map(str::to_string),
    }
}

#[test]
fn the_debug_plan_names_the_project_and_its_tabs_without_a_server() {
    let plan = herdr_debug_plan(&spec("name: demo\nroot: /srv/demo\nwindows:\n  - editor: vim\n"), &Endpoint::Default).unwrap();
    let lines: Vec<&str> = plan.lines().collect();
    assert_eq!(lines[0], "backend: herdr");
    assert!(lines[1].starts_with("endpoint: "));
    assert_eq!(&lines[2..5], &["project: demo", "config: /work/demo.yml", "root: /srv/demo"]);
    assert!(lines.contains(&"  - ensure compatible Herdr >= 0.7.5 / protocol 17 or 19 server"));
    assert!(lines.contains(&"  - tab[0] Some(\"editor\") cwd=/srv/demo panes=1"));
    assert!(lines.contains(&"      pane[0] commands=1"));
    assert!(plan.ends_with('\n'));
}

#[test]
fn stop_all_stops_the_current_workspace_last() {
    let entries = vec![
        managed("w1", Endpoint::Default, None),
        managed("w2", Endpoint::Default, None),
        managed("w3", Endpoint::NamedSession("s".into()), None),
    ];
    let order = stop_all_order(&entries, Some((Endpoint::Default, "w1".to_string())));
    let ids: Vec<&str> = order.iter().map(|m| m.workspace_id.as_str()).collect();
    assert_eq!(ids, vec!["w2", "w3", "w1"]);
    let unchanged = stop_all_order(&entries, Some((Endpoint::NamedSession("other".into()), "w1".to_string())));
    let ids: Vec<&str> = unchanged.iter().map(|m| m.workspace_id.as_str()).collect();
    assert_eq!(ids, vec!["w1", "w2", "w3"]);
}

#[test]
fn stop_all_forgets_gone_workspaces_and_closes_the_rest_with_their_hook() {
    let entry = managed("w1", Endpoint::Default, Some("echo bye"));
    assert_eq!(stop_all_step(&entry, None), StopStep::Forget);
    assert_eq!(
        stop_all_step(&entry, Some("w9".to_string())),
        StopStep::Close { workspace_id: "w9".to_string(), hook: Some("echo bye".to_string()) }
    );
}

#[test]
fn a_failed_build_reports_whether_the_workspace_was_rolled_back_or_kept() {
    assert_eq!(build_failure_message("split failed", &Ok(()), &Ok(())), "new Herdr workspace was rolled back: split failed");
    assert_eq!(
        build_failure_message("split failed", &Err("gone".to_string()), &Ok(())),
        "workspace rollback failed and ownership was retained for a later stop: gone: split failed"
    );
    assert_eq!(
        build_failure_message("split failed", &Err("gone".to_string()), &Err("disk full".to_string())),
        "workspace rollback failed (gone) and ownership could not be persisted (disk full): split failed"
    );
    assert_eq!(
        persist_failure_message("disk full", &Ok(())),
        "failed to persist ownership; new Herdr workspace was rolled back: disk full"
    );
    assert_eq!(
        persist_failure_message("disk full", &Err("gone".to_string())),
        "failed to persist ownership and workspace rollback failed: gone: disk full"
    );
}

#[test]
fn a_project_without_any_workspace_is_created_after_its_first_start_hook() {
    let project = spec(
        "name: demo\nroot: /srv/demo\non_project_first_start: echo first\non_project_restart: echo again\nwindows:\n  - editor: vim\n",
    );
    let snapshot = SessionSnapshot {
        version: "0.7.5".into(),
        protocol: 17,
        focused_workspace_id: None,
        focused_tab_id: None,
        focused_pane_id: None,
        workspaces: vec![],
        tabs: vec![],
        panes: vec![],
    };
    let action = start_decision(&StateIndex::default(), &Endpoint::Default, &Endpoint::Default, &project, &snapshot).unwrap();
    match action {
        StartAction::Create { forget, hook } => {
            assert_eq!(forget, None);
            assert_eq!(hook.as_deref(), Some("echo first"));
        }
        other => panic!("unexpected {other:?}"),
    }
}
