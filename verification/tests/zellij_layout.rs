use bootmux::env::Env;
use bootmux::project::LoadOptions;
use bootmux::project_spec::{project_name, project_root, ProjectSpec};
use bootmux::settings::Backend;
use bootmux::yaml_ext::Yaml;
use bootmux::zellij_layout::{group_percentages, kdl_string, render_project, render_window, SHARE_SCALE};

fn to_yaml(value: serde_norway::Value) -> Yaml {
    match value {
        serde_norway::Value::Null => Yaml::Null,
        serde_norway::Value::Bool(b) => Yaml::Bool(b),
        serde_norway::Value::Number(n) => Yaml::Number(if let Some(i) = n.as_i64() {
            i.to_string()
        } else if let Some(u) = n.as_u64() {
            u.to_string()
        } else {
            format!("{:?}", n.as_f64().unwrap())
        }),
        serde_norway::Value::String(s) => Yaml::String(s),
        serde_norway::Value::Sequence(items) => {
            Yaml::Sequence(items.into_iter().map(to_yaml).collect())
        }
        serde_norway::Value::Mapping(map) => Yaml::Mapping(
            map.into_iter()
                .map(|(key, value)| (to_yaml(key), to_yaml(value)))
                .collect(),
        ),
        serde_norway::Value::Tagged(tagged) => {
            Yaml::Tagged(tagged.tag.to_string(), Box::new(to_yaml(tagged.value)))
        }
    }
}

fn parse(source: &str) -> Yaml {
    let mut value: serde_norway::Value = serde_norway::from_str(source).unwrap();
    value.apply_merge().unwrap();
    to_yaml(value)
}

fn spec(source: &str) -> ProjectSpec {
    let env = Env {
        home: "/home/test".into(),
        cwd: "/work".into(),
        ..Env::default()
    };
    let yaml = parse(source);
    let name = project_name(&yaml, None).unwrap();
    let root = project_root(&yaml, &env);
    ProjectSpec::from_yaml(
        "/work/demo.yml".to_string(),
        &yaml,
        name,
        root,
        &LoadOptions::default(),
        &env,
        Backend::Zellij,
    )
    .unwrap()
}

fn sizes(shares: &[f64]) -> Vec<Option<String>> {
    let fixed: Vec<u64> = shares
        .iter()
        .map(|share| (share * SHARE_SCALE as f64) as u64)
        .collect();
    group_percentages(&fixed)
}

#[test]
fn a_single_pane_window_is_a_tab_with_one_pane() {
    let rendered = render_project(&spec(
        "name: solo\nroot: /work\nwindows:\n  - editor: vim\n",
    ))
    .unwrap();
    assert_eq!(
        rendered,
        "layout {\n\
         \x20   tab name=\"editor\" cwd=\"/work\" focus=true {\n\
         \x20       pane focus=true\n\
         \x20   }\n\
         }\n"
    );
}

#[test]
fn a_root_split_is_declared_on_the_tab_and_only_the_first_child_is_sized() {
    let rendered = render_project(&spec(
        "name: chain\nroot: /work\nwindows:\n  - app:\n      panes:\n        \
         - editor:\n            command: vim\n        - shell:\n            \
         split: right\n            ratio: 0.65\n            command: bash\n",
    ))
    .unwrap();
    assert_eq!(
        rendered,
        "layout {\n\
         \x20   tab name=\"app\" cwd=\"/work\" focus=true split_direction=\"vertical\" {\n\
         \x20       pane name=\"editor\" size=\"65%\" focus=true\n\
         \x20       pane name=\"shell\"\n\
         \x20   }\n\
         }\n"
    );
}

#[test]
fn nested_splits_become_nested_container_panes() {
    let rendered = render_project(&spec(
        "name: tiled\nroot: /work\nwindows:\n  - grid:\n      layout: tiled\n      \
         panes:\n        - a\n        - b\n        - c\n        - d\n",
    ))
    .unwrap();
    assert_eq!(
        rendered,
        "layout {\n\
         \x20   tab name=\"grid\" cwd=\"/work\" focus=true split_direction=\"horizontal\" {\n\
         \x20       pane split_direction=\"vertical\" size=\"50%\" {\n\
         \x20           pane size=\"50%\" focus=true\n\
         \x20           pane\n\
         \x20       }\n\
         \x20       pane split_direction=\"vertical\" {\n\
         \x20           pane size=\"50%\"\n\
         \x20           pane\n\
         \x20       }\n\
         \x20   }\n\
         }\n"
    );
}

#[test]
fn startup_window_and_startup_pane_place_the_focus() {
    let rendered = render_project(&spec(
        "name: focus\nroot: /work\nstartup_window: server\nstartup_pane: logs\n\
         windows:\n  - editor:\n      focused_pane: two\n      panes:\n        \
         - one: echo one\n        - two: echo two\n  - server:\n      panes:\n        \
         - api: echo api\n        - logs: echo logs\n",
    ))
    .unwrap();
    // The non-startup tab keeps its own focused_pane; the startup tab is
    // overridden by startup_pane.
    assert!(rendered.contains("tab name=\"editor\" cwd=\"/work\""));
    assert!(!rendered.contains("tab name=\"editor\" cwd=\"/work\" focus=true"));
    assert!(rendered.contains("pane name=\"two\" focus=true"));
    assert!(rendered.contains("tab name=\"server\" cwd=\"/work\" focus=true"));
    assert!(rendered.contains("pane name=\"logs\" focus=true"));
}

#[test]
fn render_window_emits_a_complete_single_tab_document() {
    let project =
        spec("name: two\nroot: /work\nwindows:\n  - first: echo one\n  - second: echo two\n");
    let rendered = render_window(&project, 1).unwrap();
    assert!(rendered.starts_with("layout {\n"));
    assert!(rendered.ends_with("}\n"));
    assert!(rendered.contains("tab name=\"second\""));
    assert!(!rendered.contains("tab name=\"first\""));
}

#[test]
fn names_and_paths_are_escaped_as_kdl_strings() {
    assert_eq!(kdl_string(r#"a"b\c"#), r#""a\"b\\c""#);
    assert_eq!(kdl_string("tab\nname"), r#""tab\nname""#);
    assert_eq!(kdl_string("bell\u{7}"), r#""bell\u{7}""#);

    let rendered = render_project(&spec(
        "name: quoted\nroot: /work\nwindows:\n  - 'say \"hi\"': echo hi\n",
    ))
    .unwrap();
    assert!(rendered.contains(r#"tab name="say \"hi\"""#), "{rendered}");
}

#[test]
fn ratios_are_rounded_into_a_range_that_leaves_room_for_every_sibling() {
    assert_eq!(sizes(&[0.5, 0.5]), [Some("50%".into()), None]);
    assert_eq!(sizes(&[0.654, 0.346]), [Some("65%".into()), None]);
    assert_eq!(sizes(&[0.0, 1.0]), [Some("1%".into()), None]);
    assert_eq!(sizes(&[1.0, 0.0]), [Some("99%".into()), None]);
}

#[test]
fn a_run_of_shares_is_sized_from_cumulative_boundaries() {
    let third = 1.0 / 3.0;
    assert_eq!(
        sizes(&[third, third, third]),
        [Some("33%".into()), Some("34%".into()), None]
    );
    assert_eq!(
        sizes(&[0.2, 0.2, 0.2, 0.2, 0.2]),
        [
            Some("20%".into()),
            Some("20%".into()),
            Some("20%".into()),
            Some("20%".into()),
            None
        ]
    );

    // Every leading child keeps at least one percent, and the remainder
    // left for the last child never falls below one percent either.
    let crowded = vec![1.0 / 150.0; 150];
    let crowded = sizes(&crowded);
    assert!(crowded
        .iter()
        .all(|size| size.is_none() || size.as_deref() == Some("1%")));
    assert_eq!(crowded.last(), Some(&None));
}

#[test]
fn a_run_of_same_direction_splits_is_flattened_into_one_container() {
    // zellij merges same-direction containers, so a three-pane row has to
    // be written flat with each pane's own share of the tab.
    let rendered = render_project(&spec(
        "name: row\nroot: /work\nwindows:\n  - grid:\n      layout: even-horizontal\n      \
         panes:\n        - a: echo a\n        - b: echo b\n        - c: echo c\n",
    ))
    .unwrap();
    assert_eq!(
        rendered,
        "layout {\n\
         \x20   tab name=\"grid\" cwd=\"/work\" focus=true split_direction=\"vertical\" {\n\
         \x20       pane name=\"a\" size=\"33%\" focus=true\n\
         \x20       pane name=\"b\" size=\"34%\"\n\
         \x20       pane name=\"c\"\n\
         \x20   }\n\
         }\n"
    );
}

#[test]
fn tiled_rows_stay_nested_while_their_panes_are_flattened() {
    let rendered = render_project(&spec(
        "name: grid\nroot: /work\nwindows:\n  - grid:\n      layout: tiled\n      \
         panes:\n        - a: echo a\n        - b: echo b\n        - c: echo c\n        \
         - d: echo d\n        - e: echo e\n",
    ))
    .unwrap();
    assert_eq!(
        rendered,
        "layout {\n\
         \x20   tab name=\"grid\" cwd=\"/work\" focus=true split_direction=\"horizontal\" {\n\
         \x20       pane split_direction=\"vertical\" size=\"50%\" {\n\
         \x20           pane name=\"a\" size=\"33%\" focus=true\n\
         \x20           pane name=\"b\" size=\"34%\"\n\
         \x20           pane name=\"c\"\n\
         \x20       }\n\
         \x20       pane split_direction=\"vertical\" {\n\
         \x20           pane name=\"d\" size=\"50%\"\n\
         \x20           pane name=\"e\"\n\
         \x20       }\n\
         \x20   }\n\
         }\n"
    );
}
