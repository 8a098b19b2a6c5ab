use bootmux::env::Env;
use bootmux::layout::{tmux_layout_checksum, Layout, Ratio, SplitDirection as LayoutDirection};
use bootmux::project::LoadOptions;
use bootmux::project_spec::{
    check_load_options, parse_panes, parse_ratio, project_name, project_root, ProjectSpec,
    SplitDirection,
};
use bootmux::settings::Backend;
use bootmux::yaml_ext::Yaml;

fn to_yaml(value: serde_norway::Value) -> Yaml {
    match value {
        serde_norway::Value::Null => Yaml::Null,
        serde_norway::Value::Bool(b) => Yaml::Bool(b),
        serde_norway::Value::Number(n) => Yaml::Number(if let Some(i) = n.as_i64() {
            i.to_string()
        } else if let Some(u) = n.as_u64() {
            u.to_string()
        } else {
            format!("{:?}", n.as_f64().unwrap())
        }),
        serde_norway::Value::String(s) => Yaml::String(s),
        serde_norway::Value::Sequence(items) => {
            Yaml::Sequence(items.into_iter().map(to_yaml).collect())
        }
        serde_norway::Value::Mapping(map) => Yaml::Mapping(
            map.into_iter()
                .map(|(key, value)| (to_yaml(key), to_yaml(value)))
                .collect(),
        ),
        serde_norway::Value::Tagged(tagged) => {
            Yaml::Tagged(tagged.tag.to_string(), Box::new(to_yaml(tagged.value)))
        }
    }
}

fn parse(source: &str) -> Yaml {
    let mut value: serde_norway::Value = serde_norway::from_str(source).unwrap();
    value.apply_merge().unwrap();
    to_yaml(value)
}

fn env() -> Env {
    Env {
        home: "/home/test".into(),
        cwd: "/work".into(),
        ..Env::default()
    }
}

fn load_for(source: &str, backend: Backend) -> Result<ProjectSpec, String> {
    let opts = LoadOptions::default();
    check_load_options(&opts)?;
    let yaml = parse(source);
    let name = project_name(&yaml, None)?;
    let root = project_root(&yaml, &env());
    ProjectSpec::from_yaml(
        "/work/demo.yml".to_string(),
        &yaml,
        name,
        root,
        &opts,
        &env(),
        backend,
    )
}

fn load(source: &str) -> Result<ProjectSpec, String> {
    load_for(source, Backend::Herdr)
}

#[test]
fn preserves_raw_names_and_builds_chain() {
    let spec = load(
        r#"
name: "api.dev:one"
root: ~/code
attach: false
windows:
  - "web server":
      panes:
        - editor:
            command: nvim
        - dev:
            split: down
            ratio: 0.65
            commands: [npm run dev, echo ready]
"#,
    )
    .unwrap();
    assert_eq!(spec.name, "api.dev:one");
    assert_eq!(spec.root, "/home/test/code");
    assert!(!spec.attach);
    let window = &spec.windows[0];
    assert_eq!(window.name.as_deref(), Some("web server"));
    assert!(window.pane_chain);
    assert_eq!(
        window.panes[1].split.unwrap().direction,
        SplitDirection::Down
    );
    let ratio = window.panes[1].split.unwrap().ratio;
    assert_eq!(ratio.first as f64 / ratio.whole as f64, 0.65);
    assert_eq!(window.panes[1].commands, vec!["npm run dev", "echo ready"]);
}

#[test]
fn omitted_startup_pane_preserves_the_tabs_focused_pane() {
    let spec = load(
        "name: x\nstartup_window: editor\nwindows:\n  - editor:\n      \
         focused_pane: shell\n      panes:\n        - editor: vim\n        - shell: bash\n",
    )
    .unwrap();
    assert_eq!(spec.startup_window, 0);
    assert_eq!(spec.startup_pane, None);
    assert_eq!(spec.windows[0].focused_pane, 1);

    let explicit = load(
        "name: x\nstartup_window: editor\nstartup_pane: editor\nwindows:\n  - editor:\n      \
         focused_pane: shell\n      panes:\n        - editor: vim\n        - shell: bash\n",
    )
    .unwrap();
    assert_eq!(explicit.startup_pane, Some(0));
}

#[test]
fn mux_alias_order_and_attach_scalars_match_the_tmux_backend() {
    let spec = load(
        "name: modern\nproject_name: legacy\nroot: /modern\nproject_root: /legacy\n\
         windows:\n  - modern: echo modern\ntabs:\n  - legacy: echo legacy\nattach: \"0\"\n",
    )
    .unwrap();
    assert_eq!(spec.name, "legacy");
    assert_eq!(spec.root, "/legacy");
    assert_eq!(spec.windows[0].name.as_deref(), Some("legacy"));
    assert!(!spec.attach);

    let spec = load(
        "project_name: legacy\nname: modern\nproject_root: /legacy\nroot: /modern\n\
         tabs:\n  - legacy: echo legacy\nwindows:\n  - modern: echo modern\nattach: \"False\"\n",
    )
    .unwrap();
    assert_eq!(spec.name, "modern");
    assert_eq!(spec.root, "/modern");
    assert_eq!(spec.windows[0].name.as_deref(), Some("modern"));
    assert!(spec.attach);

    for value in ["False", "FALSE", "+0", "00", "0x0"] {
        let spec = load(&format!(
            "name: lexical\nattach: \"{value}\"\nwindows:\n  - app: echo ready\n"
        ))
        .unwrap();
        assert!(spec.attach, "{value}");
    }

    let spec =
        load("name: valid\nproject_name: [invalid]\ntabs:\n  - kept: echo kept\nwindows: []\n")
            .unwrap();
    assert_eq!(spec.name, "valid");
    assert_eq!(spec.windows[0].name.as_deref(), Some("kept"));
}

#[test]
fn rejects_chain_layout_and_synchronize() {
    let error = load(
        "name: x\nwindows:\n  - x:\n      layout: tiled\n      panes:\n        - a: {command: vim}\n",
    )
    .unwrap_err();
    assert!(error.contains("cannot be combined"));

    let error = load("name: x\nwindows:\n  - x:\n      synchronize: after\n      panes: [vim]\n")
        .unwrap_err();
    assert!(error.contains("not supported"));
}

#[test]
fn serialized_pane_ids_map_to_configured_visual_order() {
    // tmux numbers panes by its own ids; bootmux renumbers them into the
    // order the panes appear in the config.
    let payload = "100x10,0,0{50x10,0,0,8,49x10,51,0,4}";
    let serialized = format!("{:04x},{payload}", tmux_layout_checksum(payload));
    let spec = load(&format!(
        "name: x\nwindows:\n  - grid:\n      layout: \"{serialized}\"\n      \
         panes:\n        - left\n        - right\n"
    ))
    .unwrap();

    let tree = spec.windows[0].layout_tree().unwrap();
    // tmux ids 8 and 4 become configured indices 0 and 1.
    assert_eq!(tree.pane_indices(), vec![0, 1]);
    assert!(matches!(
        tree,
        Layout::Split {
            direction: LayoutDirection::Right,
            ..
        }
    ));
}

#[test]
fn a_serialized_layout_must_match_the_configured_pane_count() {
    let payload = "100x10,0,0{50x10,0,0,8,49x10,51,0,4}";
    let serialized = format!("{:04x},{payload}", tmux_layout_checksum(payload));
    let spec = load(&format!(
        "name: x\nwindows:\n  - grid:\n      layout: \"{serialized}\"\n      \
         panes:\n        - only\n"
    ))
    .unwrap();

    assert!(spec.windows[0]
        .layout_tree()
        .unwrap_err()
        .contains("2 panes but 1 panes are configured"));
}

#[test]
fn ignored_field_warnings_name_the_selected_backend() {
    let source = "name: x\ntmux_command: /usr/local/bin/tmux\nenable_pane_titles: true\n\
                  socket_name: work\n\
                  windows:\n  - x:\n      synchronize: after\n      panes: [vim]\n";

    let herdr = load_for(source, Backend::Herdr).unwrap_err();
    assert!(herdr.contains("not supported"), "{herdr}");

    let zellij = load_for(source, Backend::Zellij).unwrap();
    assert_eq!(
        zellij.warnings,
        vec![
            "`tmux_command` is tmux-specific and is ignored by the zellij backend.".to_string(),
            "`enable_pane_titles` only controls tmux pane borders and is ignored by zellij."
                .to_string(),
            "`socket_name` selects a tmux or Herdr endpoint and is ignored by zellij.".to_string(),
            "`synchronize` controls tmux synchronized panes and is ignored by zellij.".to_string(),
        ]
    );
}

#[test]
fn rejects_bad_chain_values() {
    for source in [
        "name: x\nwindows:\n  - x:\n      panes:\n        - a: {split: right, command: vim}\n",
        "name: x\nwindows:\n  - x:\n      panes:\n        - a: vim\n        - b: {ratio: 0.95, command: top}\n",
        "name: x\nwindows:\n  - x:\n      panes:\n        - a: vim\n        - b: {split: left, command: top}\n",
        "name: x\nwindows:\n  - x:\n      panes:\n        - a: vim\n        - b: {command: top, commands: [top]}\n",
    ] {
        assert!(load(source).is_err(), "{source}");
    }
}

#[test]
fn each_project_error_names_its_cause() {
    assert_eq!(
        load("windows:\n  - a: vim\n").unwrap_err(),
        "Your project file didn't specify a 'project_name'"
    );
    assert_eq!(
        load("name: x\nwindows: []\n").unwrap_err(),
        "Your project file should include some windows."
    );
    assert_eq!(
        load("name: x\nwindows:\n  - vim\n").unwrap_err(),
        "Failed to parse config file: window entries must be mappings, e.g. `- editor: vim`"
    );
    assert_eq!(
        load("name: x\nstartup_window: 3\nwindows:\n  - a: vim\n").unwrap_err(),
        "`startup_window` index 3 is outside the configured windows."
    );
    assert_eq!(
        load("name: x\nstartup_window: b\nwindows:\n  - a: vim\n").unwrap_err(),
        "`startup_window` refers to unknown window `b`."
    );
    assert_eq!(
        load("name: x\nwindows:\n  - a:\n      focused_pane: top\n      panes: [vim]\n")
            .unwrap_err(),
        "`focused_pane` refers to unknown pane `top`."
    );
    let forced = LoadOptions {
        force_attach: true,
        force_detach: true,
        ..LoadOptions::default()
    };
    assert_eq!(
        check_load_options(&forced).unwrap_err(),
        "Cannot force_attach and force_detach at the same time"
    );
    assert_eq!(
        project_name(&parse("name: x\n"), Some("custom")).unwrap(),
        "custom"
    );
    assert!(project_name(&parse("name: x\n"), Some("")).is_err());
}

#[test]
fn hooks_pre_window_and_window_fields_are_read_like_tmuxinator() {
    let spec = load(
        "name: x\non_project_start: [a, b]\non_project_stop: bye\npre_window: rbenv\n\
         socket_path: /tmp/s\nwindows:\n  - editor:\n      root: sub\n      pre: [x, y]\n      \
         layout: main-vertical\n      panes: [vim, top]\n  - logs: tail -f log\n",
    )
    .unwrap();
    assert_eq!(spec.hooks.start.as_deref(), Some("a; b"));
    assert_eq!(spec.hooks.stop.as_deref(), Some("bye"));
    assert_eq!(spec.hooks.exit, None);
    assert_eq!(spec.pre_window.as_deref(), Some("rbenv"));
    assert_eq!(spec.socket_path.as_deref(), Some("/tmp/s"));
    assert_eq!(spec.socket_name, None);
    assert_eq!(spec.windows[0].root, "/work/sub");
    assert_eq!(spec.windows[0].pre.as_deref(), Some("x; y"));
    assert_eq!(spec.windows[0].layout.as_deref(), Some("main-vertical"));
    assert_eq!(spec.windows[0].panes.len(), 2);
    assert_eq!(spec.windows[1].commands, vec!["tail -f log"]);
    assert_eq!(spec.windows[1].effective_panes().len(), 1);
    assert_eq!(spec.windows[1].effective_panes()[0].commands, vec!["tail -f log"]);
    assert_eq!(
        spec.windows[0].layout_tree().unwrap(),
        Layout::main_vertical(2).unwrap()
    );
}

#[test]
fn ratios_are_exact_decimals_within_bounds() {
    let number = |text: &str| Yaml::Number(text.to_string());
    assert_eq!(parse_ratio(&number("0.25")), Ok(Ratio { first: 25, whole: 100 }));
    assert_eq!(parse_ratio(&Yaml::String("0.1".into())), Ok(Ratio { first: 1, whole: 10 }));
    assert_eq!(parse_ratio(&number("0.9")), Ok(Ratio { first: 9, whole: 10 }));
    assert_eq!(
        parse_ratio(&number("0.950")),
        Err("Pane split `ratio` must be from 0.1 through 0.9, got 0.95.".to_string())
    );
    assert_eq!(
        parse_ratio(&number("1")),
        Err("Pane split `ratio` must be from 0.1 through 0.9, got 1.".to_string())
    );
    assert_eq!(
        parse_ratio(&Yaml::String("half".into())),
        Err("Pane split `ratio` must be a number from 0.1 through 0.9.".to_string())
    );
    assert!(parse_ratio(&Yaml::Bool(true)).is_err());
    assert_eq!(
        SplitDirection::parse(&Yaml::String("left".into())),
        Err("Pane split direction must be `right` or `down`, got `left`.".to_string())
    );
}

#[test]
fn a_chain_fills_default_splits_for_plain_entries() {
    let panes = parse("- vim\n- b: {command: top}\n- htop\n");
    let (panes, chain) = parse_panes(Some(&panes)).unwrap();
    assert!(chain);
    assert_eq!(panes[0].split, None);
    for pane in &panes[1..] {
        let split = pane.split.unwrap();
        assert_eq!(split.direction, SplitDirection::Right);
        assert_eq!(split.ratio, Ratio { first: 1, whole: 2 });
    }
    let (plain, chain) = parse_panes(Some(&parse("- vim\n- top\n"))).unwrap();
    assert!(!chain);
    assert!(plain.iter().all(|pane| pane.split.is_none()));
    assert_eq!(parse_panes(None).unwrap().0.len(), 0);
    assert_eq!(
        parse_panes(Some(&parse("- a: {split: down, command: vim}\n"))).unwrap_err(),
        "The first pane in a pane chain cannot specify `split` or `ratio`."
    );
}
