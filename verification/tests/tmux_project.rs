use bootmux::env::Env;
use bootmux::project::{LoadOptions, Project};
use bootmux::script;
use bootmux::tmux::{MockTmux, TmuxVersion};
use bootmux::yaml_ext::Yaml;

fn to_yaml(value: serde_norway::Value) -> Yaml {
    match value {
        serde_norway::Value::Null => Yaml::Null,
        serde_norway::Value::Bool(b) => Yaml::Bool(b),
        serde_norway::Value::Number(n) => Yaml::Number(if let Some(i) = n.as_i64() {
            i.to_string()
        } else if let Some(u) = n.as_u64() {
            u.to_string()
        } else {
            format!("{:?}", n.as_f64().unwrap())
        }),
        serde_norway::Value::String(s) => Yaml::String(s),
        serde_norway::Value::Sequence(items) => {
            Yaml::Sequence(items.into_iter().map(to_yaml).collect())
        }
        serde_norway::Value::Mapping(map) => Yaml::Mapping(
            map.into_iter()
                .map(|(key, value)| (to_yaml(key), to_yaml(value)))
                .collect(),
        ),
        serde_norway::Value::Tagged(tagged) => {
            Yaml::Tagged(tagged.tag.to_string(), Box::new(to_yaml(tagged.value)))
        }
    }
}

fn parse(source: &str) -> Yaml {
    let mut value: serde_norway::Value = serde_norway::from_str(source).unwrap();
    value.apply_merge().unwrap();
    to_yaml(value)
}

fn test_env() -> Env {
    Env {
        shell: Some("/bin/bash".to_string()),
        home: "/home/test".to_string(),
        cwd: "/workdir".to_string(),
        ..Env::default()
    }
}

fn load<'a>(content: &str, ctx: &MockTmux, env: &'a Env) -> Result<Project<'a>, String> {
    Project::load(parse(content), LoadOptions::default(), ctx, env)
}

fn load_with<'a>(
    content: &str,
    opts: LoadOptions,
    ctx: &MockTmux,
    env: &'a Env,
) -> Result<Project<'a>, String> {
    Project::load(parse(content), opts, ctx, env)
}

#[test]
fn parses_tmux_versions() {
    assert_eq!(
        TmuxVersion::parse("tmux 3.4"),
        Some(TmuxVersion::Numeric("3.4".to_string()))
    );
    assert_eq!(
        TmuxVersion::parse("tmux 3.2a"),
        Some(TmuxVersion::Numeric("3.2".to_string()))
    );
    assert_eq!(TmuxVersion::parse("tmux master"), Some(TmuxVersion::Master));
    assert_eq!(
        TmuxVersion::parse("tmux next-3.5"),
        Some(TmuxVersion::Numeric("3.5".to_string()))
    );
    assert_eq!(TmuxVersion::parse(""), None);
}

#[test]
fn version_support_cutoff_is_2_6() {
    assert!(TmuxVersion::Numeric("2.6".to_string()).supported());
    assert!(TmuxVersion::Numeric("3.4".to_string()).supported());
    assert!(TmuxVersion::Master.supported());
    assert!(!TmuxVersion::Numeric("2.5".to_string()).supported());
}

#[test]
fn version_numbers_compare_as_decimals() {
    assert!(TmuxVersion::Numeric("10".to_string()).supported());
    assert!(TmuxVersion::Numeric("2.61".to_string()).supported());
    assert!(!TmuxVersion::Numeric("2.59".to_string()).supported());
    assert!(!TmuxVersion::Numeric("2".to_string()).supported());
    assert!(!TmuxVersion::Numeric("02.5".to_string()).supported());
    assert!(TmuxVersion::Numeric("003".to_string()).supported());
    assert_eq!(
        TmuxVersion::parse("tmux 3.3.1"),
        Some(TmuxVersion::Numeric("3.3".to_string()))
    );
    assert_eq!(TmuxVersion::parse("tmux"), None);
    assert_eq!(TmuxVersion::parse("tmux next"), None);
}

#[test]
fn accepts_mux_deprecated_aliases_and_custom_tmux_command() {
    let env = test_env();
    let ctx = MockTmux::default();

    let aliases = load(
        "project_name: legacy\nproject_root: ~/legacy\ncli_args: -f legacy.conf\n\
         rbenv: 2.0.0\nrvm: ruby-3\npre: ignored\npost: ignored\npre_tab: ignored\n\
         tabs:\n  - editor: vim\n",
        &ctx,
        &env,
    )
    .unwrap();
    assert_eq!(aliases.name().as_deref(), Some("legacy"));
    assert_eq!(aliases.root().as_deref(), Some("/home/test/legacy"));
    assert_eq!(aliases.tmux(), "tmux -f legacy.conf");
    assert_eq!(aliases.windows().len(), 1);

    let wemux = load("name: x\ntmux_command: wemux\nwindows:\n  - a: b\n", &ctx, &env).unwrap();
    assert_eq!(wemux.tmux_command(), "wemux");
    assert!(wemux.new_session_command().unwrap().starts_with("wemux "));
}

#[test]
fn startup_pane_is_logical_and_respects_tmux_pane_base_index() {
    let env = test_env();
    let ctx = MockTmux {
        pane_base_index: 1,
        ..Default::default()
    };
    let project = load(
        "name: startup\nstartup_window: logs\nstartup_pane: 1\nwindows:\n  - logs:\n      panes: [one, two]\n",
        &ctx,
        &env,
    )
    .unwrap();
    assert_eq!(
        project.startup_pane_command(),
        "tmux select-pane -t startup:logs.2"
    );

    let named = load(
        "name: startup\nstartup_window: logs\nstartup_pane: watcher\nwindows:\n  - logs:\n      panes:\n        - shell: one\n        - watcher: two\n",
        &ctx,
        &env,
    )
    .unwrap();
    assert_eq!(
        named.startup_pane_command(),
        "tmux select-pane -t startup:logs.2"
    );
}

#[test]
fn startup_targets_shell_escape_named_windows() {
    let env = test_env();
    let ctx = MockTmux {
        base_index: 1,
        pane_base_index: 1,
        ..Default::default()
    };
    for name in ["logs view", "owner's logs"] {
        let config = format!(
            "name: startup target\nstartup_window: \"{name}\"\nwindows:\n  - \"{name}\":\n      panes: [one, two]\n"
        );
        let project = load(&config, &ctx, &env).unwrap();
        let expected_window = bootmux::shellwords::escape(name);
        assert_eq!(
            project.startup_window(),
            format!("startup\\ target:{expected_window}")
        );
        assert_eq!(
            project.startup_pane_command(),
            format!("tmux select-pane -t startup\\ target:{expected_window}.1")
        );
        let rendered = script::render_start(&project);
        assert!(rendered.contains(&format!(
            "tmux select-window -t startup\\ target:{expected_window}"
        )));
    }
}

#[test]
fn respects_attach_false_and_force_flags() {
    let env = test_env();
    let ctx = MockTmux::default();
    let config = "name: detached\nattach: false\nwindows:\n  - a: b\n";

    let project = load(config, &ctx, &env).unwrap();
    assert!(!project.attach());
    let rendered = script::render_start(&project);
    assert!(!rendered.contains("attach-session"));

    let forced = load_with(
        config,
        LoadOptions {
            force_attach: true,
            ..Default::default()
        },
        &ctx,
        &env,
    )
    .unwrap();
    assert!(forced.attach());

    let err = load_with(
        config,
        LoadOptions {
            force_attach: true,
            force_detach: true,
            ..Default::default()
        },
        &ctx,
        &env,
    )
    .err()
    .unwrap();
    assert_eq!(err, "Cannot force_attach and force_detach at the same time");
}

#[test]
fn attach_matches_mux_scalar_false_values() {
    let env = test_env();
    let ctx = MockTmux::default();
    // The YAML reader hands the library each scalar as it is spelled, so
    // the cases whose spelling a YAML parser would normalise are written
    // as strings here.
    for value in ["false", "0", "\"false\"", "\"0\""] {
        let config = format!("name: detached\nattach: {value}\nwindows:\n  - a: b\n");
        assert!(!load(&config, &ctx, &env).unwrap().attach(), "{value}");
    }
    for value in [
        "true",
        "1",
        "\"true\"",
        "\"False\"",
        "\"False\"",
        "\"FALSE\"",
        "\"+0\"",
        "\"00\"",
        "\"0x0\"",
        "0.0",
    ] {
        let config = format!("name: attached\nattach: {value}\nwindows:\n  - a: b\n");
        assert!(load(&config, &ctx, &env).unwrap().attach(), "{value}");
    }
}

#[test]
fn deprecated_alias_conflicts_are_resolved_in_document_order() {
    let env = test_env();
    let ctx = MockTmux::default();

    let legacy_last = load(
        "name: modern\nproject_name: legacy\nroot: /modern\nproject_root: /legacy\n\
         tmux_options: -L modern\ncli_args: -L legacy\nwindows:\n  - modern: echo modern\n\
         tabs:\n  - legacy: echo legacy\n",
        &ctx,
        &env,
    )
    .unwrap();
    assert_eq!(legacy_last.unescaped_name().as_deref(), Some("legacy"));
    assert_eq!(legacy_last.root_raw().as_deref(), Some("/legacy"));
    assert_eq!(legacy_last.tmux(), "tmux -L legacy");
    assert_eq!(legacy_last.windows()[0].name.as_deref(), Some("legacy"));

    let modern_last = load(
        "project_name: legacy\nname: modern\nproject_root: /legacy\nroot: /modern\n\
         cli_args: -L legacy\ntmux_options: -L modern\ntabs:\n  - legacy: echo legacy\n\
         windows:\n  - modern: echo modern\n",
        &ctx,
        &env,
    )
    .unwrap();
    assert_eq!(modern_last.unescaped_name().as_deref(), Some("modern"));
    assert_eq!(modern_last.root_raw().as_deref(), Some("/modern"));
    assert_eq!(modern_last.tmux(), "tmux -L modern");
    assert_eq!(modern_last.windows()[0].name.as_deref(), Some("modern"));

    let invalid_last = load(
        "name: valid\nproject_name: [invalid]\ntabs:\n  - kept: echo kept\nwindows: []\n",
        &ctx,
        &env,
    )
    .unwrap();
    assert_eq!(invalid_last.unescaped_name().as_deref(), Some("valid"));
    assert_eq!(invalid_last.windows()[0].name.as_deref(), Some("kept"));
}

#[test]
fn renders_hooks_and_synchronize_and_startup_selection() {
    let env = test_env();
    let ctx = MockTmux::default();
    let config = r#"
name: hooked
startup_window: logs
startup_pane: 1
on_project_start: echo start
on_project_first_start:
  - echo one
  - echo two
windows:
  - editor:
      synchronize: after
      panes:
        - vim
        - top
  - logs: tail -f log
"#;
    let project = load(config, &ctx, &env).unwrap();
    let rendered = script::render_start(&project);

    assert!(rendered.contains("# Run on_project_start command.\necho start\n"));
    assert!(rendered.contains("  echo one; echo two\n"));
    assert!(rendered.contains("set-window-option -t hooked:0 synchronize-panes on"));
    assert!(rendered.contains("select-window -t hooked:logs"));
    assert!(rendered.contains("select-pane -t hooked:logs.1"));
}

#[test]
fn append_mode_skips_session_creation_and_offsets_windows() {
    let env = test_env();
    let ctx = MockTmux {
        session_exists: true,
        last_window_index: 3,
        current_session: "existing".to_string(),
        ..Default::default()
    };
    let config = "name: ignored\nwindows:\n  - extra: echo hi\n";
    let project = load_with(
        config,
        LoadOptions {
            append: true,
            ..Default::default()
        },
        &ctx,
        &env,
    )
    .unwrap();

    assert_eq!(project.name().unwrap(), "existing");
    assert_eq!(project.base_index(), 4);

    let rendered = script::render_start(&project);
    assert!(!rendered.contains("start-server"));
    assert!(!rendered.contains("new-session"));
    assert!(!rendered.contains("attach-session"));
    assert!(rendered.contains("new-window  -k -t existing:4 -n extra"));
}

#[test]
fn herdr_style_pane_chain_also_renders_native_tmux_splits() {
    let env = test_env();
    let ctx = MockTmux::default();
    let config = r#"
name: chain
attach: false
windows:
  - app:
      panes:
        - editor:
            command: nvim
        - server:
            split: right
            ratio: 0.65
            commands: [npm run dev]
        - logs:
            split: down
            command: tail -f app.log
"#;
    let project = load(config, &ctx, &env).unwrap();
    let rendered = script::render_start(&project);
    assert!(rendered.contains("nvim C-m"));
    assert!(rendered.contains("npm\\ run\\ dev C-m"));
    assert!(rendered.contains("tail\\ -f\\ app.log C-m"));
    assert!(rendered.contains("splitw  -h -p 35 -t chain:0.0"));
    assert!(rendered.contains("splitw  -v -p 50 -t chain:0.1"));
    assert!(!rendered.contains("select-layout -t chain:0"));

    let invalid = r#"
name: chain
windows:
  - app:
      layout: tiled
      panes:
        - editor: { command: nvim }
"#;
    assert!(load(invalid, &ctx, &env)
        .err()
        .unwrap()
        .contains("cannot be combined"));
}

#[test]
fn append_to_missing_session_is_rejected() {
    let env = test_env();
    let ctx = MockTmux {
        session_exists: false,
        current_session: "existing".to_string(),
        ..Default::default()
    };
    let err = load_with(
        "name: x\nwindows:\n  - a: b\n",
        LoadOptions {
            append: true,
            ..Default::default()
        },
        &ctx,
        &env,
    )
    .err()
    .unwrap();
    assert_eq!(err, "Cannot append to a session that does not exist");
}

#[test]
fn renders_restart_branch_when_session_exists() {
    let env = test_env();
    let ctx = MockTmux {
        session_exists: true,
        ..Default::default()
    };
    let config = "name: running\non_project_restart: echo back\nwindows:\n  - a: b\n";
    let project = load(config, &ctx, &env).unwrap();
    let rendered = script::render_start(&project);

    assert!(!rendered.contains("new-session"));
    assert!(rendered.contains("  # Run on_project_restart command.\n  echo back\n"));
    assert!(rendered.contains("attach-session -t running"));
}

#[test]
fn renders_stop_script_with_hook() {
    let env = test_env();
    let ctx = MockTmux {
        session_exists: true,
        ..Default::default()
    };
    let config =
        "name: doomed\nroot: /workspace/doomed\non_project_stop: echo bye\nwindows:\n  - a: b\n";
    let project = load(config, &ctx, &env).unwrap();

    let rendered = script::render_stop(&project);
    let expected = "#!/bin/bash\n\n  cd /workspace/doomed\n\n  # Run on_project_stop command\n  echo bye\n\n  tmux kill-session -t doomed\n";
    assert_eq!(rendered, expected);

    let gone = MockTmux::default();
    let project = load(config, &gone, &env).unwrap();
    assert_eq!(script::render_stop(&project), "#!/bin/bash\n\n");
}

#[test]
fn focused_pane_resolves_by_index_and_title() {
    let env = test_env();
    let ctx = MockTmux::default();
    let by_title = r#"
name: focus
windows:
  - editor:
      focused_pane: logs
      panes:
        - editor: vim
        - logs: tail -f x
"#;
    let project = load(by_title, &ctx, &env).unwrap();
    let rendered = script::render_start(&project);
    assert!(rendered.contains("  tmux select-pane -t focus:0.1\n\n\n  tmux select-window"));

    let out_of_range = r#"
name: focus
windows:
  - editor:
      focused_pane: 7
      panes:
        - vim
        - top
"#;
    let project = load(out_of_range, &ctx, &env).unwrap();
    let rendered = script::render_start(&project);
    assert!(rendered.contains("  tmux select-pane -t focus:0.0\n\n\n  tmux select-window"));
}

#[test]
fn sanitizes_session_names_with_separators() {
    let env = test_env();
    let ctx = MockTmux::default();
    let project = load("name: my.project:x\nwindows:\n  - a: b\n", &ctx, &env).unwrap();
    assert_eq!(project.name().unwrap(), "my_project_x");
}

#[test]
fn window_pre_runs_before_pane_commands() {
    let env = test_env();
    let ctx = MockTmux::default();
    let config = r#"
name: prewin
pre_window: rbenv shell 2.0.0
windows:
  - editor:
      pre:
        - echo a
        - echo b
      panes:
        - vim
"#;
    let project = load(config, &ctx, &env).unwrap();
    let rendered = script::render_start(&project);
    assert!(rendered.contains("send-keys -t prewin:0.0 rbenv\\ shell\\ 2.0.0 C-m"));
    assert!(rendered.contains("send-keys -t prewin:0.0 echo\\ a\\;\\ echo\\ b C-m"));
}

#[test]
fn rejects_projects_without_name_or_windows() {
    let env = test_env();
    let ctx = MockTmux::default();
    let err = load("windows:\n  - a: b\n", &ctx, &env).err().unwrap();
    assert_eq!(err, "Your project file didn't specify a 'project_name'");
    let err = load("name: lonely\n", &ctx, &env).err().unwrap();
    assert_eq!(err, "Your project file should include some windows.");
}

#[test]
fn a_whole_start_script_reads_like_tmuxinators() {
    let env = test_env();
    let ctx = MockTmux::default();
    let config = "name: demo\nroot: /srv/demo\nwindows:\n  - editor:\n      layout: main-vertical\n      panes:\n        - vim\n        - ~\n  - shell: ls\n";
    let project = load(config, &ctx, &env).unwrap();
    let expected = [
        "#!/bin/bash",
        "",
        "",
        "  # Clear rbenv variables before starting tmux",
        "  unset RBENV_VERSION",
        "  unset RBENV_DIR",
        "",
        "  tmux start-server;",
        "",
        "cd /srv/demo",
        "",
        "# Run on_project_start command.",
        "",
        "",
        "",
        "  # Run pre command.",
        "  ",
        "",
        "  # Run on_project_first_start command.",
        "  ",
        "",
        "  tmux new-session -d -s demo -n editor",
        "",
        "",
        "",
        "  # Create windows.",
        "  tmux new-window -c /srv/demo -k -t demo:0 -n editor",
        "  tmux new-window -c /srv/demo -k -t demo:1 -n shell",
        "",
        "",
        "  # Window \"editor\"",
        "",
        "",
        "  ",
        "  tmux send-keys -t demo:0.0 vim C-m",
        "",
        "  tmux splitw -c /srv/demo -t demo:0",
        "  tmux select-layout -t demo:0 tiled",
        "  ",
        "",
        "  tmux select-layout -t demo:0 tiled",
        "",
        "  tmux select-layout -t demo:0 main-vertical",
        "  tmux select-pane -t demo:0.0",
        "",
        "",
        "  # Window \"shell\"",
        "",
        "",
        "  tmux send-keys -t demo:1 ls C-m",
        "",
        "",
        "  tmux select-window -t demo:0",
        "  tmux select-pane -t demo:0.0",
        "",
        "  if [ -z \"$TMUX\" ]; then",
        "    tmux -u attach-session -t demo",
        "  else",
        "    tmux -u switch-client -t demo",
        "  fi",
        "",
        "",
        "",
        "# Run on_project_exit command.",
        "",
    ]
    .iter()
    .map(|l| format!("{l}\n"))
    .collect::<String>();
    assert_eq!(script::render_start(&project), expected);
}
