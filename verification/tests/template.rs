use bootmux::env::Env;
use bootmux::template::{finish_render, render_config, render_sample, substitute_mux_settings};

fn test_env() -> Env {
    let mut env = Env::default();
    env.all.push(("MY_VAR".to_string(), "hello".to_string()));
    env
}

fn settings(pairs: &[(&str, &str)]) -> Vec<(String, String)> {
    pairs
        .iter()
        .map(|(key, value)| (key.to_string(), value.to_string()))
        .collect()
}

#[test]
fn renders_settings_args_and_env() {
    let settings = settings(&[("workspace", "/code")]);
    let args = vec!["extra".to_string()];

    let out = render_config(
        "root: {{ settings.workspace }}\nfirst: {{ args[0] }}\nvar: {{ env.MY_VAR }}",
        &settings,
        &args,
        &test_env(),
    )
    .unwrap();
    assert_eq!(out, "root: /code\nfirst: extra\nvar: hello");
}

#[test]
fn undefined_variables_render_empty() {
    let out = render_config("x: {{ settings.missing }}!", &Vec::new(), &Vec::new(), &test_env())
        .unwrap();
    assert_eq!(out, "x: !");
}

#[test]
fn renders_mux_settings_erb_without_executing_ruby() {
    let settings = settings(&[("root", "/tmp/{{ untouched }}"), ("host", "localhost")]);
    let out = render_config(
        "root: <%=  @settings[\"root\"]  %>\nhost: <%= @settings[\"host\"] %>\nmissing: <%= @settings[\"missing\"] %>",
        &settings,
        &Vec::new(),
        &test_env(),
    )
    .unwrap();
    assert_eq!(out, "root: /tmp/{{ untouched }}\nhost: localhost\nmissing: ");
}

#[test]
fn other_erb_syntax_is_rejected_with_migration_hint() {
    let err = render_config("name: <%= @args[0] %>", &Vec::new(), &Vec::new(), &test_env())
        .unwrap_err();
    assert!(err.starts_with("Failed to parse config file:"));
    assert!(err.contains("MiniJinja"));
}

#[test]
fn missing_mux_settings_render_empty_for_lifecycle_commands() {
    let out = render_config(
        "name: static\nroot: <%= @settings[\"root\"] %>",
        &Vec::new(),
        &Vec::new(),
        &test_env(),
    )
    .unwrap();
    assert_eq!(out, "name: static\nroot: ");
}

#[test]
fn erb_substitution_refuses_unclosed_and_non_expression_tags() {
    let set = settings(&[("k", "v")]);
    assert_eq!(substitute_mux_settings("a <%= @settings[\"k\"]%> b", &set).as_deref(), Some("a v b"));
    assert_eq!(substitute_mux_settings("plain", &set).as_deref(), Some("plain"));
    assert_eq!(substitute_mux_settings("<% code %>", &set), None);
    assert_eq!(substitute_mux_settings("<%= @settings[\"k\"]", &set), None);
    assert_eq!(substitute_mux_settings("<%= @settings[\"\"] %>", &set), None);
    assert_eq!(
        finish_render(Err("boom".to_string()), &set),
        Err("Failed to parse config file: boom".to_string())
    );
    assert_eq!(finish_render(Ok("x".to_string()), &set), Ok("x".to_string()));
}

#[test]
fn the_sample_template_receives_name_and_path() {
    assert_eq!(
        render_sample("name: {{ name }}\n# {{ path }}", "api", "/c/api.yml").unwrap(),
        "name: api\n# /c/api.yml"
    );
    assert!(render_sample("{{ unclosed", "api", "/c").is_err());
}
