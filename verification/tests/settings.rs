use bootmux::env::Env;
use bootmux::settings::{
    active_environment, decide_nested, default_backend, document_with_default_backend,
    environment_backend, get, get_in_document, is_herdr_popup, parse_settings, parse_toml_string, path,
    resolve_backend, resolve_backend_with_classifier, strip_toml_comment,
    ActiveEnvironment, Backend, ForegroundProcessClassifier, NoClassifier, ResolveError,
    Settings, SettingsError, TomlStringError, DEFAULT_BACKEND_CLI_KEY, DEFAULT_BACKEND_KEY,
};

fn env_with(vars: &[(&str, &str)]) -> Env {
    let all: Vec<(String, String)> = vars
        .iter()
        .map(|(key, value)| (key.to_string(), value.to_string()))
        .collect();
    let tmux = all
        .iter()
        .find(|(key, _)| key == "TMUX")
        .map(|(_, value)| value.clone());
    Env {
        tmux,
        all,
        ..Env::default()
    }
}

struct Answer(Result<Option<Backend>, String>);

impl ForegroundProcessClassifier for Answer {
    fn classify_foreground(&self, _env: &Env) -> Result<Option<Backend>, String> {
        self.0.clone()
    }
}

struct MustNotRun;

impl ForegroundProcessClassifier for MustNotRun {
    fn classify_foreground(&self, _env: &Env) -> Result<Option<Backend>, String> {
        panic!("popup classification should not consult foreground processes")
    }
}

#[test]
fn backend_parsing_is_case_insensitive_and_display_is_canonical() {
    assert_eq!("TMUX".parse::<Backend>().unwrap(), Backend::Tmux);
    assert_eq!(" Herdr ".parse::<Backend>().unwrap(), Backend::Herdr);
    assert_eq!(" ZELLIJ ".parse::<Backend>().unwrap(), Backend::Zellij);
    assert_eq!(Backend::Herdr.to_string(), "herdr");
    assert_eq!(Backend::Zellij.to_string(), "zellij");

    let error = "screen".parse::<Backend>().unwrap_err().message();
    for backend in Backend::all() {
        assert!(error.contains(backend.as_str()), "{error}");
    }
}

#[test]
fn path_prefers_nonempty_xdg_and_falls_back_to_home() {
    let mut env = Env {
        home: "/users/me".to_string(),
        xdg_config_home: Some("/custom/config".to_string()),
        ..Env::default()
    };
    assert_eq!(path(&env).unwrap(), "/custom/config/bootmux/config.toml");

    env.xdg_config_home = Some(String::new());
    assert_eq!(path(&env).unwrap(), "/users/me/.config/bootmux/config.toml");
}

#[test]
fn missing_home_and_xdg_is_an_actionable_error() {
    let error = path(&Env::default()).unwrap_err().message();
    assert!(error.contains("HOME"));
    assert!(error.contains("XDG_CONFIG_HOME"));
}

#[test]
fn setting_is_inserted_before_toml_tables() {
    let document = "# heading\n[future]\nvalue = 1\n";
    let updated = document_with_default_backend(document, Backend::Tmux).unwrap();
    assert_eq!(
        updated,
        "# heading\ndefault_backend = \"tmux\"\n[future]\nvalue = 1\n"
    );
}

#[test]
fn detects_tmux_ordinary_herdr_and_herdr_popup() {
    let tmux = active_environment(&env_with(&[("TMUX", "/tmp/tmux")]));
    assert_eq!(
        tmux,
        ActiveEnvironment {
            tmux: true,
            herdr: false,
            herdr_popup: false,
            zellij: false,
        }
    );

    let herdr = active_environment(&env_with(&[("HERDR_ENV", "1")]));
    assert!(herdr.herdr);
    assert!(!herdr.herdr_popup);

    for marker in [
        "HERDR_WORKSPACE_ID",
        "HERDR_TAB_ID",
        "HERDR_PANE_ID",
        "HERDR_SOCKET_PATH",
    ] {
        assert!(active_environment(&env_with(&[(marker, "present")])).herdr);
    }

    let popup = active_environment(&env_with(&[("HERDR_ACTIVE_PANE_ID", "4")]));
    assert!(popup.herdr);
    assert!(popup.herdr_popup);
}

#[test]
fn detects_zellij_from_any_of_its_pane_markers() {
    // zellij sets ZELLIJ to the literal "0", which is not truthy.
    let zellij = active_environment(&env_with(&[("ZELLIJ", "0")]));
    assert_eq!(
        zellij,
        ActiveEnvironment {
            tmux: false,
            herdr: false,
            herdr_popup: false,
            zellij: true,
        }
    );
    assert_eq!(zellij.backends(), vec![Backend::Zellij]);
    assert!(!zellij.is_ambiguous());

    for marker in ["ZELLIJ_SESSION_NAME", "ZELLIJ_PANE_ID"] {
        assert!(active_environment(&env_with(&[(marker, "present")])).zellij);
    }
    assert!(!active_environment(&env_with(&[("ZELLIJ", "")])).zellij);
}

#[test]
fn a_single_active_backend_wins_and_three_nested_ones_are_ambiguous() {
    let zellij = env_with(&[("ZELLIJ", "0")]);
    assert_eq!(resolve_backend(None, &zellij, None).unwrap(), Backend::Zellij);

    let nested = env_with(&[("TMUX", "/tmp/tmux"), ("ZELLIJ", "0"), ("HERDR_ENV", "1")]);
    assert!(active_environment(&nested).is_ambiguous());
    let error = resolve_backend(None, &nested, None).unwrap_err().message();
    assert!(error.contains("ambiguous"), "{error}");
    assert!(error.contains("--backend"), "{error}");
    for backend in Backend::all() {
        assert!(error.contains(backend.display_name()), "{error}");
    }

    let classify_zellij = Answer(Ok(Some(Backend::Zellij)));
    assert_eq!(
        resolve_backend_with_classifier(None, &nested, Some(&classify_zellij), None).unwrap(),
        Backend::Zellij
    );
}

#[test]
fn herdr_configuration_variables_alone_do_not_mean_inside_herdr() {
    let active = active_environment(&env_with(&[
        ("HERDR_CONFIG_PATH", "/tmp/herdr.toml"),
        ("HERDR_LOG", "debug"),
        ("HERDR_DISABLE_SOUND", "1"),
    ]));
    assert_eq!(active, ActiveEnvironment::default());
}

#[test]
fn nested_multiplexers_require_or_use_a_classifier() {
    let env = env_with(&[("TMUX", "/tmp/tmux"), ("HERDR_ENV", "1")]);
    let error = resolve_backend(None, &env, None).unwrap_err().message();
    assert!(error.contains("ambiguous"));
    assert!(error.contains("--backend"));

    let classify_herdr = Answer(Ok(Some(Backend::Herdr)));
    assert_eq!(
        resolve_backend_with_classifier(None, &env, Some(&classify_herdr), None).unwrap(),
        Backend::Herdr
    );

    let cannot_classify = Answer(Ok(None));
    assert!(
        resolve_backend_with_classifier(None, &env, Some(&cannot_classify), None)
            .unwrap_err()
            .message()
            .contains("ambiguous")
    );
}

#[test]
fn herdr_popup_beats_inherited_tmux_without_calling_classifier() {
    let env = env_with(&[("TMUX", "/tmp/tmux"), ("HERDR_ACTIVE_PANE_ID", "pane-4")]);
    assert_eq!(
        resolve_backend_with_classifier(None, &env, Some(&MustNotRun), None).unwrap(),
        Backend::Herdr
    );
    assert_eq!(resolve_backend(None, &env, None).unwrap(), Backend::Herdr);
    assert!(is_herdr_popup(&env));
}

#[test]
fn explicit_choice_environment_configured_default_then_tmux() {
    let empty = Env::default();
    assert_eq!(
        resolve_backend(Some(Backend::Zellij), &env_with(&[("TMUX", "/t")]), None).unwrap(),
        Backend::Zellij
    );
    assert_eq!(
        resolve_backend(None, &env_with(&[("TMUX", "/t")]), Some(Backend::Herdr)).unwrap(),
        Backend::Tmux
    );
    assert_eq!(resolve_backend(None, &empty, Some(Backend::Herdr)).unwrap(), Backend::Herdr);
    assert_eq!(resolve_backend(None, &empty, None).unwrap(), Backend::Tmux);
    assert_eq!(
        environment_backend::<NoClassifier>(None, &empty, None).unwrap(),
        None
    );
}

#[test]
fn a_failing_classifier_reports_its_own_message() {
    let env = env_with(&[("TMUX", "/tmp/tmux"), ("ZELLIJ", "0")]);
    let failing = Answer(Err("ps failed".to_string()));
    let error = resolve_backend_with_classifier(None, &env, Some(&failing), None).unwrap_err();
    assert_eq!(error, ResolveError::Classifier("ps failed".to_string()));
    assert_eq!(error.message(), "ps failed");
    assert_eq!(
        decide_nested(vec![Backend::Tmux, Backend::Zellij], Ok(None)),
        Err(ResolveError::Ambiguous { active: vec![Backend::Tmux, Backend::Zellij] })
    );
    assert_eq!(
        ResolveError::Ambiguous { active: vec![Backend::Tmux, Backend::Zellij] }.message(),
        "several multiplexer environments are active (tmux, zellij) and the foreground \
         multiplexer is ambiguous; choose one explicitly with --backend"
    );
}

#[test]
fn settings_documents_accept_comments_quotes_and_other_keys() {
    let document = "# bootmux\nother = true\ndefault_backend = 'herdr' # selected\n";
    let settings = parse_settings(document).unwrap();
    assert_eq!(settings.default_backend, Some(Backend::Herdr));
    assert_eq!(get(DEFAULT_BACKEND_KEY, &settings).unwrap().as_deref(), Some("herdr"));
    assert_eq!(get(DEFAULT_BACKEND_CLI_KEY, &settings).unwrap().as_deref(), Some("herdr"));
    assert_eq!(default_backend("other = 1\n").unwrap(), None);
    assert_eq!(get(DEFAULT_BACKEND_KEY, &Settings::default()).unwrap(), None);
    assert!(get("colour", &settings).unwrap_err().message().contains("unknown bootmux setting"));
}

#[test]
fn invalid_and_duplicate_backend_values_are_rejected() {
    let unknown = parse_settings("default_backend = \"screen\"\n").unwrap_err();
    assert!(matches!(unknown, SettingsError::UnknownBackend(_)));
    assert!(unknown.message().contains("invalid backend \"screen\""));
    let invalid = parse_settings("default_backend = screen\n").unwrap_err();
    assert!(matches!(invalid, SettingsError::InvalidValue { line: 1, .. }));
    assert!(invalid.message().contains("invalid default_backend value on line 1"));
    let duplicate =
        parse_settings("default_backend = \"tmux\"\ndefault_backend = \"herdr\"\n").unwrap_err();
    assert!(matches!(duplicate, SettingsError::Duplicate { .. }));
    assert!(duplicate.message().contains("duplicate default_backend"));
}

#[test]
fn setting_a_backend_keeps_unrelated_content_and_reads_back() {
    let document = "# retained\nother = \"value\"\ndefault_backend = \"tmux\"\n";
    let updated = document_with_default_backend(document, Backend::Herdr).unwrap();
    assert!(updated.contains("# retained"));
    assert!(updated.contains("other = \"value\""));
    assert!(updated.contains("default_backend = \"herdr\""));
    assert_eq!(default_backend(&updated).unwrap(), Some(Backend::Herdr));
    assert_eq!(
        bootmux::settings::set(DEFAULT_BACKEND_CLI_KEY, "zellij", "").unwrap(),
        "default_backend = \"zellij\"\n"
    );
    assert!(bootmux::settings::set(DEFAULT_BACKEND_CLI_KEY, "screen", "").is_err());
}

#[test]
fn toml_strings_and_comments_are_read_like_toml() {
    let chars = |s: &str| s.chars().collect::<Vec<char>>();
    assert_eq!(
        parse_toml_string(&chars("\"a\\tb\\\"c\"")).unwrap(),
        chars("a\tb\"c")
    );
    assert_eq!(parse_toml_string(&chars("'raw\\n'")).unwrap(), chars("raw\\n"));
    assert_eq!(parse_toml_string(&chars("bare")), Err(TomlStringError::NotQuoted));
    assert_eq!(
        parse_toml_string(&chars("\"a\\q\"")),
        Err(TomlStringError::UnsupportedEscape('q'))
    );
    assert_eq!(
        strip_toml_comment(&chars("x = \"a#b\" # note")),
        chars("x = \"a#b\" ")
    );
}

#[test]
fn a_setting_is_read_from_the_settings_text_under_either_spelling() {
    let document = "# chosen\ndefault_backend = \"herdr\"\n";
    assert_eq!(get_in_document("default_backend", document).unwrap(), Some("herdr".to_string()));
    assert_eq!(get_in_document("default-backend", document).unwrap(), Some("herdr".to_string()));
    assert_eq!(get_in_document("default-backend", "").unwrap(), None);
    assert!(matches!(get_in_document("color", "default_backend = 7\n"), Err(SettingsError::UnknownSetting { .. })));
    assert!(matches!(
        get_in_document("default_backend", "default_backend = \"tmux\"\ndefault_backend = \"tmux\"\n"),
        Err(SettingsError::Duplicate { line: 2 })
    ));
}

#[test]
fn settings_errors_name_the_line_and_the_cause() {
    assert_eq!(
        SettingsError::Duplicate { line: 4 }.message(),
        "duplicate default_backend setting on line 4"
    );
    assert_eq!(
        SettingsError::InvalidValue { line: 2, error: TomlStringError::NotQuoted }.message(),
        "invalid default_backend value on line 2: expected a quoted TOML string"
    );
    assert_eq!(
        SettingsError::UnknownSetting { key: "color".to_string() }.message(),
        "unknown bootmux setting \"color\"; supported setting: default-backend (TOML key default_backend)"
    );
}
