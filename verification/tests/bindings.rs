use bootmux::bindings::{
    herdr_snippet, herdr_snippet_with, snippet, tmux_double_quoted, tmux_snippet,
    tmux_snippet_with, toml_basic_string, validate_command, validate_popup_dimension,
    validate_tmux_key, zellij_snippet, zellij_snippet_with, BindingError, DEFAULT_HERDR_KEY,
    DEFAULT_ZELLIJ_KEY, PICKER_COMMAND,
};
use bootmux::settings::Backend;

#[test]
fn tmux_default_is_a_26_compatible_new_window_binding() {
    assert_eq!(tmux_snippet(), "bind-key F new-window \"bootmux picker\"\n");
    assert!(!tmux_snippet().contains("display-popup"));
}

#[test]
fn tmux_custom_command_is_quoted_as_one_argument() {
    assert_eq!(
        tmux_snippet_with("C-f", r#"bootmux "$PROJECT" `which fzf`"#).unwrap(),
        "bind-key C-f new-window \"bootmux \\\"\\$PROJECT\\\" \\`which fzf\\`\"\n"
    );
}

#[test]
fn tmux_rejects_config_injection_in_keys_and_commands() {
    assert!(tmux_snippet_with("F\nrun-shell evil", PICKER_COMMAND).is_err());
    assert!(tmux_snippet_with("F", "bootmux picker\nrun evil").is_err());
    assert!(tmux_snippet_with("F;run-shell", PICKER_COMMAND).is_err());
}

#[test]
fn herdr_default_uses_popup_schema_and_eighty_percent_geometry() {
    assert_eq!(
        herdr_snippet(),
        "[[keys.command]]\n\
         key = \"prefix+shift+f\"\n\
         type = \"popup\"\n\
         command = \"bootmux picker\"\n\
         description = \"open bootmux project picker\"\n\
         width = \"80%\"\n\
         height = \"80%\"\n"
    );
}

#[test]
fn herdr_values_are_valid_toml_basic_strings() {
    let generated = herdr_snippet_with(
        "prefix+alt+g",
        r#"bootmux picker --prompt "go""#,
        "120",
        "75%",
    )
    .unwrap();
    assert!(generated.contains(r#"command = "bootmux picker --prompt \"go\"""#));
    assert!(generated.contains("width = \"120\""));
    assert!(generated.contains("height = \"75%\""));
}

#[test]
fn herdr_rejects_invalid_geometry() {
    assert!(herdr_snippet_with(DEFAULT_HERDR_KEY, PICKER_COMMAND, "0", "80%").is_err());
    assert!(herdr_snippet_with(DEFAULT_HERDR_KEY, PICKER_COMMAND, "101%", "80%").is_err());
    assert!(herdr_snippet_with(DEFAULT_HERDR_KEY, PICKER_COMMAND, "wide", "80%").is_err());
}

#[test]
fn backend_dispatches_to_the_matching_format() {
    assert_eq!(snippet(Backend::Tmux), tmux_snippet());
    assert_eq!(snippet(Backend::Herdr), herdr_snippet());
    assert_eq!(snippet(Backend::Zellij), zellij_snippet());
}

#[test]
fn zellij_default_is_a_floating_run_binding_outside_locked_mode() {
    assert_eq!(
        zellij_snippet(),
        "keybinds {\n    \
             shared_except \"locked\" {\n        \
                 bind \"Ctrl y\" {\n            \
                     Run \"bootmux\" \"picker\" {\n                \
                         floating true\n                \
                         close_on_exit true\n            \
                     }\n        \
                 }\n    \
             }\n\
         }\n"
    );
}

#[test]
fn zellij_splits_the_picker_command_into_argv_and_escapes_kdl() {
    let generated = zellij_snippet_with("Alt g", r#"bootmux picker --prompt "go ""#).unwrap();
    assert!(generated.contains("bind \"Alt g\""));
    assert!(
        generated.contains(r#"Run "bootmux" "picker" "--prompt" "go ""#),
        "{generated}"
    );
}

#[test]
fn zellij_rejects_kdl_injection_and_unusable_commands() {
    assert!(zellij_snippet_with("", PICKER_COMMAND).is_err());
    assert!(zellij_snippet_with("Ctrl y\" }; bind \"x", PICKER_COMMAND).is_err());
    assert!(zellij_snippet_with(DEFAULT_ZELLIJ_KEY, "bootmux picker\nRun evil").is_err());
    // An unterminated quote parses to no words at all.
    assert!(zellij_snippet_with(DEFAULT_ZELLIJ_KEY, "\"bootmux").is_err());
}

#[test]
fn each_rejection_names_its_reason() {
    assert_eq!(validate_tmux_key(""), Err(BindingError::EmptyTmuxKey));
    assert_eq!(
        validate_tmux_key("C f"),
        Err(BindingError::TmuxKeyWhitespace { key: "C f".to_string() })
    );
    assert_eq!(
        validate_tmux_key("F#"),
        Err(BindingError::TmuxKeySyntax { key: "F#".to_string() })
    );
    assert_eq!(validate_tmux_key("M-x"), Ok(()));
    assert_eq!(validate_command("   "), Err(BindingError::EmptyCommand));
    assert_eq!(validate_command("a\rb"), Err(BindingError::CommandLineBreak));
    assert_eq!(validate_command("bootmux picker"), Ok(()));
    assert_eq!(
        validate_popup_dimension("width", "0%"),
        Err(BindingError::InvalidPopupDimension {
            name: "width".to_string(),
            dimension: "0%".to_string()
        })
    );
    assert_eq!(validate_popup_dimension("width", "100%"), Ok(()));
    assert_eq!(validate_popup_dimension("width", "65535"), Ok(()));
    assert!(validate_popup_dimension("width", "65536").is_err());
    assert_eq!(
        herdr_snippet_with("  ", PICKER_COMMAND, "80%", "80%"),
        Err(BindingError::EmptyHerdrKey)
    );
    assert_eq!(
        zellij_snippet_with("Ctrl {", PICKER_COMMAND),
        Err(BindingError::ZellijKeySyntax { key: "Ctrl {".to_string() })
    );
    assert_eq!(
        zellij_snippet_with(DEFAULT_ZELLIJ_KEY, "\"bootmux"),
        Err(BindingError::UnparsableCommand { command: "\"bootmux".to_string() })
    );
}

#[test]
fn quoting_helpers_escape_exactly_the_special_characters() {
    assert_eq!(tmux_double_quoted("a$b`c\\d\"e"), "\"a\\$b\\`c\\\\d\\\"e\"");
    assert_eq!(tmux_double_quoted(""), "\"\"");
    assert_eq!(toml_basic_string("a\"b\\c\td\u{1}"), "\"a\\\"b\\\\c\\td\\u0001\"");
    assert_eq!(toml_basic_string("plain"), "\"plain\"");
}
