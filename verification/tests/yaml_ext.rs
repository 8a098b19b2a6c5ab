use bootmux::yaml_ext::{
    check_unique_keys, get, get_aliased_nonempty_sequence, get_aliased_scalar, mux_attach,
    scalar_to_string, Yaml,
};

fn s(text: &str) -> Yaml {
    Yaml::String(text.to_string())
}

#[test]
fn rejects_duplicate_mapping_keys() {
    // name: first
    // name: second
    let document = Yaml::Mapping(vec![(s("name"), s("first")), (s("name"), s("second"))]);
    assert_eq!(
        check_unique_keys(&document),
        Err("duplicate entry in YAML mapping".to_string())
    );
}

#[test]
fn keys_of_different_kinds_or_spellings_are_distinct() {
    let document = Yaml::Mapping(vec![
        (s("1"), s("a")),
        (Yaml::Number("1".to_string()), s("b")),
        (Yaml::Number("1.0".to_string()), s("c")),
        (Yaml::Tagged("!x".to_string(), Box::new(s("1"))), s("d")),
    ]);
    assert_eq!(check_unique_keys(&document), Ok(()));
    let tagged_twice = Yaml::Mapping(vec![
        (Yaml::Tagged("!x".to_string(), Box::new(s("k"))), s("a")),
        (Yaml::Tagged("!x".to_string(), Box::new(s("k"))), s("b")),
    ]);
    assert!(check_unique_keys(&tagged_twice).is_err());
    assert_eq!(check_unique_keys(&s("scalar")), Ok(()));
}

fn mapping(entries: Vec<(&str, Yaml)>) -> Yaml {
    Yaml::Mapping(entries.into_iter().map(|(k, v)| (s(k), v)).collect())
}

#[test]
fn aliased_keys_use_the_last_document_spelling() {
    // name: modern / project_name: legacy
    let yaml = mapping(vec![("name", s("modern")), ("project_name", s("legacy"))]);
    assert_eq!(
        get_aliased_scalar(&yaml, "name", &["project_name"]).and_then(scalar_to_string).as_deref(),
        Some("legacy")
    );
    // project_name: legacy / name: modern
    let yaml = mapping(vec![("project_name", s("legacy")), ("name", s("modern"))]);
    assert_eq!(
        get_aliased_scalar(&yaml, "name", &["project_name"]).and_then(scalar_to_string).as_deref(),
        Some("modern")
    );
}

#[test]
fn aliased_helpers_skip_values_of_the_wrong_shape() {
    // tabs: [- keep: echo yes] / windows: [] / name: keep / project_name: [wrong]
    let yaml = mapping(vec![
        ("tabs", Yaml::Sequence(vec![mapping(vec![("keep", s("echo yes"))])])),
        ("windows", Yaml::Sequence(Vec::new())),
        ("name", s("keep")),
        ("project_name", Yaml::Sequence(vec![s("wrong")])),
    ]);
    assert_eq!(
        get_aliased_scalar(&yaml, "name", &["project_name"]).and_then(scalar_to_string).as_deref(),
        Some("keep")
    );
    assert_eq!(get_aliased_nonempty_sequence(&yaml, "windows", &["tabs"]).unwrap().len(), 1);
}

#[test]
fn mux_attach_accepts_boolean_numeric_and_string_false() {
    for value in [Yaml::Bool(false), Yaml::Number("0".to_string()), s("false")] {
        let yaml = mapping(vec![("attach", value.clone_value())]);
        assert!(!mux_attach(get(&yaml, "attach")), "{value:?}");
    }
    for value in [Yaml::Bool(true), Yaml::Number("1".to_string()), s("yes")] {
        let yaml = mapping(vec![("attach", value.clone_value())]);
        assert!(mux_attach(get(&yaml, "attach")), "{value:?}");
    }
}

#[test]
fn attach_uses_the_original_scalar_lexeme_like_mux() {
    // The YAML reader hands the top-level `attach` scalar over as it is
    // spelled, so each lexeme arrives as a string.
    for lexeme in ["False", "FALSE", "+0", "00", "0x0"] {
        let yaml = mapping(vec![("attach", s(lexeme))]);
        assert!(mux_attach(get(&yaml, "attach")), "{lexeme:?}");
    }
    for lexeme in ["false", "0"] {
        let yaml = mapping(vec![("attach", s(lexeme))]);
        assert!(!mux_attach(get(&yaml, "attach")), "{lexeme:?}");
    }
}

trait CloneValue {
    fn clone_value(&self) -> Yaml;
}

impl CloneValue for Yaml {
    fn clone_value(&self) -> Yaml {
        match self {
            Yaml::Null => Yaml::Null,
            Yaml::Bool(b) => Yaml::Bool(*b),
            Yaml::Number(n) => Yaml::Number(n.clone()),
            Yaml::String(t) => Yaml::String(t.clone()),
            Yaml::Sequence(items) => Yaml::Sequence(items.iter().map(|i| i.clone_value()).collect()),
            Yaml::Mapping(m) => Yaml::Mapping(m.iter().map(|(k, v)| (k.clone_value(), v.clone_value())).collect()),
            Yaml::Tagged(t, v) => Yaml::Tagged(t.clone(), Box::new(v.clone_value())),
        }
    }
}
