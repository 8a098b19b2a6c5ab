use bootmux::project::{parse_settings, setting_value};

#[test]
fn splits_key_value_settings_from_args() {
    let (settings, args) = parse_settings(vec![
        "foo=bar".to_string(),
        "extra".to_string(),
        "a=b=c".to_string(),
    ]);
    assert_eq!(setting_value(&settings, "foo").unwrap(), "bar");
    assert_eq!(setting_value(&settings, "a").unwrap(), "b=c");
    assert_eq!(args, vec!["extra".to_string()]);
}

#[test]
fn a_later_setting_replaces_an_earlier_one() {
    let (settings, args) = parse_settings(vec![
        "k=1".to_string(),
        "k=2".to_string(),
        "=empty".to_string(),
    ]);
    assert_eq!(setting_value(&settings, "k").unwrap(), "2");
    assert_eq!(setting_value(&settings, "missing"), None);
    assert_eq!(settings.len(), 2);
    assert_eq!(setting_value(&settings, "").unwrap(), "empty");
    assert!(args.is_empty());
}
