use moose::shortcuts::{defaults, definitions, merged_values, normalize_key, normalize_values, parse, requires_modifier};

#[test]
fn bracketed_modifiers_read_as_plus_separated() {
    let chord = parse("<ctrl>k").unwrap().unwrap();
    assert_eq!(chord.label(), "Ctrl+K");
    let chord = parse(" control + shift + f5 ").unwrap().unwrap();
    assert_eq!(chord.label(), "Ctrl+Shift+F5");
    let chord = parse("Super+Alt+page up").unwrap().unwrap();
    assert_eq!(chord.label(), "Alt+Super+PageUp");
}

#[test]
fn labels_read_back_as_the_same_chord() {
    for value in ["<ctrl>k", "Esc", "F12", "cmd+shift+arrow-left", "Ctrl+<", "alt+>", "Ctrl+,"] {
        let chord = parse(value).unwrap().unwrap();
        let again = parse(&chord.label()).unwrap().unwrap();
        assert_eq!(again, chord);
        assert_eq!(again.label(), chord.label());
    }
}

#[test]
fn shortcut_errors_explain_the_problem() {
    assert_eq!(parse("   ").unwrap(), None);
    assert_eq!(parse("k").unwrap_err(), "Use Ctrl, Alt, Shift or Super with printable shortcuts");
    assert_eq!(parse("Space").unwrap_err(), "Use Ctrl, Alt, Shift or Super with printable shortcuts");
    assert_eq!(parse("Ctrl++").unwrap_err(), "Shortcut parts cannot be empty");
    assert_eq!(parse("Ctrl+A+B").unwrap_err(), "Use only one key per shortcut");
    assert_eq!(parse("Ctrl+Shift").unwrap_err(), "Add a key to the shortcut");
    assert_eq!(parse("Ctrl+Foo").unwrap_err(), "Unsupported key: Foo");
    assert_eq!(parse("Ctrl+F25").unwrap_err(), "Unsupported key: F25");
}

#[test]
fn keys_are_normalized() {
    assert_eq!(normalize_key("escape").unwrap(), "Esc");
    assert_eq!(normalize_key("page-down").unwrap(), "PageDown");
    assert_eq!(normalize_key("f1").unwrap(), "F1");
    assert_eq!(normalize_key("q").unwrap(), "Q");
    assert_eq!(normalize_key(",").unwrap(), ",");
    assert!(requires_modifier("Space"));
    assert!(requires_modifier("Q"));
    assert!(!requires_modifier("F5"));
}

#[test]
fn defaults_cover_every_definition() {
    let values = defaults();
    let definitions = definitions();
    assert_eq!(values.len(), 8);
    assert_eq!(definitions.len(), 8);
    assert_eq!(values[0], ("new-conversation".to_string(), "Ctrl+N".to_string()));
    assert_eq!(values[7], ("stop-generation".to_string(), "Esc".to_string()));
    for (value, definition) in values.iter().zip(definitions.iter()) {
        assert_eq!(value.0, definition.id);
    }
}

#[test]
fn stored_values_override_defaults() {
    let stored = vec![("show-models".to_string(), "<alt>m".to_string())];
    let merged = merged_values(&stored);
    assert_eq!(merged[3], ("show-models".to_string(), "Alt+M".to_string()));
    assert_eq!(merged[0].1, "Ctrl+N");
}

#[test]
fn blank_values_disable_and_duplicates_fall_back() {
    let stored = vec![("focus-message".to_string(), " ".to_string())];
    let merged = merged_values(&stored);
    assert_eq!(merged[1].1, "");
    let clash = vec![("focus-message".to_string(), "ctrl+n".to_string())];
    assert_eq!(
        normalize_values(&clash).unwrap_err(),
        "Focus Message uses a shortcut that is already assigned"
    );
    assert_eq!(merged_values(&clash)[1].1, "Ctrl+L");
}

#[test]
fn shortcut_examples_read_as_documented() {
    let chord = parse("<Control>n").unwrap().unwrap();
    assert_eq!(chord.label(), "Ctrl+N");
    assert_eq!(parse(&chord.label()).unwrap().unwrap(), chord);
    assert_eq!(parse("   ").unwrap(), None);
    assert!(parse("a").is_err());
    assert!(parse("Ctrl+A+B").is_err());
}
