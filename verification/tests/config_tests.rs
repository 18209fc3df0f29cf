use ijevim::config::{load_text, Config};

#[test]
fn defaults_when_empty_table() {
    let table: toml::Table = toml::Table::new();
    let cfg = Config::from_table(&table);
    assert_eq!(cfg.keymap, "vim");
    assert!(cfg.show_line_numbers);
    assert!(cfg.wrap);
}

#[test]
fn parses_full_config() {
    let table: toml::Table = toml::from_str(
        r#"
            keymap = "emacs"
            show_line_numbers = false
            wrap = false
        "#,
    )
    .unwrap();
    let cfg = Config::from_table(&table);
    assert_eq!(cfg.keymap, "emacs");
    assert!(!cfg.show_line_numbers);
    assert!(!cfg.wrap);
}

#[test]
fn falls_back_to_defaults_for_missing_keys() {
    let table: toml::Table = toml::from_str(r#"keymap = "emacs""#).unwrap();
    let cfg = Config::from_table(&table);
    assert_eq!(cfg.keymap, "emacs");
    assert!(cfg.show_line_numbers);
    assert!(cfg.wrap);
}

#[test]
fn ignores_wrong_type_silently_falls_back() {
    let table: toml::Table = toml::from_str(
        r#"
            keymap = 42
            show_line_numbers = "yes"
            wrap = [true]
        "#,
    )
    .unwrap();
    let cfg = Config::from_table(&table);
    assert_eq!(cfg.keymap, "vim");
    assert!(cfg.show_line_numbers);
    assert!(cfg.wrap);
}

#[test]
fn relative_numbers_read_and_default() {
    let table: toml::Table = toml::from_str("show_relative_numbers = true").unwrap();
    assert!(Config::from_table(&table).show_relative_numbers);
    assert!(!Config::default().show_relative_numbers);
    assert_eq!(Config::default().keymap, "vim");
}

#[test]
fn from_text_reads_settings() {
    let cfg = Config::from_text("keymap = \"emacs\"\nwrap = false\n");
    assert_eq!(cfg.keymap, "emacs");
    assert!(!cfg.wrap);
    assert!(cfg.show_line_numbers);
    assert!(!cfg.show_relative_numbers);
}

#[test]
fn from_text_malformed_gives_defaults() {
    let cfg = Config::from_text("keymap = = \"emacs\"\n[[[");
    assert_eq!(cfg.keymap, "vim");
    assert!(cfg.show_line_numbers);
    assert!(!cfg.show_relative_numbers);
    assert!(cfg.wrap);
}

#[test]
fn load_text_warns_about_ignored_settings() {
    let (cfg, warnings) = load_text("keymap = \"nano\"\nwrap = 3\nshow_line_numbers = false\n", "/home/u/cfg.toml");
    assert_eq!(cfg.keymap, "vim");
    assert!(!cfg.show_line_numbers);
    assert!(cfg.wrap);
    assert_eq!(
        warnings,
        vec![
            "[config] Ignoring unknown keymap 'nano' in /home/u/cfg.toml; expected 'vim' or 'emacs'".to_string(),
            "[config] Ignoring 'wrap' in /home/u/cfg.toml: not a bool".to_string(),
        ]
    );
}

#[test]
fn load_text_warns_about_a_keymap_that_is_not_a_string() {
    let (_, warnings) = load_text("keymap = 1\nshow_relative_numbers = \"yes\"\n", "c.toml");
    assert_eq!(
        warnings,
        vec![
            "[config] Ignoring 'keymap' in c.toml: not a string".to_string(),
            "[config] Ignoring 'show_relative_numbers' in c.toml: not a bool".to_string(),
        ]
    );
}

#[test]
fn load_text_warns_once_about_malformed_text() {
    let (cfg, warnings) = load_text("keymap = = \"emacs\"\n[[[", "c.toml");
    assert_eq!(cfg.keymap, "vim");
    assert_eq!(warnings.len(), 1);
    assert!(warnings[0].starts_with("[config] Ignoring malformed config: c.toml ("));
    assert!(warnings[0].ends_with(")"));
}

#[test]
fn load_text_is_silent_on_a_good_file() {
    let (cfg, warnings) = load_text("keymap = \"emacs\"\n", "c.toml");
    assert_eq!(cfg.keymap, "emacs");
    assert!(warnings.is_empty());
}
