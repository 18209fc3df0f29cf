use ijevim::cli::{parse_args, Cli, CliAction};
use ijevim::types::Keymap;

fn parse_cli(args: &[&str]) -> Cli {
    let argv: Vec<String> = args.iter().map(|s| s.to_string()).collect();
    match parse_args(&argv) {
        CliAction::Edit(cli) => cli,
        _ => panic!("expected Edit, got Help or Version"),
    }
}

#[test]
fn parses_help() {
    assert!(matches!(parse_args(&["--help".into()]), CliAction::Help));
    assert!(matches!(parse_args(&["-h".into()]), CliAction::Help));
}

#[test]
fn parses_version() {
    assert!(matches!(parse_args(&["--version".into()]), CliAction::Version));
    assert!(matches!(parse_args(&["-v".into()]), CliAction::Version));
}

#[test]
fn parses_vim_subcommand_without_file() {
    let cli = parse_cli(&["vim"]);
    assert_eq!(cli.keymap, Some(Keymap::Vim));
    assert_eq!(cli.file, None);
}

#[test]
fn parses_emacs_subcommand_without_file() {
    let cli = parse_cli(&["emacs"]);
    assert_eq!(cli.keymap, Some(Keymap::Emacs));
    assert_eq!(cli.file, None);
}

#[test]
fn parses_vim_subcommand_with_file() {
    let cli = parse_cli(&["vim", "sample.txt"]);
    assert_eq!(cli.keymap, Some(Keymap::Vim));
    assert_eq!(cli.file.as_deref(), Some("sample.txt"));
}

#[test]
fn parses_emacs_subcommand_with_file() {
    let cli = parse_cli(&["emacs", "sample.txt"]);
    assert_eq!(cli.keymap, Some(Keymap::Emacs));
    assert_eq!(cli.file.as_deref(), Some("sample.txt"));
}

#[test]
fn parses_top_level_file_as_default_vim() {
    let cli = parse_cli(&["sample.txt"]);
    assert_eq!(cli.keymap, None, "no keymap override when no subcommand");
    assert_eq!(cli.file.as_deref(), Some("sample.txt"));
}

#[test]
fn honors_parent_file_when_mode_subcommand_is_present() {
    let cli = parse_cli(&["sample.txt", "emacs"]);
    assert_eq!(cli.keymap, Some(Keymap::Emacs));
    assert_eq!(cli.file.as_deref(), Some("sample.txt"));
}

#[test]
fn prefers_subcommand_file_over_parent_file() {
    let cli = parse_cli(&["parent.txt", "vim", "child.txt"]);
    assert_eq!(cli.keymap, Some(Keymap::Vim));
    assert_eq!(cli.file.as_deref(), Some("child.txt"));
}

#[test]
fn treats_unknown_subcommand_as_file_argument() {
    let cli = parse_cli(&["invalid-mode"]);
    assert_eq!(cli.keymap, None, "no keymap override for unknown subcommand");
    assert_eq!(cli.file.as_deref(), Some("invalid-mode"));
}

#[test]
fn extra_arguments_are_reported_unused() {
    let cli = parse_cli(&["a.txt", "b.txt", "vim", "c.txt", "d.txt"]);
    assert_eq!(cli.file.as_deref(), Some("c.txt"));
    assert_eq!(cli.ignored, vec!["b.txt".to_string(), "d.txt".to_string()]);
    assert!(matches!(parse_args(&["x".into(), "--help".into()]), CliAction::Help));
}
