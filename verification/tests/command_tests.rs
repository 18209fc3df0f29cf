use ijevim::buffer::TextBuffer;
use ijevim::command::{
    confirmation_answer, confirmation_outcome, parse_ex_command, ConfirmOutcome, ExCommand, SetOption, Toggle,
};
use ijevim::engine::Engine;
use ijevim::keymap::Key;
use ijevim::plugin::PluginManager;
use ijevim::types::{ConfirmAction, EditorState, Mode, SearchDirection};

fn engine() -> Engine {
    Engine::new(TextBuffer::new(), PluginManager::new(), EditorState::default())
}

#[test]
fn dirty_quit_confirmation_message_matches_expected() {
    let mut e = engine();
    e.buffer.insert(1, 0, "x");
    assert!(!e.request_quit());
    let prompt = e.state.confirmation_prompt.as_ref().expect("prompt should exist");
    assert_eq!(prompt.message, "No write since last change. Quit anyway? (y/n Enter/Esc: yes, n: no)");
    assert!(matches!(prompt.action, ConfirmAction::Quit));
}

#[test]
fn emacs_quit_uses_same_dirty_confirmation_flow_as_vim() {
    let mut e = engine();
    e.buffer.insert(1, 0, "x");
    e.request_quit();
    assert!(e.state.has_confirmation());
    let prompt = e.state.confirmation_prompt.as_ref().unwrap();
    assert!(matches!(prompt.action, ConfirmAction::Quit));
}

#[test]
fn clean_quit_stops_at_once() {
    let mut e = engine();
    e.state.mode = Mode::Insert;
    assert!(e.request_quit());
    assert_eq!(e.state.mode, Mode::Normal);
    assert!(!e.state.has_confirmation());
}

#[test]
fn reload_asks_only_with_changes() {
    let mut e = engine();
    assert!(e.request_reload());
    e.buffer.insert(1, 0, "x");
    assert!(!e.request_reload());
    assert_eq!(
        e.state.confirmation_prompt.as_ref().unwrap().message,
        "No write since last change. Reload anyway? (y/n)"
    );
}

#[test]
fn confirmation_answers() {
    assert_eq!(confirmation_answer(Key::Char('y')), Some(true));
    assert_eq!(confirmation_answer(Key::Enter), Some(true));
    assert_eq!(confirmation_answer(Key::Esc), Some(false));
    assert_eq!(confirmation_answer(Key::Char('x')), None);
    assert_eq!(confirmation_outcome(ConfirmAction::Quit, true), ConfirmOutcome::Stop);
    assert_eq!(confirmation_outcome(ConfirmAction::Quit, false), ConfirmOutcome::Stay);
    assert_eq!(confirmation_outcome(ConfirmAction::QuitDiscard, false), ConfirmOutcome::Stop);
    assert_eq!(confirmation_outcome(ConfirmAction::WriteQuitAll, true), ConfirmOutcome::SaveThenStop);
    assert_eq!(confirmation_outcome(ConfirmAction::ReloadDiscard, true), ConfirmOutcome::Reload);
}

#[test]
fn simple_commands() {
    assert!(matches!(parse_ex_command("q"), ExCommand::Quit));
    assert!(matches!(parse_ex_command(" :q! "), ExCommand::ForceQuit));
    assert!(matches!(parse_ex_command("wq"), ExCommand::WriteQuit));
    assert!(matches!(parse_ex_command("wa"), ExCommand::WriteQuit));
    assert!(matches!(parse_ex_command("bprev"), ExCommand::BufferPrev));
    assert!(matches!(parse_ex_command("vs"), ExCommand::VSplit));
    assert!(matches!(parse_ex_command("noh"), ExCommand::NoHlsearch));
    assert!(matches!(parse_ex_command("e!"), ExCommand::ReloadDiscard));
}

#[test]
fn commands_with_arguments() {
    match parse_ex_command("keymap  emacs ") {
        ExCommand::Keymap(k) => assert_eq!(k, "emacs"),
        other => panic!("{:?}", other),
    }
    match parse_ex_command("e src/x.rs") {
        ExCommand::Edit(p) => assert_eq!(p, "src/x.rs"),
        other => panic!("{:?}", other),
    }
    match parse_ex_command("e.") {
        ExCommand::Edit(p) => assert_eq!(p, "."),
        other => panic!("{:?}", other),
    }
    match parse_ex_command("/foo bar") {
        ExCommand::Search(q, SearchDirection::Forward) => assert_eq!(q, "foo bar"),
        other => panic!("{:?}", other),
    }
    match parse_ex_command("?x") {
        ExCommand::Search(q, SearchDirection::Backward) => assert_eq!(q, "x"),
        other => panic!("{:?}", other),
    }
    match parse_ex_command("review --staged") {
        ExCommand::Review(a) => assert_eq!(a, "--staged"),
        other => panic!("{:?}", other),
    }
    match parse_ex_command("w! out.txt") {
        ExCommand::WritePath(p) => assert_eq!(p, "out.txt"),
        other => panic!("{:?}", other),
    }
    match parse_ex_command("wq new.txt") {
        ExCommand::WriteQuitPath(p) => assert_eq!(p, "new.txt"),
        other => panic!("{:?}", other),
    }
    match parse_ex_command("%s/a/b/g") {
        ExCommand::Substitute(s) => assert_eq!(s, "%s/a/b/g"),
        other => panic!("{:?}", other),
    }
}

#[test]
fn git_commands() {
    match parse_ex_command("branch") {
        ExCommand::Git { args, reload } => {
            assert_eq!(args, vec!["branch"]);
            assert!(!reload);
        }
        other => panic!("{:?}", other),
    }
    match parse_ex_command("branch -d old") {
        ExCommand::Git { args, .. } => assert_eq!(args, vec!["branch", "-d", "old"]),
        other => panic!("{:?}", other),
    }
    match parse_ex_command("branch -D") {
        ExCommand::Git { args, .. } => assert_eq!(args, vec!["branch", "-D", ""]),
        other => panic!("{:?}", other),
    }
    match parse_ex_command("branch feature") {
        ExCommand::Git { args, reload } => {
            assert_eq!(args, vec!["checkout", "feature"]);
            assert!(reload);
        }
        other => panic!("{:?}", other),
    }
    match parse_ex_command("git  checkout   main ") {
        ExCommand::Git { args, reload } => {
            assert_eq!(args, vec!["checkout", "main"]);
            assert!(reload);
        }
        other => panic!("{:?}", other),
    }
    match parse_ex_command("git log") {
        ExCommand::Git { args, reload } => {
            assert_eq!(args, vec!["log"]);
            assert!(!reload);
        }
        other => panic!("{:?}", other),
    }
}

#[test]
fn plugin_commands_and_warnings() {
    match parse_ex_command("hello a  b") {
        ExCommand::Plugin { name, args } => {
            assert_eq!(name, "hello");
            assert_eq!(args, vec!["a", "", "b"]);
        }
        other => panic!("{:?}", other),
    }
    match parse_ex_command("greet") {
        ExCommand::Plugin { name, args } => {
            assert_eq!(name, "greet");
            assert!(args.is_empty());
        }
        other => panic!("{:?}", other),
    }
    match parse_ex_command("w!  ") {
        ExCommand::Write => {}
        other => panic!("{:?}", other),
    }
}

#[test]
fn set_options_apply() {
    let mut s = EditorState::default();
    let number = s.show_line_numbers;
    match parse_ex_command("set number!") {
        ExCommand::Configure(o) => s.apply_set(&o),
        other => panic!("{:?}", other),
    }
    assert_eq!(s.show_line_numbers, !number);
    match parse_ex_command("set ts=4") {
        ExCommand::Configure(o) => s.apply_set(&o),
        other => panic!("{:?}", other),
    }
    assert_eq!(s.tabstop, 4);
    match parse_ex_command("set sw=x") {
        ExCommand::Configure(SetOption::Shiftwidth(Err(v))) => assert_eq!(v, "x"),
        other => panic!("{:?}", other),
    }
    match parse_ex_command("set et") {
        ExCommand::Configure(SetOption::Expandtab(Toggle::On)) => {}
        other => panic!("{:?}", other),
    }
    match parse_ex_command("set bogus") {
        ExCommand::Configure(o) => s.apply_set(&o),
        other => panic!("{:?}", other),
    }
    assert_eq!(s.last_message.as_deref(), Some("Unknown set option: bogus"));
}
