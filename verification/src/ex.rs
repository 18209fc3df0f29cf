//! Carrying out a parsed `:` command: what the engine does itself, and
//! what it leaves to the caller (writing and reading files, git, plugins).
use crate::command::{quit_question, reload_question, ExCommand, ExCommandView};
use crate::engine::Engine;
use crate::substitute::substitutes;
use crate::types::{history_after, msg_views, ConfirmAction, EditorState, Keymap, MessageLevel, Mode};
use crate::strutil::push_str;
use vstd::prelude::*;

verus! {

/// What the caller does after a `:` command.
#[derive(Debug, Clone, Copy, PartialEq, Eq, Structural)]
pub enum ExOutcome {
    /// Nothing more.
    Done,
    /// Leave the editor.
    Stop,
    /// Write the buffer, then leave when `true`.
    Save(bool),
    /// Read the file again.
    Reload,
    /// Use this keymap from now on.
    SwitchKeymap(Keymap),
    /// The command needs what only the caller has (files, git, plugins,
    /// windows and buffers); nothing was done.
    Elsewhere,
}

/// What the caller does after `cmd`, the buffer being saved when `clean`.
pub open spec fn ex_outcome(cmd: ExCommandView, clean: bool) -> ExOutcome {
    match cmd {
        ExCommandView::Quit => if clean {
            ExOutcome::Stop
        } else {
            ExOutcome::Done
        },
        ExCommandView::ForceQuit => ExOutcome::Stop,
        ExCommandView::QuitAll => ExOutcome::Stop,
        ExCommandView::Write => ExOutcome::Save(false),
        ExCommandView::WriteQuit => ExOutcome::Save(true),
        ExCommandView::Reload => ExOutcome::Reload,
        ExCommandView::ReloadDiscard => if clean {
            ExOutcome::Reload
        } else {
            ExOutcome::Done
        },
        ExCommandView::Keymap(n) => if n == "vim"@ {
            ExOutcome::SwitchKeymap(Keymap::Vim)
        } else if n == "emacs"@ {
            ExOutcome::SwitchKeymap(Keymap::Emacs)
        } else {
            ExOutcome::Done
        },
        ExCommandView::Warn(_) => ExOutcome::Done,
        ExCommandView::Nothing => ExOutcome::Done,
        ExCommandView::NoHlsearch => ExOutcome::Done,
        ExCommandView::Substitute(_) => ExOutcome::Done,
        _ => ExOutcome::Elsewhere,
    }
}

/// `a` is `b` with message `m` added at `level`.
pub open spec fn told(b: Engine, a: Engine, level: MessageLevel, m: Seq<char>) -> bool {
    &&& a.state.last_message matches Some(x) && x@ == m
    &&& msg_views(a.state.message_history@) == history_after(msg_views(b.state.message_history@), level, m)
    &&& a == (Engine {
        state: EditorState {
            message_history: a.state.message_history,
            last_message: a.state.last_message,
            ..b.state
        },
        ..b
    })
}

/// `a` is `m` with the outcome of a substitution added as a message: the
/// report as information, an error as a warning.
pub open spec fn reported(m: Engine, a: Engine, r: Result<String, String>) -> bool {
    match r {
        Ok(x) => told(m, a, MessageLevel::Info, x@),
        Err(x) => told(m, a, MessageLevel::Warning, x@),
    }
}

/// `a` is `b` after the engine's part of `cmd`.
pub open spec fn ex_effect(b: Engine, a: Engine, cmd: ExCommandView) -> bool {
    match cmd {
        ExCommandView::Quit => if b.buffer.clean() {
            a == (Engine { state: EditorState { mode: Mode::Normal, ..b.state }, ..b })
        } else {
            &&& a == (Engine { state: EditorState { confirmation_prompt: a.state.confirmation_prompt, ..b.state }, ..b })
            &&& a.state.confirmation_prompt matches Some(p) && p.message@ == quit_question()
                && p.action == ConfirmAction::Quit
        },
        ExCommandView::ReloadDiscard => if b.buffer.clean() {
            a == b
        } else {
            &&& a == (Engine { state: EditorState { confirmation_prompt: a.state.confirmation_prompt, ..b.state }, ..b })
            &&& a.state.confirmation_prompt matches Some(p) && p.message@ == reload_question()
                && p.action == ConfirmAction::ReloadDiscard
        },
        ExCommandView::Keymap(n) => if n == "vim"@ || n == "emacs"@ {
            &&& a.state.mode == Mode::Normal
            &&& a.state.visual_start is None
            &&& a.state.visual_type is None
            &&& a.state.command_buffer@.len() == 0
            &&& a.state.command_cursor_pos == 0
            &&& a.operator_state.pending == crate::types::PendingOperator::Idle
            &&& a.operator_state.count is None
            &&& a.buffer == b.buffer
            &&& a.undo_manager == b.undo_manager
            &&& a.state.cursor == b.state.cursor
        } else {
            told(b, a, MessageLevel::Warning, "Unknown keymap: "@ + n + " (use vim or emacs)"@)
        },
        ExCommandView::Warn(m) => told(b, a, MessageLevel::Warning, m),
        ExCommandView::NoHlsearch => a == (Engine { state: EditorState { hlsearch: false, ..b.state }, ..b }),
        ExCommandView::Substitute(c) => exists|m: Engine, r: Result<String, String>|
            #[trigger] substitutes(b, m, c, r) && reported(m, a, r),
        _ => a == b,
    }
}

impl Engine {
    /// `:s`: substitutes, then reports the outcome as a message.
    fn report_substitute(&mut self, c: &String)
        requires
            old(self).wf(),
        ensures
            ex_effect(*old(self), *final(self), ExCommandView::Substitute(c@)),
    {
        let ghost b = *self;
        let r = self.substitute(c.as_str());
        let ghost m = *self;
        let ghost rr = r;
        match r {
            Ok(x) => self.state.push_message(MessageLevel::Info, x),
            Err(x) => self.state.push_message(MessageLevel::Warning, x),
        }
        proof {
            assert(reported(m, *self, rr));
            assert(substitutes(b, m, c@, rr));
            assert(exists|m2: Engine, r2: Result<String, String>|
                #[trigger] substitutes(b, m2, c@, r2) && reported(m2, *self, r2));
            let cv = ExCommandView::Substitute(c@);
            assert(cv matches ExCommandView::Substitute(cc) && cc == c@);
            assert(ex_effect(b, *self, cv));
        }
    }

    /// `:keymap name`.
    fn switch_keymap(&mut self, name: &String) -> (r: ExOutcome)
        ensures
            r == ex_outcome(ExCommandView::Keymap(name@), old(self).buffer.clean()),
            ex_effect(*old(self), *final(self), ExCommandView::Keymap(name@)),
    {
        let ghost b = *self;
        let cs = crate::strutil::chars_of(name.as_str());
        let vim = crate::strutil::chars_of("vim");
        let emacs = crate::strutil::chars_of("emacs");
        let r = if crate::chars::chars_eq(cs.as_slice(), vim.as_slice()) {
            self.reset_state_for_keymap_switch();
            ExOutcome::SwitchKeymap(Keymap::Vim)
        } else if crate::chars::chars_eq(cs.as_slice(), emacs.as_slice()) {
            self.reset_state_for_keymap_switch();
            ExOutcome::SwitchKeymap(Keymap::Emacs)
        } else {
            let mut m = String::from_str("Unknown keymap: ");
            push_str(&mut m, name.as_str());
            push_str(&mut m, " (use vim or emacs)");
            proof {
                reveal_strlit("Unknown keymap: ");
            }
            self.state.push_message(MessageLevel::Warning, m);
            ExOutcome::Done
        };
        proof {
            let cv = ExCommandView::Keymap(name@);
            assert(cv matches ExCommandView::Keymap(n) && n == name@);
            assert(ex_effect(b, *self, cv));
        }
        r
    }

    /// A warning as a message.
    fn warn(&mut self, m: &String)
        ensures
            ex_effect(*old(self), *final(self), ExCommandView::Warn(m@)),
    {
        let ghost b = *self;
        let t = crate::strutil::chars_of(m.as_str());
        self.state.push_message(MessageLevel::Warning, crate::strutil::string_of(t.as_slice()));
        proof {
            let cv = ExCommandView::Warn(m@);
            assert(cv matches ExCommandView::Warn(x) && x == m@);
            assert(ex_effect(b, *self, cv));
        }
    }

    /// Carries out the engine's part of a `:` command and says what the
    /// caller does next (see `ex_outcome` and `ex_effect`): quitting and
    /// reloading ask first when there are unsaved changes, `keymap` resets
    /// the modes, warnings and substitution reports become messages.
    #[verifier::spinoff_prover]
    #[verifier::rlimit(60)]
    pub fn execute_ex(&mut self, cmd: &ExCommand) -> (r: ExOutcome)
        requires
            old(self).wf(),
        ensures
            r == ex_outcome(cmd@, old(self).buffer.clean()),
            ex_effect(*old(self), *final(self), cmd@),
    {
        match cmd {
            ExCommand::Quit => {
                let stop = self.request_quit();
                if stop {
                    ExOutcome::Stop
                } else {
                    ExOutcome::Done
                }
            },
            ExCommand::ForceQuit => ExOutcome::Stop,
            ExCommand::QuitAll => ExOutcome::Stop,
            ExCommand::Write => ExOutcome::Save(false),
            ExCommand::WriteQuit => ExOutcome::Save(true),
            ExCommand::Reload => ExOutcome::Reload,
            ExCommand::ReloadDiscard => {
                let reload = self.request_reload();
                if reload {
                    ExOutcome::Reload
                } else {
                    ExOutcome::Done
                }
            },
            ExCommand::Keymap(name) => self.switch_keymap(name),
            ExCommand::Warn(m) => {
                self.warn(m);
                ExOutcome::Done
            },
            ExCommand::Nothing => ExOutcome::Done,
            ExCommand::NoHlsearch => {
                self.state.hlsearch = false;
                ExOutcome::Done
            },
            ExCommand::Substitute(c) => {
                self.report_substitute(c);
                ExOutcome::Done
            },
            _ => ExOutcome::Elsewhere,
        }
    }
}

} // verus!
