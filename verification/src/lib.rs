//! A modal text editor core: text buffer, undo tree, registers, kill ring,
//! window layout, review-mode diff parsing and annotation storage.

pub mod text;
pub mod strutil;
pub mod chars;
pub mod rope;
pub mod paths;
pub mod buffer;
pub mod assoc;
pub mod types;
pub mod layout;
pub mod state;
pub mod register;
pub mod undo;
pub mod review;
pub mod git;
pub mod clock;
pub mod width;
pub mod plugin;
pub mod highlight;
pub mod engine;
pub mod motion;
pub mod emacs;
pub mod search;
pub mod config;
pub mod keymap;
pub mod command;
pub mod normal;
pub mod cli;
pub mod textobj;
pub mod visual;
pub mod vim_edit;
pub mod step;
pub mod substitute;
pub mod dashboard;
pub mod line_edit;
pub mod ex;
pub mod gutter;
pub mod screen;
