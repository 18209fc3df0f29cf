//! The program's command-line arguments.
use crate::chars::chars_eq;
use crate::command::strings_view;
use crate::strutil::chars_of;
use crate::types::Keymap;
use vstd::prelude::*;

verus! {

/// What the arguments ask to edit.
#[derive(Debug)]
pub struct Cli {
    /// The keymap named by a `vim` or `emacs` argument.
    pub keymap: Option<Keymap>,
    pub file: Option<String>,
    /// Positional arguments beyond the file, which are not used.
    pub ignored: Vec<String>,
}

/// What the program is asked to do.
#[derive(Debug)]
pub enum CliAction {
    Edit(Cli),
    Help,
    Version,
}

/// `CliAction` as values.
pub enum CliActionView {
    Edit { keymap: Option<Keymap>, file: Option<Seq<char>>, ignored: Seq<Seq<char>> },
    Help,
    Version,
}

pub open spec fn opt_view(o: Option<String>) -> Option<Seq<char>> {
    match o {
        Some(s) => Some(s@),
        None => None,
    }
}

impl View for CliAction {
    type V = CliActionView;

    open spec fn view(&self) -> CliActionView {
        match self {
            CliAction::Edit(c) => CliActionView::Edit {
                keymap: c.keymap,
                file: opt_view(c.file),
                ignored: strings_view(c.ignored@),
            },
            CliAction::Help => CliActionView::Help,
            CliAction::Version => CliActionView::Version,
        }
    }
}

/// What the arguments read so far give: the keymap, the first file, a file
/// given after a keymap argument, and the arguments that are not used.
pub struct ScanView {
    pub keymap: Option<Keymap>,
    pub file: Option<Seq<char>>,
    pub taken: Option<Seq<char>>,
    pub ignored: Seq<Seq<char>>,
}

/// Reads `args` from index `i` on: `-h`/`--help` and `-v`/`--version` end
/// the reading; `vim` and `emacs` choose a keymap; the first other argument
/// is the file, one more after a keymap argument replaces it, and any
/// further ones are not used.
pub open spec fn scan_args(args: Seq<Seq<char>>, i: int, st: ScanView) -> CliActionView
    decreases args.len() - i,
{
    if i < 0 || i >= args.len() {
        CliActionView::Edit {
            keymap: st.keymap,
            file: if st.taken is Some { st.taken } else { st.file },
            ignored: st.ignored,
        }
    } else {
        let a = args[i];
        if a == "-h"@ || a == "--help"@ {
            CliActionView::Help
        } else if a == "-v"@ || a == "--version"@ {
            CliActionView::Version
        } else if a == "vim"@ {
            scan_args(args, i + 1, ScanView { keymap: Some(Keymap::Vim), ..st })
        } else if a == "emacs"@ {
            scan_args(args, i + 1, ScanView { keymap: Some(Keymap::Emacs), ..st })
        } else if st.file is None {
            scan_args(args, i + 1, ScanView { file: Some(a), ..st })
        } else if st.keymap is Some && st.taken is None {
            scan_args(args, i + 1, ScanView { taken: Some(a), ..st })
        } else {
            scan_args(args, i + 1, ScanView { ignored: st.ignored.push(a), ..st })
        }
    }
}

/// What the program's arguments (without the program name) ask for.
pub open spec fn cli_of(args: Seq<Seq<char>>) -> CliActionView {
    scan_args(args, 0, ScanView { keymap: None, file: None, taken: None, ignored: Seq::empty() })
}

fn is_arg(a: &String, lit: &str) -> (r: bool)
    ensures
        r == (a@ == lit@),
{
    let x = chars_of(a.as_str());
    let y = chars_of(lit);
    chars_eq(x.as_slice(), y.as_slice())
}

/// Reads the program's arguments (without the program name).
pub fn parse_args(args: &[String]) -> (r: CliAction)
    ensures
        r@ == cli_of(strings_view(args@)),
{
    let ghost av = strings_view(args@);
    let mut keymap: Option<Keymap> = None;
    let mut file: Option<String> = None;
    let mut taken: Option<String> = None;
    let mut ignored: Vec<String> = Vec::new();
    let mut i: usize = 0;
    proof {
        assert(strings_view(ignored@) =~= Seq::<Seq<char>>::empty());
    }
    while i < args.len()
        invariant
            0 <= i <= args@.len(),
            av == strings_view(args@),
            scan_args(av, i as int, ScanView { keymap, file: opt_view(file), taken: opt_view(taken), ignored: strings_view(ignored@) })
                == cli_of(av),
        decreases args@.len() - i,
    {
        let a = &args[i];
        proof {
            assert(av[i as int] == a@);
        }
        if is_arg(a, "-h") || is_arg(a, "--help") {
            return CliAction::Help;
        }
        if is_arg(a, "-v") || is_arg(a, "--version") {
            return CliAction::Version;
        }
        if is_arg(a, "vim") {
            keymap = Some(Keymap::Vim);
        } else if is_arg(a, "emacs") {
            keymap = Some(Keymap::Emacs);
        } else if file.is_none() {
            file = Some(a.clone());
        } else if keymap.is_some() && taken.is_none() {
            taken = Some(a.clone());
        } else {
            let ghost g0 = strings_view(ignored@);
            ignored.push(a.clone());
            proof {
                assert(strings_view(ignored@) =~= g0.push(a@));
            }
        }
        i += 1;
    }
    let file = if taken.is_some() {
        taken
    } else {
        file
    };
    CliAction::Edit(Cli { keymap, file, ignored })
}

} // verus!
