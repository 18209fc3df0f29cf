//! Interpreting what `git` printed. Running it is left to the caller.
use crate::chars::{trim_chars, trim_spec};
use crate::strutil::{from_utf8_lossy, push_str, string_of, utf8_lossy};
use vstd::prelude::*;

verus! {

/// What a finished `git` process left: its exit status and output streams.
pub struct GitOutput {
    pub success: bool,
    pub stdout: Vec<u8>,
    pub stderr: Vec<u8>,
}

/// The result of a git command that must succeed: its standard output when
/// it succeeded, else its trimmed standard error; `output` is the process,
/// or the reason it could not be started.
pub fn run(output: Result<GitOutput, String>) -> (r: Result<String, String>)
    ensures
        output matches Err(e) ==> (r matches Err(m) && m@ == "Failed to run git: "@ + e@),
        output matches Ok(o) ==> (o.success ==> (r matches Ok(s) && s@ == utf8_lossy(o.stdout@))),
        output matches Ok(o) ==> (!o.success ==> (r matches Err(m) && m@ == trim_spec(utf8_lossy(o.stderr@)))),
{
    match output {
        Err(e) => {
            let mut m = String::new();
            proof {
                assert(m@ =~= Seq::<char>::empty());
            }
            push_str(&mut m, "Failed to run git: ");
            push_str(&mut m, e.as_str());
            Err(m)
        },
        Ok(o) => {
            if o.success {
                Ok(from_utf8_lossy(o.stdout.as_slice()))
            } else {
                let text = from_utf8_lossy(o.stderr.as_slice());
                let cs = crate::strutil::chars_of(text.as_str());
                let t = trim_chars(cs.as_slice());
                Err(string_of(t.as_slice()))
            }
        },
    }
}

/// The repository root from `git rev-parse --show-toplevel`: its trimmed
/// output when it succeeded and printed something; `output` is none when
/// git could not be started.
pub fn find_root(output: Option<GitOutput>) -> (r: Option<String>)
    ensures
        r is Some <==> (output matches Some(o) && o.success && trim_spec(utf8_lossy(o.stdout@)).len() > 0),
        r matches Some(p) ==> p@ == trim_spec(utf8_lossy(output->Some_0.stdout@)),
{
    match output {
        None => None,
        Some(o) => {
            if o.success {
                let text = from_utf8_lossy(o.stdout.as_slice());
                let cs = crate::strutil::chars_of(text.as_str());
                let t = trim_chars(cs.as_slice());
                if t.len() == 0 {
                    None
                } else {
                    Some(string_of(t.as_slice()))
                }
            } else {
                None
            }
        },
    }
}

} // verus!
