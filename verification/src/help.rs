//! The data behind the command-line help screens.
use vstd::prelude::*;

verus! {

/// One command's help entry: its name, the one-line usage clue, a short
/// blurb, and the long-form help text.
#[derive(Debug, Clone)]
pub struct Hint {
    pub cmd: &'static str,
    pub clue: &'static str,
    pub blurb: &'static str,
    pub help: Vec<&'static str>,
}

/// The help entries for the help screens themselves.
pub fn hint() -> (v: Vec<Hint>)
    ensures
        v@.len() == 2,
        v@[0].cmd@ == "help"@,
        v@[1].cmd@ == "man"@,
{
    vec![
        Hint {
            cmd: "help",
            clue: "help [cmd]",
            blurb: "The help screen, or help on a particular command if one is supplied.",
            help: vec![],
        },
        Hint {
            cmd: "man",
            clue: "man [cmd]",
            blurb: "The full help description, or full help on a particular command.",
            help: vec![
                "A long form description of the various commands.",
                "If a command name is supplied, provice the full help for that",
                "command only.",
            ],
        },
    ]
}

} // verus!
