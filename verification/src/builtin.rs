//! The builtins: commands that the interpreter runs itself.

use crate::stage::{Stage, StageView};
use vstd::prelude::*;

verus! {

/// What a stage asks for.
#[derive(Debug, Clone, Copy, PartialEq, Eq, Structural)]
pub enum Kind {
    /// `cd`: change the working directory.
    ChangeDir,
    /// `exit`: leave the interpreter.
    Exit,
    /// Anything else: a program to start.
    External,
}

/// The name of the builtin that changes the working directory.
pub open spec fn cd_name() -> Seq<char> {
    seq!['c', 'd']
}

/// The name of the builtin that leaves the interpreter.
pub open spec fn exit_name() -> Seq<char> {
    seq!['e', 'x', 'i', 't']
}

/// The directory that `cd` goes to when it is given no argument.
pub open spec fn root_dir() -> Seq<char> {
    seq!['/']
}

/// The kind of a stage, by its program name alone.
pub open spec fn kind_of(stage: StageView) -> Kind {
    if stage.program == cd_name() {
        Kind::ChangeDir
    } else if stage.program == exit_name() {
        Kind::Exit
    } else {
        Kind::External
    }
}

/// The directory that a `cd` stage asks for: its first argument, or the root
/// directory where it has none. Further arguments are ignored.
pub open spec fn cd_target(stage: StageView) -> Seq<char> {
    if stage.args.len() > 0 {
        stage.args[0]
    } else {
        root_dir()
    }
}

/// Tells a builtin from a program to start.
pub fn classify(stage: &Stage) -> (kind: Kind)
    ensures
        kind == kind_of(stage@),
{
    let name = stage.program.as_str();
    let n = name.unicode_len();
    if n == 2 && name.get_char(0) == 'c' && name.get_char(1) == 'd' {
        assert(name@ =~= cd_name());
        Kind::ChangeDir
    } else if n == 4 && name.get_char(0) == 'e' && name.get_char(1) == 'x' && name.get_char(2)
        == 'i' && name.get_char(3) == 't' {
        assert(name@ =~= exit_name());
        Kind::Exit
    } else {
        Kind::External
    }
}

/// The directory that a `cd` stage asks for.
pub fn target(stage: &Stage) -> (path: String)
    ensures
        path@ == cd_target(stage@),
{
    if stage.args.len() > 0 {
        stage.args[0].clone()
    } else {
        proof {
            reveal_strlit("/");
        }
        "/".to_owned()
    }
}

} // verus!
