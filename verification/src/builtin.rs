//! The commands that the shell carries out itself: `echo` and `type`.
use crate::parse::{CommandSpec, Stage};
use crate::shell::Shell;
use crate::text::{concat, join_words, joined, same_text};
use vstd::prelude::*;

verus! {

/// Whether `name` is known to `type` as a builtin. `exit` is one of them,
/// though it is the read loop that acts on it.
pub open spec fn builtin_name(name: Seq<char>) -> bool {
    name == "echo"@ || name == "exit"@ || name == "type"@
}

/// Whether the shell carries out a command of this name itself.
pub open spec fn intrinsic(name: Seq<char>) -> bool {
    name == "echo"@ || name == "type"@
}

/// The name that `type` has to look up on the search path before it can
/// answer: its first argument, unless that names a builtin. Other commands,
/// and `type` alone, need none.
pub open spec fn type_target(stage: Stage) -> Option<Seq<char>> {
    if stage.cmd == "type"@ && stage.args.len() > 0 && !builtin_name(stage.args[0]) {
        Some(stage.args[0])
    } else {
        None
    }
}

/// What a builtin prints, given where the search path led for the name that
/// `type` asked for. `echo` prints its arguments with a space between each
/// two, and nothing at all when it has none. `type` tells of its first
/// argument that it is a builtin, or where it was found, or that it was not;
/// with no argument it prints nothing. No other command is a builtin.
pub open spec fn builtin_output(stage: Stage, resolved: Option<Seq<char>>) -> Option<Seq<char>> {
    if stage.cmd == "echo"@ {
        if stage.args.len() == 0 {
            None
        } else {
            Some(joined(stage.args))
        }
    } else if stage.cmd == "type"@ {
        if stage.args.len() == 0 {
            None
        } else if builtin_name(stage.args[0]) {
            Some(stage.args[0] + " is a shell builtin"@)
        } else {
            match resolved {
                Some(path) => Some(stage.args[0] + " is "@ + path),
                None => Some(stage.args[0] + ": not found"@),
            }
        }
    } else {
        None
    }
}

/// Tells whether `name` is the name of a builtin.
pub fn is_builtin_name(name: &str) -> (b: bool)
    ensures
        b == builtin_name(name@),
{
    same_text(name, "echo") || same_text(name, "exit") || same_text(name, "type")
}

/// Tells whether the shell carries out a command of this name itself.
pub fn is_intrinsic(name: &str) -> (b: bool)
    ensures
        b == intrinsic(name@),
{
    same_text(name, "echo") || same_text(name, "type")
}

impl Shell {
    /// The name that has to be looked up before `eval_builtin` can answer
    /// for `command`, if there is one.
    pub fn lookup_for<'a>(&self, command: &'a CommandSpec) -> (name: Option<&'a str>)
        ensures
            name.deep_view() == type_target(command@),
    {
        if same_text(command.cmd.as_str(), "type") && command.args.len() > 0 {
            let target = command.args[0].as_str();
            if is_builtin_name(target) {
                None
            } else {
                Some(target)
            }
        } else {
            None
        }
    }

    /// Evaluates `command` as a builtin. `resolved` is where the search path
    /// led for the name given by `lookup_for`: it is read for that name
    /// alone. The result is the line to print, if any; `None` stands for a
    /// builtin that prints nothing as well as for a command that is no
    /// builtin.
    pub fn eval_builtin(&self, command: &CommandSpec, resolved: Option<&str>) -> (output: Option<
        String,
    >)
        ensures
            output.deep_view() == builtin_output(command@, resolved.deep_view()),
    {
        let cmd = command.cmd.as_str();
        if same_text(cmd, "echo") {
            if command.args.len() == 0 {
                None
            } else {
                Some(join_words(command.args.as_slice()))
            }
        } else if same_text(cmd, "type") {
            if command.args.len() == 0 {
                return None;
            }
            let target = command.args[0].as_str();
            if is_builtin_name(target) {
                Some(concat(target, " is a shell builtin"))
            } else {
                match resolved {
                    Some(path) => {
                        let mut line = concat(target, " is ");
                        line.append(path);
                        Some(line)
                    },
                    None => Some(concat(target, ": not found")),
                }
            }
        } else {
            None
        }
    }
}

} // verus!
