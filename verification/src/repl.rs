//! The read loop's decisions: what to do with a line that was read.
use crate::parse::{parse_pipeline, pipeline_of, CommandSpec, Stage};
use crate::text::{same_text, string_of, to_chars, trim, trim_chars};
use vstd::prelude::*;

verus! {

/// Whether `line` ends the session: it reads `exit`, white space at its ends
/// apart.
pub open spec fn exits(line: Seq<char>) -> bool {
    trim(line) == "exit"@
}

/// What the read loop does after a read.
#[derive(Debug, Clone, PartialEq, Eq)]
pub enum Turn {
    /// Ends the session.
    Exit,
    /// Prompts again: the line held no command.
    Skip,
    /// Runs this pipeline, then prompts again.
    Run(Vec<CommandSpec>),
}

/// The view of a [`Turn`].
pub enum TurnView {
    Exit,
    Skip,
    Run(Seq<Stage>),
}

impl View for Turn {
    type V = TurnView;

    open spec fn view(&self) -> TurnView {
        match *self {
            Turn::Exit => TurnView::Exit,
            Turn::Skip => TurnView::Skip,
            Turn::Run(pipeline) => TurnView::Run(pipeline.deep_view()),
        }
    }
}

/// What the read loop does with what it read; `None` is the end of the
/// input. The session ends at the end of the input and at `exit`. A line
/// whose pipeline is empty is passed over. Any other is run.
pub open spec fn turn_for(line: Option<Seq<char>>) -> TurnView {
    match line {
        None => TurnView::Exit,
        Some(line) => if exits(line) {
            TurnView::Exit
        } else if pipeline_of(line).len() == 0 {
            TurnView::Skip
        } else {
            TurnView::Run(pipeline_of(line))
        },
    }
}

/// What the shell prints before it reads a line.
pub fn prompt() -> (text: &'static str)
    ensures
        text@ == "$ "@,
{
    "$ "
}

/// Tells whether `line` ends the session.
pub fn should_exit(line: &str) -> (b: bool)
    ensures
        b == exits(line@),
{
    let chars = to_chars(line);
    let word = string_of(trim_chars(chars.as_slice()));
    same_text(word.as_str(), "exit")
}

/// Decides what the read loop does with what it read; `None` is the end of
/// the input.
pub fn interpret(line: Option<&str>) -> (turn: Turn)
    ensures
        turn@ == turn_for(line.deep_view()),
{
    match line {
        None => Turn::Exit,
        Some(line) => {
            if should_exit(line) {
                Turn::Exit
            } else {
                let pipeline = parse_pipeline(line);
                if pipeline.len() == 0 {
                    Turn::Skip
                } else {
                    Turn::Run(pipeline)
                }
            }
        },
    }
}

} // verus!
