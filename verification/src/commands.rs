//! The commands that the host can run, and what each answers.

use vstd::prelude::*;
use vstd::string::*;
use vstd::utf8::encode_utf8;
use crate::discovery::{all_environments, ProcessOutput, Worktree};
use crate::environment::{EnvironmentModel, PythonEnvironmentSelectExtension};
use crate::paths::FileSet;
use crate::render::{join_strings, join_with, render, rendered, texts};

verus! {

/// A command that the extension knows.
#[derive(Clone, Copy, Debug, PartialEq, Eq, Structural)]
pub enum Command {
    /// `pyenvcur`: echoes its arguments.
    Current,
    /// `pyenvlst`: lists the environments.
    List,
    /// `pyenvselect`: echoes its arguments.
    Select,
}

/// A labelled range of bytes of an output text.
#[derive(Debug)]
pub struct OutputSection {
    pub start: usize,
    pub end: usize,
    pub label: String,
}

/// What a command answers: a text, and the sections that label it.
#[derive(Debug)]
pub struct CommandOutput {
    pub sections: Vec<OutputSection>,
    pub text: String,
}

/// A completion that a command offers for its argument.
#[derive(Debug)]
pub struct ArgumentCompletion {
    pub label: String,
    pub new_text: String,
    pub run_command: bool,
}

/// The command of a given name, if there is one.
pub open spec fn command_of(name: Seq<char>) -> Option<Command> {
    if name == "pyenvcur"@ {
        Some(Command::Current)
    } else if name == "pyenvlst"@ {
        Some(Command::List)
    } else if name == "pyenvselect"@ {
        Some(Command::Select)
    } else {
        None
    }
}

/// The error for a name that is no command's.
pub open spec fn unknown_command(name: Seq<char>) -> Seq<char> {
    "unknown command: "@ + name
}

/// The text and the label that a command answers with, or its error.
pub open spec fn command_answer(
    name: Seq<char>,
    args: Seq<Seq<char>>,
    envs: Seq<EnvironmentModel>,
) -> Result<(Seq<char>, Seq<char>), Seq<char>> {
    match command_of(name) {
        None => Err(unknown_command(name)),
        Some(Command::List) => Ok((rendered(envs), "Python Environments"@)),
        Some(_) => if args.len() == 0 {
            Err("nothing to echo"@)
        } else {
            Ok((join_with(args, " "@), "Echo"@))
        },
    }
}

/// An output with one section, which covers the whole text.
pub open spec fn is_whole_text(out: CommandOutput, text: Seq<char>, label: Seq<char>) -> bool {
    &&& out.text@ == text
    &&& out.sections@.len() == 1
    &&& out.sections@[0].start == 0
    &&& out.sections@[0].end == encode_utf8(text).len()
    &&& out.sections@[0].label@ == label
}

/// Tells which command a name stands for.
pub fn recognize(name: &str) -> (r: Option<Command>)
    ensures
        r == command_of(name@),
{
    let name = String::from_str(name);
    if name == String::from_str("pyenvcur") {
        Some(Command::Current)
    } else if name == String::from_str("pyenvlst") {
        Some(Command::List)
    } else if name == String::from_str("pyenvselect") {
        Some(Command::Select)
    } else {
        None
    }
}

/// Whether running the command of this name reads the environments. Only then
/// does a caller have to gather them.
pub fn lists_environments(name: &str) -> (r: bool)
    ensures
        r == (command_of(name@) == Some(Command::List)),
{
    match recognize(name) {
        Some(Command::List) => true,
        _ => false,
    }
}

/// The output whose one section labels the whole of `text`.
pub fn whole_text(text: String, label: &str) -> (out: CommandOutput)
    ensures
        is_whole_text(out, text@, label@),
{
    let end: usize = text.as_str().as_bytes().len();
    let mut sections: Vec<OutputSection> = Vec::new();
    sections.push(OutputSection { start: 0, end, label: String::from_str(label) });
    CommandOutput { sections, text }
}

fn unknown(name: &str) -> (message: String)
    ensures
        message@ == unknown_command(name@),
{
    String::from_str("unknown command: ").concat(name)
}

impl PythonEnvironmentSelectExtension {
    /// The engine, ready to run commands.
    pub fn new() -> (r: Self) {
        PythonEnvironmentSelectExtension
    }

    /// The completions for a command's argument: none for a known command, an
    /// error that names the command for any other.
    pub fn complete_slash_command_argument(&self, command: &str, _args: &Vec<String>) -> (r: Result<
        Vec<ArgumentCompletion>,
        String,
    >)
        ensures
            match r {
                Ok(completions) => command_of(command@) is Some && completions@.len() == 0,
                Err(message) => command_of(command@) is None && message@ == unknown_command(
                    command@,
                ),
            },
    {
        match recognize(command) {
            Some(_) => Ok(Vec::new()),
            None => Err(unknown(command)),
        }
    }

    /// Runs a command. A name that is no command's always gives the error
    /// that names it. The two echoing commands answer with their arguments,
    /// joined by single spaces, and fail where there is none. The listing
    /// command answers with the rendered list of all environments, which are
    /// read from the snapshots given.
    pub fn run_slash_command(
        &self,
        command: &str,
        args: &Vec<String>,
        worktree: Option<&Worktree>,
        outcome: &Result<ProcessOutput, String>,
        present: &FileSet,
    ) -> (r: Result<CommandOutput, String>)
        ensures
            match (
                r,
                command_answer(
                    command@,
                    texts(args@),
                    all_environments(worktree, *outcome, present@),
                ),
            ) {
                (Ok(out), Ok((text, label))) => is_whole_text(out, text, label),
                (Err(message), Err(expected)) => message@ == expected,
                _ => false,
            },
            command_of(command@) is None ==> r is Err && r->Err_0@ == unknown_command(command@),
    {
        match recognize(command) {
            Some(Command::List) => {
                let all_envs = self.get_all_python_environments(worktree, outcome, present);
                Ok(whole_text(render(&all_envs), "Python Environments"))
            },
            Some(_) => {
                if args.len() == 0 {
                    return Err(String::from_str("nothing to echo"));
                }
                Ok(whole_text(join_strings(args, " "), "Echo"))
            },
            None => Err(unknown(command)),
        }
    }
}

} // verus!
