//! What the operator types: the command line that starts the forwarder and
//! the commands that drive it while it runs.

use crate::config::texts;
use vstd::prelude::*;

verus! {

/// A command of the interactive prompt.
#[derive(Clone, Copy, Debug, PartialEq, Eq, Structural)]
pub enum Command {
    /// Stop the forwarder and leave.
    Exit,
    /// Show the usage text.
    Help,
    /// List the live connections.
    Stats,
    /// List the connections that have ended.
    Hist,
}

/// The command that the line `cmd` stands for. Whatever is not a command
/// asks for the usage text.
pub open spec fn command_of(cmd: Seq<char>) -> Command {
    if cmd == "exit"@ {
        Command::Exit
    } else if cmd == "stats"@ {
        Command::Stats
    } else if cmd == "hist"@ {
        Command::Hist
    } else {
        Command::Help
    }
}

/// Reads one line of the prompt, already stripped of its line end.
pub fn parse_command(cmd: &str) -> (command: Command)
    ensures
        command == command_of(cmd@),
{
    let line = cmd.to_owned();
    if line == "exit".to_owned() {
        Command::Exit
    } else if line == "stats".to_owned() {
        Command::Stats
    } else if line == "hist".to_owned() {
        Command::Hist
    } else {
        Command::Help
    }
}

/// The configuration file that the command line `args` names: the argument
/// after `--config`, where `--config` is the first argument after the
/// program's name.
pub open spec fn config_file_of(args: Seq<Seq<char>>) -> Option<Seq<char>> {
    if args.len() >= 3 && args[1] == "--config"@ {
        Some(args[2])
    } else {
        None
    }
}

/// Finds the configuration file on the command line, the program's name
/// included. A `--config` with nothing after it is not a command line to
/// call this with.
pub fn get_config_file(args: &Vec<String>) -> (file: Option<String>)
    requires
        args@.len() == 2 ==> args@[1]@ != "--config"@,
    ensures
        match file {
            Some(path) => config_file_of(texts(args@)) == Some(path@),
            None => config_file_of(texts(args@)) is None,
        },
{
    if args.len() < 2 {
        return None;
    }
    if !(args[1] == "--config".to_owned()) {
        return None;
    }
    Some(args[2].clone())
}

} // verus!
