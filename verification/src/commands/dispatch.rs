//! The top-level commands of the program.
use vstd::prelude::*;

use crate::llm_backend::LLMError;
use crate::text::{concat2, str_eq};

verus! {

/// The commands the program offers.
#[derive(Debug, Clone, Copy, PartialEq, Eq, Structural)]
pub enum Command {
    Run,
    KvInspect,
    Config,
    Monitor,
    Version,
    Help,
}

/// The command a name selects: `run`, `kv-inspect`, `config`, `monitor`,
/// `version`, and `help` (also `-h` and `--help`).
pub open spec fn command_of(name: Seq<char>) -> Option<Command> {
    if name == "run"@ {
        Some(Command::Run)
    } else if name == "kv-inspect"@ {
        Some(Command::KvInspect)
    } else if name == "config"@ {
        Some(Command::Config)
    } else if name == "monitor"@ {
        Some(Command::Monitor)
    } else if name == "version"@ {
        Some(Command::Version)
    } else if name == "help"@ || name == "-h"@ || name == "--help"@ {
        Some(Command::Help)
    } else {
        None
    }
}

/// The command for a name, or the message for an unknown one.
pub fn select_command(name: &str) -> (r: Result<Command, String>)
    ensures
        match command_of(name@) {
            Some(c) => r == Ok::<Command, String>(c),
            None => r matches Err(e) && e@ == "Unknown command: "@ + name@,
        },
{
    if str_eq(name, "run") {
        Ok(Command::Run)
    } else if str_eq(name, "kv-inspect") {
        Ok(Command::KvInspect)
    } else if str_eq(name, "config") {
        Ok(Command::Config)
    } else if str_eq(name, "monitor") {
        Ok(Command::Monitor)
    } else if str_eq(name, "version") {
        Ok(Command::Version)
    } else if str_eq(name, "help") || str_eq(name, "-h") || str_eq(name, "--help") {
        Ok(Command::Help)
    } else {
        Err(concat2("Unknown command: ", name))
    }
}

/// The error for a process that exited unsuccessfully: its exit code, or -1 when it
/// has none (it was ended by a signal).
pub fn exit_error(code: Option<i32>) -> (r: LLMError)
    ensures
        r == (LLMError::ProcessExit {
            code: match code {
                Some(c) => c,
                None => -1i32,
            },
        }),
{
    LLMError::ProcessExit {
        code: match code {
            Some(c) => c,
            None => -1,
        },
    }
}

} // verus!
