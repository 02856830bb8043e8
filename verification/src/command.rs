//! The script runner: the one capability through which a host validator
//! script is run.

use vstd::prelude::*;

verus! {

/// What a finished script left behind.
#[derive(Debug, Clone)]
pub struct ScriptOutput {
    /// The exit code; `None` where the process ended without reporting one.
    pub code: Option<i32>,
    /// Everything the script wrote to its standard output.
    pub stdout: Vec<u8>,
    /// Everything the script wrote to its standard error.
    pub stderr: Vec<u8>,
}

/// Runs a script in a host shell.
pub trait CommandRunner {
    /// Runs the script at `script_path` with `stdin_content` on its standard
    /// input and `env_vars` in its environment. An `Err` says that the script
    /// could not be started, fed or waited for; a script that ran and failed
    /// is an `Ok` with its exit code.
    fn run_script(&self, script_path: &str, stdin_content: &str, env_vars: &[(&str, &str)]) -> Result<
        ScriptOutput,
        String,
    >;
}

} // verus!
