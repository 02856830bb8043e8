//! Validation on the host: a validator script reads what the sandbox wrote.

use vstd::prelude::*;
use crate::command::{CommandRunner, ScriptOutput};

verus! {

/// What a host validator script reported.
#[derive(Debug)]
#[must_use]
pub struct HostValidationResult {
    /// The exit code of the script; 0 says that the block is valid.
    pub exit_code: i32,
    /// The standard output of the script.
    pub stdout: String,
    /// The standard error of the script.
    pub stderr: String,
}

/// The text that a byte stream decodes to, where each malformed sequence
/// gives one replacement character.
pub uninterp spec fn utf8_lossy(bytes: Seq<u8>) -> Seq<char>;

/// `String::from_utf8_lossy`: decodes a byte stream, replacing what is no
/// UTF-8 with U+FFFD. The result is a function of the bytes alone; nothing
/// else is claimed of it.
#[verifier::external_body]
pub(crate) fn decode_lossy(bytes: &Vec<u8>) -> (r: String)
    ensures
        r@ == utf8_lossy(bytes@),
{
    String::from_utf8_lossy(bytes).into_owned()
}

/// The environment of a host validator script: the assertions, the expected
/// output and the sandbox's standard error, each under its name and only
/// where it is present, in this order.
pub open spec fn host_env_spec(
    assertions: Option<Seq<char>>,
    expect: Option<Seq<char>>,
    container_stderr: Option<Seq<char>>,
) -> Seq<(Seq<char>, Seq<char>)> {
    (match assertions {
        Some(a) => seq![("VALIDATOR_ASSERTIONS"@, a)],
        None => Seq::empty(),
    }) + (match expect {
        Some(e) => seq![("VALIDATOR_EXPECT"@, e)],
        None => Seq::empty(),
    }) + (match container_stderr {
        Some(s) => seq![("VALIDATOR_CONTAINER_STDERR"@, s)],
        None => Seq::empty(),
    })
}

pub open spec fn opt_str_view(o: Option<&str>) -> Option<Seq<char>> {
    match o {
        Some(s) => Some(s@),
        None => None,
    }
}

pub open spec fn pairs_view(pairs: Seq<(&str, &str)>) -> Seq<(Seq<char>, Seq<char>)> {
    Seq::new(pairs.len(), |i: int| (pairs[i].0@, pairs[i].1@))
}

/// Builds the environment of a host validator script.
pub fn host_env<'a>(
    assertions: Option<&'a str>,
    expect: Option<&'a str>,
    container_stderr: Option<&'a str>,
) -> (r: Vec<(&'a str, &'a str)>)
    ensures
        pairs_view(r@) == host_env_spec(
            opt_str_view(assertions),
            opt_str_view(expect),
            opt_str_view(container_stderr),
        ),
{
    let mut env_vars: Vec<(&str, &str)> = Vec::new();
    if let Some(a) = assertions {
        env_vars.push(("VALIDATOR_ASSERTIONS", a));
    }
    if let Some(e) = expect {
        env_vars.push(("VALIDATOR_EXPECT", e));
    }
    if let Some(s) = container_stderr {
        env_vars.push(("VALIDATOR_CONTAINER_STDERR", s));
    }
    assert(pairs_view(env_vars@) =~= host_env_spec(
        opt_str_view(assertions),
        opt_str_view(expect),
        opt_str_view(container_stderr),
    ));
    env_vars
}

/// The exit code that stands for a process that reported none.
pub open spec fn exit_code_or_default(code: Option<i32>) -> int {
    match code {
        Some(c) => c as int,
        None => -1,
    }
}

/// What a finished script amounts to: its exit code, or -1 where it reported
/// none, and its two streams decoded.
pub fn host_result(output: &ScriptOutput) -> (r: HostValidationResult)
    ensures
        r.exit_code == exit_code_or_default(output.code),
        r.stdout@ == utf8_lossy(output.stdout@),
        r.stderr@ == utf8_lossy(output.stderr@),
{
    HostValidationResult {
        exit_code: match output.code {
            Some(c) => c,
            None => -1,
        },
        stdout: decode_lossy(&output.stdout),
        stderr: decode_lossy(&output.stderr),
    }
}

/// `outcome` is what the runner reports when it runs the script at
/// `script_path` with `stdin` on its standard input and with the
/// environment that `host_env` lays out for the three optional inputs.
pub open spec fn runner_reports<R: CommandRunner>(
    runner: &R,
    script_path: &str,
    stdin: &str,
    assertions: Option<Seq<char>>,
    expect: Option<Seq<char>>,
    container_stderr: Option<Seq<char>>,
    outcome: Result<ScriptOutput, String>,
) -> bool {
    exists|env: &[(&str, &str)]|
        pairs_view(env@) == host_env_spec(assertions, expect, container_stderr)
            && #[trigger] call_ensures(
            R::run_script,
            (runner, script_path, stdin, env),
            outcome,
        )
}

/// `result` is what `output` amounts to: the exit code, or -1 for none, and
/// the two streams decoded.
pub open spec fn amounts_to(result: HostValidationResult, output: ScriptOutput) -> bool {
    &&& result.exit_code == exit_code_or_default(output.code)
    &&& result.stdout@ == utf8_lossy(output.stdout@)
    &&& result.stderr@ == utf8_lossy(output.stderr@)
}

/// Runs the validator script at `script_path` on the host. The script reads
/// `json_input` on its standard input and finds the assertions, the expected
/// output and the sandbox's standard error in its environment, as `host_env`
/// lays them out. What the runner reports is turned into a result by
/// `host_result`; a runner that fails gives its message back.
pub fn run_validator<R: CommandRunner>(
    runner: &R,
    script_path: &str,
    json_input: &str,
    assertions: Option<&str>,
    expect: Option<&str>,
    container_stderr: Option<&str>,
) -> (r: Result<HostValidationResult, String>)
    ensures
        match r {
            Ok(result) => exists|output: ScriptOutput| #[trigger]
                runner_reports(
                    runner,
                    script_path,
                    json_input,
                    opt_str_view(assertions),
                    opt_str_view(expect),
                    opt_str_view(container_stderr),
                    Ok(output),
                ) && amounts_to(result, output),
            Err(message) => runner_reports(
                runner,
                script_path,
                json_input,
                opt_str_view(assertions),
                opt_str_view(expect),
                opt_str_view(container_stderr),
                Err(message),
            ),
        },
{
    let env_vars = host_env(assertions, expect, container_stderr);
    let env = env_vars.as_slice();
    let outcome = runner.run_script(script_path, json_input, env);
    proof {
        assert(call_ensures(R::run_script, (runner, script_path, json_input, env), outcome));
    }
    match outcome {
        Ok(output) => {
            let result = host_result(&output);
            proof {
                assert(runner_reports(
                    runner,
                    script_path,
                    json_input,
                    opt_str_view(assertions),
                    opt_str_view(expect),
                    opt_str_view(container_stderr),
                    Ok(output),
                ) && amounts_to(result, output));
            }
            Ok(result)
        },
        Err(message) => Err(message),
    }
}

} // verus!
