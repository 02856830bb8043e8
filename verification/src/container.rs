//! What is asked of a sandbox and what comes back from it, as plain values.
//! The sandbox itself is run by the caller.

use vstd::prelude::*;
use crate::error::{push_str, ValidatorError};
use crate::host_validator::{decode_lossy, opt_str_view, utf8_lossy};
use crate::text::{chars_of, slice_of, string_of};

verus! {

/// What one command in a sandbox left behind.
#[derive(Debug)]
#[must_use]
pub struct ValidationResult {
    /// The exit code; -1 where the process ended without reporting one.
    pub exit_code: i64,
    /// The standard output, decoded.
    pub stdout: String,
    /// The standard error, decoded.
    pub stderr: String,
}

/// The index of the last colon of `s`.
pub open spec fn last_colon(s: Seq<char>) -> Option<int>
    decreases s.len(),
{
    if s.len() == 0 {
        None
    } else if s.last() == ':' {
        Some(s.len() - 1)
    } else {
        last_colon(s.drop_last())
    }
}

/// The name part of an image reference: what stands before its last colon,
/// or all of it where it has none.
pub open spec fn image_name(image: Seq<char>) -> Seq<char> {
    match last_colon(image) {
        Some(i) => image.take(i),
        None => image,
    }
}

/// The tag of an image reference: what stands behind its last colon, or
/// `latest` where it has none.
pub open spec fn image_tag(image: Seq<char>) -> Seq<char> {
    match last_colon(image) {
        Some(i) => image.skip(i + 1),
        None => "latest"@,
    }
}

/// Splits an image reference into name and tag.
pub fn split_image(image: &str) -> (r: (String, String))
    ensures
        r.0@ == image_name(image@),
        r.1@ == image_tag(image@),
{
    let chars = chars_of(image);
    let mut i: usize = chars.len();
    assert(chars@.take(i as int) == chars@);
    while i > 0
        invariant
            i <= chars.len(),
            chars@ == image@,
            last_colon(chars@) == last_colon(chars@.take(i as int)),
        decreases i,
    {
        let ghost prefix = chars@.take(i as int);
        proof {
            assert(prefix.last() == chars@[i - 1]);
            assert(prefix.drop_last() == chars@.take(i - 1));
        }
        if chars[i - 1] == ':' {
            let name = slice_of(&chars, 0, i - 1);
            let tag = slice_of(&chars, i, chars.len());
            proof {
                assert(last_colon(prefix) == Some(i - 1));
                assert(name@ == chars@.take(i - 1));
                assert(tag@ == chars@.skip(i as int));
            }
            return (string_of(&name), string_of(&tag));
        }
        i -= 1;
    }
    (string_of(&chars), "latest".to_owned())
}

/// What to run in a sandbox and how to attach to it.
#[derive(Debug)]
pub struct ExecRequest {
    /// The command and its arguments.
    pub cmd: Vec<String>,
    /// Bindings `NAME=value` for the command's environment, if any.
    pub env: Option<Vec<String>>,
    /// Whether the command's standard input is fed.
    pub attach_stdin: bool,
    /// Whether the command's standard output is collected.
    pub attach_stdout: bool,
    /// Whether the command's standard error is collected.
    pub attach_stderr: bool,
}

pub struct ExecRequestView {
    pub cmd: Seq<Seq<char>>,
    pub env: Option<Seq<Seq<char>>>,
    pub attach_stdin: bool,
    pub attach_stdout: bool,
    pub attach_stderr: bool,
}

impl View for ExecRequest {
    type V = ExecRequestView;

    open spec fn view(&self) -> ExecRequestView {
        ExecRequestView {
            cmd: string_views(self.cmd@),
            env: match self.env {
                Some(env) => Some(string_views(env@)),
                None => None,
            },
            attach_stdin: self.attach_stdin,
            attach_stdout: self.attach_stdout,
            attach_stderr: self.attach_stderr,
        }
    }
}

pub open spec fn string_views(strings: Seq<String>) -> Seq<Seq<char>> {
    Seq::new(strings.len(), |i: int| strings[i]@)
}

pub open spec fn str_views(strings: Seq<&str>) -> Seq<Seq<char>> {
    Seq::new(strings.len(), |i: int| strings[i]@)
}

fn bind(name: &str, value: &str) -> (r: String)
    ensures
        r@ == name@ + value@,
{
    let mut out: Vec<char> = Vec::new();
    push_str(&mut out, name);
    push_str(&mut out, value);
    string_of(&out)
}

/// The environment of a validator that runs inside the sandbox: the content
/// always, then the setup, the assertions and the expected output, each only
/// where it is present.
pub open spec fn sandbox_env_spec(
    setup: Option<Seq<char>>,
    content: Seq<char>,
    assertions: Option<Seq<char>>,
    expect: Option<Seq<char>>,
) -> Seq<Seq<char>> {
    seq!["VALIDATOR_CONTENT="@ + content] + (match setup {
        Some(s) => seq!["VALIDATOR_SETUP="@ + s],
        None => Seq::empty(),
    }) + (match assertions {
        Some(a) => seq!["VALIDATOR_ASSERTIONS="@ + a],
        None => Seq::empty(),
    }) + (match expect {
        Some(e) => seq!["VALIDATOR_EXPECT="@ + e],
        None => Seq::empty(),
    })
}

/// Builds the environment of a validator that runs inside the sandbox.
pub fn sandbox_env(
    setup: Option<&str>,
    content: &str,
    assertions: Option<&str>,
    expect: Option<&str>,
) -> (r: Vec<String>)
    ensures
        string_views(r@) == sandbox_env_spec(
            opt_str_view(setup),
            content@,
            opt_str_view(assertions),
            opt_str_view(expect),
        ),
{
    let mut env_vars: Vec<String> = Vec::new();
    env_vars.push(bind("VALIDATOR_CONTENT=", content));
    if let Some(s) = setup {
        env_vars.push(bind("VALIDATOR_SETUP=", s));
    }
    if let Some(a) = assertions {
        env_vars.push(bind("VALIDATOR_ASSERTIONS=", a));
    }
    if let Some(e) = expect {
        env_vars.push(bind("VALIDATOR_EXPECT=", e));
    }
    assert(string_views(env_vars@) =~= sandbox_env_spec(
        opt_str_view(setup),
        content@,
        opt_str_view(assertions),
        opt_str_view(expect),
    ));
    env_vars
}

/// The request that runs the validator script inside the sandbox with the
/// block in its environment.
pub fn env_request(
    setup: Option<&str>,
    content: &str,
    assertions: Option<&str>,
    expect: Option<&str>,
) -> (r: ExecRequest)
    ensures
        string_views(r.cmd@) == seq!["sh"@, "/validate.sh"@],
        r.env matches Some(env) && string_views(env@) == sandbox_env_spec(
            opt_str_view(setup),
            content@,
            opt_str_view(assertions),
            opt_str_view(expect),
        ),
        !r.attach_stdin,
        r.attach_stdout,
        r.attach_stderr,
{
    let mut cmd: Vec<String> = Vec::new();
    cmd.push("sh".to_owned());
    cmd.push("/validate.sh".to_owned());
    assert(string_views(cmd@) =~= seq!["sh"@, "/validate.sh"@]);
    ExecRequest {
        cmd,
        env: Some(sandbox_env(setup, content, assertions, expect)),
        attach_stdin: false,
        attach_stdout: true,
        attach_stderr: true,
    }
}

fn owned_all(cmd: &[&str]) -> (r: Vec<String>)
    ensures
        string_views(r@) == str_views(cmd@),
{
    let mut out: Vec<String> = Vec::new();
    let mut i: usize = 0;
    while i < cmd.len()
        invariant
            i <= cmd.len(),
            out.len() == i,
            forall|k: int| 0 <= k < i ==> (#[trigger] out@[k])@ == cmd@[k]@,
        decreases cmd.len() - i,
    {
        out.push(cmd[i].to_owned());
        i += 1;
    }
    assert(string_views(out@) =~= str_views(cmd@));
    out
}

/// The request that runs a command as it is, its output collected.
pub fn raw_request(cmd: &[&str]) -> (r: ExecRequest)
    ensures
        string_views(r.cmd@) == str_views(cmd@),
        r.env is None,
        !r.attach_stdin,
        r.attach_stdout,
        r.attach_stderr,
{
    ExecRequest {
        cmd: owned_all(cmd),
        env: None,
        attach_stdin: false,
        attach_stdout: true,
        attach_stderr: true,
    }
}

/// The request that runs a command which is fed on its standard input. What
/// is fed never becomes part of the command.
pub fn stdin_request(cmd: &[&str]) -> (r: ExecRequest)
    ensures
        string_views(r.cmd@) == str_views(cmd@),
        r.env is None,
        r.attach_stdin,
        r.attach_stdout,
        r.attach_stderr,
{
    ExecRequest {
        cmd: owned_all(cmd),
        env: None,
        attach_stdin: true,
        attach_stdout: true,
        attach_stderr: true,
    }
}

/// One piece of what a command in a sandbox wrote.
#[derive(Debug)]
pub enum OutputChunk {
    /// Bytes written to the standard output.
    StdOut(Vec<u8>),
    /// Bytes written to the standard error.
    StdErr(Vec<u8>),
    /// Anything else the sandbox reports, which is not collected.
    Other,
}

/// What a stream of output delivered: a chunk, or the message of the error
/// that broke the stream.
#[derive(Debug)]
pub enum StreamItem {
    Chunk(OutputChunk),
    Broken(String),
}

/// The bytes written to the standard output, in order.
pub open spec fn stdout_bytes(items: Seq<StreamItem>) -> Seq<u8>
    decreases items.len(),
{
    if items.len() == 0 {
        Seq::empty()
    } else {
        stdout_bytes(items.drop_last()) + match items.last() {
            StreamItem::Chunk(OutputChunk::StdOut(message)) => message@,
            _ => Seq::empty(),
        }
    }
}

/// The bytes written to the standard error, in order.
pub open spec fn stderr_bytes(items: Seq<StreamItem>) -> Seq<u8>
    decreases items.len(),
{
    if items.len() == 0 {
        Seq::empty()
    } else {
        stderr_bytes(items.drop_last()) + match items.last() {
            StreamItem::Chunk(OutputChunk::StdErr(message)) => message@,
            _ => Seq::empty(),
        }
    }
}

/// The first place at which the stream broke.
pub open spec fn first_broken(items: Seq<StreamItem>) -> Option<int>
    decreases items.len(),
{
    if items.len() == 0 {
        None
    } else {
        match first_broken(items.drop_last()) {
            Some(i) => Some(i),
            None => if items.last() is Broken {
                Some(items.len() - 1)
            } else {
                None
            },
        }
    }
}

fn push_bytes(dst: &mut Vec<u8>, src: &Vec<u8>)
    ensures
        final(dst)@ == old(dst)@ + src@,
{
    let mut i: usize = 0;
    while i < src.len()
        invariant
            i <= src.len(),
            dst@ == old(dst)@ + src@.take(i as int),
        decreases src.len() - i,
    {
        dst.push(src[i]);
        i += 1;
    }
    assert(src@.take(src.len() as int) == src@);
}

/// The error for a command that the sandbox started without attaching to it.
pub fn detached_error() -> (r: ValidatorError)
    ensures
        r matches ValidatorError::ContainerExec { message } && message@
            == "Exec should be attached but wasn't"@,
{
    ValidatorError::ContainerExec { message: "Exec should be attached but wasn't".to_owned() }
}

/// Turns what a command's output stream delivered, and the exit code that
/// the sandbox reported afterwards, into a result. A broken stream is an
/// error that carries the stream's message; otherwise the bytes of each
/// stream are joined in order and decoded, and a missing exit code is -1.
pub fn collect_exec_output(items: &Vec<StreamItem>, exit_code: Option<i64>) -> (r: Result<
    ValidationResult,
    ValidatorError,
>)
    ensures
        match r {
            Ok(result) => {
                &&& first_broken(items@) is None
                &&& result.exit_code == match exit_code {
                    Some(code) => code,
                    None => -1i64,
                }
                &&& result.stdout@ == utf8_lossy(stdout_bytes(items@))
                &&& result.stderr@ == utf8_lossy(stderr_bytes(items@))
            },
            Err(ValidatorError::ContainerExec { message }) => {
                &&& first_broken(items@) matches Some(i)
                &&& items@[i] matches StreamItem::Broken(cause)
                &&& message@ == "Output stream error: "@ + cause@
            },
            Err(_) => false,
        },
{
    let mut stdout: Vec<u8> = Vec::new();
    let mut stderr: Vec<u8> = Vec::new();
    let mut i: usize = 0;
    assert(items@.take(0) =~= Seq::<StreamItem>::empty());
    while i < items.len()
        invariant
            i <= items.len(),
            first_broken(items@.take(i as int)) is None,
            stdout@ == stdout_bytes(items@.take(i as int)),
            stderr@ == stderr_bytes(items@.take(i as int)),
        decreases items.len() - i,
    {
        let ghost next = items@.take(i + 1);
        proof {
            assert(next.drop_last() == items@.take(i as int));
            assert(next.last() == items@[i as int]);
        }
        match &items[i] {
            StreamItem::Chunk(OutputChunk::StdOut(message)) => {
                push_bytes(&mut stdout, message);
            },
            StreamItem::Chunk(OutputChunk::StdErr(message)) => {
                push_bytes(&mut stderr, message);
            },
            StreamItem::Chunk(OutputChunk::Other) => {
                assert(stdout@ + Seq::<u8>::empty() == stdout@);
                assert(stderr@ + Seq::<u8>::empty() == stderr@);
            },
            StreamItem::Broken(cause) => {
                let mut message: Vec<char> = Vec::new();
                push_str(&mut message, "Output stream error: ");
                push_str(&mut message, cause.as_str());
                proof {
                    lemma_first_broken_prefix(items@, i + 1);
                }
                return Err(ValidatorError::ContainerExec { message: string_of(&message) });
            },
        }
        proof {
            assert(stdout@ == stdout_bytes(next));
            assert(stderr@ == stderr_bytes(next));
        }
        i += 1;
    }
    assert(items@.take(items.len() as int) == items@);
    Ok(
        ValidationResult {
            exit_code: match exit_code {
                Some(code) => code,
                None => -1,
            },
            stdout: decode_lossy(&stdout),
            stderr: decode_lossy(&stderr),
        },
    )
}

/// A break that is the first in a prefix of a stream is the first in the
/// whole stream.
pub proof fn lemma_first_broken_prefix(items: Seq<StreamItem>, n: int)
    requires
        0 <= n <= items.len(),
        first_broken(items.take(n)) is Some,
    ensures
        first_broken(items) == first_broken(items.take(n)),
    decreases items.len() - n,
{
    if n < items.len() {
        let longer = items.take(n + 1);
        assert(longer.drop_last() == items.take(n));
        lemma_first_broken_prefix(items, n + 1);
    } else {
        assert(items.take(n) == items);
    }
}

} // verus!
