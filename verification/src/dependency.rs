//! The outside programs that validation relies on.

use vstd::prelude::*;

verus! {

/// Which of the outside programs answered.
#[derive(Debug, Clone, PartialEq, Eq, Structural)]
pub struct DependencyStatus {
    /// Whether `jq --version` succeeded.
    pub jq_available: bool,
    /// Whether `docker info` succeeded.
    pub docker_available: bool,
}

/// A way to find out whether a command runs and succeeds.
pub trait DependencyChecker {
    /// Runs `cmd` with `args` and says whether it ended successfully.
    fn check_command(&self, cmd: &str, args: &[&str]) -> bool;
}

/// `answer` is what the checker says when it is asked for the command `cmd`
/// with the arguments `args`.
pub open spec fn answers<C: DependencyChecker>(
    checker: &C,
    cmd: Seq<char>,
    args: Seq<Seq<char>>,
    answer: bool,
) -> bool {
    exists|asked: &str, with: &[&str]|
        asked@ == cmd && arg_views(with@) == args && #[trigger] call_ensures(
            C::check_command,
            (checker, asked, with),
            answer,
        )
}

pub open spec fn arg_views(args: Seq<&str>) -> Seq<Seq<char>> {
    Seq::new(args.len(), |i: int| args[i]@)
}

fn ask<C: DependencyChecker>(checker: &C, cmd: &str, arg: &str) -> (r: bool)
    ensures
        answers(checker, cmd@, seq![arg@], r),
{
    let mut args: Vec<&str> = Vec::new();
    args.push(arg);
    let with = args.as_slice();
    let r = checker.check_command(cmd, with);
    proof {
        assert(arg_views(with@) =~= seq![arg@]);
        assert(call_ensures(C::check_command, (checker, cmd, with), r));
    }
    r
}

/// Whether `jq` answers: what the checker says of `jq --version`.
pub fn check_jq<C: DependencyChecker>(checker: &C) -> (r: bool)
    ensures
        answers(checker, "jq"@, seq!["--version"@], r),
{
    ask(checker, "jq", "--version")
}

/// Whether the Docker daemon answers: what the checker says of `docker info`.
pub fn check_docker<C: DependencyChecker>(checker: &C) -> (r: bool)
    ensures
        answers(checker, "docker"@, seq!["info"@], r),
{
    ask(checker, "docker", "info")
}

/// Asks for both programs, `jq` first.
pub fn check_all<C: DependencyChecker>(checker: &C) -> (r: DependencyStatus)
    ensures
        answers(checker, "jq"@, seq!["--version"@], r.jq_available),
        answers(checker, "docker"@, seq!["info"@], r.docker_available),
{
    let jq_available = check_jq(checker);
    let docker_available = check_docker(checker);
    DependencyStatus { jq_available, docker_available }
}

/// The warning for a missing `jq`.
pub open spec fn jq_warning() -> Seq<char> {
    "jq is not installed. JSON validators (sqlite, osquery, osquery-config, bash-exec) will fail. Install with: brew install jq (macOS) or apt-get install jq (Linux)"@
}

/// The warning for a Docker daemon that does not answer.
pub open spec fn docker_warning() -> Seq<char> {
    "Docker is not running. Container-based validators will fail. Please start Docker Desktop or the Docker daemon."@
}

/// The warnings that a status calls for: one for `jq` where it is missing,
/// then one for Docker where it is not running.
pub open spec fn warnings_spec(status: DependencyStatus) -> Seq<Seq<char>> {
    (if status.jq_available {
        Seq::<Seq<char>>::empty()
    } else {
        seq![jq_warning()]
    }) + (if status.docker_available {
        Seq::<Seq<char>>::empty()
    } else {
        seq![docker_warning()]
    })
}

impl DependencyStatus {
    /// The warnings to show before validation starts.
    pub fn warnings(&self) -> (r: Vec<String>)
        ensures
            r@.len() == warnings_spec(*self).len(),
            forall|i: int| 0 <= i < r@.len() ==> (#[trigger] r@[i])@ == warnings_spec(*self)[i],
    {
        let mut r: Vec<String> = Vec::new();
        if !self.jq_available {
            r.push(
                "jq is not installed. JSON validators (sqlite, osquery, osquery-config, bash-exec) will fail. Install with: brew install jq (macOS) or apt-get install jq (Linux)".to_owned(),
            );
        }
        if !self.docker_available {
            r.push(
                "Docker is not running. Container-based validators will fail. Please start Docker Desktop or the Docker daemon.".to_owned(),
            );
        }
        r
    }
}

} // verus!
