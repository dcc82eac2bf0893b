//! Running external commands through a replaceable runner.
use vstd::prelude::*;

verus! {

/// What happens to a command's standard output and error.
#[derive(Debug, Clone, Copy, PartialEq, Eq)]
pub enum OutputMode {
    Inherit,
    Capture,
    Silent,
}

/// The outcome of running a command.
pub struct CmdResult {
    pub exit_code: i32,
    pub stdout: Option<Vec<u8>>,
    pub stderr: Option<Vec<u8>>,
}

/// A command's exit code with its captured output.
pub struct CapturedOutput {
    pub exit_code: i32,
    pub stdout: Vec<u8>,
    pub stderr: Vec<u8>,
}

/// Why a command could not be run.
#[derive(Debug)]
pub enum InvokeError {
    /// The command line was empty.
    NoCommand,
    /// The runner failed; the text says why.
    Runner { message: String },
    /// Running `cmd` in directory `dir` failed.
    InDir { dir: String, cmd: Vec<String>, cause: Box<InvokeError> },
    /// Running `cmd` failed.
    Command { cmd: Vec<String>, cause: Box<InvokeError> },
}

/// Runs commands. Implementations decide how; the library only passes requests through.
pub trait CommandRunner: Send + Sync {
    /// Whether `out` is an outcome this runner may give for running the command `cmd`
    /// (program and arguments) in `dir` with output handling `mode`. A runner that does not
    /// say admits every outcome.
    open spec fn may_run(
        &self,
        dir: Seq<char>,
        cmd: Seq<Seq<char>>,
        mode: OutputMode,
        out: Result<CmdResult, InvokeError>,
    ) -> bool {
        true
    }

    /// Whether `out` is an outcome this runner may give for running `cmd` in `dir` with
    /// `stdin` on its standard input. A runner that does not say admits every outcome.
    open spec fn may_feed(
        &self,
        dir: Seq<char>,
        cmd: Seq<Seq<char>>,
        stdin: Seq<u8>,
        out: Result<i32, InvokeError>,
    ) -> bool {
        true
    }

    /// Runs `cmd` (program and arguments) in `dir` with the given output handling.
    fn run_cmd(&self, dir: &str, cmd: &[&str], mode: OutputMode) -> (out: Result<
        CmdResult,
        InvokeError,
    >)
        ensures
            self.may_run(dir@, words_view(cmd@), mode, out),
    ;

    /// Runs `cmd` in `dir`, writing `stdin_bytes` to its standard input; returns its exit code.
    fn run_with_stdin_inherited(&self, dir: &str, cmd: &[&str], stdin_bytes: &[u8]) -> (out:
        Result<i32, InvokeError>)
        ensures
            self.may_feed(dir@, words_view(cmd@), stdin_bytes@, out),
    ;
}

/// The words of a command line, as owned strings.
pub fn command_words(cmd: &[&str]) -> (r: Vec<String>)
    ensures
        r@.len() == cmd@.len(),
        forall|i: int| 0 <= i < cmd@.len() ==> #[trigger] r@[i]@ == cmd@[i]@,
{
    let mut r: Vec<String> = Vec::new();
    let mut i: usize = 0;
    while i < cmd.len()
        invariant
            i <= cmd@.len(),
            r@.len() == i,
            forall|k: int| 0 <= k < i ==> #[trigger] r@[k]@ == cmd@[k]@,
        decreases cmd@.len() - i,
    {
        r.push(cmd[i].to_owned());
        i = i + 1;
    }
    r
}

/// Borrows each of `words`.
pub fn word_refs<'a>(words: &'a [String]) -> (r: Vec<&'a str>)
    ensures
        words_view(r@) == strings_view(words@),
{
    let mut r: Vec<&'a str> = Vec::new();
    let mut i: usize = 0;
    while i < words.len()
        invariant
            i <= words@.len(),
            r@.len() == i,
            forall|k: int| 0 <= k < i ==> #[trigger] r@[k]@ == words@[k]@,
        decreases words@.len() - i,
    {
        r.push(words[i].as_str());
        i = i + 1;
    }
    assert(words_view(r@) =~= strings_view(words@));
    r
}

/// The view of a command line.
pub open spec fn words_view(cmd: Seq<&str>) -> Seq<Seq<char>> {
    cmd.map_values(|w: &str| w@)
}

/// The view of a list of owned words.
pub open spec fn strings_view(words: Seq<String>) -> Seq<Seq<char>> {
    words.map_values(|w: String| w@)
}

/// The command line `git` followed by `args`.
pub open spec fn git_cmd_line(args: Seq<Seq<char>>) -> Seq<Seq<char>> {
    seq!["git"@] + args
}

/// `git` followed by `args`.
pub fn git_command<'a>(args: &[&'a str]) -> (r: Vec<&'a str>)
    ensures
        words_view(r@) == seq!["git"@] + words_view(args@),
{
    let mut r: Vec<&'a str> = Vec::new();
    r.push("git");
    let mut i: usize = 0;
    while i < args.len()
        invariant
            i <= args@.len(),
            words_view(r@) == seq!["git"@] + words_view(args@.subrange(0, i as int)),
        decreases args@.len() - i,
    {
        let ghost old_r = r@;
        r.push(args[i]);
        proof {
            assert(args@.subrange(0, i + 1) =~= args@.subrange(0, i as int).push(args@[i as int]));
            assert(words_view(r@) =~= words_view(old_r).push(args@[i as int]@));
            assert(words_view(args@.subrange(0, i + 1)) =~= words_view(args@.subrange(0, i as int)).push(args@[i as int]@));
            assert(words_view(r@) =~= seq!["git"@] + words_view(args@.subrange(0, i + 1)));
        }
        i = i + 1;
    }
    assert(args@.subrange(0, args@.len() as int) =~= args@);
    r
}

/// Whether `err` reports that running `cmd` in `dir` failed because of `cause`.
pub open spec fn in_dir_error(err: InvokeError, dir: Seq<char>, cmd: Seq<Seq<char>>, cause: InvokeError) -> bool {
    err matches InvokeError::InDir { dir: d, cmd: c, cause: b } && d@ == dir && strings_view(c@)
        == cmd && *b == cause
}

/// How a runner's outcome for `cmd` in `dir` reads as an exit status: the exit code, or an
/// error that records the directory, the command and the runner's error.
pub open spec fn status_reads(
    out: Result<CmdResult, InvokeError>,
    dir: Seq<char>,
    cmd: Seq<Seq<char>>,
    r: Result<i32, InvokeError>,
) -> bool {
    match out {
        Ok(res) => r == Ok::<i32, InvokeError>(res.exit_code),
        Err(e) => r matches Err(err) && in_dir_error(err, dir, cmd, e),
    }
}

/// The bytes a command's output was captured as; none when it was not captured.
pub open spec fn bytes_or_empty(b: Option<Vec<u8>>) -> Seq<u8> {
    match b {
        Some(v) => v@,
        None => Seq::<u8>::empty(),
    }
}

/// How a runner's outcome for `cmd` in `dir` reads as captured output: the exit code and
/// the captured bytes (empty where none were captured), or an error that records the
/// directory, the command and the runner's error.
pub open spec fn capture_reads(
    out: Result<CmdResult, InvokeError>,
    dir: Seq<char>,
    cmd: Seq<Seq<char>>,
    r: Result<CapturedOutput, InvokeError>,
) -> bool {
    match out {
        Ok(res) => r matches Ok(o) && o.exit_code == res.exit_code && o.stdout@ == bytes_or_empty(
            res.stdout,
        ) && o.stderr@ == bytes_or_empty(res.stderr),
        Err(e) => r matches Err(err) && in_dir_error(err, dir, cmd, e),
    }
}

/// How a runner's outcome for `cmd` reads when its output is discarded: the exit code, or
/// an error that records the command and the runner's error.
pub open spec fn silent_reads(
    out: Result<CmdResult, InvokeError>,
    cmd: Seq<Seq<char>>,
    r: Result<i32, InvokeError>,
) -> bool {
    match out {
        Ok(res) => r == Ok::<i32, InvokeError>(res.exit_code),
        Err(e) => r matches Err(InvokeError::Command { cmd: c, cause: b }) && strings_view(c@)
            == cmd && *b == e,
    }
}

/// `r` is the exit status of running `cmd` in `dir` through `runner` with inherited output:
/// it reads, as `status_reads` says, an outcome the runner may give for that command.
pub open spec fn ran_status<R: CommandRunner>(
    runner: &R,
    dir: Seq<char>,
    cmd: Seq<Seq<char>>,
    r: Result<i32, InvokeError>,
) -> bool {
    exists|out: Result<CmdResult, InvokeError>|
        #[trigger] runner.may_run(dir, cmd, OutputMode::Inherit, out) && status_reads(
            out,
            dir,
            cmd,
            r,
        )
}

/// `r` is the captured output of running `cmd` in `dir` through `runner`: it reads, as
/// `capture_reads` says, an outcome the runner may give for that command.
pub open spec fn ran_capture<R: CommandRunner>(
    runner: &R,
    dir: Seq<char>,
    cmd: Seq<Seq<char>>,
    r: Result<CapturedOutput, InvokeError>,
) -> bool {
    exists|out: Result<CmdResult, InvokeError>|
        #[trigger] runner.may_run(dir, cmd, OutputMode::Capture, out) && capture_reads(
            out,
            dir,
            cmd,
            r,
        )
}

/// `r` is the exit status of running `cmd` in `dir` through `runner` with output discarded:
/// it reads, as `silent_reads` says, an outcome the runner may give for that command.
pub open spec fn ran_silent<R: CommandRunner>(
    runner: &R,
    dir: Seq<char>,
    cmd: Seq<Seq<char>>,
    r: Result<i32, InvokeError>,
) -> bool {
    exists|out: Result<CmdResult, InvokeError>|
        #[trigger] runner.may_run(dir, cmd, OutputMode::Silent, out) && silent_reads(out, cmd, r)
}

/// The exit code of a finished command; a failure to run it is reported with `dir` and `cmd`.
pub fn exit_status(result: Result<CmdResult, InvokeError>, dir: &str, cmd: &[&str]) -> (r: Result<
    i32,
    InvokeError,
>)
    ensures
        status_reads(result, dir@, words_view(cmd@), r),
{
    match result {
        Ok(res) => Ok(res.exit_code),
        Err(e) => {
            let words = command_words(cmd);
            assert(strings_view(words@) =~= words_view(cmd@));
            Err(InvokeError::InDir { dir: dir.to_owned(), cmd: words, cause: Box::new(e) })
        },
    }
}

/// The captured output of a finished command, with empty output where none was captured;
/// a failure to run it is reported with `dir` and `cmd`.
pub fn captured_output(result: Result<CmdResult, InvokeError>, dir: &str, cmd: &[&str]) -> (r:
    Result<CapturedOutput, InvokeError>)
    ensures
        capture_reads(result, dir@, words_view(cmd@), r),
{
    match result {
        Ok(res) => {
            let stdout = match res.stdout {
                Some(b) => b,
                None => Vec::new(),
            };
            let stderr = match res.stderr {
                Some(b) => b,
                None => Vec::new(),
            };
            Ok(CapturedOutput { exit_code: res.exit_code, stdout, stderr })
        },
        Err(e) => {
            let words = command_words(cmd);
            assert(strings_view(words@) =~= words_view(cmd@));
            Err(InvokeError::InDir { dir: dir.to_owned(), cmd: words, cause: Box::new(e) })
        },
    }
}

/// Runs `cmd` in `dir` through `runner`.
pub fn run_cmd<R: CommandRunner>(runner: &R, dir: &str, cmd: &[&str], mode: OutputMode) -> (r: Result<
    CmdResult,
    InvokeError,
>)
    ensures
        runner.may_run(dir@, words_view(cmd@), mode, r),
{
    runner.run_cmd(dir, cmd, mode)
}

/// Runs `cmd` in `dir` with inherited output; returns its exit code.
pub fn run_in_dir_status<R: CommandRunner>(runner: &R, dir: &str, cmd: &[&str]) -> (r: Result<
    i32,
    InvokeError,
>)
    ensures
        ran_status(runner, dir@, words_view(cmd@), r),
        r matches Err(InvokeError::InDir { dir: d, cmd: c, cause: _ }) ==> d@ == dir@ && strings_view(
            c@,
        ) == words_view(cmd@),
        r is Err ==> r matches Err(InvokeError::InDir { .. }),
{
    let result = run_cmd(runner, dir, cmd, OutputMode::Inherit);
    let r = exit_status(result, dir, cmd);
    assert(runner.may_run(dir@, words_view(cmd@), OutputMode::Inherit, result));
    r
}

/// Runs `cmd` in `dir`, feeding `stdin_bytes` to it.
pub fn run_with_stdin_inherited<R: CommandRunner>(
    runner: &R,
    dir: &str,
    cmd: &[&str],
    stdin_bytes: &[u8],
) -> (r: Result<i32, InvokeError>)
    ensures
        runner.may_feed(dir@, words_view(cmd@), stdin_bytes@, r),
{
    runner.run_with_stdin_inherited(dir, cmd, stdin_bytes)
}

/// Runs `cmd` in `dir`, capturing its output.
pub fn run_in_dir_capture<R: CommandRunner>(runner: &R, dir: &str, cmd: &[&str]) -> (r: Result<
    CapturedOutput,
    InvokeError,
>)
    ensures
        ran_capture(runner, dir@, words_view(cmd@), r),
        r matches Err(InvokeError::InDir { dir: d, cmd: c, cause: _ }) ==> d@ == dir@ && strings_view(
            c@,
        ) == words_view(cmd@),
        r is Err ==> r matches Err(InvokeError::InDir { .. }),
{
    let result = run_cmd(runner, dir, cmd, OutputMode::Capture);
    let r = captured_output(result, dir, cmd);
    assert(runner.may_run(dir@, words_view(cmd@), OutputMode::Capture, result));
    r
}

/// Runs `cmd` in `dir` with its output discarded; returns its exit code. An empty command
/// line is an error, and nothing is run then.
pub fn run_command_silent<R: CommandRunner>(runner: &R, dir: &str, cmd: &[&str]) -> (r: Result<
    i32,
    InvokeError,
>)
    ensures
        cmd@.len() == 0 ==> r matches Err(InvokeError::NoCommand),
        cmd@.len() > 0 ==> ran_silent(runner, dir@, words_view(cmd@), r),
        cmd@.len() > 0 && r is Err ==> (r matches Err(InvokeError::Command { cmd: c, cause: _ })
            && strings_view(c@) == words_view(cmd@)),
{
    if cmd.len() == 0 {
        return Err(InvokeError::NoCommand);
    }
    let result = run_cmd(runner, dir, cmd, OutputMode::Silent);
    assert(runner.may_run(dir@, words_view(cmd@), OutputMode::Silent, result));
    match result {
        Ok(res) => Ok(res.exit_code),
        Err(e) => {
            let words = command_words(cmd);
            assert(strings_view(words@) =~= words_view(cmd@));
            Err(InvokeError::Command { cmd: words, cause: Box::new(e) })
        },
    }
}

/// Runs `git` with `args` in `dir`, with inherited output; returns its exit code.
pub fn run_git_status<R: CommandRunner>(runner: &R, dir: &str, args: &[&str]) -> (r: Result<
    i32,
    InvokeError,
>)
    ensures
        ran_status(runner, dir@, seq!["git"@] + words_view(args@), r),
        r matches Err(InvokeError::InDir { dir: d, cmd: c, cause: _ }) ==> d@ == dir@ && strings_view(
            c@,
        ) == seq!["git"@] + words_view(args@),
        r is Err ==> r matches Err(InvokeError::InDir { .. }),
{
    let cmd_args = git_command(args);
    run_in_dir_status(runner, dir, cmd_args.as_slice())
}

/// Runs `git` with `args` in `local_path`, capturing its output.
pub fn run_git_capture<R: CommandRunner>(runner: &R, local_path: &str, args: &[&str]) -> (r: Result<
    CapturedOutput,
    InvokeError,
>)
    ensures
        ran_capture(runner, local_path@, seq!["git"@] + words_view(args@), r),
        r matches Err(InvokeError::InDir { dir: d, cmd: c, cause: _ }) ==> d@ == local_path@
            && strings_view(c@) == seq!["git"@] + words_view(args@),
        r is Err ==> r matches Err(InvokeError::InDir { .. }),
{
    let cmd_args = git_command(args);
    run_in_dir_capture(runner, local_path, cmd_args.as_slice())
}

} // verus!
