//! Decisions about a single repository: checks, commands to run and how their results read.
use vstd::prelude::*;
use crate::config::{Config, FullRepoSpec};
use crate::invoke::{
    git_cmd_line, ran_capture, ran_silent, ran_status, run_command_silent, run_git_capture, run_git_status,
    run_in_dir_status, run_with_stdin_inherited, strings_view, word_refs, words_view,
    CapturedOutput, CommandRunner, InvokeError,
};
use crate::text::{
    chars_of, concat, ends_with_str, has_prefix, has_suffix, starts_with_str, str_equal,
    string_of, trim_white, trim_white_space, utf8_lossy, utf8_lossy_text,
};
use crate::trusted::{shell_escape_unix, shell_escaped, shlex_split, shlex_words};

verus! {

/// Why an operation on a repository failed.
#[derive(Debug)]
pub enum RepoError {
    /// Checking whether `path` is a repository root could not run git.
    RootCheck { path: String, cause: InvokeError },
    /// Cloning `url` could not run git.
    CloneSpawn { url: String, cause: InvokeError },
    /// `git clone` exited with this code.
    CloneFailed { code: i32 },
    /// `git init` exited with this code.
    InitFailed { code: i32 },
    /// The configuration command could not be run.
    ConfigCommandSpawn { command: String, cause: InvokeError },
    /// The configuration command exited with this code.
    ConfigCommandFailed { code: i32 },
    /// Setting the remote URL exited with this code.
    SetRemoteFailed { code: i32 },
    /// A git command (its arguments joined by spaces) exited with this code.
    GitCommandFailed { args: String, code: i32 },
    /// The git arguments are not validly quoted.
    InvalidGitArgsQuoting,
    /// RPATH_TEMPLATE is not set.
    MissingRpathTemplate,
    /// RLOGIN is not set.
    MissingRlogin,
    /// RLOGIN is not of the form ssh://[user@]host.
    RloginNotSsh,
    /// The remote target exists as a directory that is not a repository.
    TargetNotRepo { target: String },
    /// The remote target exists as a regular file.
    TargetIsFile { target: String },
    /// The remote target exists as a special file.
    TargetIsSpecial { target: String },
    /// Creating the remote repository ended with this status.
    CreationFailed { code: i32 },
    /// The SSH command that creates the remote repository could not be run.
    CreationSpawn { cause: InvokeError },
    /// A git command could not be run.
    Run { cause: InvokeError },
}

/// A git operation whose failure is only warned about: its name and the exit code.
#[derive(Debug)]
pub struct FailedOperation {
    pub operation: String,
    pub code: i32,
}

/// Whether `git rev-parse --git-dir` reported the repository root: it succeeded and printed
/// `.git` (surrounding white space aside).
pub open spec fn output_names_root(exit_code: i32, stdout: Seq<u8>) -> bool {
    exit_code == 0 && trim_white(utf8_lossy_text(stdout)) == ".git"@
}

/// Reads the output of `git rev-parse --git-dir`.
pub fn git_dir_output_is_root(output: &CapturedOutput) -> (b: bool)
    ensures
        b == output_names_root(output.exit_code, output.stdout@),
{
    if output.exit_code != 0 {
        return false;
    }
    let text = utf8_lossy(output.stdout.as_slice());
    let trimmed = trim_white_space(text.as_str());
    str_equal(trimmed, ".git")
}

/// The command that asks git where the repository's git directory is.
pub open spec fn rev_parse_cmd() -> Seq<Seq<char>> {
    seq!["git"@, "rev-parse"@, "--git-dir"@]
}

/// How the captured output of `git rev-parse --git-dir` in `path` reads: whether it names
/// the repository root, or an error that records the path and the failure to run git.
pub open spec fn root_reads(
    c: Result<CapturedOutput, InvokeError>,
    path: Seq<char>,
    r: Result<bool, RepoError>,
) -> bool {
    match c {
        Ok(o) => r == Ok::<bool, RepoError>(output_names_root(o.exit_code, o.stdout@)),
        Err(e) => r matches Err(RepoError::RootCheck { path: p, cause }) && p@ == path && cause
            == e,
    }
}

/// Check if directory is a Git repository root
pub fn is_dir_repo_root<R: CommandRunner>(runner: &R, local_path: &str) -> (r: Result<
    bool,
    RepoError,
>)
    ensures
        exists|c: Result<CapturedOutput, InvokeError>|
            #[trigger] ran_capture(runner, local_path@, rev_parse_cmd(), c) && root_reads(
                c,
                local_path@,
                r,
            ),
        r matches Err(RepoError::RootCheck { path, cause }) ==> path@ == local_path@,
        r is Err ==> r matches Err(RepoError::RootCheck { .. }),
{
    let args = ["rev-parse", "--git-dir"];
    assert(seq!["git"@] + words_view(args@) =~= rev_parse_cmd());
    let captured = run_git_capture(runner, local_path, &args);
    let ghost c = captured;
    let r = match captured {
        Ok(output) => Ok(git_dir_output_is_root(&output)),
        Err(e) => Err(RepoError::RootCheck { path: string_of(local_path), cause: e }),
    };
    assert(ran_capture(runner, local_path@, rev_parse_cmd(), c) && root_reads(c, local_path@, r));
    r
}

/// The result of a `git init`: success exactly when it exited with 0.
pub fn init_outcome(status: i32) -> (r: Result<(), RepoError>)
    ensures
        status == 0 ==> r is Ok,
        status != 0 ==> (r matches Err(RepoError::InitFailed { code }) && code == status),
{
    if status != 0 {
        return Err(RepoError::InitFailed { code: status });
    }
    Ok(())
}

/// The command that initializes a repository quietly.
pub open spec fn init_cmd() -> Seq<Seq<char>> {
    seq!["git"@, "init"@, "-q"@]
}

/// How the exit status of `git init -q` reads: success for 0, otherwise an error with the
/// exit code; a failure to run git is an error that carries it.
pub open spec fn init_reads(s: Result<i32, InvokeError>, r: Result<(), RepoError>) -> bool {
    match s {
        Ok(code) => if code == 0 {
            r is Ok
        } else {
            r matches Err(RepoError::InitFailed { code: c }) && c == code
        },
        Err(e) => r matches Err(RepoError::Run { cause }) && cause == e,
    }
}

/// Initialize a git repository: runs `git init -q` in `local_path`, which must exit with 0.
pub fn init_new<R: CommandRunner>(runner: &R, local_path: &str) -> (r: Result<(), RepoError>)
    ensures
        r matches Err(RepoError::Run { cause }) ==> (cause matches InvokeError::InDir {
            dir,
            cmd,
            cause: _,
        } && dir@ == local_path@ && strings_view(cmd@) == seq!["git"@, "init"@, "-q"@]),
        r matches Err(e) ==> (e is Run || (e matches RepoError::InitFailed { code } && code != 0)),
        exists|s: Result<i32, InvokeError>|
            #[trigger] ran_status(runner, local_path@, init_cmd(), s) && init_reads(s, r),
{
    let cmd = ["git", "init", "-q"];
    assert(words_view(cmd@) =~= init_cmd());
    let st = run_in_dir_status(runner, local_path, &cmd);
    let ghost s = st;
    let r = match st {
        Err(e) => Err(RepoError::Run { cause: e }),
        Ok(status) => init_outcome(status),
    };
    assert(ran_status(runner, local_path@, init_cmd(), s) && init_reads(s, r));
    r
}

/// The arguments of the clone command for a repository.
pub open spec fn clone_args(repo_url: Seq<char>, local_path: Seq<char>) -> Seq<Seq<char>> {
    seq!["clone"@, "--no-checkout"@, repo_url, local_path]
}

/// The command that clones `repo_url` into `local_path` without a checkout.
pub open spec fn clone_cmd(repo_url: Seq<char>, local_path: Seq<char>) -> Seq<Seq<char>> {
    seq!["git"@] + clone_args(repo_url, local_path)
}

/// How the exit status of the clone command reads: success for 0, otherwise an error with
/// the exit code; a failure to run git is an error that carries it and names `url`.
pub open spec fn clone_reads(s: Result<i32, InvokeError>, url: Seq<char>, r: Result<(), RepoError>) -> bool {
    match s {
        Ok(code) => if code == 0 {
            r is Ok
        } else {
            r matches Err(RepoError::CloneFailed { code: c }) && c == code
        },
        Err(e) => r matches Err(RepoError::CloneSpawn { url: u, cause }) && u@ == url && cause
            == e,
    }
}

/// Clone a repository without checking it out: runs `git clone --no-checkout URL LOCAL`
/// in the current directory; any non-zero exit code is an error.
pub fn clone_repo_no_checkout<R: CommandRunner>(runner: &R, repo: &FullRepoSpec) -> (r: Result<
    (),
    RepoError,
>)
    ensures
        r matches Err(RepoError::CloneSpawn { url, cause }) ==> (url@ == repo.remote_url@
            && (cause matches InvokeError::InDir { dir, cmd, cause: _ } && strings_view(cmd@)
            == seq!["git"@] + clone_args(repo.remote_url@, repo.local_path@))),
        r matches Err(e) ==> (e is CloneSpawn || (e matches RepoError::CloneFailed { code } && code
            != 0)),
        exists|s: Result<i32, InvokeError>|
            #[trigger] ran_status(
                runner,
                "."@,
                clone_cmd(repo.remote_url@, repo.local_path@),
                s,
            ) && clone_reads(s, repo.remote_url@, r),
{
    let args = ["clone", "--no-checkout", repo.remote_url.as_str(), repo.local_path.as_str()];
    assert(words_view(args@) =~= clone_args(repo.remote_url@, repo.local_path@));
    let st = run_git_status(runner, ".", &args);
    let ghost s = st;
    let r = match st {
        Err(e) => Err(RepoError::CloneSpawn { url: repo.remote_url.clone(), cause: e }),
        Ok(status) => {
            if status != 0 {
                Err(RepoError::CloneFailed { code: status })
            } else {
                Ok(())
            }
        },
    };
    assert(seq!["git"@] + words_view(args@) =~= clone_cmd(repo.remote_url@, repo.local_path@));
    assert(ran_status(runner, "."@, clone_cmd(repo.remote_url@, repo.local_path@), s)
        && clone_reads(s, repo.remote_url@, r));
    r
}

/// The shell command that configures a repository: the configured command followed by
/// the shell-escaped configuration parameter.
pub open spec fn config_command_text(config_cmd: Seq<char>, cfg_param: Seq<char>) -> Seq<char> {
    config_cmd + seq![' '] + shell_escaped(cfg_param)
}

/// Builds the shell command that configures a repository.
pub fn config_command_line(config_cmd: &str, cfg_param: &str) -> (r: String)
    ensures
        r@ == config_command_text(config_cmd@, cfg_param@),
{
    let escaped = shell_escape_unix(cfg_param);
    let mut r = concat(config_cmd, " ");
    r.append(escaped.as_str());
    proof {
        reveal_strlit(" ");
    }
    r
}

/// How the exit status of the configuration command `command` reads: success for 0,
/// otherwise an error with the exit code; a failure to run it is an error that carries it
/// and names the command.
pub open spec fn config_cmd_reads(
    s: Result<i32, InvokeError>,
    command: Seq<char>,
    r: Result<(), RepoError>,
) -> bool {
    match s {
        Ok(code) => if code == 0 {
            r is Ok
        } else {
            r matches Err(RepoError::ConfigCommandFailed { code: c }) && c == code
        },
        Err(e) => r matches Err(RepoError::ConfigCommandSpawn { command: c, cause }) && c@
            == command && cause == e,
    }
}

/// The shell command line that runs `text`.
pub open spec fn sh_cmd(text: Seq<char>) -> Seq<Seq<char>> {
    seq!["sh"@, "-c"@, text]
}

/// `r` is the result of configuring the repository at `local_path` with `config_cmd` and
/// `cfg_param`: success when there is no command; otherwise what `sh -c` with the
/// configuration command gives through `runner`, read as `config_cmd_reads` says.
pub open spec fn configured<R: CommandRunner>(
    runner: &R,
    local_path: Seq<char>,
    config_cmd: Seq<char>,
    cfg_param: Seq<char>,
    r: Result<(), RepoError>,
) -> bool {
    if config_cmd.len() == 0 {
        r is Ok
    } else {
        exists|s: Result<i32, InvokeError>|
            #[trigger] ran_status(
                runner,
                local_path,
                sh_cmd(config_command_text(config_cmd, cfg_param)),
                s,
            ) && config_cmd_reads(s, config_command_text(config_cmd, cfg_param), r)
    }
}

/// Execute the CONFIG_CMD in the repository's directory: nothing when it is empty;
/// otherwise `sh -c` with the command and the escaped parameter, which must exit with 0.
pub fn execute_config_cmd<R: CommandRunner>(runner: &R, repo: &FullRepoSpec, config: &Config) -> (r:
    Result<(), RepoError>)
    ensures
        config.config_cmd@.len() == 0 ==> r is Ok,
        r matches Err(RepoError::ConfigCommandSpawn { command, cause }) ==> (command@
            == config_command_text(config.config_cmd@, repo.cfg_param@) && (cause matches InvokeError::InDir {
            dir,
            cmd,
            cause: _,
        } && dir@ == repo.local_path@ && strings_view(cmd@) == seq![
            "sh"@,
            "-c"@,
            config_command_text(config.config_cmd@, repo.cfg_param@),
        ])),
        r matches Err(e) ==> (e is ConfigCommandSpawn || (e matches RepoError::ConfigCommandFailed {
            code,
        } && code != 0)),
        configured(runner, repo.local_path@, config.config_cmd@, repo.cfg_param@, r),
{
    if config.config_cmd.as_str().is_empty() {
        return Ok(());
    }
    let inner_cmd = config_command_line(config.config_cmd.as_str(), repo.cfg_param.as_str());
    let ghost text = inner_cmd@;
    let cmd = ["sh", "-c", inner_cmd.as_str()];
    assert(words_view(cmd@) =~= sh_cmd(inner_cmd@));
    let st = run_in_dir_status(runner, repo.local_path.as_str(), &cmd);
    let ghost s = st;
    let r = match st {
        Err(e) => Err(RepoError::ConfigCommandSpawn { command: inner_cmd, cause: e }),
        Ok(status) => {
            if status != 0 {
                Err(RepoError::ConfigCommandFailed { code: status })
            } else {
                Ok(())
            }
        },
    };
    assert(ran_status(runner, repo.local_path@, sh_cmd(text), s) && config_cmd_reads(
        s,
        text,
        r,
    ));
    r
}

/// Configure a repository using the configured command.
pub fn configure_repo<R: CommandRunner>(runner: &R, repo: &FullRepoSpec, config: &Config) -> (r:
    Result<(), RepoError>)
    ensures
        config.config_cmd@.len() == 0 ==> r is Ok,
        r matches Err(e) ==> (e is ConfigCommandSpawn || (e matches RepoError::ConfigCommandFailed {
            code,
        } && code != 0)),
        configured(runner, repo.local_path@, config.config_cmd@, repo.cfg_param@, r),
{
    execute_config_cmd(runner, repo, config)
}

/// What to do after `git remote set-url origin URL` exited with `status`.
#[derive(Debug, Clone, Copy, PartialEq, Eq)]
pub enum SetRemoteStep {
    /// The URL was set.
    Done,
    /// There is no remote named origin: add it.
    AddRemote,
}

/// Reads the exit code of `git remote set-url`: 0 is done, 2 means origin must be added,
/// anything else is an error.
pub fn set_remote_step(status: i32) -> (r: Result<SetRemoteStep, RepoError>)
    ensures
        status == 0 ==> r == Ok::<SetRemoteStep, RepoError>(SetRemoteStep::Done),
        status == 2 ==> r == Ok::<SetRemoteStep, RepoError>(SetRemoteStep::AddRemote),
        status != 0 && status != 2 ==> (r matches Err(RepoError::SetRemoteFailed { code }) && code
            == status),
{
    if status == 2 {
        Ok(SetRemoteStep::AddRemote)
    } else if status != 0 {
        Err(RepoError::SetRemoteFailed { code: status })
    } else {
        Ok(SetRemoteStep::Done)
    }
}

/// The command that sets the URL of the remote "origin" to `url`.
pub open spec fn set_url_cmd(url: Seq<char>) -> Seq<Seq<char>> {
    seq!["git"@, "remote"@, "set-url"@, "origin"@, url]
}

/// How the exit status of `git remote set-url` reads, as `set_remote_step` says; a failure
/// to run git is an error that carries it.
pub open spec fn set_remote_reads(s: Result<i32, InvokeError>, r: Result<SetRemoteStep, RepoError>) -> bool {
    match s {
        Ok(code) => if code == 0 {
            r == Ok::<SetRemoteStep, RepoError>(SetRemoteStep::Done)
        } else if code == 2 {
            r == Ok::<SetRemoteStep, RepoError>(SetRemoteStep::AddRemote)
        } else {
            r matches Err(RepoError::SetRemoteFailed { code: c }) && c == code
        },
        Err(e) => r matches Err(RepoError::Run { cause }) && cause == e,
    }
}

/// Sets the URL of the repository's remote "origin" (`git remote set-url origin URL` in its
/// directory, output discarded) and reads the exit code as `set_remote_step` does: when
/// there is no origin yet, the step says to add it (see `add_remote`).
pub fn set_remote<R: CommandRunner>(runner: &R, repo: &FullRepoSpec) -> (r: Result<
    SetRemoteStep,
    RepoError,
>)
    ensures
        r matches Err(RepoError::Run { cause }) ==> (cause matches InvokeError::Command {
            cmd,
            cause: _,
        } && strings_view(cmd@) == seq![
            "git"@,
            "remote"@,
            "set-url"@,
            "origin"@,
            repo.remote_url@,
        ]),
        r matches Err(e) ==> (e is Run || (e matches RepoError::SetRemoteFailed { code } && code
            != 0 && code != 2)),
        exists|s: Result<i32, InvokeError>|
            #[trigger] ran_silent(runner, repo.local_path@, set_url_cmd(repo.remote_url@), s)
                && set_remote_reads(s, r),
{
    let cmd = ["git", "remote", "set-url", "origin", repo.remote_url.as_str()];
    assert(words_view(cmd@) =~= set_url_cmd(repo.remote_url@));
    let st = run_command_silent(runner, repo.local_path.as_str(), &cmd);
    let ghost s = st;
    let r = match st {
        Err(e) => Err(RepoError::Run { cause: e }),
        Ok(status) => set_remote_step(status),
    };
    assert(ran_silent(runner, repo.local_path@, set_url_cmd(repo.remote_url@), s)
        && set_remote_reads(s, r));
    r
}

/// Words joined with single spaces.
pub open spec fn joined_words(words: Seq<Seq<char>>) -> Seq<char>
    decreases words.len(),
{
    if words.len() == 0 {
        Seq::empty()
    } else if words.len() == 1 {
        words[0]
    } else {
        joined_words(words.drop_last()) + seq![' '] + words[words.len() - 1]
    }
}

/// Joins words with single spaces.
pub fn join_words(words: &[&str]) -> (r: String)
    ensures
        r@ == joined_words(words_view(words@)),
{
    let mut r = String::new();
    let mut i: usize = 0;
    proof {
        reveal_strlit(" ");
    }
    while i < words.len()
        invariant
            i <= words@.len(),
            r@ == joined_words(words_view(words@.subrange(0, i as int))),
            " "@ == seq![' '],
        decreases words@.len() - i,
    {
        let ghost prev = words_view(words@.subrange(0, i as int));
        assert(words_view(words@.subrange(0, i + 1)).drop_last() =~= prev);
        if i > 0 {
            r.append(" ");
        }
        r.append(words[i]);
        i = i + 1;
    }
    assert(words@.subrange(0, words@.len() as int) =~= words@);
    r
}

/// The result of a git command that exited with `status`: success for 0; otherwise, when
/// an operation name is given, success with the failed operation to warn about; otherwise
/// an error that names the arguments.
pub fn git_cmd_outcome(args: &[&str], status: i32, operation_for_warning: Option<&str>) -> (r: Result<
    Option<FailedOperation>,
    RepoError,
>)
    ensures
        status == 0 ==> r matches Ok(None),
        status != 0 && operation_for_warning is Some ==> (r matches Ok(Some(f)) && f.operation@
            == operation_for_warning->0@ && f.code == status),
        status != 0 && operation_for_warning is None ==> (r matches Err(
            RepoError::GitCommandFailed { args: a, code },
        ) && a@ == joined_words(words_view(args@)) && code == status),
{
    if status != 0 {
        if let Some(operation) = operation_for_warning {
            return Ok(Some(FailedOperation { operation: string_of(operation), code: status }));
        }
        return Err(RepoError::GitCommandFailed { args: join_words(args), code: status });
    }
    Ok(None)
}

/// The view of an optional operation name.
pub open spec fn opt_view(op: Option<&str>) -> Option<Seq<char>> {
    match op {
        Some(o) => Some(o@),
        None => None,
    }
}

/// How the exit status of a git command with arguments `args` reads: nothing to report for
/// 0; otherwise the failed operation `op` when one is named, or an error with the joined
/// arguments and the exit code; a failure to run git is an error that carries it.
pub open spec fn git_cmd_reads(
    args: Seq<Seq<char>>,
    s: Result<i32, InvokeError>,
    op: Option<Seq<char>>,
    r: Result<Option<FailedOperation>, RepoError>,
) -> bool {
    match s {
        Ok(code) => if code == 0 {
            r matches Ok(None)
        } else {
            match op {
                Some(o) => r matches Ok(Some(f)) && f.operation@ == o && f.code == code,
                None => r matches Err(RepoError::GitCommandFailed { args: a, code: c }) && a@
                    == joined_words(args) && c == code,
            }
        },
        Err(e) => r matches Err(RepoError::Run { cause }) && cause == e,
    }
}

/// Runs `git` with `args` in `local_path`. A non-zero exit code is an error naming the
/// arguments, unless an operation name is given: then the failed operation comes back, to
/// be warned about.
pub fn run_git_cmd<R: CommandRunner>(
    runner: &R,
    local_path: &str,
    args: &[&str],
    operation_for_warning: Option<&str>,
) -> (r: Result<Option<FailedOperation>, RepoError>)
    ensures
        r matches Err(RepoError::Run { cause }) ==> (cause matches InvokeError::InDir {
            dir,
            cmd,
            cause: _,
        } && dir@ == local_path@ && strings_view(cmd@) == seq!["git"@] + words_view(args@)),
        r matches Err(e) ==> (e is Run || (operation_for_warning is None && (
        e matches RepoError::GitCommandFailed { args: a, code } && a@ == joined_words(
            words_view(args@),
        ) && code != 0))),
        r matches Ok(Some(f)) ==> (operation_for_warning is Some && f.operation@
            == operation_for_warning->0@ && f.code != 0),
        exists|s: Result<i32, InvokeError>|
            #[trigger] ran_status(runner, local_path@, git_cmd_line(words_view(args@)), s)
                && git_cmd_reads(words_view(args@), s, opt_view(operation_for_warning), r),
{
    let st = run_git_status(runner, local_path, args);
    let ghost s = st;
    let r = match st {
        Err(e) => Err(RepoError::Run { cause: e }),
        Ok(status) => git_cmd_outcome(args, status, operation_for_warning),
    };
    assert(ran_status(runner, local_path@, git_cmd_line(words_view(args@)), s) && git_cmd_reads(
        words_view(args@),
        s,
        opt_view(operation_for_warning),
        r,
    ));
    r
}

/// The arguments that add the remote "origin" at `url` and fetch from it.
pub open spec fn add_remote_args(url: Seq<char>) -> Seq<Seq<char>> {
    seq!["remote"@, "add"@, "-f"@, "origin"@, url]
}

/// How the exit status of the git command with arguments `args` reads when any failure is
/// an error: success for 0, otherwise an error with the joined arguments and the exit
/// code; a failure to run git is an error that carries it.
pub open spec fn git_strict_reads(
    args: Seq<Seq<char>>,
    s: Result<i32, InvokeError>,
    r: Result<(), RepoError>,
) -> bool {
    match s {
        Ok(code) => if code == 0 {
            r is Ok
        } else {
            r matches Err(RepoError::GitCommandFailed { args: a, code: c }) && a@ == joined_words(
                args,
            ) && c == code
        },
        Err(e) => r matches Err(RepoError::Run { cause }) && cause == e,
    }
}

/// The arguments of a checkout.
pub open spec fn checkout_args() -> Seq<Seq<char>> {
    seq!["checkout"@]
}

/// Adds the repository's remote "origin" and fetches from it (`git remote add -f origin URL`
/// in its directory); a non-zero exit code is an error.
pub fn add_remote<R: CommandRunner>(runner: &R, repo: &FullRepoSpec) -> (r: Result<(), RepoError>)
    ensures
        r matches Err(RepoError::Run { cause }) ==> (cause matches InvokeError::InDir {
            dir,
            cmd,
            cause: _,
        } && dir@ == repo.local_path@ && strings_view(cmd@) == seq![
            "git"@,
            "remote"@,
            "add"@,
            "-f"@,
            "origin"@,
            repo.remote_url@,
        ]),
        r matches Err(e) ==> (e is Run || (e matches RepoError::GitCommandFailed { args: a, code }
            && a@ == joined_words(seq!["remote"@, "add"@, "-f"@, "origin"@, repo.remote_url@])
            && code != 0)),
        exists|s: Result<i32, InvokeError>|
            #[trigger] ran_status(
                runner,
                repo.local_path@,
                git_cmd_line(add_remote_args(repo.remote_url@)),
                s,
            ) && git_strict_reads(add_remote_args(repo.remote_url@), s, r),
{
    let args = ["remote", "add", "-f", "origin", repo.remote_url.as_str()];
    assert(words_view(args@) =~= seq!["remote"@, "add"@, "-f"@, "origin"@, repo.remote_url@]);
    assert(seq!["git"@] + words_view(args@) =~= seq![
        "git"@,
        "remote"@,
        "add"@,
        "-f"@,
        "origin"@,
        repo.remote_url@,
    ]);
    assert(words_view(args@) =~= add_remote_args(repo.remote_url@));
    let outcome = run_git_cmd(runner, repo.local_path.as_str(), &args, None);
    let ghost s = choose|s: Result<i32, InvokeError>|
        ran_status(runner, repo.local_path@, git_cmd_line(words_view(args@)), s) && git_cmd_reads(
            words_view(args@),
            s,
            opt_view(None),
            outcome,
        );
    let r = match outcome {
        Err(e) => Err(e),
        Ok(_) => Ok(()),
    };
    assert(ran_status(runner, repo.local_path@, git_cmd_line(add_remote_args(repo.remote_url@)), s)
        && git_strict_reads(add_remote_args(repo.remote_url@), s, r));
    r
}

/// Checks out the working tree of the repository at `local_path` (`git checkout`); when it
/// fails, the failed "checkout" operation comes back, to be warned about.
pub fn check_out<R: CommandRunner>(runner: &R, local_path: &str) -> (r: Result<
    Option<FailedOperation>,
    RepoError,
>)
    ensures
        r matches Err(e) ==> (e matches RepoError::Run { cause } && (cause matches InvokeError::InDir {
            dir,
            cmd,
            cause: _,
        } && dir@ == local_path@ && strings_view(cmd@) == seq!["git"@, "checkout"@])),
        r matches Ok(Some(f)) ==> (f.operation@ == "checkout"@ && f.code != 0),
        exists|s: Result<i32, InvokeError>|
            #[trigger] ran_status(runner, local_path@, git_cmd_line(checkout_args()), s)
                && git_cmd_reads(checkout_args(), s, Some("checkout"@), r),
{
    let args = ["checkout"];
    assert(seq!["git"@] + words_view(args@) =~= seq!["git"@, "checkout"@]);
    assert(words_view(args@) =~= checkout_args());
    run_git_cmd(runner, local_path, &args, Some("checkout"))
}

/// Runs a git command given as one shell-quoted text of arguments in `local_path`; text
/// that does not split is an error, and so is a non-zero exit code.
pub fn run_git_command<R: CommandRunner>(runner: &R, local_path: &str, args_str: &str) -> (r:
    Result<(), RepoError>)
    ensures
        shlex_words(args_str@) is None ==> r matches Err(RepoError::InvalidGitArgsQuoting),
        shlex_words(args_str@) matches Some(words) ==> ((r matches Err(RepoError::Run { cause })
            ==> (cause matches InvokeError::InDir { dir, cmd, cause: _ } && dir@ == local_path@
            && strings_view(cmd@) == seq!["git"@] + words)) && (r matches Err(e) ==> (e is Run
            || (e matches RepoError::GitCommandFailed { args: a, code } && a@ == joined_words(
            words,
        ) && code != 0)))),
        shlex_words(args_str@) matches Some(words) ==> exists|s: Result<i32, InvokeError>|
            #[trigger] ran_status(runner, local_path@, git_cmd_line(words), s) && git_strict_reads(
                words,
                s,
                r,
            ),
{
    let words = match git_command_args(args_str) {
        Ok(v) => v,
        Err(e) => return Err(e),
    };
    let args = word_refs(words.as_slice());
    let outcome = run_git_cmd(runner, local_path, args.as_slice(), None);
    let ghost s = choose|s: Result<i32, InvokeError>|
        ran_status(runner, local_path@, git_cmd_line(words_view(args@)), s) && git_cmd_reads(
            words_view(args@),
            s,
            opt_view(None),
            outcome,
        );
    let r = match outcome {
        Err(e) => Err(e),
        Ok(_) => Ok(()),
    };
    assert(ran_status(runner, local_path@, git_cmd_line(words_view(args@)), s) && git_strict_reads(
        words_view(args@),
        s,
        r,
    ));
    r
}

/// The arguments of a git command given as one shell-quoted text.
pub fn git_command_args(args_str: &str) -> (r: Result<Vec<String>, RepoError>)
    ensures
        match shlex_words(args_str@) {
            None => r matches Err(RepoError::InvalidGitArgsQuoting),
            Some(words) => r matches Ok(v) && strings_view(v@) == words,
        },
{
    match shlex_split(args_str) {
        Some(v) => {
            assert(strings_view(v@) =~= v@.map_values(|w: String| w@));
            Ok(v)
        },
        None => Err(RepoError::InvalidGitArgsQuoting),
    }
}


/// The start of the script that creates a remote repository, up to the target path.
pub const REMOTE_SCRIPT_HEAD: &'static str = "#!/bin/bash\nset -e\nTARGET=\"";

/// The script text between the target path and the template path.
pub const REMOTE_SCRIPT_MID: &'static str = "\"\nTEMPLATE=\"";

/// The rest of the script: it exits with 0 when the target is a repository or was created,
/// 90 for a directory that is not a repository, 91 for a regular file and 92 for another
/// kind of file.
pub const REMOTE_SCRIPT_TAIL: &'static str = "\"\n\nif [ -d \"$TARGET\" ]; then\n    # Check if it's a repo using proper git plumbing command\n    if git -C \"$TARGET\" rev-parse --git-dir >/dev/null 2>&1; then\n        # It's a git repo, success\n        exit 0\n    else\n        # Directory exists but isn't a repo\n        exit 90\n    fi\nelif [ -e \"$TARGET\" ]; then\n    # Path exists but isn't a directory\n    if [ -f \"$TARGET\" ]; then\n        # Regular file\n        exit 91\n    else\n        # Other file type (symlink, device, socket, fifo, etc.)\n        exit 92\n    fi\nelse\n    # Doesn't exist, create it\n    if [ -z \"$TEMPLATE\" ]; then\n        # No template config, create bare repo\n        mkdir -p \"$TARGET\"\n        cd \"$TARGET\"\n        git init --bare -q\n    else\n        # Use template\n        mkdir -p \"$(dirname \"$TARGET\")\"\n        cp -na --reflink=auto \"$TEMPLATE\" \"$TARGET\"\n    fi\n    exit 0\nfi\n";

/// What creating a remote repository over SSH needs.
pub struct RemoteCreation {
    /// The SSH destination, `[user@]host`.
    pub ssh_host: String,
    /// The remote path of the repository, ending in ".git".
    pub target_path: String,
    /// The shell script to run on the remote host.
    pub script: String,
}

/// The remote path of a repository to create: its remote path, with ".git" added unless it
/// already ends so.
pub open spec fn creation_target(remote_path: Seq<char>) -> Seq<char> {
    if has_suffix(remote_path, ".git"@) {
        remote_path
    } else {
        remote_path + ".git"@
    }
}

/// The remote repository that creation targets always ends in ".git": a remote path that
/// already ends in ".git" is the target as it stands, any other gets ".git" added once, and
/// aiming again at a target changes nothing.
pub proof fn law_creation_target_ends_in_git(remote_path: Seq<char>)
    ensures
        ({
            let t = creation_target(remote_path);
            &&& t.len() >= 4
            &&& t.subrange(t.len() - 4, t.len() as int) == seq!['.', 'g', 'i', 't']
        }),
        remote_path.len() >= 4 && remote_path.subrange(remote_path.len() - 4, remote_path.len() as int)
            == seq!['.', 'g', 'i', 't'] ==> creation_target(remote_path) == remote_path,
        !(remote_path.len() >= 4 && remote_path.subrange(
            remote_path.len() - 4,
            remote_path.len() as int,
        ) == seq!['.', 'g', 'i', 't']) ==> creation_target(remote_path) == remote_path + seq![
            '.',
            'g',
            'i',
            't',
        ],
        creation_target(creation_target(remote_path)) == creation_target(remote_path),
{
    reveal_strlit(".git");
    assert(".git"@ =~= seq!['.', 'g', 'i', 't']);
    let t = creation_target(remote_path);
    if !has_suffix(remote_path, ".git"@) {
        assert(t.subrange(t.len() - 4, t.len() as int) =~= seq!['.', 'g', 'i', 't']);
    }
    assert(has_suffix(t, ".git"@));
}

/// The script that creates `target` on the remote host, from `template` if one is set.
pub open spec fn creation_script(target: Seq<char>, template: Seq<char>) -> Seq<char> {
    REMOTE_SCRIPT_HEAD@ + target + REMOTE_SCRIPT_MID@ + template + REMOTE_SCRIPT_TAIL@
}

/// Checks the configuration for creating a repository's remote and prepares it:
/// RPATH_TEMPLATE and RLOGIN must be set, and RLOGIN must start with "ssh://"; the host is
/// the rest of RLOGIN.
pub fn plan_remote_creation(repo: &FullRepoSpec, config: &Config) -> (r: Result<
    RemoteCreation,
    RepoError,
>)
    ensures
        config.rpath_template@.len() == 0 ==> r matches Err(RepoError::MissingRpathTemplate),
        config.rpath_template@.len() > 0 && config.rlogin@.len() == 0 ==> r matches Err(
            RepoError::MissingRlogin,
        ),
        config.rpath_template@.len() > 0 && config.rlogin@.len() > 0 && !has_prefix(
            config.rlogin@,
            "ssh://"@,
        ) ==> r matches Err(RepoError::RloginNotSsh),
        config.rpath_template@.len() > 0 && config.rlogin@.len() > 0 && has_prefix(
            config.rlogin@,
            "ssh://"@,
        ) ==> (r matches Ok(plan) && plan.ssh_host@ == config.rlogin@.subrange(
            "ssh://"@.len() as int,
            config.rlogin@.len() as int,
        ) && plan.target_path@ == creation_target(repo.remote_path@) && plan.script@
            == creation_script(creation_target(repo.remote_path@), config.rpath_template@)),
{
    if config.rpath_template.as_str().is_empty() {
        return Err(RepoError::MissingRpathTemplate);
    }
    if config.rlogin.as_str().is_empty() {
        return Err(RepoError::MissingRlogin);
    }
    let rlogin = config.rlogin.as_str();
    if !starts_with_str(rlogin, "ssh://") {
        return Err(RepoError::RloginNotSsh);
    }
    let prefix_len = chars_of("ssh://").len();
    let host = rlogin.substring_char(prefix_len, chars_of(rlogin).len());
    let target_path = if !ends_with_str(repo.remote_path.as_str(), ".git") {
        concat(repo.remote_path.as_str(), ".git")
    } else {
        repo.remote_path.clone()
    };
    let mut script = concat(REMOTE_SCRIPT_HEAD, target_path.as_str());
    script.append(REMOTE_SCRIPT_MID);
    script.append(config.rpath_template.as_str());
    script.append(REMOTE_SCRIPT_TAIL);
    Ok(RemoteCreation { ssh_host: string_of(host), target_path, script })
}

/// Whether an answer to the confirmation prompt says yes: after trimming white space it
/// is a single "y", in either case.
pub open spec fn answer_confirms(answer: Seq<char>) -> bool {
    let t = trim_white(answer);
    t.len() == 1 && (t[0] == 'y' || t[0] == 'Y')
}

/// Reads an answer to the confirmation prompt, as `answer_confirms` says.
pub fn confirms_creation(answer: &str) -> (b: bool)
    ensures
        b == answer_confirms(answer@),
{
    let t = chars_of(trim_white_space(answer));
    t.len() == 1 && (t[0] == 'y' || t[0] == 'Y')
}

/// The result of the creation script's exit `status`: for 0, whether the repository still
/// needs a checkout (it does when the local directory was not already a repository);
/// 90, 91 and 92 name what is in the way at the target; anything else is a failure.
pub fn creation_outcome(status: i32, target_path: &str, is_repo: bool) -> (r: Result<
    bool,
    RepoError,
>)
    ensures
        status == 0 ==> r == Ok::<bool, RepoError>(!is_repo),
        status == 90 ==> (r matches Err(RepoError::TargetNotRepo { target }) && target@
            == target_path@),
        status == 91 ==> (r matches Err(RepoError::TargetIsFile { target }) && target@
            == target_path@),
        status == 92 ==> (r matches Err(RepoError::TargetIsSpecial { target }) && target@
            == target_path@),
        status != 0 && status != 90 && status != 91 && status != 92 ==> (r matches Err(
            RepoError::CreationFailed { code },
        ) && code == status),
{
    if status == 0 {
        Ok(!is_repo)
    } else if status == 90 {
        Err(RepoError::TargetNotRepo { target: string_of(target_path) })
    } else if status == 91 {
        Err(RepoError::TargetIsFile { target: string_of(target_path) })
    } else if status == 92 {
        Err(RepoError::TargetIsSpecial { target: string_of(target_path) })
    } else {
        Err(RepoError::CreationFailed { code: status })
    }
}

/// How the exit status of the creation script reads, as `creation_outcome` says.
pub open spec fn creation_reads(
    status: i32,
    target: Seq<char>,
    is_repo: bool,
    r: Result<bool, RepoError>,
) -> bool {
    if status == 0 {
        r == Ok::<bool, RepoError>(!is_repo)
    } else if status == 90 {
        r matches Err(RepoError::TargetNotRepo { target: t }) && t@ == target
    } else if status == 91 {
        r matches Err(RepoError::TargetIsFile { target: t }) && t@ == target
    } else if status == 92 {
        r matches Err(RepoError::TargetIsSpecial { target: t }) && t@ == target
    } else {
        r matches Err(RepoError::CreationFailed { code }) && code == status
    }
}

/// The command that runs a script read from standard input on `host` over SSH.
pub open spec fn ssh_cmd(host: Seq<char>) -> Seq<Seq<char>> {
    seq!["ssh"@, host, "bash -s"@]
}

/// Runs the creation script over SSH (`ssh HOST "bash -s"` with the script on its standard
/// input) and reads its exit status as `creation_outcome` does.
pub fn run_remote_creation<R: CommandRunner>(runner: &R, plan: &RemoteCreation, is_repo: bool) -> (r:
    Result<bool, RepoError>)
    ensures
        r matches Ok(b) ==> b == !is_repo,
        r matches Err(e) ==> (e is CreationSpawn || (e matches RepoError::TargetNotRepo { target }
            && target@ == plan.target_path@) || (e matches RepoError::TargetIsFile { target }
            && target@ == plan.target_path@) || (e matches RepoError::TargetIsSpecial { target }
            && target@ == plan.target_path@) || (e matches RepoError::CreationFailed { code } && code
            != 0 && code != 90 && code != 91 && code != 92)),
        exists|s: Result<i32, InvokeError>|
            #[trigger] runner.may_feed(
                "."@,
                ssh_cmd(plan.ssh_host@),
                vstd::utf8::encode_utf8(plan.script@),
                s,
            ) && match s {
                Ok(code) => creation_reads(code, plan.target_path@, is_repo, r),
                Err(e) => r matches Err(RepoError::CreationSpawn { cause }) && cause == e,
            },
{
    let cmd = ["ssh", plan.ssh_host.as_str(), "bash -s"];
    assert(words_view(cmd@) =~= ssh_cmd(plan.ssh_host@));
    let bytes = plan.script.as_str().as_bytes();
    assert(bytes@ == vstd::utf8::encode_utf8(plan.script@));
    let st = run_with_stdin_inherited(runner, ".", &cmd, bytes);
    let ghost s = st;
    let r = match st {
        Err(e) => Err(RepoError::CreationSpawn { cause: e }),
        Ok(status) => creation_outcome(status, plan.target_path.as_str(), is_repo),
    };
    assert(runner.may_feed("."@, ssh_cmd(plan.ssh_host@), vstd::utf8::encode_utf8(plan.script@), s));
    r
}

} // verus!
