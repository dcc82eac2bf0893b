use grm::config::{Config, FullRepoSpec};
use grm::invoke::{CapturedOutput, CmdResult, CommandRunner, InvokeError, OutputMode};
use grm::plan::{
    child_environment, child_recurse_prefix, determine_repo_state, follow_ups, listing_of,
    passes_tree_filter, repo_state_of, shell_join_args, transition, FollowUp, Listing,
    Operations, RepoState, Transition, skips_entry,
};
use grm::repository::{
    add_remote, check_out, clone_repo_no_checkout, confirms_creation, config_command_line, configure_repo, creation_outcome, execute_config_cmd,
    git_cmd_outcome, git_command_args, git_dir_output_is_root, init_new, init_outcome,
    is_dir_repo_root, plan_remote_creation, run_git_cmd, run_git_command, run_remote_creation,
    set_remote,
    set_remote_step, RepoError, SetRemoteStep, REMOTE_SCRIPT_HEAD,
};
use std::sync::Mutex;

struct FakeRunner {
    exit_code: i32,
    stdout: Vec<u8>,
    calls: Mutex<Vec<(String, Vec<String>)>>,
}

impl CommandRunner for FakeRunner {
    fn run_cmd(&self, dir: &str, cmd: &[&str], mode: OutputMode) -> Result<CmdResult, InvokeError> {
        self.calls
            .lock().unwrap()
            .push((dir.to_string(), cmd.iter().map(|s| s.to_string()).collect()));
        Ok(CmdResult {
            exit_code: self.exit_code,
            stdout: if mode == OutputMode::Capture { Some(self.stdout.clone()) } else { None },
            stderr: None,
        })
    }

    fn run_with_stdin_inherited(&self, dir: &str, cmd: &[&str], _stdin: &[u8]) -> Result<i32, InvokeError> {
        self.calls
            .lock().unwrap()
            .push((dir.to_string(), cmd.iter().map(|s| s.to_string()).collect()));
        Ok(self.exit_code)
    }
}

fn repo() -> FullRepoSpec {
    FullRepoSpec {
        remote_path: "git/proj".to_string(),
        remote_url: "ssh://h/git/proj".to_string(),
        local_path: "proj".to_string(),
        cfg_param: "my dir".to_string(),
    }
}

#[test]
fn repo_root_detection() {
    let out = |code: i32, s: &str| CapturedOutput { exit_code: code, stdout: s.as_bytes().to_vec(), stderr: vec![] };
    assert!(git_dir_output_is_root(&out(0, ".git\n")));
    assert!(!git_dir_output_is_root(&out(0, "/x/.git\n")));
    assert!(!git_dir_output_is_root(&out(128, ".git\n")));
    let runner = FakeRunner { exit_code: 0, stdout: b"  .git \n".to_vec(), calls: Mutex::new(vec![]) };
    assert!(is_dir_repo_root(&runner, "p").unwrap());
    assert_eq!(
        runner.calls.lock().unwrap()[0],
        ("p".to_string(), vec!["git".to_string(), "rev-parse".to_string(), "--git-dir".to_string()])
    );
}

#[test]
fn config_command_runs_escaped() {
    assert_eq!(config_command_line("setup", "my dir"), "setup 'my dir'");
    assert_eq!(config_command_line("setup", "plain-name"), "setup plain-name");
    assert_eq!(config_command_line("c", "it's"), "c 'it'\\''s'");
    let runner = FakeRunner { exit_code: 0, stdout: vec![], calls: Mutex::new(vec![]) };
    let mut config = Config::new();
    assert!(execute_config_cmd(&runner, &repo(), &config).is_ok());
    assert!(runner.calls.lock().unwrap().is_empty());
    config.config_cmd = "setup".to_string();
    assert!(execute_config_cmd(&runner, &repo(), &config).is_ok());
    assert_eq!(runner.calls.lock().unwrap()[0].1, vec!["sh", "-c", "setup 'my dir'"]);
    let failing = FakeRunner { exit_code: 3, stdout: vec![], calls: Mutex::new(vec![]) };
    assert!(matches!(
        execute_config_cmd(&failing, &repo(), &config),
        Err(RepoError::ConfigCommandFailed { code: 3 })
    ));
}

#[test]
fn status_outcomes() {
    assert!(init_outcome(0).is_ok());
    assert!(matches!(init_outcome(1), Err(RepoError::InitFailed { code: 1 })));
    assert!(matches!(set_remote_step(0), Ok(SetRemoteStep::Done)));
    assert!(matches!(set_remote_step(2), Ok(SetRemoteStep::AddRemote)));
    assert!(matches!(set_remote_step(5), Err(RepoError::SetRemoteFailed { code: 5 })));
    assert!(matches!(git_cmd_outcome(&["status"], 0, None), Ok(None)));
    match git_cmd_outcome(&["checkout"], 1, Some("checkout")) {
        Ok(Some(f)) => {
            assert_eq!(f.operation, "checkout");
            assert_eq!(f.code, 1);
        }
        _ => panic!("expected warning"),
    }
    match git_cmd_outcome(&["pull", "--rebase"], 4, None) {
        Err(RepoError::GitCommandFailed { args, code }) => {
            assert_eq!(args, "pull --rebase");
            assert_eq!(code, 4);
        }
        _ => panic!("expected failure"),
    }
}

#[test]
fn git_args_are_split_like_a_shell() {
    assert_eq!(git_command_args("log --format='%h %s'").unwrap(), vec!["log", "--format=%h %s"]);
    assert!(matches!(git_command_args("log 'unterminated"), Err(RepoError::InvalidGitArgsQuoting)));
}

#[test]
fn remote_creation_plan_and_outcome() {
    let mut config = Config::new();
    assert!(matches!(plan_remote_creation(&repo(), &config), Err(RepoError::MissingRpathTemplate)));
    config.rpath_template = "/srv/template".to_string();
    assert!(matches!(plan_remote_creation(&repo(), &config), Err(RepoError::MissingRlogin)));
    config.rlogin = "git@host".to_string();
    assert!(matches!(plan_remote_creation(&repo(), &config), Err(RepoError::RloginNotSsh)));
    config.rlogin = "ssh://git@host".to_string();
    let plan = plan_remote_creation(&repo(), &config).unwrap();
    assert_eq!(plan.ssh_host, "git@host");
    assert_eq!(plan.target_path, "git/proj.git");
    assert!(plan.script.starts_with(REMOTE_SCRIPT_HEAD));
    assert!(plan.script.contains("TARGET=\"git/proj.git\"\nTEMPLATE=\"/srv/template\""));
    assert!(plan.script.contains("exit 90"));
    assert!(matches!(creation_outcome(0, "t", false), Ok(true)));
    assert!(matches!(creation_outcome(0, "t", true), Ok(false)));
    assert!(matches!(creation_outcome(90, "t", true), Err(RepoError::TargetNotRepo { .. })));
    assert!(matches!(creation_outcome(91, "t", true), Err(RepoError::TargetIsFile { .. })));
    assert!(matches!(creation_outcome(92, "t", true), Err(RepoError::TargetIsSpecial { .. })));
    assert!(matches!(creation_outcome(1, "t", true), Err(RepoError::CreationFailed { code: 1 })));
}

fn ops() -> Operations {
    Operations {
        list_rrel: false,
        list_lrel: false,
        list_rurl: false,
        clone: false,
        new: false,
        git: false,
        configure: false,
        set_remote: false,
        recurse: false,
        debug: false,
    }
}

#[test]
fn repository_decisions() {
    assert_eq!(repo_state_of(false, false, false), RepoState::Missing);
    assert_eq!(repo_state_of(true, false, false), RepoState::File);
    assert_eq!(repo_state_of(true, true, true), RepoState::Repo);
    assert_eq!(repo_state_of(true, true, false), RepoState::Directory);
    let mut o = ops();
    assert_eq!(listing_of(&o), None);
    o.list_lrel = true;
    o.list_rurl = true;
    assert_eq!(listing_of(&o), Some(Listing::LocalPath));
    let mut o = ops();
    assert_eq!(transition(&o, RepoState::Missing), Transition::Stop);
    o.clone = true;
    assert_eq!(transition(&o, RepoState::Missing), Transition::Clone);
    assert_eq!(transition(&o, RepoState::File), Transition::Stop);
    assert_eq!(transition(&o, RepoState::Repo), Transition::Keep);
    o.new = true;
    assert_eq!(transition(&o, RepoState::Directory), Transition::InitAndCreateRemote);
    assert_eq!(transition(&o, RepoState::Repo), Transition::CreateRemote);
    o.git = true;
    o.set_remote = true;
    assert_eq!(follow_ups(&o, true), vec![FollowUp::RunGit, FollowUp::SetRemote, FollowUp::CheckOut]);
}

#[test]
fn tree_filter_and_recursion() {
    assert!(passes_tree_filter("", "/anything"));
    assert!(passes_tree_filter("C:\\work\\proj", "C:/work/proj/sub/repo"));
    assert!(!passes_tree_filter("/work/other", "/work/proj/repo"));
    assert_eq!(child_recurse_prefix("", "sub"), "sub/");
    assert_eq!(child_recurse_prefix("a/", "b"), "a/b/");
    let mut parent = Config::new();
    parent.list_filename = ".grm.repos".to_string();
    parent.rlogin = "ssh://host".to_string();
    parent.recurse_enabled = false;
    parent.recurse_prefix = "old/".to_string();
    let env = child_environment(&parent);
    assert_eq!(env.len(), 12);
    assert!(env.iter().all(|(k, _)| k.starts_with("GRM_") && k != "GRM_RECURSE_PREFIX"));
    let mut child = Config::new();
    assert!(child.load_from_vars(Some("old/sub/".to_string()), &env).is_ok());
    assert_eq!(child.rlogin, "ssh://host");
    assert_eq!(child.list_filename, ".grm.repos");
    assert!(!child.recurse_enabled);
    assert_eq!(child.recurse_prefix, "old/sub/");
    assert_eq!(shell_join_args(&vec!["log".to_string(), "-n 1".to_string()]), "log '-n 1'");
}

fn runner(exit_code: i32) -> FakeRunner {
    FakeRunner { exit_code, stdout: vec![], calls: Mutex::new(vec![]) }
}

fn words(v: &[&str]) -> Vec<String> {
    v.iter().map(|s| s.to_string()).collect()
}

struct BrokenRunner;

impl CommandRunner for BrokenRunner {
    fn run_cmd(&self, _dir: &str, _cmd: &[&str], _mode: OutputMode) -> Result<CmdResult, InvokeError> {
        Err(InvokeError::Runner { message: "cannot spawn".to_string() })
    }

    fn run_with_stdin_inherited(&self, _dir: &str, _cmd: &[&str], _stdin: &[u8]) -> Result<i32, InvokeError> {
        Err(InvokeError::Runner { message: "cannot spawn".to_string() })
    }
}

#[test]
fn git_commands_through_runner() {
    let ok = runner(0);
    assert!(init_new(&ok, "proj").is_ok());
    assert_eq!(ok.calls.lock().unwrap()[0], ("proj".to_string(), words(&["git", "init", "-q"])));
    assert!(matches!(init_new(&runner(128), "proj"), Err(RepoError::InitFailed { code: 128 })));
    match init_new(&BrokenRunner, "proj") {
        Err(RepoError::Run { cause: InvokeError::InDir { dir, cmd, .. } }) => {
            assert_eq!(dir, "proj");
            assert_eq!(cmd, words(&["git", "init", "-q"]));
        }
        _ => panic!("expected a run failure"),
    }

    let ok = runner(0);
    assert!(matches!(run_git_cmd(&ok, "p", &["fetch"], None), Ok(None)));
    assert_eq!(ok.calls.lock().unwrap()[0], ("p".to_string(), words(&["git", "fetch"])));
    match run_git_cmd(&runner(1), "p", &["fetch", "--all"], None) {
        Err(RepoError::GitCommandFailed { args, code }) => {
            assert_eq!(args, "fetch --all");
            assert_eq!(code, 1);
        }
        _ => panic!("expected failure"),
    }

    let failing = runner(9);
    match check_out(&failing, "p") {
        Ok(Some(f)) => {
            assert_eq!(f.operation, "checkout");
            assert_eq!(f.code, 9);
        }
        _ => panic!("expected warning"),
    }
    assert_eq!(failing.calls.lock().unwrap()[0].1, words(&["git", "checkout"]));
    assert!(matches!(check_out(&runner(0), "p"), Ok(None)));

    let ok = runner(0);
    assert!(run_git_command(&ok, "p", "log --format='%h %s'").is_ok());
    assert_eq!(ok.calls.lock().unwrap()[0].1, words(&["git", "log", "--format=%h %s"]));
    assert!(matches!(run_git_command(&ok, "p", "log 'open"), Err(RepoError::InvalidGitArgsQuoting)));
    match run_git_command(&runner(2), "p", "pull  --rebase") {
        Err(RepoError::GitCommandFailed { args, code }) => {
            assert_eq!(args, "pull --rebase");
            assert_eq!(code, 2);
        }
        _ => panic!("expected failure"),
    }
}

#[test]
fn remote_is_set_or_added() {
    let ok = runner(0);
    assert!(matches!(set_remote(&ok, &repo()), Ok(SetRemoteStep::Done)));
    assert_eq!(
        ok.calls.lock().unwrap()[0],
        ("proj".to_string(), words(&["git", "remote", "set-url", "origin", "ssh://h/git/proj"]))
    );
    assert!(matches!(set_remote(&runner(2), &repo()), Ok(SetRemoteStep::AddRemote)));
    assert!(matches!(set_remote(&runner(1), &repo()), Err(RepoError::SetRemoteFailed { code: 1 })));
    assert!(matches!(
        set_remote(&BrokenRunner, &repo()),
        Err(RepoError::Run { cause: InvokeError::Command { .. } })
    ));
    let ok = runner(0);
    assert!(add_remote(&ok, &repo()).is_ok());
    assert_eq!(
        ok.calls.lock().unwrap()[0],
        ("proj".to_string(), words(&["git", "remote", "add", "-f", "origin", "ssh://h/git/proj"]))
    );
    match add_remote(&runner(128), &repo()) {
        Err(RepoError::GitCommandFailed { args, code }) => {
            assert_eq!(args, "remote add -f origin ssh://h/git/proj");
            assert_eq!(code, 128);
        }
        _ => panic!("expected failure"),
    }
}

#[test]
fn repo_state_from_file_system_and_git() {
    let root = FakeRunner { exit_code: 0, stdout: b".git\n".to_vec(), calls: Mutex::new(vec![]) };
    assert_eq!(determine_repo_state(&root, "p", false, false).unwrap(), RepoState::Missing);
    assert_eq!(determine_repo_state(&root, "p", true, false).unwrap(), RepoState::File);
    assert!(root.calls.lock().unwrap().is_empty());
    assert_eq!(determine_repo_state(&root, "p", true, true).unwrap(), RepoState::Repo);
    let inner = FakeRunner { exit_code: 0, stdout: b"../.git\n".to_vec(), calls: Mutex::new(vec![]) };
    assert_eq!(determine_repo_state(&inner, "p", true, true).unwrap(), RepoState::Directory);
    assert!(matches!(
        determine_repo_state(&BrokenRunner, "p", true, true),
        Err(RepoError::RootCheck { .. })
    ));
}

#[test]
fn clone_configure_and_create_through_runner() {
    let ok = runner(0);
    assert!(clone_repo_no_checkout(&ok, &repo()).is_ok());
    assert_eq!(
        ok.calls.lock().unwrap()[0],
        (".".to_string(), words(&["git", "clone", "--no-checkout", "ssh://h/git/proj", "proj"]))
    );
    assert!(matches!(clone_repo_no_checkout(&runner(128), &repo()), Err(RepoError::CloneFailed { code: 128 })));
    match clone_repo_no_checkout(&BrokenRunner, &repo()) {
        Err(RepoError::CloneSpawn { url, .. }) => assert_eq!(url, "ssh://h/git/proj"),
        _ => panic!("expected a spawn failure"),
    }

    let mut config = Config::new();
    let ok = runner(0);
    assert!(configure_repo(&ok, &repo(), &config).is_ok());
    assert!(ok.calls.lock().unwrap().is_empty());
    config.config_cmd = "setup --fast".to_string();
    assert!(configure_repo(&ok, &repo(), &config).is_ok());
    assert_eq!(ok.calls.lock().unwrap()[0], ("proj".to_string(), words(&["sh", "-c", "setup --fast 'my dir'"])));
    match configure_repo(&BrokenRunner, &repo(), &config) {
        Err(RepoError::ConfigCommandSpawn { command, .. }) => assert_eq!(command, "setup --fast 'my dir'"),
        _ => panic!("expected a spawn failure"),
    }

    config.rpath_template = "/srv/t".to_string();
    config.rlogin = "ssh://git@host".to_string();
    let plan = plan_remote_creation(&repo(), &config).unwrap();
    let ok = runner(0);
    assert!(matches!(run_remote_creation(&ok, &plan, false), Ok(true)));
    assert_eq!(ok.calls.lock().unwrap()[0], (".".to_string(), words(&["ssh", "git@host", "bash -s"])));
    assert!(matches!(run_remote_creation(&runner(0), &plan, true), Ok(false)));
    match run_remote_creation(&runner(91), &plan, true) {
        Err(RepoError::TargetIsFile { target }) => assert_eq!(target, "git/proj.git"),
        _ => panic!("expected a file in the way"),
    }
    assert!(matches!(run_remote_creation(&BrokenRunner, &plan, true), Err(RepoError::CreationSpawn { .. })));
}

#[test]
fn walk_skips_files_and_hidden_directories() {
    assert!(skips_entry(false, Some("repo")));
    assert!(skips_entry(true, Some(".git")));
    assert!(!skips_entry(true, Some("repo")));
    assert!(!skips_entry(true, Some("")));
    assert!(!skips_entry(true, None));
}

#[test]
fn prompt_answer_confirms_only_y() {
    assert!(confirms_creation("y\n"));
    assert!(confirms_creation("  Y \r\n"));
    assert!(!confirms_creation("yes\n"));
    assert!(!confirms_creation("n\n"));
    assert!(!confirms_creation("\n"));
}
