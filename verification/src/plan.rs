//! What the program does for each repository and each subdirectory, as pure decisions.
use vstd::prelude::*;
use crate::config::{
    apply_env_vars, bool_text, env_loaded, env_setting_name, lemma_setting_names_distinct, setting_names,
    setting_values, Config, ConfigModel,
};
use crate::invoke::{strings_view, CommandRunner};
use crate::invoke::{ran_capture, CapturedOutput, InvokeError};
use crate::repository::{is_dir_repo_root, joined_words, output_names_root, rev_parse_cmd, root_reads, RepoError};
use crate::text::{chars_of, concat, find_chars, find_from, string_of, str_equal};
use crate::trusted::{shell_escape_unix, shell_escaped};

verus! {

/// The operations that the selected mode enables.
#[derive(Debug, Clone, Copy, PartialEq, Eq)]
pub struct Operations {
    pub list_rrel: bool,
    pub list_lrel: bool,
    pub list_rurl: bool,
    pub clone: bool,
    pub new: bool,
    pub git: bool,
    pub configure: bool,
    pub set_remote: bool,
    pub recurse: bool,
    pub debug: bool,
}

/// The primary mode the program runs in.
#[derive(Debug, Clone, Copy, PartialEq, Eq)]
pub enum Mode {
    ListLrel,
    ListRrel,
    ListRurl,
    Clone,
    New,
    Git,
    Configure,
    SetRemote,
}

/// How a mode is written on the command line.
pub open spec fn mode_text(mode: Mode) -> Seq<char> {
    match mode {
        Mode::ListLrel => "list-lrel"@,
        Mode::ListRrel => "list-rrel"@,
        Mode::ListRurl => "list-rurl"@,
        Mode::Clone => "clone"@,
        Mode::New => "new"@,
        Mode::Git => "git"@,
        Mode::Configure => "configure"@,
        Mode::SetRemote => "set-remote"@,
    }
}

/// The name of a mode, as it is written on the command line.
pub fn mode_name(mode: Mode) -> (r: &'static str)
    ensures
        r@ == mode_text(mode),
{
    match mode {
        Mode::ListLrel => "list-lrel",
        Mode::ListRrel => "list-rrel",
        Mode::ListRurl => "list-rurl",
        Mode::Clone => "clone",
        Mode::New => "new",
        Mode::Git => "git",
        Mode::Configure => "configure",
        Mode::SetRemote => "set-remote",
    }
}

/// The operations a mode enables: exactly the operation it names, with recursion on and
/// debugging as given.
pub fn operations_for(mode: Mode, debug: bool) -> (ops: Operations)
    ensures
        ops == (Operations {
            list_rrel: mode == Mode::ListRrel,
            list_lrel: mode == Mode::ListLrel,
            list_rurl: mode == Mode::ListRurl,
            clone: mode == Mode::Clone,
            new: mode == Mode::New,
            git: mode == Mode::Git,
            configure: mode == Mode::Configure,
            set_remote: mode == Mode::SetRemote,
            recurse: true,
            debug: debug,
        }),
{
    Operations {
        list_rrel: matches!(mode, Mode::ListRrel),
        list_lrel: matches!(mode, Mode::ListLrel),
        list_rurl: matches!(mode, Mode::ListRurl),
        clone: matches!(mode, Mode::Clone),
        new: matches!(mode, Mode::New),
        git: matches!(mode, Mode::Git),
        configure: matches!(mode, Mode::Configure),
        set_remote: matches!(mode, Mode::SetRemote),
        recurse: true,
        debug: debug,
    }
}

/// What is found at a repository's local path.
#[derive(Debug, Clone, Copy, PartialEq, Eq)]
pub enum RepoState {
    Missing,
    File,
    Directory,
    Repo,
}

/// The state of a local path from what the file system reports.
pub fn repo_state_of(exists: bool, is_dir: bool, is_repo_root: bool) -> (s: RepoState)
    ensures
        !exists ==> s == RepoState::Missing,
        exists && !is_dir ==> s == RepoState::File,
        exists && is_dir && is_repo_root ==> s == RepoState::Repo,
        exists && is_dir && !is_repo_root ==> s == RepoState::Directory,
{
    if !exists {
        RepoState::Missing
    } else if !is_dir {
        RepoState::File
    } else if is_repo_root {
        RepoState::Repo
    } else {
        RepoState::Directory
    }
}

/// How the captured output of `git rev-parse --git-dir` in an existing directory `path`
/// reads as its state: a repository when the output names the root, a plain directory
/// otherwise; a failure to run git is an error that records the path.
pub open spec fn dir_state_reads(
    c: Result<CapturedOutput, InvokeError>,
    path: Seq<char>,
    r: Result<RepoState, RepoError>,
) -> bool {
    match c {
        Ok(o) => r == Ok::<RepoState, RepoError>(
            if output_names_root(o.exit_code, o.stdout@) {
                RepoState::Repo
            } else {
                RepoState::Directory
            },
        ),
        Err(e) => r matches Err(RepoError::RootCheck { path: p, cause }) && p@ == path && cause
            == e,
    }
}

/// The state of a repository's local path, given whether it exists and whether it is a
/// directory; of a directory, git is asked whether it is a repository root.
pub fn determine_repo_state<R: CommandRunner>(
    runner: &R,
    path: &str,
    path_exists: bool,
    path_is_dir: bool,
) -> (r: Result<RepoState, RepoError>)
    ensures
        !path_exists ==> r == Ok::<RepoState, RepoError>(RepoState::Missing),
        path_exists && !path_is_dir ==> r == Ok::<RepoState, RepoError>(RepoState::File),
        path_exists && path_is_dir ==> (r matches Ok(s) ==> (s == RepoState::Repo || s
            == RepoState::Directory)),
        r matches Err(e) ==> (path_exists && path_is_dir && (e matches RepoError::RootCheck { path: p, cause: _ }
            && p@ == path@)),
        path_exists && path_is_dir ==> exists|c: Result<CapturedOutput, InvokeError>|
            #[trigger] ran_capture(runner, path@, rev_parse_cmd(), c) && dir_state_reads(
                c,
                path@,
                r,
            ),
{
    if !path_exists || !path_is_dir {
        return Ok(repo_state_of(path_exists, path_is_dir, false));
    }
    let root = is_dir_repo_root(runner, path);
    let ghost c = choose|c: Result<CapturedOutput, InvokeError>|
        ran_capture(runner, path@, rev_parse_cmd(), c) && root_reads(c, path@, root);
    let r = match root {
        Ok(is_root) => Ok(repo_state_of(true, true, is_root)),
        Err(e) => Err(e),
    };
    assert(ran_capture(runner, path@, rev_parse_cmd(), c) && dir_state_reads(c, path@, r));
    r
}

/// A listing that replaces all other work on a repository.
#[derive(Debug, Clone, Copy, PartialEq, Eq)]
pub enum Listing {
    /// Print the remote path.
    RemotePath,
    /// Print the recursion prefix followed by the local path.
    LocalPath,
    /// Print the remote URL.
    RemoteUrl,
}

/// The listing the operations ask for, the first of remote path, local path and remote URL.
pub fn listing_of(ops: &Operations) -> (r: Option<Listing>)
    ensures
        ops.list_rrel ==> r == Some(Listing::RemotePath),
        !ops.list_rrel && ops.list_lrel ==> r == Some(Listing::LocalPath),
        !ops.list_rrel && !ops.list_lrel && ops.list_rurl ==> r == Some(Listing::RemoteUrl),
        !ops.list_rrel && !ops.list_lrel && !ops.list_rurl ==> r is None,
{
    if ops.list_rrel {
        Some(Listing::RemotePath)
    } else if ops.list_lrel {
        Some(Listing::LocalPath)
    } else if ops.list_rurl {
        Some(Listing::RemoteUrl)
    } else {
        None
    }
}

/// What to do about a repository's local path.
#[derive(Debug, Clone, Copy, PartialEq, Eq)]
pub enum Transition {
    /// Nothing more is done for this repository.
    Stop,
    /// Clone it; it then needs a checkout.
    Clone,
    /// Initialize the directory and create the remote; whether it then needs a checkout is
    /// what creating the remote reports.
    InitAndCreateRemote,
    /// Create the remote of the existing repository; whether it then needs a checkout is
    /// what creating the remote reports.
    CreateRemote,
    /// Keep the repository as it is; it needs no checkout.
    Keep,
}

/// The transition for a repository in `state`: a file is left alone; a missing path is
/// cloned when cloning is on; a plain directory is initialized and given a remote when
/// creating is on; a repository gets a remote when creating is on.
pub fn transition(ops: &Operations, state: RepoState) -> (t: Transition)
    ensures
        state == RepoState::File ==> t == Transition::Stop,
        state == RepoState::Missing ==> t == (if ops.clone {
            Transition::Clone
        } else {
            Transition::Stop
        }),
        state == RepoState::Directory ==> t == (if ops.new {
            Transition::InitAndCreateRemote
        } else {
            Transition::Stop
        }),
        state == RepoState::Repo ==> t == (if ops.new {
            Transition::CreateRemote
        } else {
            Transition::Keep
        }),
{
    match state {
        RepoState::File => Transition::Stop,
        RepoState::Missing => if ops.clone {
            Transition::Clone
        } else {
            Transition::Stop
        },
        RepoState::Directory => if ops.new {
            Transition::InitAndCreateRemote
        } else {
            Transition::Stop
        },
        RepoState::Repo => if ops.new {
            Transition::CreateRemote
        } else {
            Transition::Keep
        },
    }
}

/// Work done on a repository after its transition.
#[derive(Debug, Clone, Copy, PartialEq, Eq)]
pub enum FollowUp {
    RunGit,
    Configure,
    SetRemote,
    CheckOut,
}

/// The follow-up work, in order: the git command, the configuration command, setting the
/// remote (each when its operation is on), then a checkout when one is needed.
pub open spec fn follow_up_spec(ops: Operations, needs_checkout: bool) -> Seq<FollowUp> {
    (if ops.git {
        seq![FollowUp::RunGit]
    } else {
        Seq::empty()
    }) + (if ops.configure {
        seq![FollowUp::Configure]
    } else {
        Seq::empty()
    }) + (if ops.set_remote {
        seq![FollowUp::SetRemote]
    } else {
        Seq::empty()
    }) + (if needs_checkout {
        seq![FollowUp::CheckOut]
    } else {
        Seq::empty()
    })
}

/// The place of a kind of follow-up work in the order in which it is done.
pub open spec fn follow_up_rank(f: FollowUp) -> int {
    match f {
        FollowUp::RunGit => 0,
        FollowUp::Configure => 1,
        FollowUp::SetRemote => 2,
        FollowUp::CheckOut => 3,
    }
}

/// Each operation that is on is done after the repository's transition, and only those:
/// the git command when git mode is on, the configuration command when configure mode is
/// on, setting the remote when set-remote mode is on, and a checkout when one is needed.
/// They come in the order git command, configuration, remote, checkout, each at most once.
pub proof fn law_follow_ups_do_each_operation_on(ops: Operations, needs_checkout: bool)
    ensures
        ({
            let f = follow_up_spec(ops, needs_checkout);
            &&& f.contains(FollowUp::RunGit) == ops.git
            &&& f.contains(FollowUp::Configure) == ops.configure
            &&& f.contains(FollowUp::SetRemote) == ops.set_remote
            &&& f.contains(FollowUp::CheckOut) == needs_checkout
            &&& forall|i: int, j: int|
                0 <= i < j < f.len() ==> follow_up_rank(#[trigger] f[i]) < follow_up_rank(
                    #[trigger] f[j],
                )
        }),
{
    let f = follow_up_spec(ops, needs_checkout);
    let a: Seq<FollowUp> = if ops.git { seq![FollowUp::RunGit] } else { Seq::empty() };
    let b: Seq<FollowUp> = if ops.configure { seq![FollowUp::Configure] } else { Seq::empty() };
    let c: Seq<FollowUp> = if ops.set_remote { seq![FollowUp::SetRemote] } else { Seq::empty() };
    let d: Seq<FollowUp> = if needs_checkout { seq![FollowUp::CheckOut] } else { Seq::empty() };
    assert(f == a + b + c + d);
    assert forall|i: int| 0 <= i < f.len() implies (#[trigger] f[i] == FollowUp::RunGit ==> ops.git)
        && (f[i] == FollowUp::Configure ==> ops.configure) && (f[i] == FollowUp::SetRemote
        ==> ops.set_remote) && (f[i] == FollowUp::CheckOut ==> needs_checkout) && (
    follow_up_rank(f[i]) == 0 ==> i == 0) && (follow_up_rank(f[i]) == 1 ==> i == a.len()) && (
    follow_up_rank(f[i]) == 2 ==> i == a.len() + b.len()) && (follow_up_rank(f[i]) == 3 ==> i
        == a.len() + b.len() + c.len()) by {
        if i < a.len() {
            assert(f[i] == a[i]);
        } else if i < a.len() + b.len() {
            assert(f[i] == b[i - a.len()]);
        } else if i < a.len() + b.len() + c.len() {
            assert(f[i] == c[i - a.len() - b.len()]);
        } else {
            assert(f[i] == d[i - a.len() - b.len() - c.len()]);
        }
    }
    if ops.git {
        assert(f[0] == FollowUp::RunGit);
    }
    if ops.configure {
        assert(f[a.len() as int] == FollowUp::Configure);
    }
    if ops.set_remote {
        assert(f[(a.len() + b.len()) as int] == FollowUp::SetRemote);
    }
    if needs_checkout {
        assert(f[(a.len() + b.len() + c.len()) as int] == FollowUp::CheckOut);
    }
    assert forall|i: int, j: int|
        0 <= i < j < f.len() implies follow_up_rank(#[trigger] f[i]) < follow_up_rank(
        #[trigger] f[j],
    ) by {
        assert(a.len() <= 1 && b.len() <= 1 && c.len() <= 1 && d.len() <= 1);
    }
}

/// The follow-up work for a repository, as `follow_up_spec` orders it.
pub fn follow_ups(ops: &Operations, needs_checkout: bool) -> (r: Vec<FollowUp>)
    ensures
        r@ == follow_up_spec(*ops, needs_checkout),
{
    let mut r: Vec<FollowUp> = Vec::new();
    if ops.git {
        r.push(FollowUp::RunGit);
    }
    if ops.configure {
        r.push(FollowUp::Configure);
    }
    if ops.set_remote {
        r.push(FollowUp::SetRemote);
    }
    if needs_checkout {
        r.push(FollowUp::CheckOut);
    }
    assert(r@ =~= follow_up_spec(*ops, needs_checkout));
    r
}

/// `s` with every backslash turned into a slash.
pub open spec fn forward_slashes(s: Seq<char>) -> Seq<char> {
    s.map_values(|c: char| if c == '\\' { '/' } else { c })
}

/// Whether a repository at absolute path `abs_local_path` is inside the tree filter: there
/// is no filter, or the path contains the filter (backslashes read as slashes in both).
pub open spec fn in_tree(tree_filter: Seq<char>, abs_local_path: Seq<char>) -> bool {
    tree_filter.len() == 0 || find_from(forward_slashes(abs_local_path), forward_slashes(tree_filter), 0) is Some
}

/// The characters of `s` with backslashes turned into slashes.
fn forward_slash_chars(s: &str) -> (r: Vec<char>)
    ensures
        r@ == forward_slashes(s@),
{
    let cs = chars_of(s);
    let mut r: Vec<char> = Vec::new();
    let mut i: usize = 0;
    while i < cs.len()
        invariant
            i <= cs@.len(),
            cs@ == s@,
            r@ == forward_slashes(cs@.subrange(0, i as int)),
        decreases cs@.len() - i,
    {
        let c = cs[i];
        r.push(if c == '\\' { '/' } else { c });
        i = i + 1;
        assert(r@ =~= forward_slashes(cs@.subrange(0, i as int)));
    }
    assert(cs@.subrange(0, cs@.len() as int) =~= cs@);
    r
}

/// Check if a repository's absolute local path passes the tree filter.
pub fn passes_tree_filter(tree_filter: &str, abs_local_path: &str) -> (b: bool)
    ensures
        b == in_tree(tree_filter@, abs_local_path@),
{
    if tree_filter.is_empty() {
        return true;
    }
    let path = forward_slash_chars(abs_local_path);
    let filter = forward_slash_chars(tree_filter);
    find_chars(path.as_slice(), filter.as_slice()).is_some()
}

/// Whether an entry name is hidden: it starts with a dot.
pub open spec fn is_hidden_name(name: Seq<char>) -> bool {
    name.len() > 0 && name[0] == '.'
}

/// Whether the recursive walk passes over a directory entry: it does for anything that is
/// not a directory, and for a directory whose name (when it has a UTF-8 name) is hidden.
pub fn skips_entry(is_dir: bool, name: Option<&str>) -> (r: bool)
    ensures
        r == (!is_dir || (name matches Some(n) && is_hidden_name(n@))),
{
    if !is_dir {
        return true;
    }
    match name {
        Some(n) => {
            let cs = chars_of(n);
            cs.len() > 0 && cs[0] == '.'
        },
        None => false,
    }
}

/// The recursion prefix of a child process started in subdirectory `path_rel`.
pub open spec fn child_prefix(parent_prefix: Seq<char>, path_rel: Seq<char>) -> Seq<char> {
    parent_prefix + path_rel + seq!['/']
}

/// The recursion prefix for a child process started in subdirectory `path_rel`.
pub fn child_recurse_prefix(parent_prefix: &str, path_rel: &str) -> (r: String)
    ensures
        r@ == child_prefix(parent_prefix@, path_rel@),
{
    let mut r = if parent_prefix.is_empty() {
        string_of(path_rel)
    } else {
        concat(parent_prefix, path_rel)
    };
    r.append("/");
    proof {
        reveal_strlit("/");
    }
    r
}

/// The environment variable that carries a setting: its name after "GRM_".
pub open spec fn env_var_name(name: Seq<char>) -> Seq<char> {
    seq!['G', 'R', 'M', '_'] + name
}

/// The indices of the settings that a child process receives: all but RECURSE_PREFIX.
pub open spec fn inherited_index(k: int) -> int {
    if k < 11 {
        k
    } else {
        k + 1
    }
}

/// The environment of a child process: every setting except RECURSE_PREFIX, as
/// "GRM_"-prefixed name and value text, in the order of `setting_names`.
pub open spec fn child_env_spec(c: ConfigModel) -> Seq<(Seq<char>, Seq<char>)> {
    Seq::new(
        12,
        |k: int|
            (
                env_var_name(setting_names()[inherited_index(k)]),
                setting_values(c)[inherited_index(k)],
            ),
    )
}

/// The environment variables that pass a configuration to a child process.
pub fn child_environment(config: &Config) -> (r: Vec<(String, String)>)
    ensures
        r@.map_values(|p: (String, String)| (p.0@, p.1@)) == child_env_spec(config@),
{
    let all = config.all_values();
    let mut r: Vec<(String, String)> = Vec::new();
    let mut i: usize = 0;
    proof {
        reveal_strlit("GRM_");
        reveal_strlit("RECURSE_PREFIX");
        crate::config::lemma_setting_names_distinct();
    }
    while i < all.len()
        invariant
            i <= 13,
            all@.len() == 13,
            forall|k: int|
                0 <= k < 13 ==> (#[trigger] all@[k]).0@ == setting_names()[k] && all@[k].1@
                    == setting_values(config@)[k],
            "GRM_"@ == seq!['G', 'R', 'M', '_'],
            "RECURSE_PREFIX"@ == setting_names()[11],
            forall|a: int, b: int|
                0 <= a < 13 && 0 <= b < 13 && a != b ==> setting_names()[a] != setting_names()[b],
            r@.len() == (if i <= 11 { i as int } else { i - 1 }),
            forall|k: int|
                0 <= k < r@.len() ==> (#[trigger] r@[k]).0@ == env_var_name(
                    setting_names()[inherited_index(k)],
                ) && r@[k].1@ == setting_values(config@)[inherited_index(k)],
        decreases 13 - i,
    {
        let key = all[i].0.as_str();
        if !str_equal(key, "RECURSE_PREFIX") {
            let name = concat("GRM_", key);
            r.push((name, all[i].1.clone()));
        }
        i = i + 1;
    }
    assert(r@.map_values(|p: (String, String)| (p.0@, p.1@)) =~= child_env_spec(config@));
    r
}

/// Each word shell-escaped, joined with single spaces.
pub open spec fn shell_joined(words: Seq<Seq<char>>) -> Seq<char> {
    joined_words(words.map_values(|w: Seq<char>| shell_escaped(w)))
}

/// The git arguments given on the command line, as one shell-quoted text.
pub fn shell_join_args(args: &Vec<String>) -> (r: String)
    ensures
        r@ == shell_joined(strings_view(args@)),
{
    let ghost words = strings_view(args@).map_values(|w: Seq<char>| shell_escaped(w));
    let mut r = String::new();
    let mut i: usize = 0;
    proof {
        reveal_strlit(" ");
    }
    while i < args.len()
        invariant
            i <= args@.len(),
            words == strings_view(args@).map_values(|w: Seq<char>| shell_escaped(w)),
            words.len() == args@.len(),
            r@ == joined_words(words.subrange(0, i as int)),
            " "@ == seq![' '],
        decreases args@.len() - i,
    {
        let escaped = shell_escape_unix(args[i].as_str());
        assert(escaped@ == words[i as int]);
        assert(words.subrange(0, i + 1).drop_last() =~= words.subrange(0, i as int));
        if i > 0 {
            r.append(" ");
        }
        r.append(escaped.as_str());
        i = i + 1;
    }
    assert(words.subrange(0, args@.len() as int) =~= words);
    r
}


/// The setting an environment variable built by `env_var_name` names is the one it was
/// built from.
pub proof fn lemma_env_var_name_round_trip(name: Seq<char>)
    ensures
        env_setting_name(env_var_name(name)) == Some(name),
{
    let v = env_var_name(name);
    assert(v.subrange(0, 4) =~= seq!['G', 'R', 'M', '_']);
    assert(v.subrange(4, v.len() as int) =~= name);
}

/// A child process sees its parent's configuration: loading the environment that
/// `child_environment` builds, under a non-empty recursion prefix, gives every setting of
/// the parent, with only the recursion prefix replaced by the child's.
pub proof fn law_child_environment_round_trip(
    parent: ConfigModel,
    start: ConfigModel,
    prefix: Seq<char>,
)
    requires
        prefix.len() > 0,
    ensures
        env_loaded(start, Some(prefix), child_env_spec(parent)) == (ConfigModel {
            recurse_prefix: prefix,
            ..parent
        }),
{
    reveal_strlit("CONFIG_FILENAME");
    reveal_strlit("LIST_FN");
    reveal_strlit("OPT_RECURSE");
    reveal_strlit("RLOGIN");
    reveal_strlit("RPATH_BASE");
    reveal_strlit("RPATH_TEMPLATE");
    reveal_strlit("LOCAL_DIR");
    reveal_strlit("GM_DIR");
    reveal_strlit("REMOTE_DIR");
    reveal_strlit("GIT_ARGS");
    reveal_strlit("CONFIG_CMD");
    reveal_strlit("RECURSE_PREFIX");
    reveal_strlit("TREE_FILTER");
    reveal_strlit("true");
    reveal_strlit("false");
    lemma_setting_names_distinct();
    let vars = child_env_spec(parent);
    let c0 = ConfigModel { recurse_prefix: prefix, ..start };
    let v = |k: int| vars.subrange(0, k);
    assert(v(0) =~= Seq::<(Seq<char>, Seq<char>)>::empty());
    let s0 = apply_env_vars(c0, v(0), true);
    assert(s0 == c0);
    assert(v(1).drop_last() =~= v(0));
    assert(v(1).last() == vars[0]);
    assert(vars[0] == (env_var_name("CONFIG_FILENAME"@), parent.config_filename));
    lemma_env_var_name_round_trip("CONFIG_FILENAME"@);
    let s1 = apply_env_vars(c0, v(1), true);
    assert(s1 == (ConfigModel { config_filename: parent.config_filename, ..s0 }));
    assert(v(2).drop_last() =~= v(1));
    assert(v(2).last() == vars[1]);
    assert(vars[1] == (env_var_name("LIST_FN"@), parent.list_filename));
    lemma_env_var_name_round_trip("LIST_FN"@);
    let s2 = apply_env_vars(c0, v(2), true);
    assert(s2 == (ConfigModel { list_filename: parent.list_filename, ..s1 }));
    assert(v(3).drop_last() =~= v(2));
    assert(v(3).last() == vars[2]);
    assert(vars[2] == (env_var_name("OPT_RECURSE"@), bool_text(parent.recurse_enabled)));
    lemma_env_var_name_round_trip("OPT_RECURSE"@);
    let s3 = apply_env_vars(c0, v(3), true);
    assert("false"@.len() != "true"@.len());
    assert((bool_text(parent.recurse_enabled) == "true"@) == parent.recurse_enabled);
    assert(s3 == (ConfigModel { recurse_enabled: parent.recurse_enabled, ..s2 }));
    assert(v(4).drop_last() =~= v(3));
    assert(v(4).last() == vars[3]);
    assert(vars[3] == (env_var_name("RLOGIN"@), parent.rlogin));
    lemma_env_var_name_round_trip("RLOGIN"@);
    let s4 = apply_env_vars(c0, v(4), true);
    assert(s4 == (ConfigModel { rlogin: parent.rlogin, ..s3 }));
    assert(v(5).drop_last() =~= v(4));
    assert(v(5).last() == vars[4]);
    assert(vars[4] == (env_var_name("RPATH_BASE"@), parent.rpath_base));
    lemma_env_var_name_round_trip("RPATH_BASE"@);
    let s5 = apply_env_vars(c0, v(5), true);
    assert(s5 == (ConfigModel { rpath_base: parent.rpath_base, ..s4 }));
    assert(v(6).drop_last() =~= v(5));
    assert(v(6).last() == vars[5]);
    assert(vars[5] == (env_var_name("RPATH_TEMPLATE"@), parent.rpath_template));
    lemma_env_var_name_round_trip("RPATH_TEMPLATE"@);
    let s6 = apply_env_vars(c0, v(6), true);
    assert(s6 == (ConfigModel { rpath_template: parent.rpath_template, ..s5 }));
    assert(v(7).drop_last() =~= v(6));
    assert(v(7).last() == vars[6]);
    assert(vars[6] == (env_var_name("LOCAL_DIR"@), parent.local_dir));
    lemma_env_var_name_round_trip("LOCAL_DIR"@);
    let s7 = apply_env_vars(c0, v(7), true);
    assert(s7 == (ConfigModel { local_dir: parent.local_dir, ..s6 }));
    assert(v(8).drop_last() =~= v(7));
    assert(v(8).last() == vars[7]);
    assert(vars[7] == (env_var_name("GM_DIR"@), parent.gm_dir));
    lemma_env_var_name_round_trip("GM_DIR"@);
    let s8 = apply_env_vars(c0, v(8), true);
    assert(s8 == (ConfigModel { gm_dir: parent.gm_dir, ..s7 }));
    assert(v(9).drop_last() =~= v(8));
    assert(v(9).last() == vars[8]);
    assert(vars[8] == (env_var_name("REMOTE_DIR"@), parent.remote_dir));
    lemma_env_var_name_round_trip("REMOTE_DIR"@);
    let s9 = apply_env_vars(c0, v(9), true);
    assert(s9 == (ConfigModel { remote_dir: parent.remote_dir, ..s8 }));
    assert(v(10).drop_last() =~= v(9));
    assert(v(10).last() == vars[9]);
    assert(vars[9] == (env_var_name("GIT_ARGS"@), parent.git_args));
    lemma_env_var_name_round_trip("GIT_ARGS"@);
    let s10 = apply_env_vars(c0, v(10), true);
    assert(s10 == (ConfigModel { git_args: parent.git_args, ..s9 }));
    assert(v(11).drop_last() =~= v(10));
    assert(v(11).last() == vars[10]);
    assert(vars[10] == (env_var_name("CONFIG_CMD"@), parent.config_cmd));
    lemma_env_var_name_round_trip("CONFIG_CMD"@);
    let s11 = apply_env_vars(c0, v(11), true);
    assert(s11 == (ConfigModel { config_cmd: parent.config_cmd, ..s10 }));
    assert(v(12).drop_last() =~= v(11));
    assert(v(12).last() == vars[11]);
    assert(vars[11] == (env_var_name("TREE_FILTER"@), parent.tree_filter));
    lemma_env_var_name_round_trip("TREE_FILTER"@);
    let s12 = apply_env_vars(c0, v(12), true);
    assert(s12 == (ConfigModel { tree_filter: parent.tree_filter, ..s11 }));
    assert(v(12) =~= vars);
    assert(env_loaded(start, Some(prefix), vars) == apply_env_vars(c0, vars, true));
}

/// The child process that the recursive walk starts in subdirectory `path_rel` sees its
/// parent's configuration, with the recursion prefix extended by that subdirectory.
pub proof fn law_child_sees_parent_configuration(
    parent: ConfigModel,
    start: ConfigModel,
    path_rel: Seq<char>,
)
    ensures
        env_loaded(
            start,
            Some(child_prefix(parent.recurse_prefix, path_rel)),
            child_env_spec(parent),
        ) == (ConfigModel { recurse_prefix: child_prefix(parent.recurse_prefix, path_rel), ..parent }),
{
    law_child_environment_round_trip(parent, start, child_prefix(parent.recurse_prefix, path_rel));
}

} // verus!
