//! Configuration settings and the derivation of repository paths and URLs.
use vstd::prelude::*;
use crate::listfile::{lemma_line_at_advances, lemma_lines_from_end, LineIterator, ParsedLine, SpecLine};
use crate::text::{
    chars_of, contains_char, find_chars, find_from, lemma_find_from_found, str_equal, string_of,
    trim_end_char, trim_end_matches_char, trim_start_char, trim_start_matches_char,
};
use crate::trusted::{
    capture_repo_name, gix_url_reformat, gix_url_text, repo_name_of, REPO_NAME_PATTERN,
};

verus! {

/// Typed configuration values.
#[derive(Debug, Clone)]
pub struct Config {
    /// Configuration filename (.grm.conf by default)
    pub config_filename: String,
    /// List filename
    pub list_filename: String,
    /// Whether recursion is enabled
    pub recurse_enabled: bool,
    /// Remote login information (e.g., ssh://user@host)
    pub rlogin: String,
    /// Remote path base directory
    pub rpath_base: String,
    /// Remote path template for new repositories
    pub rpath_template: String,
    /// Local base directory for repositories
    pub local_dir: String,
    /// Media base directory
    pub gm_dir: String,
    /// Remote directory
    pub remote_dir: String,
    /// Git arguments when in git mode
    pub git_args: String,
    /// Command to execute for configuration
    pub config_cmd: String,
    /// Recurse prefix for path display
    pub recurse_prefix: String,
    /// Tree filter path for filtering repositories to current subtree
    pub tree_filter: String,
}

/// The values of a `Config`, over character sequences.
pub struct ConfigModel {
    pub config_filename: Seq<char>,
    pub list_filename: Seq<char>,
    pub recurse_enabled: bool,
    pub rlogin: Seq<char>,
    pub rpath_base: Seq<char>,
    pub rpath_template: Seq<char>,
    pub local_dir: Seq<char>,
    pub gm_dir: Seq<char>,
    pub remote_dir: Seq<char>,
    pub git_args: Seq<char>,
    pub config_cmd: Seq<char>,
    pub recurse_prefix: Seq<char>,
    pub tree_filter: Seq<char>,
}

impl View for Config {
    type V = ConfigModel;

    open spec fn view(&self) -> ConfigModel {
        ConfigModel {
            config_filename: self.config_filename@,
            list_filename: self.list_filename@,
            recurse_enabled: self.recurse_enabled,
            rlogin: self.rlogin@,
            rpath_base: self.rpath_base@,
            rpath_template: self.rpath_template@,
            local_dir: self.local_dir@,
            gm_dir: self.gm_dir@,
            remote_dir: self.remote_dir@,
            git_args: self.git_args@,
            config_cmd: self.config_cmd@,
            recurse_prefix: self.recurse_prefix@,
            tree_filter: self.tree_filter@,
        }
    }
}

/// The names of the settings, in the order in which `all_values` lists them.
pub open spec fn setting_names() -> Seq<Seq<char>> {
    seq![
        "CONFIG_FILENAME"@,
        "LIST_FN"@,
        "OPT_RECURSE"@,
        "RLOGIN"@,
        "RPATH_BASE"@,
        "RPATH_TEMPLATE"@,
        "LOCAL_DIR"@,
        "GM_DIR"@,
        "REMOTE_DIR"@,
        "GIT_ARGS"@,
        "CONFIG_CMD"@,
        "RECURSE_PREFIX"@,
        "TREE_FILTER"@,
    ]
}

/// How a flag is written: "true" or "false".
pub open spec fn bool_text(b: bool) -> Seq<char> {
    if b {
        "true"@
    } else {
        "false"@
    }
}

/// The values of the settings as text, in the order of `setting_names`.
pub open spec fn setting_values(c: ConfigModel) -> Seq<Seq<char>> {
    seq![
        c.config_filename,
        c.list_filename,
        bool_text(c.recurse_enabled),
        c.rlogin,
        c.rpath_base,
        c.rpath_template,
        c.local_dir,
        c.gm_dir,
        c.remote_dir,
        c.git_args,
        c.config_cmd,
        c.recurse_prefix,
        c.tree_filter,
    ]
}

impl ConfigModel {
    /// The configuration with the setting named `key` set from `value`: a string setting
    /// takes the value as it is, the flag is set exactly when the value is "true", and an
    /// unknown name changes nothing.
    pub open spec fn with_setting(self, key: Seq<char>, value: Seq<char>) -> ConfigModel {
        if key == "CONFIG_FILENAME"@ {
            ConfigModel { config_filename: value, ..self }
        } else if key == "LIST_FN"@ {
            ConfigModel { list_filename: value, ..self }
        } else if key == "OPT_RECURSE"@ {
            ConfigModel { recurse_enabled: value == "true"@, ..self }
        } else if key == "RLOGIN"@ {
            ConfigModel { rlogin: value, ..self }
        } else if key == "RPATH_BASE"@ {
            ConfigModel { rpath_base: value, ..self }
        } else if key == "RPATH_TEMPLATE"@ {
            ConfigModel { rpath_template: value, ..self }
        } else if key == "LOCAL_DIR"@ {
            ConfigModel { local_dir: value, ..self }
        } else if key == "GM_DIR"@ {
            ConfigModel { gm_dir: value, ..self }
        } else if key == "REMOTE_DIR"@ {
            ConfigModel { remote_dir: value, ..self }
        } else if key == "GIT_ARGS"@ {
            ConfigModel { git_args: value, ..self }
        } else if key == "CONFIG_CMD"@ {
            ConfigModel { config_cmd: value, ..self }
        } else if key == "RECURSE_PREFIX"@ {
            ConfigModel { recurse_prefix: value, ..self }
        } else if key == "TREE_FILTER"@ {
            ConfigModel { tree_filter: value, ..self }
        } else {
            self
        }
    }
}

/// The default configuration: the configuration file is ".grm.conf", recursion is on,
/// every other setting is empty.
pub open spec fn default_config() -> ConfigModel {
    ConfigModel {
        config_filename: ".grm.conf"@,
        list_filename: Seq::empty(),
        recurse_enabled: true,
        rlogin: Seq::empty(),
        rpath_base: Seq::empty(),
        rpath_template: Seq::empty(),
        local_dir: Seq::empty(),
        gm_dir: Seq::empty(),
        remote_dir: Seq::empty(),
        git_args: Seq::empty(),
        config_cmd: Seq::empty(),
        recurse_prefix: Seq::empty(),
        tree_filter: Seq::empty(),
    }
}

impl Config {
    /// Create a new configuration with default values
    pub fn new() -> (c: Config)
        ensures
            c@ == default_config(),
    {
        Config {
            config_filename: string_of(".grm.conf"),
            list_filename: String::new(),
            recurse_enabled: true,
            rlogin: String::new(),
            rpath_base: String::new(),
            rpath_template: String::new(),
            local_dir: String::new(),
            gm_dir: String::new(),
            remote_dir: String::new(),
            git_args: String::new(),
            config_cmd: String::new(),
            recurse_prefix: String::new(),
            tree_filter: String::new(),
        }
    }

    /// Sets the setting named `key` from `value`; unknown names are ignored.
    pub fn set_by_key(&mut self, key: &str, value: String)
        ensures
            final(self)@ == old(self)@.with_setting(key@, value@),
    {
        if str_equal(key, "CONFIG_FILENAME") {
            self.config_filename = value;
        } else if str_equal(key, "LIST_FN") {
            self.list_filename = value;
        } else if str_equal(key, "OPT_RECURSE") {
            // A flag parses as a `bool`, and only the text "true" reads as true.
            self.recurse_enabled = str_equal(value.as_str(), "true");
        } else if str_equal(key, "RLOGIN") {
            self.rlogin = value;
        } else if str_equal(key, "RPATH_BASE") {
            self.rpath_base = value;
        } else if str_equal(key, "RPATH_TEMPLATE") {
            self.rpath_template = value;
        } else if str_equal(key, "LOCAL_DIR") {
            self.local_dir = value;
        } else if str_equal(key, "GM_DIR") {
            self.gm_dir = value;
        } else if str_equal(key, "REMOTE_DIR") {
            self.remote_dir = value;
        } else if str_equal(key, "GIT_ARGS") {
            self.git_args = value;
        } else if str_equal(key, "CONFIG_CMD") {
            self.config_cmd = value;
        } else if str_equal(key, "RECURSE_PREFIX") {
            self.recurse_prefix = value;
        } else if str_equal(key, "TREE_FILTER") {
            self.tree_filter = value;
        }
    }

    /// Every setting's name with its value as text, in the order of `setting_names`.
    pub fn all_values(&self) -> (r: Vec<(String, String)>)
        ensures
            r@.len() == 13,
            forall|i: int|
                0 <= i < 13 ==> (#[trigger] r@[i]).0@ == setting_names()[i] && r@[i].1@
                    == setting_values(self@)[i],
    {
        let mut r: Vec<(String, String)> = Vec::new();
        r.push((string_of("CONFIG_FILENAME"), self.config_filename.clone()));
        r.push((string_of("LIST_FN"), self.list_filename.clone()));
        r.push(
            (
                string_of("OPT_RECURSE"),
                if self.recurse_enabled {
                    string_of("true")
                } else {
                    string_of("false")
                },
            ),
        );
        r.push((string_of("RLOGIN"), self.rlogin.clone()));
        r.push((string_of("RPATH_BASE"), self.rpath_base.clone()));
        r.push((string_of("RPATH_TEMPLATE"), self.rpath_template.clone()));
        r.push((string_of("LOCAL_DIR"), self.local_dir.clone()));
        r.push((string_of("GM_DIR"), self.gm_dir.clone()));
        r.push((string_of("REMOTE_DIR"), self.remote_dir.clone()));
        r.push((string_of("GIT_ARGS"), self.git_args.clone()));
        r.push((string_of("CONFIG_CMD"), self.config_cmd.clone()));
        r.push((string_of("RECURSE_PREFIX"), self.recurse_prefix.clone()));
        r.push((string_of("TREE_FILTER"), self.tree_filter.clone()));
        r
    }
}


/// The settings have pairwise different names.
pub proof fn lemma_setting_names_distinct()
    ensures
        forall|i: int, j: int|
            0 <= i < 13 && 0 <= j < 13 && i != j ==> setting_names()[i] != setting_names()[j],
{
    reveal_strlit("CONFIG_FILENAME");
    reveal_strlit("LIST_FN");
    reveal_strlit("OPT_RECURSE");
    reveal_strlit("RLOGIN");
    reveal_strlit("RPATH_BASE");
    reveal_strlit("RPATH_TEMPLATE");
    reveal_strlit("LOCAL_DIR");
    reveal_strlit("GM_DIR");
    reveal_strlit("REMOTE_DIR");
    reveal_strlit("GIT_ARGS");
    reveal_strlit("CONFIG_CMD");
    reveal_strlit("RECURSE_PREFIX");
    reveal_strlit("TREE_FILTER");
    assert forall|i: int, j: int|
        0 <= i < 13 && 0 <= j < 13 && i != j implies setting_names()[i] != setting_names()[j] by {
        if setting_names()[i] == setting_names()[j] {
            assert(setting_names()[i].len() == setting_names()[j].len());
            assert(setting_names()[i][0] == setting_names()[j][0]);
            assert(setting_names()[i][1] == setting_names()[j][1]);
            assert(setting_names()[i][2] == setting_names()[j][2]);
            assert(setting_names()[i][5] == setting_names()[j][5]);
        }
    }
}

/// Setting a string-valued setting by its name and then listing all values gives back the
/// value that was set, under that name, and leaves every other listed value unchanged.
pub proof fn law_setting_read_back(c: ConfigModel, i: int, v: Seq<char>)
    requires
        0 <= i < 13,
        i != 2,
    ensures
        setting_values(c.with_setting(setting_names()[i], v))[i] == v,
        forall|j: int|
            0 <= j < 13 && j != i ==> setting_values(c.with_setting(setting_names()[i], v))[j]
                == setting_values(c)[j],
{
    lemma_setting_names_distinct();
}

/// Setting the recursion flag by its name lists it as "true" exactly when the value was
/// "true", and as "false" otherwise; every other listed value is unchanged.
pub proof fn law_flag_read_back(c: ConfigModel, v: Seq<char>)
    ensures
        setting_values(c.with_setting(setting_names()[2], v))[2] == (if v == "true"@ {
            "true"@
        } else {
            "false"@
        }),
        forall|j: int|
            0 <= j < 13 && j != 2 ==> setting_values(c.with_setting(setting_names()[2], v))[j]
                == setting_values(c)[j],
{
    lemma_setting_names_distinct();
}

/// A name that is not a setting's name changes nothing.
pub proof fn law_unknown_setting_ignored(c: ConfigModel, key: Seq<char>, v: Seq<char>)
    requires
        !setting_names().contains(key),
    ensures
        c.with_setting(key, v) == c,
{
    assert(setting_names()[0] == "CONFIG_FILENAME"@);
    assert(setting_names()[1] == "LIST_FN"@);
    assert(setting_names()[2] == "OPT_RECURSE"@);
    assert(setting_names()[3] == "RLOGIN"@);
    assert(setting_names()[4] == "RPATH_BASE"@);
    assert(setting_names()[5] == "RPATH_TEMPLATE"@);
    assert(setting_names()[6] == "LOCAL_DIR"@);
    assert(setting_names()[7] == "GM_DIR"@);
    assert(setting_names()[8] == "REMOTE_DIR"@);
    assert(setting_names()[9] == "GIT_ARGS"@);
    assert(setting_names()[10] == "CONFIG_CMD"@);
    assert(setting_names()[11] == "RECURSE_PREFIX"@);
    assert(setting_names()[12] == "TREE_FILTER"@);
}


/// A problem found in a loaded configuration, over character sequences.
pub enum ConfigIssue {
    InvalidCharacter { name: Seq<char> },
    Quoted { name: Seq<char>, value: Seq<char> },
    EmptyConfigFilename,
    EmptyListFilename,
    ListFilenameIsPath { value: Seq<char> },
}

/// A problem found in a loaded configuration.
#[derive(Debug)]
pub enum ConfigError {
    /// The named setting holds a NUL, CR or LF character.
    InvalidCharacter { name: String },
    /// The named setting starts or ends with a double quote.
    Quoted { name: String, value: String },
    /// CONFIG_FILENAME is empty.
    EmptyConfigFilename,
    /// LIST_FN is empty.
    EmptyListFilename,
    /// LIST_FN holds a slash or backslash.
    ListFilenameIsPath { value: String },
}

impl View for ConfigError {
    type V = ConfigIssue;

    open spec fn view(&self) -> ConfigIssue {
        match self {
            ConfigError::InvalidCharacter { name } => ConfigIssue::InvalidCharacter { name: name@ },
            ConfigError::Quoted { name, value } => ConfigIssue::Quoted {
                name: name@,
                value: value@,
            },
            ConfigError::EmptyConfigFilename => ConfigIssue::EmptyConfigFilename,
            ConfigError::EmptyListFilename => ConfigIssue::EmptyListFilename,
            ConfigError::ListFilenameIsPath { value } => ConfigIssue::ListFilenameIsPath {
                value: value@,
            },
        }
    }
}

/// The problem with a single-line setting value, if any: a NUL, CR or LF character, or a
/// double quote at either end.
pub open spec fn scalar_issue(name: Seq<char>, v: Seq<char>) -> Option<ConfigIssue> {
    if v.contains('\0') || v.contains('\r') || v.contains('\n') {
        Some(ConfigIssue::InvalidCharacter { name })
    } else if v.len() > 0 && (v[0] == '"' || v[v.len() - 1] == '"') {
        Some(ConfigIssue::Quoted { name, value: v })
    } else {
        None
    }
}

/// The first problem among `checks`, in order.
pub open spec fn first_issue(checks: Seq<Option<ConfigIssue>>) -> Option<ConfigIssue>
    decreases checks.len(),
{
    if checks.len() == 0 {
        None
    } else if checks[0] is Some {
        checks[0]
    } else {
        first_issue(checks.drop_first())
    }
}

/// The first problem of a configuration, checked in this order: CONFIG_FILENAME's value,
/// that it is not empty, LIST_FN's value, that it is not empty, that it is a plain file
/// name; then the values of CONFIG_CMD, RECURSE_PREFIX, TREE_FILTER, RLOGIN, RPATH_BASE,
/// RPATH_TEMPLATE, LOCAL_DIR, GM_DIR, REMOTE_DIR and GIT_ARGS.
pub open spec fn config_issue(c: ConfigModel) -> Option<ConfigIssue> {
    first_issue(
        seq![
            scalar_issue("CONFIG_FILENAME"@, c.config_filename),
            if c.config_filename.len() == 0 {
                Some(ConfigIssue::EmptyConfigFilename)
            } else {
                None
            },
            scalar_issue("LIST_FN"@, c.list_filename),
            if c.list_filename.len() == 0 {
                Some(ConfigIssue::EmptyListFilename)
            } else {
                None
            },
            if c.list_filename.contains('/') || c.list_filename.contains('\\') {
                Some(ConfigIssue::ListFilenameIsPath { value: c.list_filename })
            } else {
                None
            },
            scalar_issue("CONFIG_CMD"@, c.config_cmd),
            scalar_issue("RECURSE_PREFIX"@, c.recurse_prefix),
            scalar_issue("TREE_FILTER"@, c.tree_filter),
            scalar_issue("RLOGIN"@, c.rlogin),
            scalar_issue("RPATH_BASE"@, c.rpath_base),
            scalar_issue("RPATH_TEMPLATE"@, c.rpath_template),
            scalar_issue("LOCAL_DIR"@, c.local_dir),
            scalar_issue("GM_DIR"@, c.gm_dir),
            scalar_issue("REMOTE_DIR"@, c.remote_dir),
            scalar_issue("GIT_ARGS"@, c.git_args),
        ],
    )
}

/// Checks a single-line setting value.
fn validate_scalar(name: &str, value: &str) -> (r: Option<ConfigError>)
    ensures
        match scalar_issue(name@, value@) {
            None => r is None,
            Some(i) => r matches Some(e) && e@ == i,
        },
{
    let cs = chars_of(value);
    if contains_char(cs.as_slice(), '\0') || contains_char(cs.as_slice(), '\r') || contains_char(
        cs.as_slice(),
        '\n',
    ) {
        return Some(ConfigError::InvalidCharacter { name: string_of(name) });
    }
    let n = cs.len();
    if n > 0 && (cs[0] == '"' || cs[n - 1] == '"') {
        return Some(ConfigError::Quoted { name: string_of(name), value: string_of(value) });
    }
    None
}

/// Checks the values of a configuration that has been loaded from the environment.
/// Returns the first problem in the order of `config_issue`.
pub fn validate_env_loaded_config(config: &Config) -> (r: Result<(), ConfigError>)
    ensures
        match config_issue(config@) {
            None => r is Ok,
            Some(i) => r matches Err(e) && e@ == i,
        },
{
    let ghost c = config@;
    let ghost checks = seq![
        scalar_issue("CONFIG_FILENAME"@, c.config_filename),
        if c.config_filename.len() == 0 {
            Some(ConfigIssue::EmptyConfigFilename)
        } else {
            None
        },
        scalar_issue("LIST_FN"@, c.list_filename),
        if c.list_filename.len() == 0 {
            Some(ConfigIssue::EmptyListFilename)
        } else {
            None
        },
        if c.list_filename.contains('/') || c.list_filename.contains('\\') {
            Some(ConfigIssue::ListFilenameIsPath { value: c.list_filename })
        } else {
            None
        },
        scalar_issue("CONFIG_CMD"@, c.config_cmd),
        scalar_issue("RECURSE_PREFIX"@, c.recurse_prefix),
        scalar_issue("TREE_FILTER"@, c.tree_filter),
        scalar_issue("RLOGIN"@, c.rlogin),
        scalar_issue("RPATH_BASE"@, c.rpath_base),
        scalar_issue("RPATH_TEMPLATE"@, c.rpath_template),
        scalar_issue("LOCAL_DIR"@, c.local_dir),
        scalar_issue("GM_DIR"@, c.gm_dir),
        scalar_issue("REMOTE_DIR"@, c.remote_dir),
        scalar_issue("GIT_ARGS"@, c.git_args),
    ];
    assert(config_issue(c) == first_issue(checks));
    proof {
        reveal_with_fuel(first_issue, 16);
    }
    if let Some(e) = validate_scalar("CONFIG_FILENAME", config.config_filename.as_str()) {
        return Err(e);
    }
    if config.config_filename.as_str().is_empty() {
        return Err(ConfigError::EmptyConfigFilename);
    }
    if let Some(e) = validate_scalar("LIST_FN", config.list_filename.as_str()) {
        return Err(e);
    }
    if config.list_filename.as_str().is_empty() {
        return Err(ConfigError::EmptyListFilename);
    }
    let lf = chars_of(config.list_filename.as_str());
    if contains_char(lf.as_slice(), '/') || contains_char(lf.as_slice(), '\\') {
        return Err(ConfigError::ListFilenameIsPath { value: config.list_filename.clone() });
    }
    if let Some(e) = validate_scalar("CONFIG_CMD", config.config_cmd.as_str()) {
        return Err(e);
    }
    if let Some(e) = validate_scalar("RECURSE_PREFIX", config.recurse_prefix.as_str()) {
        return Err(e);
    }
    if let Some(e) = validate_scalar("TREE_FILTER", config.tree_filter.as_str()) {
        return Err(e);
    }
    if let Some(e) = validate_scalar("RLOGIN", config.rlogin.as_str()) {
        return Err(e);
    }
    if let Some(e) = validate_scalar("RPATH_BASE", config.rpath_base.as_str()) {
        return Err(e);
    }
    if let Some(e) = validate_scalar("RPATH_TEMPLATE", config.rpath_template.as_str()) {
        return Err(e);
    }
    if let Some(e) = validate_scalar("LOCAL_DIR", config.local_dir.as_str()) {
        return Err(e);
    }
    if let Some(e) = validate_scalar("GM_DIR", config.gm_dir.as_str()) {
        return Err(e);
    }
    if let Some(e) = validate_scalar("REMOTE_DIR", config.remote_dir.as_str()) {
        return Err(e);
    }
    if let Some(e) = validate_scalar("GIT_ARGS", config.git_args.as_str()) {
        return Err(e);
    }
    Ok(())
}


/// The setting that an environment variable names: the part after the prefix "GRM_".
pub open spec fn env_setting_name(var: Seq<char>) -> Option<Seq<char>> {
    if var.len() >= 4 && var.subrange(0, 4) == seq!['G', 'R', 'M', '_'] {
        Some(var.subrange(4, var.len() as int))
    } else {
        None
    }
}

/// The settings that the environment may set in a process that was not started by a
/// recursive invocation.
pub open spec fn root_may_set(name: Seq<char>) -> bool {
    name == "CONFIG_FILENAME"@ || name == "LIST_FN"@ || name == "CONFIG_CMD"@
}

/// The configuration after applying environment variables `vars`, in order: each variable
/// whose name starts with "GRM_" sets the setting named by the rest of its name, unless
/// the process is not recursive and the setting is not one that `root_may_set`.
pub open spec fn apply_env_vars(
    c: ConfigModel,
    vars: Seq<(Seq<char>, Seq<char>)>,
    recursive: bool,
) -> ConfigModel
    decreases vars.len(),
{
    if vars.len() == 0 {
        c
    } else {
        let before = apply_env_vars(c, vars.drop_last(), recursive);
        let (var, value) = vars.last();
        match env_setting_name(var) {
            Some(name) => if recursive || root_may_set(name) {
                before.with_setting(name, value)
            } else {
                before
            },
            None => before,
        }
    }
}

/// The view of a list of environment variables.
pub open spec fn vars_view(vars: Seq<(String, String)>) -> Seq<(Seq<char>, Seq<char>)> {
    vars.map_values(|p: (String, String)| (p.0@, p.1@))
}

/// The configuration that loading the environment gives: the recursion prefix is set
/// first (empty when absent), and the process is recursive when that prefix is not empty.
pub open spec fn env_loaded(
    c: ConfigModel,
    recurse_prefix: Option<Seq<char>>,
    vars: Seq<(Seq<char>, Seq<char>)>,
) -> ConfigModel {
    let prefix = match recurse_prefix {
        Some(p) => p,
        None => Seq::empty(),
    };
    apply_env_vars(ConfigModel { recurse_prefix: prefix, ..c }, vars, prefix.len() > 0)
}

/// The setting that an environment variable names, if it starts with "GRM_".
fn strip_env_prefix(var: &str) -> (r: Option<&str>)
    ensures
        match env_setting_name(var@) {
            None => r is None,
            Some(n) => r matches Some(s) && s@ == n,
        },
{
    let cs = chars_of(var);
    if cs.len() >= 4 && cs[0] == 'G' && cs[1] == 'R' && cs[2] == 'M' && cs[3] == '_' {
        assert(var@.subrange(0, 4) =~= seq!['G', 'R', 'M', '_']);
        Some(var.substring_char(4, cs.len()))
    } else {
        assert(cs.len() >= 4 ==> var@.subrange(0, 4)[0] == cs@[0]);
        assert(cs.len() >= 4 ==> var@.subrange(0, 4)[1] == cs@[1]);
        assert(cs.len() >= 4 ==> var@.subrange(0, 4)[2] == cs@[2]);
        assert(cs.len() >= 4 ==> var@.subrange(0, 4)[3] == cs@[3]);
        None
    }
}

impl Config {
    /// Loads settings from the environment: `recurse_prefix` is the value of
    /// GRM_RECURSE_PREFIX if it is set, `vars` all environment variables in order. Then
    /// checks the result as `validate_env_loaded_config` does.
    pub fn load_from_vars(&mut self, recurse_prefix: Option<String>, vars: &Vec<(String, String)>) -> (r:
        Result<(), ConfigError>)
        ensures
            final(self)@ == env_loaded(
                old(self)@,
                match recurse_prefix {
                    Some(p) => Some(p@),
                    None => None,
                },
                vars_view(vars@),
            ),
            match config_issue(final(self)@) {
                None => r is Ok,
                Some(i) => r matches Err(e) && e@ == i,
            },
    {
        self.recurse_prefix = match recurse_prefix {
            Some(p) => p,
            None => String::new(),
        };
        let is_recursive = !self.recurse_prefix.as_str().is_empty();
        let ghost start = self@;
        let ghost vv = vars_view(vars@);
        let mut i: usize = 0;
        while i < vars.len()
            invariant
                i <= vars@.len(),
                vv == vars_view(vars@),
                vv.len() == vars@.len(),
                is_recursive == (start.recurse_prefix.len() > 0),
                self@ == apply_env_vars(start, vv.subrange(0, i as int), is_recursive),
            decreases vars@.len() - i,
        {
            let var = vars[i].0.as_str();
            let value = &vars[i].1;
            let ghost before = self@;
            if let Some(name) = strip_env_prefix(var) {
                let allowed = is_recursive || str_equal(name, "CONFIG_FILENAME") || str_equal(
                    name,
                    "LIST_FN",
                ) || str_equal(name, "CONFIG_CMD");
                if allowed {
                    self.set_by_key(name, value.clone());
                }
            }
            assert(vv.subrange(0, i + 1).drop_last() =~= vv.subrange(0, i as int));
            assert(vv.subrange(0, i + 1).last() == vv[i as int]);
            i = i + 1;
        }
        assert(vv.subrange(0, vars@.len() as int) =~= vv);
        validate_env_loaded_config(self)
    }
}

/// The configuration after applying the configuration lines among `lines`, in order.
pub open spec fn apply_config_lines(c: ConfigModel, lines: Seq<SpecLine>) -> ConfigModel
    decreases lines.len(),
{
    if lines.len() == 0 {
        c
    } else {
        let next = match lines[0] {
            SpecLine::Config { key, value } => c.with_setting(key, value),
            _ => c,
        };
        apply_config_lines(next, lines.drop_first())
    }
}

/// Whether a configuration file with these lines can be loaded: it holds no repository
/// line and no malformed line.
pub open spec fn loadable_config_lines(lines: Seq<SpecLine>) -> bool {
    forall|k: int|
        0 <= k < lines.len() ==> !(#[trigger] lines[k] is RepoSpec) && !(lines[k] is Malformed)
}

/// Whether a configuration file, given as an iterator over its lines, can be loaded by
/// `Config::load_from_file`.
pub fn config_file_is_loadable(file: &LineIterator) -> (b: bool)
    ensures
        b == (file.remaining_lines() matches Some(lines) && loadable_config_lines(lines)),
{
    let ghost answer = file.remaining_lines() matches Some(lines) && loadable_config_lines(lines);
    let mut it = file.duplicate();
    loop
        invariant
            answer == (file.remaining_lines() matches Some(lines) && loadable_config_lines(lines)),
            answer == (it.remaining_lines() matches Some(lines) && loadable_config_lines(lines)),
        decreases it.text().len() - it.pos(),
    {
        if !it.can_advance() {
            proof {
                LineIterator::lemma_undefined_next(it);
                assert(it.remaining_lines() is None);
                assert(!answer);
            }
            return false;
        }
        let ghost before = it;
        proof {
            if before.pos() < before.text().len() && before.remaining_lines() is Some {
                LineIterator::lemma_lines_from_unfold_at(before);
            }
            if before.pos() < before.text().len() {
                lemma_line_at_advances(before.text(), before.pos());
            }
        }
        match it.next() {
            None => {
                proof {
                    lemma_lines_from_end(before.text(), before.pos());
                }
                return true;
            },
            Some(line) => {
                proof {
                    if let Some(lines) = before.remaining_lines() {
                        assert(lines[0] == line@);
                    }
                }
                match line {
                    ParsedLine::RepoSpec { .. } => {
                        return false;
                    },
                    ParsedLine::Malformed => {
                        return false;
                    },
                    _ => {},
                }
                proof {
                    if let Some(lines) = before.remaining_lines() {
                        assert(lines[0] == line@);
                        assert(lines.drop_first() == it.remaining_lines()->0);
                        if loadable_config_lines(lines.drop_first()) {
                            assert forall|k: int| 0 <= k < lines.len() implies !(
                            #[trigger] lines[k] is RepoSpec) && !(lines[k] is Malformed) by {
                                if k > 0 {
                                    assert(lines[k] == lines.drop_first()[k - 1]);
                                }
                            }
                        }
                    }
                }
            },
        }
    }
}

impl Config {
    /// Load configuration from a file, given as an iterator over its lines: each
    /// configuration line sets its setting; comments and blank lines are skipped.
    pub fn load_from_file(&mut self, file: LineIterator)
        requires
            file.remaining_lines() matches Some(lines) && loadable_config_lines(lines),
        ensures
            file.remaining_lines() matches Some(lines) && final(self)@ == apply_config_lines(
                old(self)@,
                lines,
            ),
    {
        let mut iter = file;
        let ghost target = apply_config_lines(self@, file.remaining_lines()->0);
        loop
            invariant
                iter.remaining_lines() matches Some(lines) && loadable_config_lines(lines)
                    && apply_config_lines(self@, lines) == target,
            ensures
                self@ == target,
            decreases iter.remaining_lines()->0.len(),
        {
            let ghost lines = iter.remaining_lines()->0;
            let ghost before = iter;
            proof {
                if before.pos() < before.text().len() {
                    LineIterator::lemma_lines_from_unfold_at(before);
                }
            }
            match iter.next() {
                None => {
                    proof {
                        lemma_lines_from_end(before.text(), before.pos());
                    }
                    break;
                },
                Some(line) => {
                    assert(lines[0] == line@);
                    match line {
                        ParsedLine::Config { key, value } => {
                            self.set_by_key(key.as_str(), value);
                        },
                        _ => {},
                    }
                    assert(iter.remaining_lines()->0 =~= lines.drop_first());
                },
            }
        }
    }
}


/// Raw repository path components, as read from a listfile line.
pub struct RepoSpec {
    pub remote_rel: String,
    pub local_rel: String,
    pub cfg_param: String,
}

/// Repository paths with the configured base directories applied.
pub struct RepoPaths {
    pub remote: String,
    pub local: String,
    pub config: String,
}

/// Everything needed to act on one repository.
#[derive(Debug)]
pub struct FullRepoSpec {
    pub remote_path: String,
    pub remote_url: String,
    pub local_path: String,
    pub cfg_param: String,
}

/// `rel` placed under `base`: an absolute `rel`, or any `rel` when `base` is empty, stays as
/// it is; otherwise `base/rel`, or `base` itself when `rel` is empty.
pub open spec fn joined_path(base: Seq<char>, rel: Seq<char>) -> Seq<char> {
    if (rel.len() > 0 && rel[0] == '/') || base.len() == 0 {
        rel
    } else if rel.len() > 0 {
        base + seq!['/'] + rel
    } else {
        base
    }
}

/// Joins a relative path onto a base directory, as `joined_path` says.
pub fn cat_paths(base: &str, rel: &str) -> (r: String)
    ensures
        r@ == joined_path(base@, rel@),
{
    let rc = chars_of(rel);
    if (rc.len() > 0 && rc[0] == '/') || base.is_empty() {
        return string_of(rel);
    }
    if rc.len() > 0 {
        let mut r = string_of(base);
        r.append("/");
        r.append(rel);
        proof {
            reveal_strlit("/");
        }
        r
    } else {
        string_of(base)
    }
}

/// The separator between a URL's protocol and the rest.
pub open spec fn scheme_separator() -> Seq<char> {
    seq![':', '/', '/']
}

/// A remote URL before any normalization, and whether it is an HTTP(S) URL, which is
/// then reformatted by gix-url.
pub open spec fn raw_remote_url(rlogin: Seq<char>, repo_path: Seq<char>) -> (Seq<char>, bool) {
    if rlogin.len() == 0 {
        (repo_path, false)
    } else {
        let login = trim_end_char(rlogin, '/');
        match find_from(login, scheme_separator(), 0) {
            None => (login + seq![':'] + repo_path, false),
            Some(k) => {
                let protocol = login.subrange(0, k);
                let domain = trim_end_char(login.subrange(k + 3, login.len() as int), '/');
                let path = trim_start_char(repo_path, '/');
                (
                    protocol + scheme_separator() + domain + seq!['/'] + path,
                    protocol == "http"@ || protocol == "https"@,
                )
            },
        }
    }
}

/// The remote URL for `repo_path` reached through `rlogin`: the path itself when there is
/// no login; `login:path` for a login without a protocol (trailing slashes of the login
/// dropped); otherwise `protocol://domain/path` with the slashes at the joint collapsed,
/// and for http and https the text gix-url renders for that URL when it parses.
pub open spec fn remote_url(rlogin: Seq<char>, repo_path: Seq<char>) -> Seq<char> {
    let (url, http) = raw_remote_url(rlogin, repo_path);
    if http {
        match gix_url_text(url) {
            Some(t) => t,
            None => url,
        }
    } else {
        url
    }
}

/// The URL that gix-url rendered, or the unnormalized one when it did not parse.
pub fn url_or_fallback(rendered: Option<String>, url: String) -> (r: String)
    ensures
        r@ == match rendered {
            Some(t) => t@,
            None => url@,
        },
{
    match rendered {
        Some(t) => t,
        None => url,
    }
}

/// Build a Git clone/fetch URL from a remote login (e.g. "user@host" or
/// "https://github.com") and a repository path.
pub fn build_remote_url(rlogin: &str, repo_path: &str) -> (r: String)
    ensures
        r@ == remote_url(rlogin@, repo_path@),
{
    if rlogin.is_empty() {
        return string_of(repo_path);
    }
    let login = trim_end_matches_char(rlogin, '/');
    let lc = chars_of(login);
    let sep = [':', '/', '/'];
    assert(sep@ =~= scheme_separator());
    assert(sep@.len() == 3);
    match find_chars(lc.as_slice(), sep.as_slice()) {
        None => {
            let mut r = string_of(login);
            r.append(":");
            r.append(repo_path);
            proof {
                reveal_strlit(":");
                assert(":"@ =~= seq![':']);
            }
            assert(r@ == raw_remote_url(rlogin@, repo_path@).0);
            r
        },
        Some(k) => {
            let n = lc.len();
            proof {
                lemma_find_from_found(lc@, sep@, 0);
                assert(k + 3 <= n);
            }
            let protocol = login.substring_char(0, k);
            let after = login.substring_char(k + 3, n);
            let domain = trim_end_matches_char(after, '/');
            let path = trim_start_matches_char(repo_path, '/');
            let mut url = string_of(protocol);
            url.append("://");
            url.append(domain);
            url.append("/");
            url.append(path);
            proof {
                reveal_strlit("://");
                reveal_strlit("/");
            }
            assert(url@ == raw_remote_url(rlogin@, repo_path@).0);
            if str_equal(protocol, "http") || str_equal(protocol, "https") {
                let rendered = gix_url_reformat(url.as_str());
                url_or_fallback(rendered, url)
            } else {
                url
            }
        },
    }
}

/// Get the remote URL for a fully-compounded remote path. RPATH_BASE and RLOGIN must be
/// set.
pub fn get_remote_url(config: &Config, remote_path: &str) -> (r: String)
    requires
        config.rpath_base@.len() > 0,
        config.rlogin@.len() > 0,
    ensures
        r@ == remote_url(config.rlogin@, remote_path@),
{
    build_remote_url(config.rlogin.as_str(), remote_path)
}

/// The local path for a repository whose second cell is empty: the repository's name.
pub open spec fn default_local_rel(remote_rel: Seq<char>, local_cell: Seq<char>) -> Seq<char> {
    if local_cell.len() > 0 {
        local_cell
    } else {
        repo_name_of(remote_rel)
    }
}

impl RepoSpec {
    /// Extract raw repository path components from the cells of a listfile line: the
    /// remote, then the local path (the repository's name when empty), then the
    /// configuration parameter (the local path when empty).
    pub fn from_cells(cells: [&str; 3]) -> (r: RepoSpec)
        ensures
            r.remote_rel@ == cells@[0]@,
            r.local_rel@ == default_local_rel(cells@[0]@, cells@[1]@),
            r.cfg_param@ == (if cells@[2]@.len() > 0 {
                cells@[2]@
            } else {
                default_local_rel(cells@[0]@, cells@[1]@)
            }),
    {
        let remote_rel = cells[0];
        let local_rel = if !cells[1].is_empty() {
            string_of(cells[1])
        } else {
            match capture_repo_name(REPO_NAME_PATTERN, remote_rel) {
                Some(name) => name,
                None => String::new(),
            }
        };
        let media_rel = if !cells[2].is_empty() {
            string_of(cells[2])
        } else {
            local_rel.clone()
        };
        RepoSpec { remote_rel: string_of(remote_rel), local_rel, cfg_param: media_rel }
    }
}

impl RepoPaths {
    /// Applies the configured base directories: the remote under RPATH_BASE and
    /// REMOTE_DIR, the local path under LOCAL_DIR, the parameter under GM_DIR.
    pub fn from_spec(spec: RepoSpec, config: &Config) -> (r: RepoPaths)
        ensures
            r.remote@ == joined_path(
                config.rpath_base@,
                joined_path(config.remote_dir@, spec.remote_rel@),
            ),
            r.local@ == joined_path(config.local_dir@, spec.local_rel@),
            r.config@ == joined_path(config.gm_dir@, spec.cfg_param@),
    {
        let remote_joined = cat_paths(config.remote_dir.as_str(), spec.remote_rel.as_str());
        RepoPaths {
            remote: cat_paths(config.rpath_base.as_str(), remote_joined.as_str()),
            local: cat_paths(config.local_dir.as_str(), spec.local_rel.as_str()),
            config: cat_paths(config.gm_dir.as_str(), spec.cfg_param.as_str()),
        }
    }
}

impl FullRepoSpec {
    /// Adds the remote URL to a repository's paths. RPATH_BASE and RLOGIN must be set.
    pub fn from_paths(paths: RepoPaths, config: &Config) -> (r: FullRepoSpec)
        requires
            config.rpath_base@.len() > 0,
            config.rlogin@.len() > 0,
        ensures
            r.remote_path@ == paths.remote@,
            r.remote_url@ == remote_url(config.rlogin@, paths.remote@),
            r.local_path@ == paths.local@,
            r.cfg_param@ == paths.config@,
    {
        let remote_url = get_remote_url(config, paths.remote.as_str());
        FullRepoSpec {
            remote_path: paths.remote,
            remote_url,
            local_path: paths.local,
            cfg_param: paths.config,
        }
    }
}


/// Without a recursion prefix, the environment can change only CONFIG_FILENAME, LIST_FN
/// and CONFIG_CMD: every other setting keeps its value.
pub proof fn law_root_environment_restricted(c: ConfigModel, vars: Seq<(Seq<char>, Seq<char>)>)
    ensures
        ({
            let r = apply_env_vars(c, vars, false);
            &&& r.recurse_enabled == c.recurse_enabled
            &&& r.rlogin == c.rlogin
            &&& r.rpath_base == c.rpath_base
            &&& r.rpath_template == c.rpath_template
            &&& r.local_dir == c.local_dir
            &&& r.gm_dir == c.gm_dir
            &&& r.remote_dir == c.remote_dir
            &&& r.git_args == c.git_args
            &&& r.recurse_prefix == c.recurse_prefix
            &&& r.tree_filter == c.tree_filter
        }),
    decreases vars.len(),
{
    if vars.len() > 0 {
        law_root_environment_restricted(c, vars.drop_last());
        lemma_setting_names_distinct();
        assert(setting_names()[0] != setting_names()[1]);
        assert(setting_names()[0] != setting_names()[10]);
        assert(setting_names()[1] != setting_names()[10]);
    }
}

/// In any process, recursive or not, an environment variable GRM_CONFIG_FILENAME,
/// GRM_LIST_FN or GRM_CONFIG_CMD sets its setting to the variable's value: after it, that
/// setting holds the value, whatever came before.
pub proof fn law_environment_sets_allowed_settings(
    c: ConfigModel,
    vars: Seq<(Seq<char>, Seq<char>)>,
    value: Seq<char>,
    recursive: bool,
)
    ensures
        apply_env_vars(
            c,
            vars.push((seq!['G', 'R', 'M', '_'] + "CONFIG_FILENAME"@, value)),
            recursive,
        ).config_filename == value,
        apply_env_vars(
            c,
            vars.push((seq!['G', 'R', 'M', '_'] + "LIST_FN"@, value)),
            recursive,
        ).list_filename == value,
        apply_env_vars(
            c,
            vars.push((seq!['G', 'R', 'M', '_'] + "CONFIG_CMD"@, value)),
            recursive,
        ).config_cmd == value,
{
    reveal_strlit("CONFIG_FILENAME");
    reveal_strlit("LIST_FN");
    reveal_strlit("CONFIG_CMD");
    reveal_strlit("RPATH_BASE");
    reveal_strlit("RPATH_TEMPLATE");
    reveal_strlit("RLOGIN");
    reveal_strlit("OPT_RECURSE");
    let names = seq!["CONFIG_FILENAME"@, "LIST_FN"@, "CONFIG_CMD"@];
    assert forall|k: int| 0 <= k < 3 implies ({
        let var = seq!['G', 'R', 'M', '_'] + #[trigger] names[k];
        &&& var.len() >= 4
        &&& var.subrange(0, 4) == seq!['G', 'R', 'M', '_']
        &&& var.subrange(4, var.len() as int) == names[k]
    }) by {
        let var = seq!['G', 'R', 'M', '_'] + names[k];
        assert(var.subrange(0, 4) =~= seq!['G', 'R', 'M', '_']);
        assert(var.subrange(4, var.len() as int) =~= names[k]);
    }
    let v0 = vars.push((seq!['G', 'R', 'M', '_'] + "CONFIG_FILENAME"@, value));
    let v1 = vars.push((seq!['G', 'R', 'M', '_'] + "LIST_FN"@, value));
    let v2 = vars.push((seq!['G', 'R', 'M', '_'] + "CONFIG_CMD"@, value));
    assert(names[0] == "CONFIG_FILENAME"@);
    assert(names[1] == "LIST_FN"@);
    assert(names[2] == "CONFIG_CMD"@);
    assert(v0.drop_last() =~= vars);
    assert(v1.drop_last() =~= vars);
    assert(v2.drop_last() =~= vars);
    assert("LIST_FN"@ != "CONFIG_FILENAME"@) by {
        assert("LIST_FN"@.len() != "CONFIG_FILENAME"@.len());
    }
    assert("CONFIG_CMD"@ != "CONFIG_FILENAME"@) by {
        assert("CONFIG_CMD"@.len() != "CONFIG_FILENAME"@.len());
    }
    assert("CONFIG_CMD"@ != "LIST_FN"@) by {
        assert("CONFIG_CMD"@.len() != "LIST_FN"@.len());
    }
    lemma_setting_names_distinct();
    assert(setting_names()[10] == "CONFIG_CMD"@);
    assert forall|k: int| 0 <= k < 10 implies #[trigger] setting_names()[k] != "CONFIG_CMD"@ by {
        assert(setting_names()[k] != setting_names()[10]);
    }
    assert(setting_names()[2] == "OPT_RECURSE"@);
    assert(setting_names()[3] == "RLOGIN"@);
    assert(setting_names()[4] == "RPATH_BASE"@);
    assert(setting_names()[5] == "RPATH_TEMPLATE"@);
    assert(setting_names()[6] == "LOCAL_DIR"@);
    assert(setting_names()[7] == "GM_DIR"@);
    assert(setting_names()[8] == "REMOTE_DIR"@);
    assert(setting_names()[9] == "GIT_ARGS"@);
}

/// Applying configuration lines one part after another is applying them all at once.
pub proof fn law_config_lines_compose(c: ConfigModel, first: Seq<SpecLine>, rest: Seq<SpecLine>)
    ensures
        apply_config_lines(c, first + rest) == apply_config_lines(apply_config_lines(c, first), rest),
    decreases first.len(),
{
    if first.len() == 0 {
        assert(first + rest =~= rest);
    } else {
        assert((first + rest)[0] == first[0]);
        assert((first + rest).drop_first() =~= first.drop_first() + rest);
        let next = match first[0] {
            SpecLine::Config { key, value } => c.with_setting(key, value),
            _ => c,
        };
        law_config_lines_compose(next, first.drop_first(), rest);
    }
}

/// One line of a configuration file sets its setting when it is a configuration line and
/// changes nothing otherwise; no lines change nothing. With `law_config_lines_compose`,
/// loading a file sets, in order, every configuration line's setting, and lines of any other
/// kind neither change the configuration nor stop the lines after them.
pub proof fn law_config_line_single(c: ConfigModel, line: SpecLine)
    ensures
        apply_config_lines(c, Seq::empty()) == c,
        apply_config_lines(c, seq![line]) == match line {
            SpecLine::Config { key, value } => c.with_setting(key, value),
            _ => c,
        },
{
    assert(seq![line].drop_first() =~= Seq::<SpecLine>::empty());
    let next = match line {
        SpecLine::Config { key, value } => c.with_setting(key, value),
        _ => c,
    };
    assert(apply_config_lines(next, Seq::<SpecLine>::empty()) == next);
    assert(seq![line][0] == line);
}

/// A remote without a login is reached by its path as it stands.
pub proof fn law_url_without_login_is_path(repo_path: Seq<char>)
    ensures
        remote_url(Seq::empty(), repo_path) == repo_path,
{
}

/// A login without a protocol gives an scp-style URL, `login:path`, that keeps the path as
/// it stands, absolute or not.
pub proof fn law_scp_url_keeps_path(rlogin: Seq<char>, repo_path: Seq<char>)
    requires
        rlogin.len() > 0,
        find_from(trim_end_char(rlogin, '/'), scheme_separator(), 0) is None,
    ensures
        remote_url(rlogin, repo_path) == trim_end_char(rlogin, '/') + seq![':'] + repo_path,
{
}

/// Trailing slashes of a login do not change the URL.
pub proof fn law_url_ignores_trailing_login_slash(rlogin: Seq<char>, repo_path: Seq<char>)
    requires
        rlogin.len() > 0,
    ensures
        remote_url(rlogin.push('/'), repo_path) == remote_url(rlogin, repo_path),
{
    assert(rlogin.push('/').drop_last() =~= rlogin);
}

/// With a protocol in the login, leading slashes of the repository path do not change the
/// URL.
pub proof fn law_url_ignores_leading_path_slash(rlogin: Seq<char>, repo_path: Seq<char>)
    requires
        rlogin.len() > 0,
        find_from(trim_end_char(rlogin, '/'), scheme_separator(), 0) is Some,
    ensures
        remote_url(rlogin, seq!['/'] + repo_path) == remote_url(rlogin, repo_path),
{
    assert((seq!['/'] + repo_path).drop_first() =~= repo_path);
}

/// With a protocol other than http and https, exactly one slash joins the part before the
/// path, which does not end in a slash, and the path, which does not start with one.
pub proof fn law_url_single_joining_slash(rlogin: Seq<char>, repo_path: Seq<char>)
    requires
        rlogin.len() > 0,
        !raw_remote_url(rlogin, repo_path).1,
        find_from(trim_end_char(rlogin, '/'), scheme_separator(), 0) is Some,
    ensures
        ({
            let url = remote_url(rlogin, repo_path);
            let path = trim_start_char(repo_path, '/');
            let head = url.subrange(0, url.len() - path.len() - 1);
            &&& url.len() >= path.len() + 1
            &&& url == head + seq!['/'] + path
            &&& head.len() > 0 && head[head.len() - 1] != '/'
            &&& (path.len() == 0 || path[0] != '/')
        }),
{
    let login = trim_end_char(rlogin, '/');
    crate::text::lemma_find_from_found(login, scheme_separator(), 0);
    let k = find_from(login, scheme_separator(), 0)->0;
    let protocol = login.subrange(0, k);
    let domain = trim_end_char(login.subrange(k + 3, login.len() as int), '/');
    let path = trim_start_char(repo_path, '/');
    crate::text::lemma_trim_end_char_prefix(login.subrange(k + 3, login.len() as int), '/');
    crate::text::lemma_trim_start_char_suffix(repo_path, '/');
    let head = protocol + scheme_separator() + domain;
    let url = remote_url(rlogin, repo_path);
    assert(url == head + seq!['/'] + path);
    assert(url.subrange(0, url.len() - path.len() - 1) =~= head);
    crate::text::lemma_trim_end_char_prefix(rlogin, '/');
    if k + 3 == login.len() {
        assert(login.subrange(k, k + 3)[2] == login[login.len() - 1]);
    }
    assert(k + 3 < login.len());
    let rest = login.subrange(k + 3, login.len() as int);
    assert(rest[rest.len() - 1] == login[login.len() - 1]);
    assert(domain == rest);
    assert(head[head.len() - 1] == rest[rest.len() - 1]);
}

/// An absolute path is never placed under a base directory.
pub proof fn law_absolute_path_kept(base: Seq<char>, rel: Seq<char>)
    requires
        rel.len() > 0,
        rel[0] == '/',
    ensures
        joined_path(base, rel) == rel,
{
}

/// An empty base leaves a path as it is, and an empty path gives the base.
pub proof fn law_join_with_empty(base: Seq<char>, rel: Seq<char>)
    ensures
        joined_path(Seq::empty(), rel) == rel,
        joined_path(base, Seq::empty()) == base,
{
}

} // verus!
