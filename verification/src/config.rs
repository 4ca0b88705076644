//! The settings of the scanner.
//!
//! Directories are texts, with `/` between the names of a path. What the
//! environment decides, such as the user's data directory or whether the
//! output is a terminal, is given to the constructors as a value.

use crate::text::{chars_of, push_str_chars, string_of};
use vstd::prelude::*;

verus! {

/// Where the default rule pack is downloaded from.
pub const DEFAULT_RULES_RELEASE_URL: &'static str =
    "https://github.com/rsgbengi/valeris-rules/releases/download/v0.1.0/detectors.tar.gz";

/// The environment variable that overrides the rules directory.
pub const RULES_DIR_ENV: &'static str = "VALERIS_RULES_DIR";

/// The environment variable that overrides the path of the configuration file.
pub const CONFIG_FILE_ENV: &'static str = "VALERIS_CONFIG_FILE";

/// The path of `name` seen from the directory `base`. A `name` that begins
/// with `/` is a path from the root and stands for itself. An empty `base` is
/// the current directory, and a `base` that ends in `/` gets no second one.
pub open spec fn path_join(base: Seq<char>, name: Seq<char>) -> Seq<char> {
    if name.len() > 0 && name[0] == '/' {
        name
    } else if base.len() == 0 {
        name
    } else if base.last() == '/' {
        base + name
    } else {
        base + seq!['/'] + name
    }
}

/// The path of `name` seen from the directory `base`.
pub fn join_path(base: &str, name: &str) -> (path: String)
    ensures
        path@ == path_join(base@, name@),
{
    let entry = chars_of(name);
    if entry.len() > 0 && entry[0] == '/' {
        return string_of(&entry);
    }
    let mut out = chars_of(base);
    let n = out.len();
    if n > 0 && out[n - 1] != '/' {
        out.push('/');
    }
    let ghost before = out@;
    push_str_chars(&mut out, name);
    assert(out@ =~= path_join(base@, name@));
    string_of(&out)
}

/// The rules directory: the override of the environment where there is one,
/// and else `valeris/detectors` in the user's data directory or, without such
/// a directory, in the current one.
pub open spec fn resolved_rules_dir(
    env_dir: Option<Seq<char>>,
    data_local_dir: Option<Seq<char>>,
) -> Seq<char> {
    match env_dir {
        Some(dir) => dir,
        None => path_join(
            path_join(
                match data_local_dir {
                    Some(dir) => dir,
                    None => "."@,
                },
                "valeris"@,
            ),
            "detectors"@,
        ),
    }
}

/// The text of an optional string.
pub open spec fn dir_text(dir: Option<String>) -> Option<Seq<char>> {
    match dir {
        Some(d) => Some(d@),
        None => None,
    }
}

/// Where the rules are, and whether to fetch them.
#[derive(Debug)]
pub struct RulesConfig {
    /// The directory that holds the rules.
    pub base_dir: String,
    /// Whether to download the rules where they are missing.
    pub auto_download: bool,
}

impl RulesConfig {
    /// The settings for the rules directory that the environment decides.
    /// `env_dir` is the value of the variable `RULES_DIR_ENV`, and
    /// `data_local_dir` is the user's data directory, each where it is set.
    pub fn resolve(env_dir: Option<String>, data_local_dir: Option<String>) -> (config: RulesConfig)
        ensures
            config.base_dir@ == resolved_rules_dir(dir_text(env_dir), dir_text(data_local_dir)),
            config.auto_download,
    {
        let base_dir = match env_dir {
            Some(dir) => dir,
            None => {
                let root = match data_local_dir {
                    Some(dir) => dir,
                    None => ".".to_owned(),
                };
                let app_dir = join_path(root.as_str(), "valeris");
                join_path(app_dir.as_str(), "detectors")
            },
        };
        RulesConfig { base_dir, auto_download: true }
    }

    /// The directory of the rules for running Docker containers.
    pub fn runtime_docker_dir(&self) -> (dir: String)
        ensures
            dir@ == path_join(path_join(self.base_dir@, "runtime"@), "docker"@),
    {
        let runtime = join_path(self.base_dir.as_str(), "runtime");
        join_path(runtime.as_str(), "docker")
    }

    /// The directory of the rules for Dockerfiles.
    pub fn dockerfile_dir(&self) -> (dir: String)
        ensures
            dir@ == path_join(self.base_dir@, "dockerfile"@),
    {
        join_path(self.base_dir.as_str(), "dockerfile")
    }
}

/// The rules directory that the environment decides.
pub fn rules_dir(env_dir: Option<String>, data_local_dir: Option<String>) -> (dir: String)
    ensures
        dir@ == resolved_rules_dir(dir_text(env_dir), dir_text(data_local_dir)),
{
    RulesConfig::resolve(env_dir, data_local_dir).base_dir
}

/// How the Docker daemon is reached.
#[derive(Debug, Clone, Copy, PartialEq, Eq)]
pub struct DockerConfig {
    /// The time allowed for a connection, in seconds.
    pub connection_timeout_secs: u64,
    /// The number of containers that are scanned at once, at most.
    pub max_parallel_scans: usize,
}

impl Default for DockerConfig {
    fn default() -> (config: DockerConfig)
        ensures
            config.connection_timeout_secs == 30,
            config.max_parallel_scans == 10,
    {
        DockerConfig { connection_timeout_secs: 30, max_parallel_scans: 10 }
    }
}

/// How results are shown.
#[derive(Debug, Clone, Copy, PartialEq, Eq)]
pub struct OutputConfig {
    /// Whether the output is coloured.
    pub use_colors: bool,
    /// The width of a table, in columns.
    pub table_width: usize,
    /// Whether errors are shown at length.
    pub verbose_errors: bool,
}

impl OutputConfig {
    /// The default settings, for an output that is a terminal or not.
    pub fn new(is_terminal: bool) -> (config: OutputConfig)
        ensures
            config.use_colors == is_terminal,
            config.table_width == 80,
            !config.verbose_errors,
    {
        OutputConfig { use_colors: is_terminal, table_width: 80, verbose_errors: false }
    }
}

/// All the settings of the application.
#[derive(Debug)]
pub struct AppConfig {
    pub rules: RulesConfig,
    pub docker: DockerConfig,
    pub output: OutputConfig,
}

impl AppConfig {
    /// The default settings, for the rules settings and the kind of output
    /// that the environment decides.
    pub fn new(rules: RulesConfig, is_terminal: bool) -> (config: AppConfig)
        ensures
            config.rules == rules,
            config.docker.connection_timeout_secs == 30,
            config.docker.max_parallel_scans == 10,
            config.output.use_colors == is_terminal,
            config.output.table_width == 80,
            !config.output.verbose_errors,
    {
        AppConfig { rules, docker: DockerConfig::default(), output: OutputConfig::new(is_terminal) }
    }

    /// The same settings, with errors shown at length.
    pub fn with_verbose(self) -> (config: AppConfig)
        ensures
            config.output.verbose_errors,
            config.output.use_colors == self.output.use_colors,
            config.output.table_width == self.output.table_width,
            config.rules == self.rules,
            config.docker == self.docker,
    {
        let mut config = self;
        config.output.verbose_errors = true;
        config
    }

    /// The same settings, without the download of missing rules.
    pub fn without_auto_download(self) -> (config: AppConfig)
        ensures
            !config.rules.auto_download,
            config.rules.base_dir == self.rules.base_dir,
            config.output == self.output,
            config.docker == self.docker,
    {
        let mut config = self;
        config.rules.auto_download = false;
        config
    }
}

/// The `[scan]` table of a configuration file.
#[derive(Debug)]
pub struct ScanConfig {
    /// The container states to scan.
    pub default_state: Option<Vec<String>>,
    /// The rules to run, and no others.
    pub only: Option<Vec<String>>,
    /// The rules to leave out.
    pub exclude: Option<Vec<String>>,
    /// The patterns of the containers to ignore.
    pub ignore_containers: Option<Vec<String>>,
    /// The least severity to report.
    pub min_severity: Option<String>,
    /// The severity at which a scan fails.
    pub fail_on: Option<String>,
    /// Whether to print nothing.
    pub quiet: Option<bool>,
}

impl Default for ScanConfig {
    fn default() -> (config: ScanConfig)
        ensures
            config.default_state is None,
            config.only is None,
            config.exclude is None,
            config.ignore_containers is None,
            config.min_severity is None,
            config.fail_on is None,
            config.quiet is None,
    {
        ScanConfig {
            default_state: None,
            only: None,
            exclude: None,
            ignore_containers: None,
            min_severity: None,
            fail_on: None,
            quiet: None,
        }
    }
}

/// The `[output]` table of a configuration file.
#[derive(Debug)]
pub struct FileOutputConfig {
    /// The format of the output.
    pub format: Option<String>,
    /// Whether the output is coloured.
    pub colors: Option<bool>,
    /// The width of a table, in columns.
    pub table_width: Option<usize>,
}

impl Default for FileOutputConfig {
    fn default() -> (config: FileOutputConfig)
        ensures
            config.format is None,
            config.colors is None,
            config.table_width is None,
    {
        FileOutputConfig { format: None, colors: None, table_width: None }
    }
}

/// The `[rules]` table of a configuration file.
#[derive(Debug)]
pub struct FileRulesConfig {
    /// The directory that holds the rules.
    pub directory: Option<String>,
    /// Whether to download the rules where they are missing.
    pub auto_download: Option<bool>,
}

impl Default for FileRulesConfig {
    fn default() -> (config: FileRulesConfig)
        ensures
            config.directory is None,
            config.auto_download is None,
    {
        FileRulesConfig { directory: None, auto_download: None }
    }
}

/// The `[docker]` table of a configuration file.
#[derive(Debug)]
pub struct FileDockerConfig {
    /// The time allowed for a connection, in seconds.
    pub timeout: Option<u64>,
    /// The number of containers that are scanned at once, at most.
    pub max_parallel: Option<usize>,
    /// The address of the Docker daemon.
    pub host: Option<String>,
}

impl Default for FileDockerConfig {
    fn default() -> (config: FileDockerConfig)
        ensures
            config.timeout is None,
            config.max_parallel is None,
            config.host is None,
    {
        FileDockerConfig { timeout: None, max_parallel: None, host: None }
    }
}

/// A configuration file.
#[derive(Debug)]
pub struct ConfigFile {
    pub scan: Option<ScanConfig>,
    pub output: Option<FileOutputConfig>,
    pub rules: Option<FileRulesConfig>,
    pub docker: Option<FileDockerConfig>,
}

impl Default for ConfigFile {
    fn default() -> (config: ConfigFile)
        ensures
            config.scan is None,
            config.output is None,
            config.rules is None,
            config.docker is None,
    {
        ConfigFile { scan: None, output: None, rules: None, docker: None }
    }
}

} // verus!
