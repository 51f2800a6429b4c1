use std::collections::HashMap;

use vstd::prelude::*;

verus! {

/// The whole daemon configuration.
#[derive(Debug, Clone, PartialEq)]
pub struct Config {
    pub sup: Sup,
    pub program: Program,
}

/// Settings of the daemon itself.
#[derive(Debug, Clone, PartialEq)]
pub struct Sup {
    /// Filesystem path of the local control socket.
    pub socket: String,
}

/// Everything about the one supervised program.
#[derive(Debug, Clone, PartialEq)]
pub struct Program {
    pub process: Process,
    pub log: Log,
}

/// How to launch and supervise the child process.
#[derive(Debug, Clone, PartialEq)]
pub struct Process {
    /// Path of the executable.
    pub path: String,
    /// Optional argument list.
    pub args: Option<Vec<String>>,
    /// Optional environment-variable overrides.
    pub envs: Option<HashMap<String, String>>,
    /// Working directory; must be absolute.
    pub work_dir: String,
    /// Launch the child once at daemon initialization.
    pub auto_start: bool,
    /// Seconds between automatic restart attempts.
    pub start_interval: u64,
    /// Policy for automatic restart after an unexpected exit.
    pub restart_strategy: ProcessRestartStrategy,
}

/// Log-rotation settings. The path is the unique key: the rotation engine
/// runs at most one rotation for one path at any time.
#[derive(Debug, Clone, PartialEq)]
pub struct Log {
    pub path: String,
    pub max_size: u64,
    pub max_days: u64,
    pub max_backups: u64,
    pub compress: bool,
    pub merge_compressed: bool,
}

/// Policy for automatic restart after an *unexpected* child exit; the
/// explicit restart command is always honored regardless of this value.
#[derive(Debug, Clone, Copy, PartialEq, Eq, Structural)]
pub enum ProcessRestartStrategy {
    Always,
    OnFailure,
    AlwaysNot,
}

/// Whether a path is absolute.
pub open spec fn spec_is_absolute(s: Seq<char>) -> bool {
    s.len() > 0 && s[0] == '/'
}

/// A relative path joined under a base directory: a separator is added
/// unless the base already ends in one.
pub open spec fn spec_join(base: Seq<char>, rel: Seq<char>) -> Seq<char> {
    if base.len() > 0 && base[base.len() - 1] == '/' {
        base + rel
    } else {
        base + seq!['/'] + rel
    }
}

/// A path resolved against a base directory: absolute paths stand,
/// relative ones are joined under the base.
pub open spec fn spec_resolve(base: Seq<char>, p: Seq<char>) -> Seq<char> {
    if spec_is_absolute(p) {
        p
    } else {
        spec_join(base, p)
    }
}

/// Whether a path is absolute.
pub fn is_absolute_path(s: &String) -> (r: bool)
    ensures
        r == spec_is_absolute(s@),
{
    let n = s.as_str().unicode_len();
    if n == 0 {
        false
    } else {
        s.as_str().get_char(0) == '/'
    }
}

/// Join a relative path under a base directory.
fn join_path(base: &String, rel: &String) -> (r: String)
    ensures
        r@ == spec_join(base@, rel@),
{
    let n = base.as_str().unicode_len();
    if n > 0 && base.as_str().get_char(n - 1) == '/' {
        base.clone().concat(rel.as_str())
    } else {
        let r = base.clone().concat("/").concat(rel.as_str());
        proof {
            reveal_strlit("/");
            assert(r@ =~= spec_join(base@, rel@));
        }
        r
    }
}

/// Resolve a path against a base directory.
fn resolve_path(base: &String, p: &String) -> (r: String)
    ensures
        r@ == spec_resolve(base@, p@),
{
    if is_absolute_path(p) {
        p.clone()
    } else {
        join_path(base, p)
    }
}

impl Config {
    /// Validate and normalize a loaded configuration, as daemon startup
    /// does right after parsing the file: the working directory must be
    /// absolute (else startup fails), and the executable, socket and log
    /// paths are resolved against it when relative. Everything else passes
    /// through unchanged.
    pub fn resolve(self) -> (r: Result<Config, crate::config::error::Error>)
        ensures
            match r {
                Ok(c) => {
                    &&& spec_is_absolute(self.program.process.work_dir@)
                    &&& c.sup.socket@ == spec_resolve(
                        self.program.process.work_dir@,
                        self.sup.socket@,
                    )
                    &&& c.program.process.path@ == spec_resolve(
                        self.program.process.work_dir@,
                        self.program.process.path@,
                    )
                    &&& c.program.log.path@ == spec_resolve(
                        self.program.process.work_dir@,
                        self.program.log.path@,
                    )
                    &&& c.program.process.work_dir == self.program.process.work_dir
                    &&& c.program.process.args == self.program.process.args
                    &&& c.program.process.envs == self.program.process.envs
                    &&& c.program.process.auto_start == self.program.process.auto_start
                    &&& c.program.process.start_interval == self.program.process.start_interval
                    &&& c.program.process.restart_strategy == self.program.process.restart_strategy
                    &&& c.program.log.max_size == self.program.log.max_size
                    &&& c.program.log.max_days == self.program.log.max_days
                    &&& c.program.log.max_backups == self.program.log.max_backups
                    &&& c.program.log.compress == self.program.log.compress
                    &&& c.program.log.merge_compressed == self.program.log.merge_compressed
                },
                Err(e) => !spec_is_absolute(self.program.process.work_dir@) && (
                e matches crate::config::error::Error::FormatCheckError(m) && m@
                    == "work directory must be absolute"@),
            },
    {
        let Config { sup, program } = self;
        let Program { process, log } = program;
        if !is_absolute_path(&process.work_dir) {
            return Err(
                crate::config::error::Error::FormatCheckError(
                    "work directory must be absolute".to_owned(),
                ),
            );
        }
        let socket = resolve_path(&process.work_dir, &sup.socket);
        let path = resolve_path(&process.work_dir, &process.path);
        let log_path = resolve_path(&process.work_dir, &log.path);
        Ok(
            Config {
                sup: Sup { socket },
                program: Program {
                    process: Process {
                        path,
                        args: process.args,
                        envs: process.envs,
                        work_dir: process.work_dir,
                        auto_start: process.auto_start,
                        start_interval: process.start_interval,
                        restart_strategy: process.restart_strategy,
                    },
                    log: Log {
                        path: log_path,
                        max_size: log.max_size,
                        max_days: log.max_days,
                        max_backups: log.max_backups,
                        compress: log.compress,
                        merge_compressed: log.merge_compressed,
                    },
                },
            },
        )
    }
}

pub fn default_socket() -> (r: String)
    ensures
        r@ == "./sup.sock"@,
{
    "./sup.sock".to_owned()
}

pub fn default_auto_start() -> (r: bool)
    ensures
        r == false,
{
    false
}

pub fn default_start_interval() -> (r: u64)
    ensures
        r == 5u64,
{
    5
}

pub fn default_restart_strategy() -> (r: ProcessRestartStrategy)
    ensures
        r == ProcessRestartStrategy::OnFailure,
{
    ProcessRestartStrategy::OnFailure
}

pub fn default_max_size() -> (r: u64)
    ensures
        r == 124217728u64,
{
    124217728
}

pub fn default_max_days() -> (r: u64)
    ensures
        r == 0u64,
{
    0
}

pub fn default_max_backups() -> (r: u64)
    ensures
        r == 32u64,
{
    32
}

pub fn default_compress() -> (r: bool)
    ensures
        r == false,
{
    false
}

pub fn default_merge_compressed() -> (r: bool)
    ensures
        r == false,
{
    false
}

} // verus!
