//! Running commands: the isolation settings and the command line a runner
//! builds from them.
use vstd::prelude::*;
use crate::text::string_views;

verus! {

/// How commands are isolated from the system.
#[derive(Debug, Clone, Copy, PartialEq, Eq, Structural)]
pub enum IsolationMode {
    /// Run directly.
    NoIsolation,
    /// Run inside a bubblewrap sandbox.
    Bubblewrap,
}

/// Safety settings for running commands.
#[derive(Debug, Clone, Copy, PartialEq, Eq, Structural)]
pub struct SafetyConfig {
    pub isolation_mode: IsolationMode,
    /// Bind the root file system read-only inside the sandbox.
    pub ro_bind_root: bool,
    /// Give the sandbox no network.
    pub network_isolation: bool,
}

impl Default for SafetyConfig {
    /// No isolation.
    fn default() -> (r: Self)
        ensures
            r.isolation_mode == IsolationMode::NoIsolation,
            !r.ro_bind_root,
            !r.network_isolation,
    {
        SafetyConfig { isolation_mode: IsolationMode::NoIsolation, ro_bind_root: false, network_isolation: false }
    }
}

/// Settings of the tools and the server.
#[derive(Debug, Clone)]
pub struct GlobalConfig {
    /// Restrict operations according to `.gitignore`.
    pub enable_gitignore: bool,
    /// Key for authenticated services.
    pub api_key: Option<String>,
    /// A configuration file to read.
    pub config_path: Option<String>,
    pub safety: SafetyConfig,
}

impl GlobalConfig {
    /// The settings used when no configuration is given.
    pub fn defaults() -> (r: Self)
        ensures
            !r.enable_gitignore,
            r.api_key is None,
            r.config_path is None,
            r.safety.isolation_mode == IsolationMode::NoIsolation,
            !r.safety.ro_bind_root,
            !r.safety.network_isolation,
    {
        GlobalConfig {
            enable_gitignore: false,
            api_key: None,
            config_path: None,
            safety: SafetyConfig::default(),
        }
    }
}

/// A command line: the program, its arguments, and the directory it runs in.
#[derive(Debug, Clone)]
pub struct CommandSpec {
    pub program: String,
    pub args: Vec<String>,
    pub cwd: String,
}

/// Runs commands under a safety configuration.
pub struct CommandRunner {
    config: SafetyConfig,
}

/// The arguments of a sandboxed run: the root bound read-only or writable,
/// devices and processes, optionally no network, the working directory
/// bound writable, then the program and its arguments.
pub open spec fn sandbox_args(
    c: SafetyConfig,
    program: Seq<char>,
    args: Seq<Seq<char>>,
    cwd: Seq<char>,
) -> Seq<Seq<char>> {
    (if c.ro_bind_root {
        seq!["--ro-bind"@, "/"@, "/"@]
    } else {
        seq!["--bind"@, "/"@, "/"@]
    }) + seq!["--dev"@, "/dev"@, "--proc"@, "/proc"@] + (if c.network_isolation {
        seq!["--unshare-net"@]
    } else {
        Seq::empty()
    }) + seq!["--bind"@, cwd, cwd, program] + args
}

impl CommandRunner {
    /// A runner with the given settings.
    pub fn new(config: SafetyConfig) -> (r: Self)
        ensures
            r.config_spec() == config,
    {
        CommandRunner { config }
    }

    /// The runner's settings.
    pub closed spec fn config_spec(&self) -> SafetyConfig {
        self.config
    }

    /// The command line that runs `program` with `args` in `cwd`: directly,
    /// or through `bwrap` with the sandbox arguments.
    pub fn build(&self, program: &str, args: &Vec<String>, cwd: &str) -> (r: CommandSpec)
        ensures
            r.cwd@ == cwd@,
            self.config_spec().isolation_mode == IsolationMode::NoIsolation ==> r.program@ == program@
                && string_views(r.args@) == string_views(args@),
            self.config_spec().isolation_mode == IsolationMode::Bubblewrap ==> r.program@
                == "bwrap"@ && string_views(r.args@) == sandbox_args(
                self.config_spec(),
                program@,
                string_views(args@),
                cwd@,
            ),
    {
        match self.config.isolation_mode {
            IsolationMode::NoIsolation => {
                let mut a: Vec<String> = Vec::new();
                let mut i: usize = 0;
                while i < args.len()
                    invariant
                        i <= args@.len(),
                        string_views(a@) == string_views(args@).take(i as int),
                    decreases args.len() - i,
                {
                    let ghost prev = string_views(a@);
                    a.push(args[i].clone());
                    assert(string_views(a@) =~= prev.push(args@[i as int]@));
                    i += 1;
                    assert(string_views(a@) =~= string_views(args@).take(i as int));
                }
                assert(string_views(args@).take(args@.len() as int) =~= string_views(args@));
                CommandSpec { program: program.to_owned(), args: a, cwd: cwd.to_owned() }
            },
            IsolationMode::Bubblewrap => {
                let mut a: Vec<String> = Vec::new();
                if self.config.ro_bind_root {
                    a.push("--ro-bind".to_owned());
                } else {
                    a.push("--bind".to_owned());
                }
                a.push("/".to_owned());
                a.push("/".to_owned());
                a.push("--dev".to_owned());
                a.push("/dev".to_owned());
                a.push("--proc".to_owned());
                a.push("/proc".to_owned());
                if self.config.network_isolation {
                    a.push("--unshare-net".to_owned());
                }
                a.push("--bind".to_owned());
                a.push(cwd.to_owned());
                a.push(cwd.to_owned());
                a.push(program.to_owned());
                let ghost head = string_views(a@);
                let mut i: usize = 0;
                while i < args.len()
                    invariant
                        i <= args@.len(),
                        string_views(a@) == head + string_views(args@).take(i as int),
                    decreases args.len() - i,
                {
                    let ghost prev = string_views(a@);
                    a.push(args[i].clone());
                    assert(string_views(a@) =~= prev.push(args@[i as int]@));
                    i += 1;
                    assert(string_views(a@) =~= head + string_views(args@).take(i as int));
                }
                assert(string_views(args@).take(args@.len() as int) =~= string_views(args@));
                proof {
                    let c = self.config;
                    assert(head =~= (if c.ro_bind_root {
                        seq!["--ro-bind"@, "/"@, "/"@]
                    } else {
                        seq!["--bind"@, "/"@, "/"@]
                    }) + seq!["--dev"@, "/dev"@, "--proc"@, "/proc"@] + (if c.network_isolation {
                        seq!["--unshare-net"@]
                    } else {
                        Seq::empty()
                    }) + seq!["--bind"@, cwd@, cwd@, program@]);
                }
                CommandSpec { program: "bwrap".to_owned(), args: a, cwd: cwd.to_owned() }
            },
        }
    }
}

} // verus!
