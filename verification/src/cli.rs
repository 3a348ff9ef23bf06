//! Command-line arguments: the command, its flags and their defaults.
use vstd::prelude::*;

use crate::text::same_text;

verus! {

/// The help text.
pub const USAGE: &'static str = "Usage:\n  devc --version\n  devc init [--project-dir PATH] [--container NAME] [--workspace-name NAME] [--service-name NAME] [--image-repo REPO]\n  devc show [--project-dir PATH]\n  devc compose-snippet [--project-dir PATH]\n  devc just-snippet [--project-dir PATH]\n\nCommands:\n  init             Write a project-local devc.toml manifest.\n  show             Display the resolved project metadata.\n  compose-snippet  Print a compose service snippet for the current project.\n  just-snippet     Print a justfile snippet for local wrapper commands.\n  --version, -V    Print the CLI version.";

/// The version of this tool.
pub const VERSION: &'static str = "0.1.0";

/// Returns the help text.
pub fn usage() -> (r: String)
    ensures
        r@ == USAGE@,
{
    USAGE.to_owned()
}

/// Returns the version line, `devc <version>` and a newline.
pub fn version() -> (r: String)
    ensures
        r@ == "devc "@ + VERSION@ + "\n"@,
{
    let mut r = String::new();
    r.append("devc ");
    r.append(VERSION);
    r.append("\n");
    r
}

/// What the command line asks for.
#[derive(PartialEq, Eq, Structural, Debug, Clone, Copy)]
pub enum Command {
    Help,
    Version,
    Init,
    Show,
    ComposeSnippet,
    JustSnippet,
}

pub open spec fn unknown_command_message(name: Seq<char>) -> Seq<char> {
    "unknown command `"@ + name + "`\n\n"@ + USAGE@
}

/// The command that `name` names, as the dispatcher reads it.
pub open spec fn command_spec(name: Seq<char>) -> Result<Command, Seq<char>> {
    if name == "help"@ || name == "--help"@ || name == "-h"@ {
        Ok(Command::Help)
    } else if name == "version"@ || name == "--version"@ || name == "-V"@ {
        Ok(Command::Version)
    } else if name == "init"@ {
        Ok(Command::Init)
    } else if name == "show"@ {
        Ok(Command::Show)
    } else if name == "compose-snippet"@ {
        Ok(Command::ComposeSnippet)
    } else if name == "just-snippet"@ {
        Ok(Command::JustSnippet)
    } else {
        Err(unknown_command_message(name))
    }
}

/// Reads a command name; an unknown one is an error that carries the help text.
pub fn command_of(name: &str) -> (r: Result<Command, String>)
    ensures
        command_spec(name@) == (match r {
            Ok(c) => Ok(c),
            Err(e) => Err(e@),
        }),
{
    if same_text(name, "help") || same_text(name, "--help") || same_text(name, "-h") {
        Ok(Command::Help)
    } else if same_text(name, "version") || same_text(name, "--version") || same_text(name, "-V") {
        Ok(Command::Version)
    } else if same_text(name, "init") {
        Ok(Command::Init)
    } else if same_text(name, "show") {
        Ok(Command::Show)
    } else if same_text(name, "compose-snippet") {
        Ok(Command::ComposeSnippet)
    } else if same_text(name, "just-snippet") {
        Ok(Command::JustSnippet)
    } else {
        let mut msg = String::new();
        msg.append("unknown command `");
        msg.append(name);
        msg.append("`\n\n");
        msg.append(USAGE);
        Err(msg)
    }
}

/// The parsed command line; `project_dir` is a path.
pub struct Cli {
    pub command: String,
    pub project_dir: String,
    pub container: String,
    pub workspace_name: Option<String>,
    pub service_name: String,
    pub image_repo: Option<String>,
}

/// A command line as text.
pub struct CliModel {
    pub command: Seq<char>,
    pub project_dir: Seq<char>,
    pub container: Seq<char>,
    pub workspace_name: Option<Seq<char>>,
    pub service_name: Seq<char>,
    pub image_repo: Option<Seq<char>>,
}

pub open spec fn opt_view(o: Option<String>) -> Option<Seq<char>> {
    match o {
        Some(s) => Some(s@),
        None => None,
    }
}

impl View for Cli {
    type V = CliModel;

    open spec fn view(&self) -> CliModel {
        CliModel {
            command: self.command@,
            project_dir: self.project_dir@,
            container: self.container@,
            workspace_name: opt_view(self.workspace_name),
            service_name: self.service_name@,
            image_repo: opt_view(self.image_repo),
        }
    }
}

/// The flags that take a value.
pub open spec fn is_value_flag(a: Seq<char>) -> bool {
    a == "--project-dir"@ || a == "--container"@ || a == "--workspace-name"@ || a
        == "--service-name"@ || a == "--image-repo"@
}

/// What setting `flag` to `value` does to the command line `c`.
pub open spec fn flag_update(c: CliModel, flag: Seq<char>, value: Seq<char>) -> Result<
    CliModel,
    Seq<char>,
> {
    if flag == "--project-dir"@ {
        Ok(CliModel { project_dir: value, ..c })
    } else if flag == "--container"@ {
        Ok(CliModel { container: value, ..c })
    } else if flag == "--workspace-name"@ {
        Ok(CliModel { workspace_name: Some(value), ..c })
    } else if flag == "--service-name"@ {
        Ok(CliModel { service_name: value, ..c })
    } else if flag == "--image-repo"@ {
        Ok(CliModel { image_repo: Some(value), ..c })
    } else {
        Err("unsupported flag `"@ + flag + "`"@)
    }
}

pub open spec fn unknown_argument_message(a: Seq<char>) -> Seq<char> {
    "unknown argument `"@ + a + "`\n\n"@ + USAGE@
}

/// The command line after the arguments `args` (`None` for one that is not
/// UTF-8), with the flag still waiting for its value, or the first error.
pub open spec fn scan_args(c: CliModel, args: Seq<Option<Seq<char>>>) -> Result<
    (CliModel, Option<Seq<char>>),
    Seq<char>,
>
    decreases args.len(),
{
    if args.len() == 0 {
        Ok((c, None))
    } else {
        match scan_args(c, args.drop_last()) {
            Err(e) => Err(e),
            Ok((cur, pending)) => match args.last() {
                None => Err("arguments must be valid UTF-8"@),
                Some(a) => match pending {
                    Some(f) => match flag_update(cur, f, a) {
                        Ok(n) => Ok((n, None)),
                        Err(e) => Err(e),
                    },
                    None => if is_value_flag(a) {
                        Ok((cur, Some(a)))
                    } else if a == "--help"@ || a == "-h"@ {
                        Ok((CliModel { command: "help"@, ..cur }, None))
                    } else if a == "--version"@ || a == "-V"@ {
                        Ok((CliModel { command: "version"@, ..cur }, None))
                    } else {
                        Err(unknown_argument_message(a))
                    },
                },
            },
        }
    }
}

/// The command line before any flag: the defaults.
pub open spec fn initial_cli(command: Seq<char>, dir: Seq<char>) -> CliModel {
    CliModel {
        command,
        project_dir: dir,
        container: "chae1"@,
        workspace_name: None,
        service_name: "agent"@,
        image_repo: None,
    }
}

/// What `Cli::parse` gives for the arguments (the program name first) and the
/// outcome of asking for the current directory.
pub open spec fn parse_spec(args: Seq<Option<Seq<char>>>, cwd: Result<Seq<char>, Seq<char>>) -> Result<
    CliModel,
    Seq<char>,
> {
    if args.len() < 2 {
        Err(USAGE@)
    } else {
        match args[1] {
            None => Err("command must be valid UTF-8"@),
            Some(command) => match cwd {
                Err(e) => Err(e),
                Ok(dir) => match scan_args(initial_cli(command, dir), args.skip(2)) {
                    Err(e) => Err(e),
                    Ok((c, pending)) => match pending {
                        Some(f) => Err("missing value for `"@ + f + "`"@),
                        None => Ok(c),
                    },
                },
            },
        }
    }
}

pub open spec fn result_view(r: Result<String, String>) -> Result<Seq<char>, Seq<char>> {
    match r {
        Ok(s) => Ok(s@),
        Err(e) => Err(e@),
    }
}

pub open spec fn args_view(args: Seq<Option<String>>) -> Seq<Option<Seq<char>>> {
    args.map_values(|a: Option<String>| opt_view(a))
}

impl Cli {
    /// Sets one of the flags that take a value.
    pub fn apply_flag(&mut self, flag: &str, value: &str) -> (r: Result<(), String>)
        ensures
            match r {
                Ok(()) => flag_update(old(self)@, flag@, value@) == Ok::<CliModel, Seq<char>>(
                    final(self)@,
                ),
                Err(e) => flag_update(old(self)@, flag@, value@) == Err::<CliModel, Seq<char>>(
                    e@,
                ) && final(self)@ == old(self)@,
            },
    {
        if same_text(flag, "--project-dir") {
            self.project_dir = value.to_owned();
        } else if same_text(flag, "--container") {
            self.container = value.to_owned();
        } else if same_text(flag, "--workspace-name") {
            self.workspace_name = Some(value.to_owned());
        } else if same_text(flag, "--service-name") {
            self.service_name = value.to_owned();
        } else if same_text(flag, "--image-repo") {
            self.image_repo = Some(value.to_owned());
        } else {
            let mut msg = String::new();
            msg.append("unsupported flag `");
            msg.append(flag);
            msg.append("`");
            return Err(msg);
        }
        Ok(())
    }

    /// Reads the command line. `args` holds the program name and then the
    /// arguments, `None` for one that is not valid UTF-8; `current_dir` is the
    /// outcome of asking for the working directory, the default project dir.
    pub fn parse(args: &Vec<Option<String>>, current_dir: Result<String, String>) -> (r: Result<
        Cli,
        String,
    >)
        ensures
            parse_spec(args_view(args@), result_view(current_dir)) == (match r {
                Ok(c) => Ok(c@),
                Err(e) => Err(e@),
            }),
    {
        let ghost av = args_view(args@);
        let ghost cwd = result_view(current_dir);
        if args.len() < 2 {
            return Err(usage());
        }
        assert(av[1] == opt_view(args@[1]));
        let command = match &args[1] {
            Some(c) => c.clone(),
            None => {
                return Err("command must be valid UTF-8".to_owned());
            },
        };
        let dir = match current_dir {
            Ok(d) => d,
            Err(e) => {
                return Err(e);
            },
        };
        let mut cli = Cli {
            command,
            project_dir: dir,
            container: "chae1".to_owned(),
            workspace_name: None,
            service_name: "agent".to_owned(),
            image_repo: None,
        };
        let ghost start = cli@;
        let ghost rest = av.skip(2);
        let mut pending: Option<String> = None;
        let mut i: usize = 2;
        assert(rest.take(0) =~= Seq::<Option<Seq<char>>>::empty());
        while i < args.len()
            invariant
                2 <= i <= args.len(),
                av == args_view(args@),
                rest == av.skip(2),
                av.len() >= 2,
                av[1] == Some(start.command),
                cwd == Ok::<Seq<char>, Seq<char>>(start.project_dir),
                cwd == result_view(current_dir),
                start == initial_cli(start.command, start.project_dir),
                scan_args(start, rest.take(i - 2)) == Ok::<
                    (CliModel, Option<Seq<char>>),
                    Seq<char>,
                >((cli@, opt_view(pending))),
            decreases args.len() - i,
        {
            assert(rest.take(i - 1).drop_last() =~= rest.take(i - 2));
            assert(rest.take(i - 1).last() == av[i as int]);
            assert(av[i as int] == opt_view(args@[i as int]));
            let arg = match &args[i] {
                Some(a) => a,
                None => {
                    proof {
                        lemma_scan_error(start, rest, i - 1);
                    }
                    return Err("arguments must be valid UTF-8".to_owned());
                },
            };
            match pending {
                Some(flag) => {
                    pending = None;
                    match cli.apply_flag(flag.as_str(), arg.as_str()) {
                        Ok(()) => {},
                        Err(e) => {
                            proof {
                                lemma_scan_error(start, rest, i - 1);
                            }
                            return Err(e);
                        },
                    }
                },
                None => {
                    let a = arg.as_str();
                    if same_text(a, "--project-dir") || same_text(a, "--container") || same_text(
                        a,
                        "--workspace-name",
                    ) || same_text(a, "--service-name") || same_text(a, "--image-repo") {
                        pending = Some(arg.clone());
                    } else if same_text(a, "--help") || same_text(a, "-h") {
                        cli.command = "help".to_owned();
                    } else if same_text(a, "--version") || same_text(a, "-V") {
                        cli.command = "version".to_owned();
                    } else {
                        let mut msg = String::new();
                        msg.append("unknown argument `");
                        msg.append(a);
                        msg.append("`\n\n");
                        msg.append(USAGE);
                        proof {
                            lemma_scan_error(start, rest, i - 1);
                        }
                        return Err(msg);
                    }
                },
            }
            i = i + 1;
        }
        assert(rest.take(i - 2) =~= rest);
        match pending {
            Some(flag) => {
                let mut msg = String::new();
                msg.append("missing value for `");
                msg.append(flag.as_str());
                msg.append("`");
                Err(msg)
            },
            None => Ok(cli),
        }
    }
}

/// Once the arguments up to `n` fail, all of them fail with that error.
proof fn lemma_scan_error(c: CliModel, args: Seq<Option<Seq<char>>>, n: int)
    requires
        0 <= n <= args.len(),
        scan_args(c, args.take(n)) is Err,
    ensures
        scan_args(c, args) == scan_args(c, args.take(n)),
    decreases args.len() - n,
{
    if n < args.len() {
        assert(args.take(n + 1).drop_last() =~= args.take(n));
        lemma_scan_error(c, args, n + 1);
    } else {
        assert(args.take(n) =~= args);
    }
}

} // verus!
