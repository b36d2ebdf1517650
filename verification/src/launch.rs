//! Which repository a launch opens, and what each command line asks for.
use vstd::prelude::*;

use crate::cli::{Cli, Command, InitArgs, RunArgs, SetupArgs};
use crate::text::owned;

verus! {

/// Where the repository of a launch was named.
#[derive(Clone, Copy, Debug, PartialEq, Eq, Structural)]
pub enum RepoSource {
    Cli,
    Environment,
    SavedDefault,
}

/// The repository a launch opens and where it was named.
#[derive(Clone, Debug, PartialEq, Eq)]
pub struct LaunchTarget {
    pub path: String,
    pub source: RepoSource,
}

/// What a launch without a subcommand does.
#[derive(Clone, Debug, PartialEq, Eq)]
pub enum DefaultLaunchAction {
    Open(String),
    RunSetup,
}

/// The work a command line asks for.
#[derive(Clone, Debug, PartialEq, Eq)]
pub enum CliAction {
    Init(InitArgs),
    Run(RunArgs),
    Setup(SetupArgs),
    DefaultLaunch(Option<String>),
}

/// Decides what a parsed command line asks for.
///
/// `--repo` only goes with the default launch; beside a subcommand it is
/// refused.
pub fn plan_cli(cli: Cli) -> (r: Result<CliAction, String>)
    ensures
        (cli.repo is Some && cli.command is Some) <==> r is Err,
        r matches Err(m) ==> m@ == "`--repo` can only be used with the default launch command"@,
        r matches Ok(a) ==> a == (match cli.command {
            Some(Command::Init(args)) => CliAction::Init(args),
            Some(Command::Run(args)) => CliAction::Run(args),
            Some(Command::Setup(args)) => CliAction::Setup(args),
            None => CliAction::DefaultLaunch(cli.repo),
        }),
{
    if cli.repo.is_some() && cli.command.is_some() {
        return Err(owned("`--repo` can only be used with the default launch command"));
    }
    match cli.command {
        Some(Command::Init(args)) => Ok(CliAction::Init(args)),
        Some(Command::Run(args)) => Ok(CliAction::Run(args)),
        Some(Command::Setup(args)) => Ok(CliAction::Setup(args)),
        None => Ok(CliAction::DefaultLaunch(cli.repo)),
    }
}

/// Checks the value of `JT_BUDGET_REPO`, when it is set: an empty value is
/// refused.
pub fn env_repo_path(value: Option<String>) -> (r: Result<Option<String>, String>)
    ensures
        match value {
            Some(v) => if v@.len() == 0 {
                r matches Err(m) && m@ == "`JT_BUDGET_REPO` cannot be empty"@
            } else {
                r == Ok::<Option<String>, String>(Some(v))
            },
            None => r == Ok::<Option<String>, String>(None),
        },
{
    match value {
        Some(v) => {
            if v.as_str().unicode_len() == 0 {
                Err(owned("`JT_BUDGET_REPO` cannot be empty"))
            } else {
                Ok(Some(v))
            }
        },
        None => Ok(None),
    }
}

/// Whether the saved default repository has to be read: only when neither
/// the command line nor the environment names one.
pub fn needs_saved_default(cli_repo: &Option<String>, env_repo: &Option<String>) -> (r: bool)
    ensures
        r == (cli_repo is None && env_repo is None),
{
    cli_repo.is_none() && env_repo.is_none()
}

/// The repository a default launch opens: the command line's, else the
/// environment's, else the saved default.
pub fn resolve_launch_target(
    cli_repo: Option<String>,
    env_repo: Option<String>,
    saved: Option<String>,
) -> (r: Option<LaunchTarget>)
    ensures
        r == (match (cli_repo, env_repo, saved) {
            (Some(p), _, _) => Some(LaunchTarget { path: p, source: RepoSource::Cli }),
            (None, Some(p), _) => Some(LaunchTarget { path: p, source: RepoSource::Environment }),
            (None, None, Some(p)) => Some(LaunchTarget { path: p, source: RepoSource::SavedDefault }),
            (None, None, None) => None,
        }),
{
    if let Some(repo) = cli_repo {
        return Some(LaunchTarget { path: repo, source: RepoSource::Cli });
    }
    if let Some(repo) = env_repo {
        return Some(LaunchTarget { path: repo, source: RepoSource::Environment });
    }
    match saved {
        Some(repo) => Some(LaunchTarget { path: repo, source: RepoSource::SavedDefault }),
        None => None,
    }
}

/// What a default launch does: open the resolved repository, run setup in a
/// terminal, or fail without one.
pub fn decide_default_launch(target: Option<LaunchTarget>, interactive: bool) -> (r: Result<
    DefaultLaunchAction,
    String,
>)
    ensures
        match target {
            Some(t) => r == Ok::<DefaultLaunchAction, String>(DefaultLaunchAction::Open(t.path)),
            None => if interactive {
                r == Ok::<DefaultLaunchAction, String>(DefaultLaunchAction::RunSetup)
            } else {
                r matches Err(m) && m@
                    == "no budget repository configured; run `jt-budget setup` or pass `--repo /path/to/repo`"@
            },
        },
{
    if let Some(t) = target {
        return Ok(DefaultLaunchAction::Open(t.path));
    }
    if interactive {
        return Ok(DefaultLaunchAction::RunSetup);
    }
    Err(
        owned(
            "no budget repository configured; run `jt-budget setup` or pass `--repo /path/to/repo`",
        ),
    )
}

} // verus!
