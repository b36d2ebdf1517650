//! The command line as plain values: what each subcommand carries.
use vstd::prelude::*;

verus! {

/// Command-line interface for the budgeting app.
#[derive(Clone, Debug, PartialEq, Eq)]
pub struct Cli {
    /// Run the app against this budget repository.
    pub repo: Option<String>,
    pub command: Option<Command>,
}

/// The subcommands.
#[derive(Clone, Debug, PartialEq, Eq)]
pub enum Command {
    /// Initialise a budget data repository.
    Init(InitArgs),
    /// Run the TUI against an existing budget repository.
    Run(RunArgs),
    /// Set up a default budget repository for normal launches.
    Setup(SetupArgs),
}

/// Arguments for initialising a budget data repository.
#[derive(Clone, Debug, PartialEq, Eq)]
pub struct InitArgs {
    /// Path to the budget repository to create.
    pub repo: String,
    /// Remote URL or bare-repo path to publish as `origin`.
    pub remote: Option<String>,
}

/// Arguments for running the TUI against an explicit repository path.
#[derive(Clone, Debug, PartialEq, Eq)]
pub struct RunArgs {
    /// Path to the budget repository to open.
    pub repo: String,
}

/// Arguments for first-run repository setup.
#[derive(Clone, Debug, PartialEq, Eq)]
pub struct SetupArgs {
    /// Path to create or adopt as the default budget repository.
    pub repo: Option<String>,
    /// Remote URL or bare-repo path to configure as `origin` in advanced mode.
    pub remote: Option<String>,
    /// Create a new synced budget on GitHub.
    pub github_create: bool,
    /// Connect this machine to an existing GitHub-backed budget.
    pub github_connect: bool,
    /// Create a local-only budget without configuring a remote.
    pub local_only: bool,
    /// Use an existing local budget folder or the legacy local setup flow.
    pub adopt_local: bool,
    /// GitHub repository in `OWNER/NAME` form.
    pub github_repo: Option<String>,
    /// Finish setup without opening the TUI afterwards.
    pub no_open: bool,
}

impl SetupArgs {
    /// Setup arguments that choose nothing: the interactive flow decides.
    pub fn interactive_defaults() -> (r: Self)
        ensures
            r.repo is None,
            r.remote is None,
            !r.github_create,
            !r.github_connect,
            !r.local_only,
            !r.adopt_local,
            r.github_repo is None,
            !r.no_open,
    {
        SetupArgs {
            repo: None,
            remote: None,
            github_create: false,
            github_connect: false,
            local_only: false,
            adopt_local: false,
            github_repo: None,
            no_open: false,
        }
    }
}

} // verus!
