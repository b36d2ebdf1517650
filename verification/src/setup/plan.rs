//! The decisions of the setup flow: which mode runs, which path and
//! repository it uses, and what to do with a folder that already exists.
use vstd::prelude::*;

use crate::cli::SetupArgs;
use crate::setup::github::{
    default_github_repo_name, parse_github_repo_ref, parsed_repo_ref, path_file_name,
    remote_owner_name, repo_name_for, GithubRepoRef,
};
use crate::text::{owned, push_str, trim, trim_str};

verus! {

/// What a setup path holds before setup runs.
#[derive(Clone, Copy, Debug, PartialEq, Eq, Structural)]
pub enum SetupTarget {
    CreateNew,
    AdoptExisting,
}

/// The setup flows.
#[derive(Clone, Copy, Debug, PartialEq, Eq, Structural)]
pub enum SetupMode {
    GithubCreate,
    GithubConnect,
    LocalOnly,
    AdoptLocal,
}

/// A choice setup makes itself, or leaves to a prompt with a default.
#[derive(Clone, Debug, PartialEq, Eq)]
pub enum RepoChoice {
    Chosen(GithubRepoRef),
    Ask(GithubRepoRef),
}

/// The remote setup configures for a local folder.
#[derive(Clone, Debug, PartialEq, Eq)]
pub enum RemoteChoice {
    /// Use this remote, or none.
    Use(Option<String>),
    /// Ask for one.
    Prompt,
    /// Keep the folder's own `origin` if it has one, otherwise ask.
    PromptUnlessOrigin,
}

/// The mode the arguments select; `None` leaves the choice to a prompt.
pub open spec fn mode_for(args: SetupArgs, interactive: bool) -> Result<Option<SetupMode>, Seq<char>> {
    if args.github_repo is Some && !args.github_create && !args.github_connect {
        Err("`--github-repo` requires `--github-create` or `--github-connect`"@)
    } else if args.github_create {
        Ok(Some(SetupMode::GithubCreate))
    } else if args.github_connect {
        Ok(Some(SetupMode::GithubConnect))
    } else if args.local_only {
        Ok(Some(SetupMode::LocalOnly))
    } else if args.adopt_local {
        Ok(Some(SetupMode::AdoptLocal))
    } else if args.repo is Some || args.remote is Some {
        Ok(Some(SetupMode::AdoptLocal))
    } else if !interactive {
        Err(
            "setup requires an explicit mode when not running interactively; try `--github-create`, `--github-connect`, `--local-only`, or `--adopt-local`"@,
        )
    } else {
        Ok(None)
    }
}

/// Decides the setup mode; `Ok(None)` means the user is asked.
pub fn resolve_setup_mode(args: &SetupArgs, interactive: bool) -> (r: Result<Option<SetupMode>, String>)
    ensures
        match r {
            Ok(m) => mode_for(*args, interactive) == Ok::<Option<SetupMode>, Seq<char>>(m),
            Err(e) => mode_for(*args, interactive) == Err::<Option<SetupMode>, Seq<char>>(e@),
        },
{
    if args.github_repo.is_some() && !args.github_create && !args.github_connect {
        return Err(owned("`--github-repo` requires `--github-create` or `--github-connect`"));
    }
    if args.github_create {
        return Ok(Some(SetupMode::GithubCreate));
    }
    if args.github_connect {
        return Ok(Some(SetupMode::GithubConnect));
    }
    if args.local_only {
        return Ok(Some(SetupMode::LocalOnly));
    }
    if args.adopt_local {
        return Ok(Some(SetupMode::AdoptLocal));
    }
    if args.repo.is_some() || args.remote.is_some() {
        return Ok(Some(SetupMode::AdoptLocal));
    }
    if !interactive {
        return Err(
            owned(
                "setup requires an explicit mode when not running interactively; try `--github-create`, `--github-connect`, `--local-only`, or `--adopt-local`",
            ),
        );
    }
    Ok(None)
}

/// Each explicit mode flag selects its own mode whether or not setup runs in
/// a terminal, `--github-create` first, then `--github-connect`,
/// `--local-only` and `--adopt-local`; a repository name is refused without
/// a GitHub flag; and with no flag, path or remote, setup asks in a terminal
/// and fails elsewhere.
pub proof fn lemma_mode_flags_select_their_mode(args: SetupArgs, interactive: bool)
    ensures
        args.github_create ==> mode_for(args, interactive) == Ok::<Option<SetupMode>, Seq<char>>(
            Some(SetupMode::GithubCreate),
        ),
        !args.github_create && args.github_connect ==> mode_for(args, interactive) == Ok::<
            Option<SetupMode>,
            Seq<char>,
        >(Some(SetupMode::GithubConnect)),
        !args.github_create && !args.github_connect && args.github_repo is None && args.local_only
            ==> mode_for(args, interactive) == Ok::<Option<SetupMode>, Seq<char>>(
            Some(SetupMode::LocalOnly),
        ),
        !args.github_create && !args.github_connect && args.github_repo is None && !args.local_only
            && args.adopt_local ==> mode_for(args, interactive) == Ok::<Option<SetupMode>, Seq<char>>(
            Some(SetupMode::AdoptLocal),
        ),
        !args.github_create && !args.github_connect && args.github_repo is Some ==> mode_for(
            args,
            interactive,
        ) is Err,
        mode_for(args, true) matches Ok(Some(md)) ==> mode_for(args, false) == Ok::<
            Option<SetupMode>,
            Seq<char>,
        >(Some(md)),
        mode_for(args, interactive) == Ok::<Option<SetupMode>, Seq<char>>(None) <==> (interactive
            && !args.github_create && !args.github_connect && !args.local_only && !args.adopt_local
            && args.repo is None && args.remote is None && args.github_repo is None),
{
}

/// The repository path setup uses: the one given, which must not be empty;
/// without one, a prompt in a terminal and a failure otherwise.
pub fn resolve_repo_path(explicit_repo: Option<&str>, interactive: bool) -> (r: Result<
    Option<String>,
    String,
>)
    ensures
        match explicit_repo {
            Some(p) => if p@.len() == 0 {
                r matches Err(m) && m@ == "repository path cannot be empty"@
            } else {
                r matches Ok(Some(q)) && q@ == p@
            },
            None => if interactive {
                r matches Ok(None)
            } else {
                r matches Err(m) && m@ == "setup requires `--repo` when not running interactively"@
            },
        },
{
    if let Some(repo) = explicit_repo {
        if repo.unicode_len() == 0 {
            return Err(owned("repository path cannot be empty"));
        }
        return Ok(Some(owned(repo)));
    }
    if !interactive {
        return Err(owned("setup requires `--repo` when not running interactively"));
    }
    Ok(None)
}

/// The GitHub repository to create: the one given, else one named after the
/// local folder and owned by `default_owner`, offered at a prompt when there
/// is a terminal.
pub fn resolve_github_create_repo(
    explicit_repo: Option<&str>,
    interactive: bool,
    default_owner: &str,
    local_repo: &str,
) -> (r: Result<RepoChoice, String>)
    ensures
        match explicit_repo {
            Some(given) => match r {
                Ok(RepoChoice::Chosen(repo)) => parsed_repo_ref(given@, default_owner@) == Ok::<
                    (Seq<char>, Seq<char>),
                    Seq<char>,
                >((repo.owner@, repo.name@)),
                Ok(RepoChoice::Ask(_)) => false,
                Err(m) => parsed_repo_ref(given@, default_owner@) == Err::<
                    (Seq<char>, Seq<char>),
                    Seq<char>,
                >(m@),
            },
            None => match r {
                Ok(RepoChoice::Chosen(repo)) => !interactive && repo.owner@ == default_owner@
                    && repo.name@ == repo_name_for(path_file_name(local_repo@)),
                Ok(RepoChoice::Ask(repo)) => interactive && repo.owner@ == default_owner@
                    && repo.name@ == repo_name_for(path_file_name(local_repo@)),
                Err(_) => false,
            },
        },
{
    if let Some(repo) = explicit_repo {
        return match parse_github_repo_ref(repo, default_owner) {
            Ok(parsed) => Ok(RepoChoice::Chosen(parsed)),
            Err(m) => Err(m),
        };
    }
    let default = GithubRepoRef {
        owner: owned(default_owner),
        name: default_github_repo_name(local_repo),
    };
    if !interactive {
        return Ok(RepoChoice::Chosen(default));
    }
    Ok(RepoChoice::Ask(default))
}

/// The GitHub repository to connect: the one given; without one, a prompt
/// defaulting to `budget` under `default_owner` in a terminal, a failure
/// otherwise.
pub fn resolve_github_connect_repo(
    explicit_repo: Option<&str>,
    interactive: bool,
    default_owner: &str,
) -> (r: Result<RepoChoice, String>)
    ensures
        match explicit_repo {
            Some(given) => match r {
                Ok(RepoChoice::Chosen(repo)) => parsed_repo_ref(given@, default_owner@) == Ok::<
                    (Seq<char>, Seq<char>),
                    Seq<char>,
                >((repo.owner@, repo.name@)),
                Ok(RepoChoice::Ask(_)) => false,
                Err(m) => parsed_repo_ref(given@, default_owner@) == Err::<
                    (Seq<char>, Seq<char>),
                    Seq<char>,
                >(m@),
            },
            None => match r {
                Ok(RepoChoice::Ask(repo)) => interactive && repo.owner@ == default_owner@
                    && repo.name@ == "budget"@,
                Ok(RepoChoice::Chosen(_)) => false,
                Err(m) => !interactive && m@ == "`--github-connect` requires `--github-repo OWNER/NAME`"@,
            },
        },
{
    if let Some(repo) = explicit_repo {
        return match parse_github_repo_ref(repo, default_owner) {
            Ok(parsed) => Ok(RepoChoice::Chosen(parsed)),
            Err(m) => Err(m),
        };
    }
    if !interactive {
        return Err(owned("`--github-connect` requires `--github-repo OWNER/NAME`"));
    }
    Ok(RepoChoice::Ask(GithubRepoRef { owner: owned(default_owner), name: owned("budget") }))
}

/// The remote for a local folder: the one given, trimmed and not empty;
/// none without a terminal; otherwise a prompt, skipped for an existing
/// repository that already has an `origin`.
pub fn resolve_remote(explicit_remote: Option<&str>, interactive: bool, target: SetupTarget) -> (r:
    Result<RemoteChoice, String>)
    ensures
        match explicit_remote {
            Some(given) => if trim(given@).len() == 0 {
                r matches Err(m) && m@ == "remote cannot be empty"@
            } else {
                r matches Ok(RemoteChoice::Use(Some(s))) && s@ == trim(given@)
            },
            None => r == Ok::<RemoteChoice, String>(
                if !interactive {
                    RemoteChoice::Use(None)
                } else if target == SetupTarget::AdoptExisting {
                    RemoteChoice::PromptUnlessOrigin
                } else {
                    RemoteChoice::Prompt
                },
            ),
        },
{
    if let Some(remote) = explicit_remote {
        let trimmed = trim_str(remote);
        if trimmed.as_str().unicode_len() == 0 {
            return Err(owned("remote cannot be empty"));
        }
        return Ok(RemoteChoice::Use(Some(trimmed)));
    }
    if !interactive {
        return Ok(RemoteChoice::Use(None));
    }
    match target {
        SetupTarget::AdoptExisting => Ok(RemoteChoice::PromptUnlessOrigin),
        SetupTarget::CreateNew => Ok(RemoteChoice::Prompt),
    }
}

/// What an existing path holds, as far as setup needs to know.
#[derive(Clone, Copy, Debug, PartialEq, Eq)]
pub struct PathProbe {
    pub exists: bool,
    pub is_dir: bool,
    pub is_empty: bool,
    pub is_budget_repo: bool,
}

/// Classifies a setup path: missing or empty folders get a new repository,
/// budget repositories are adopted, anything else is refused.
pub fn classify_setup_target(display: &str, probe: PathProbe) -> (r: Result<SetupTarget, String>)
    ensures
        match r {
            Ok(SetupTarget::CreateNew) => !probe.exists || (probe.is_dir && probe.is_empty),
            Ok(SetupTarget::AdoptExisting) => probe.exists && probe.is_dir && !probe.is_empty
                && probe.is_budget_repo,
            Err(m) => probe.exists && (if !probe.is_dir {
                m@ == "repository path `"@ + display@ + "` must be a directory"@
            } else {
                !probe.is_empty && !probe.is_budget_repo && m@ == "repository path `"@ + display@
                    + "` must be missing, empty, or an existing jt-budget repository"@
            }),
        },
{
    if !probe.exists {
        return Ok(SetupTarget::CreateNew);
    }
    if !probe.is_dir {
        let mut m = owned("repository path `");
        push_str(&mut m, display);
        push_str(&mut m, "` must be a directory");
        return Err(m);
    }
    if probe.is_empty {
        return Ok(SetupTarget::CreateNew);
    }
    if probe.is_budget_repo {
        return Ok(SetupTarget::AdoptExisting);
    }
    let mut m = owned("repository path `");
    push_str(&mut m, display);
    push_str(&mut m, "` must be missing, empty, or an existing jt-budget repository");
    Err(m)
}

/// The repository work before a prepared repository is validated and
/// remembered.
#[derive(Clone, Debug, PartialEq, Eq)]
pub enum PrepareStep {
    /// Create a new repository, publishing it to this remote if any.
    Init(Option<String>),
    /// Point the existing repository's `origin` at this remote.
    Connect(String),
    /// Re-connect the existing repository to its own `origin`, if it has one,
    /// so that branch tracking is repaired.
    RepairOrigin,
}

/// What preparing a repository at a classified path does: a missing or
/// empty path gets a new repository; an existing one is connected to the
/// remote given, or has its own `origin` repaired.
pub fn prepare_repository(target: SetupTarget, remote: Option<&str>) -> (r: PrepareStep)
    ensures
        match target {
            SetupTarget::CreateNew => r matches PrepareStep::Init(x) && match (x, remote) {
                (Some(a), Some(b)) => a@ == b@,
                (None, None) => true,
                _ => false,
            },
            SetupTarget::AdoptExisting => match remote {
                Some(b) => r matches PrepareStep::Connect(a) && a@ == b@,
                None => r == PrepareStep::RepairOrigin,
            },
        },
{
    match target {
        SetupTarget::CreateNew => PrepareStep::Init(
            match remote {
                Some(given) => Some(owned(given)),
                None => None,
            },
        ),
        SetupTarget::AdoptExisting => match remote {
            Some(given) => PrepareStep::Connect(owned(given)),
            None => PrepareStep::RepairOrigin,
        },
    }
}

/// An existing repository may only be connected to the GitHub repository
/// being created when it has no `origin` or its `origin` already points there.
pub fn check_existing_origin(display: &str, existing_origin: Option<&str>, github_repo: &GithubRepoRef) -> (r:
    Result<(), String>)
    ensures
        match existing_origin {
            Some(e) => if remote_owner_name(e@) == Some(github_repo.owner@ + "/"@ + github_repo.name@) {
                r is Ok
            } else {
                r matches Err(m) && m@ == "existing budget repo `"@ + display@
                    + "` already has origin remote `"@ + e@ + "`"@
            },
            None => r is Ok,
        },
{
    if let Some(existing) = existing_origin {
        if !github_repo.matches_remote(existing) {
            let mut m = owned("existing budget repo `");
            push_str(&mut m, display);
            push_str(&mut m, "` already has origin remote `");
            push_str(&mut m, existing);
            push_str(&mut m, "`");
            return Err(m);
        }
    }
    Ok(())
}

} // verus!
