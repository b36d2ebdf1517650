use jt_budget::cli::{Cli, Command, InitArgs, RunArgs, SetupArgs};
use jt_budget::launch::{
    decide_default_launch, env_repo_path, needs_saved_default, plan_cli, resolve_launch_target,
    CliAction, DefaultLaunchAction, LaunchTarget, RepoSource,
};
use jt_budget::setup::github::{
    default_github_repo_name, github_remote_for_connection, github_repo_already_exists,
    github_repo_name_from_file_name, parse_github_repo_ref, retry_connect, GithubRepoRef,
    MAX_CONNECT_ATTEMPTS,
};
use jt_budget::setup::plan::{
    check_existing_origin, prepare_repository, PrepareStep, classify_setup_target, resolve_github_connect_repo,
    resolve_github_create_repo, resolve_remote, resolve_repo_path, resolve_setup_mode, PathProbe,
    RemoteChoice, RepoChoice, SetupMode, SetupTarget,
};

fn repo(owner: &str, name: &str) -> GithubRepoRef {
    GithubRepoRef { owner: owner.to_owned(), name: name.to_owned() }
}

#[test]
fn github_refs_reject_malformed_input() {
    assert_eq!(parse_github_repo_ref("   ", "me").unwrap_err(), "GitHub repository cannot be blank");
    assert_eq!(
        parse_github_repo_ref("https://gitlab.com/a/b", "me").unwrap_err(),
        "only github.com repositories are supported in the GitHub setup flow"
    );
    assert_eq!(
        parse_github_repo_ref("./budget", "me").unwrap_err(),
        "GitHub repository must be in `OWNER/NAME` form"
    );
    assert_eq!(
        parse_github_repo_ref("a/b/c", "me").unwrap_err(),
        "GitHub repository must be in `OWNER/NAME` form"
    );
    assert_eq!(
        parse_github_repo_ref("budget", " ").unwrap_err(),
        "GitHub repository owner cannot be blank"
    );
    assert_eq!(
        parse_github_repo_ref("me/ /", "x").unwrap_err(),
        "GitHub repository name cannot be blank"
    );
}

#[test]
fn github_refs_accept_other_supported_forms() {
    assert_eq!(parse_github_repo_ref("git@github.com:me/books.git", "x").unwrap(), repo("me", "books"));
    assert_eq!(parse_github_repo_ref("github.com/me/books/", "x").unwrap(), repo("me", "books"));
    assert_eq!(parse_github_repo_ref("  me//books  ", "x").unwrap(), repo("me", "books"));
    assert_eq!(
        parse_github_repo_ref("ssh://git@github.com/me/books.git.git", "x").unwrap(),
        repo("me", "books")
    );
}

#[test]
fn parse_reads_back_name_with_owner() {
    let r = repo("Some-One", "my.budget_2");
    assert_eq!(parse_github_repo_ref(&r.name_with_owner(), "x").unwrap(), r);
    assert!(r.matches_remote(&r.https_remote()));
    assert_eq!(r.https_remote(), "https://github.com/Some-One/my.budget_2.git");
}

#[test]
fn repo_names_fall_back_to_budget() {
    assert_eq!(default_github_repo_name("/"), "budget");
    assert_eq!(default_github_repo_name("/tmp/..."), "budget");
    assert_eq!(default_github_repo_name("/tmp/--Family  Money--/"), "family-money");
    assert_eq!(github_repo_name_from_file_name(None), "budget");
    assert_eq!(github_repo_name_from_file_name(Some(String::new())), "budget");
    assert_eq!(github_repo_name_from_file_name(Some("A_B.c".to_owned())), "a_b.c");
}

#[test]
fn failure_chains_are_recognised() {
    let exists = vec!["creating repo".to_owned(), "GraphQL: Name already exists on this account".to_owned()];
    assert!(github_repo_already_exists(&exists));
    assert!(!github_repo_already_exists(&vec!["permission denied".to_owned()]));
}

#[test]
fn connection_keeps_a_matching_origin() {
    let r = repo("me", "books");
    assert_eq!(
        github_remote_for_connection(Some("git@github.com:me/books.git".to_owned()), &r),
        "git@github.com:me/books.git"
    );
    assert_eq!(
        github_remote_for_connection(Some("git@github.com:me/other.git".to_owned()), &r),
        "https://github.com/me/books.git"
    );
    assert_eq!(github_remote_for_connection(None, &r), "https://github.com/me/books.git");
}

fn args() -> SetupArgs {
    SetupArgs::interactive_defaults()
}

#[test]
fn setup_modes_follow_the_flags() {
    let mut a = args();
    a.github_create = true;
    assert_eq!(resolve_setup_mode(&a, false).unwrap(), Some(SetupMode::GithubCreate));
    let mut b = args();
    b.local_only = true;
    assert_eq!(resolve_setup_mode(&b, false).unwrap(), Some(SetupMode::LocalOnly));
    assert_eq!(resolve_setup_mode(&args(), true).unwrap(), None);
    assert!(resolve_setup_mode(&args(), false).unwrap_err().starts_with("setup requires an explicit mode"));
}

#[test]
fn repository_paths_and_remotes() {
    assert_eq!(resolve_repo_path(Some("/tmp/b"), false).unwrap(), Some("/tmp/b".to_owned()));
    assert_eq!(resolve_repo_path(Some(""), true).unwrap_err(), "repository path cannot be empty");
    assert_eq!(resolve_repo_path(None, true).unwrap(), None);
    assert_eq!(
        resolve_repo_path(None, false).unwrap_err(),
        "setup requires `--repo` when not running interactively"
    );
    assert_eq!(
        resolve_remote(Some("  origin-url "), false, SetupTarget::CreateNew).unwrap(),
        RemoteChoice::Use(Some("origin-url".to_owned()))
    );
    assert_eq!(resolve_remote(Some("  "), true, SetupTarget::CreateNew).unwrap_err(), "remote cannot be empty");
    assert_eq!(resolve_remote(None, false, SetupTarget::AdoptExisting).unwrap(), RemoteChoice::Use(None));
    assert_eq!(
        resolve_remote(None, true, SetupTarget::AdoptExisting).unwrap(),
        RemoteChoice::PromptUnlessOrigin
    );
    assert_eq!(resolve_remote(None, true, SetupTarget::CreateNew).unwrap(), RemoteChoice::Prompt);
}

#[test]
fn github_repository_choices() {
    assert_eq!(
        resolve_github_create_repo(None, false, "me", "/home/me/Budget Book").unwrap(),
        RepoChoice::Chosen(repo("me", "budget-book"))
    );
    assert_eq!(
        resolve_github_create_repo(None, true, "me", "/home/me/x").unwrap(),
        RepoChoice::Ask(repo("me", "x"))
    );
    assert_eq!(
        resolve_github_create_repo(Some("you/y"), true, "me", "/x").unwrap(),
        RepoChoice::Chosen(repo("you", "y"))
    );
    assert_eq!(
        resolve_github_connect_repo(None, false, "me").unwrap_err(),
        "`--github-connect` requires `--github-repo OWNER/NAME`"
    );
    assert_eq!(resolve_github_connect_repo(None, true, "me").unwrap(), RepoChoice::Ask(repo("me", "budget")));
}

#[test]
fn setup_targets_are_classified() {
    let probe = |exists, is_dir, is_empty, is_budget_repo| PathProbe { exists, is_dir, is_empty, is_budget_repo };
    assert_eq!(classify_setup_target("/x", probe(false, false, false, false)).unwrap(), SetupTarget::CreateNew);
    assert_eq!(classify_setup_target("/x", probe(true, true, true, false)).unwrap(), SetupTarget::CreateNew);
    assert_eq!(classify_setup_target("/x", probe(true, true, false, true)).unwrap(), SetupTarget::AdoptExisting);
    assert_eq!(
        classify_setup_target("/x", probe(true, false, false, false)).unwrap_err(),
        "repository path `/x` must be a directory"
    );
    assert!(classify_setup_target("/x", probe(true, true, false, false))
        .unwrap_err()
        .contains("must be missing, empty, or an existing jt-budget repository"));
}

#[test]
fn adoption_repairs_or_keeps_origin() {
    assert_eq!(prepare_repository(SetupTarget::AdoptExisting, Some("r")), PrepareStep::Connect("r".to_owned()));
    assert_eq!(prepare_repository(SetupTarget::AdoptExisting, None), PrepareStep::RepairOrigin);
    assert_eq!(prepare_repository(SetupTarget::CreateNew, Some("r")), PrepareStep::Init(Some("r".to_owned())));
    assert_eq!(prepare_repository(SetupTarget::CreateNew, None), PrepareStep::Init(None));
    let r = repo("me", "books");
    assert!(check_existing_origin("/b", None, &r).is_ok());
    assert!(check_existing_origin("/b", Some("https://github.com/me/books.git"), &r).is_ok());
    assert_eq!(
        check_existing_origin("/b", Some("https://github.com/me/x.git"), &r).unwrap_err(),
        "existing budget repo `/b` already has origin remote `https://github.com/me/x.git`"
    );
}

#[test]
fn command_lines_are_planned() {
    let conflict = Cli { repo: Some("/r".to_owned()), command: Some(Command::Run(RunArgs { repo: "/x".to_owned() })) };
    assert_eq!(plan_cli(conflict).unwrap_err(), "`--repo` can only be used with the default launch command");
    let init = Cli { repo: None, command: Some(Command::Init(InitArgs { repo: "/x".to_owned(), remote: None })) };
    assert_eq!(plan_cli(init).unwrap(), CliAction::Init(InitArgs { repo: "/x".to_owned(), remote: None }));
    let default = Cli { repo: Some("/r".to_owned()), command: None };
    assert_eq!(plan_cli(default).unwrap(), CliAction::DefaultLaunch(Some("/r".to_owned())));
    let setup = Cli { repo: None, command: Some(Command::Setup(args())) };
    assert_eq!(plan_cli(setup).unwrap(), CliAction::Setup(args()));
}

#[test]
fn launches_prefer_cli_then_environment_then_saved() {
    let t = resolve_launch_target(Some("cli".to_owned()), Some("env".to_owned()), Some("saved".to_owned()));
    assert_eq!(t, Some(LaunchTarget { path: "cli".to_owned(), source: RepoSource::Cli }));
    let t = resolve_launch_target(None, Some("env".to_owned()), Some("saved".to_owned()));
    assert_eq!(t, Some(LaunchTarget { path: "env".to_owned(), source: RepoSource::Environment }));
    let t = resolve_launch_target(None, None, Some("saved".to_owned()));
    assert_eq!(t.clone().unwrap().source, RepoSource::SavedDefault);
    assert_eq!(decide_default_launch(t, false).unwrap(), DefaultLaunchAction::Open("saved".to_owned()));
    assert_eq!(decide_default_launch(None, true).unwrap(), DefaultLaunchAction::RunSetup);
    assert!(decide_default_launch(None, false).unwrap_err().contains("no budget repository configured"));
    assert!(needs_saved_default(&None, &None));
    assert!(!needs_saved_default(&None, &Some("e".to_owned())));
    assert_eq!(env_repo_path(Some(String::new())).unwrap_err(), "`JT_BUDGET_REPO` cannot be empty");
    assert_eq!(env_repo_path(Some("/e".to_owned())).unwrap(), Some("/e".to_owned()));
    assert_eq!(env_repo_path(None).unwrap(), None);
}

#[test]
fn decide_default_launch_requires_repo_when_non_interactive() {
    let target = resolve_launch_target(None, None, None);
    let error = decide_default_launch(target, false).unwrap_err();
    assert!(error.contains("no budget repository configured"));
}

#[test]
fn decide_default_launch_runs_setup_when_interactive_and_unconfigured() {
    let target = resolve_launch_target(None, None, None);
    let action = decide_default_launch(target, true).unwrap();
    assert_eq!(action, DefaultLaunchAction::RunSetup);
}

#[test]
fn run_cli_rejects_top_level_repo_with_subcommand() {
    let error = plan_cli(Cli {
        repo: Some("/tmp/budget".to_owned()),
        command: Some(Command::Run(RunArgs { repo: "/tmp/other".to_owned() })),
    })
    .unwrap_err();
    assert!(error.contains("`--repo` can only be used with the default launch command"));
}

#[test]
fn connecting_retries_only_while_github_catches_up() {
    let not_found = vec!["connecting".to_owned(), "remote: Repository not found.".to_owned()];
    let denied = vec!["Permission denied".to_owned()];
    assert_eq!(MAX_CONNECT_ATTEMPTS, 5);
    assert!(retry_connect(1, &not_found));
    assert!(retry_connect(4, &not_found));
    assert!(!retry_connect(5, &not_found));
    assert!(!retry_connect(1, &denied));
}

#[test]
fn resolve_launch_target_prefers_cli_repo() {
    let target = resolve_launch_target(
        Some("/tmp/x/cli".to_owned()),
        Some("/tmp/x/env".to_owned()),
        Some("/tmp/x/saved".to_owned()),
    )
    .unwrap();
    assert_eq!(target.source, RepoSource::Cli);
    assert_eq!(target.path, "/tmp/x/cli");
}

#[test]
fn resolve_launch_target_prefers_env_over_saved_default() {
    let target =
        resolve_launch_target(None, Some("/tmp/x/env".to_owned()), Some("/tmp/x/saved".to_owned())).unwrap();
    assert_eq!(target.source, RepoSource::Environment);
    assert_eq!(target.path, "/tmp/x/env");
}

#[test]
fn decide_default_launch_uses_saved_default_path() {
    let target = resolve_launch_target(None, None, Some("/tmp/x/saved".to_owned()));
    let action = decide_default_launch(target, false).unwrap();
    assert_eq!(action, DefaultLaunchAction::Open("/tmp/x/saved".to_owned()));
}

#[test]
fn decide_default_launch_keeps_broken_saved_path_instead_of_falling_back_to_setup() {
    // The saved path is opened as it is, even where it no longer exists.
    let target = resolve_launch_target(None, None, Some("/tmp/x/removed".to_owned()));
    let action = decide_default_launch(target, true).unwrap();
    assert_eq!(action, DefaultLaunchAction::Open("/tmp/x/removed".to_owned()));
}
