
use jt_budget::cli::SetupArgs;
use jt_budget::setup::github::{
    default_github_repo_name, github_remote_name_with_owner, github_repo_not_ready,
    parse_github_repo_ref, GithubRepoRef,
};
use jt_budget::setup::plan::{resolve_setup_mode, SetupMode};

#[test]
fn setup_parse_github_repo_ref_accepts_owner_name() {
    let repo = parse_github_repo_ref("openai/budget", "fallback").unwrap();
    assert_eq!(
        repo,
        GithubRepoRef {
            owner: "openai".to_owned(),
            name: "budget".to_owned(),
        }
    );
}

#[test]
fn setup_parse_github_repo_ref_accepts_url_and_git_suffix() {
    let repo = parse_github_repo_ref("https://github.com/openai/budget.git", "fallback").unwrap();
    assert_eq!(repo.owner, "openai");
    assert_eq!(repo.name, "budget");
}

#[test]
fn setup_parse_github_repo_ref_uses_default_owner_for_name_only() {
    let repo = parse_github_repo_ref("budget", "fallback").unwrap();
    assert_eq!(repo.owner, "fallback");
    assert_eq!(repo.name, "budget");
}

#[test]
fn setup_default_github_repo_name_sanitises_local_path_name() {
    let repo = "/tmp/My Budget!!!";
    assert_eq!(default_github_repo_name(repo), "my-budget");
}

#[test]
fn setup_github_repo_matches_https_and_ssh_remotes() {
    let repo = GithubRepoRef {
        owner: "JoelTodd".to_owned(),
        name: "budget".to_owned(),
    };

    assert!(repo.matches_remote("https://github.com/JoelTodd/budget.git"));
    assert!(repo.matches_remote("git@github.com:JoelTodd/budget.git"));
    assert!(!repo.matches_remote("https://github.com/JoelTodd/other.git"));
}

#[test]
fn setup_github_remote_name_with_owner_rejects_non_github_paths() {
    assert_eq!(
        github_remote_name_with_owner("https://github.com/JoelTodd/budget.git"),
        Some("JoelTodd/budget".to_owned())
    );
    assert_eq!(github_remote_name_with_owner("/tmp/budget.git"), None);
}

#[test]
fn setup_resolve_setup_mode_defaults_to_legacy_local_flow_when_repo_is_explicit() {
    let mode = resolve_setup_mode(
        &SetupArgs {
            repo: Some("/tmp/budget".into()),
            remote: None,
            github_create: false,
            github_connect: false,
            local_only: false,
            adopt_local: false,
            github_repo: None,
            no_open: false,
        },
        false,
    )
    .unwrap();
    assert_eq!(mode, Some(SetupMode::AdoptLocal));
}

#[test]
fn setup_resolve_setup_mode_rejects_github_repo_without_mode() {
    let error = resolve_setup_mode(
        &SetupArgs {
            repo: None,
            remote: None,
            github_create: false,
            github_connect: false,
            local_only: false,
            adopt_local: false,
            github_repo: Some("owner/name".to_owned()),
            no_open: false,
        },
        false,
    )
    .unwrap_err();
    assert!(error
        .to_string()
        .contains("`--github-repo` requires `--github-create` or `--github-connect`"));
}

#[test]
fn setup_github_repo_not_ready_checks_wrapped_error_chain() {
    let error = anyhow::Error::msg("git push -u origin main failed: remote: Repository not found.")
        .context("publishing repository state");
    let causes: Vec<String> = error.chain().map(|cause| cause.to_string()).collect();

    assert!(github_repo_not_ready(&causes));
}

#[test]
fn mod_parse_github_repo_ref_accepts_owner_name() {
    let repo = parse_github_repo_ref("openai/budget", "fallback").unwrap();
    assert_eq!(
        repo,
        GithubRepoRef {
            owner: "openai".to_owned(),
            name: "budget".to_owned(),
        }
    );
}

#[test]
fn mod_parse_github_repo_ref_accepts_url_and_git_suffix() {
    let repo = parse_github_repo_ref("https://github.com/openai/budget.git", "fallback").unwrap();
    assert_eq!(repo.owner, "openai");
    assert_eq!(repo.name, "budget");
}

#[test]
fn mod_parse_github_repo_ref_uses_default_owner_for_name_only() {
    let repo = parse_github_repo_ref("budget", "fallback").unwrap();
    assert_eq!(repo.owner, "fallback");
    assert_eq!(repo.name, "budget");
}

#[test]
fn mod_default_github_repo_name_sanitises_local_path_name() {
    let repo = "/tmp/My Budget!!!";
    assert_eq!(default_github_repo_name(repo), "my-budget");
}

#[test]
fn mod_github_repo_matches_https_and_ssh_remotes() {
    let repo = GithubRepoRef {
        owner: "JoelTodd".to_owned(),
        name: "budget".to_owned(),
    };

    assert!(repo.matches_remote("https://github.com/JoelTodd/budget.git"));
    assert!(repo.matches_remote("git@github.com:JoelTodd/budget.git"));
    assert!(!repo.matches_remote("https://github.com/JoelTodd/other.git"));
}

#[test]
fn mod_github_remote_name_with_owner_rejects_non_github_paths() {
    assert_eq!(
        github_remote_name_with_owner("https://github.com/JoelTodd/budget.git"),
        Some("JoelTodd/budget".to_owned())
    );
    assert_eq!(github_remote_name_with_owner("/tmp/budget.git"), None);
}

#[test]
fn mod_resolve_setup_mode_defaults_to_legacy_local_flow_when_repo_is_explicit() {
    let mode = resolve_setup_mode(
        &SetupArgs {
            repo: Some("/tmp/budget".into()),
            remote: None,
            github_create: false,
            github_connect: false,
            local_only: false,
            adopt_local: false,
            github_repo: None,
            no_open: false,
        },
        false,
    )
    .unwrap();
    assert_eq!(mode, Some(SetupMode::AdoptLocal));
}

#[test]
fn mod_resolve_setup_mode_rejects_github_repo_without_mode() {
    let error = resolve_setup_mode(
        &SetupArgs {
            repo: None,
            remote: None,
            github_create: false,
            github_connect: false,
            local_only: false,
            adopt_local: false,
            github_repo: Some("owner/name".to_owned()),
            no_open: false,
        },
        false,
    )
    .unwrap_err();
    assert!(error
        .to_string()
        .contains("`--github-repo` requires `--github-create` or `--github-connect`"));
}

#[test]
fn mod_github_repo_not_ready_checks_wrapped_error_chain() {
    let error = anyhow::Error::msg("git push -u origin main failed: remote: Repository not found.")
        .context("publishing repository state");
    let causes: Vec<String> = error.chain().map(|cause| cause.to_string()).collect();

    assert!(github_repo_not_ready(&causes));
}
