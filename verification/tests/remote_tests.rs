use slnky::remote::{parse_repo_spec, Provider, RepoSpec};

#[test]
fn test_parse_shorthand_github() {
    let spec = parse_repo_spec("user/repo").unwrap();
    assert_eq!(spec.provider, Provider::GitHub);
    assert_eq!(spec.owner, "user");
    assert_eq!(spec.repo, "repo");
    assert_eq!(spec.branch, None);
}

#[test]
fn test_parse_shorthand_with_branch() {
    let spec = parse_repo_spec("user/repo@main").unwrap();
    assert_eq!(spec.provider, Provider::GitHub);
    assert_eq!(spec.owner, "user");
    assert_eq!(spec.repo, "repo");
    assert_eq!(spec.branch, Some("main".to_string()));
}

#[test]
fn test_parse_github_prefix() {
    let spec = parse_repo_spec("github:user/repo").unwrap();
    assert_eq!(spec.provider, Provider::GitHub);
    assert_eq!(spec.owner, "user");
    assert_eq!(spec.repo, "repo");
}

#[test]
fn test_parse_gitlab_prefix() {
    let spec = parse_repo_spec("gitlab:user/repo").unwrap();
    assert_eq!(spec.provider, Provider::GitLab);
    assert_eq!(spec.owner, "user");
    assert_eq!(spec.repo, "repo");
}

#[test]
fn test_parse_https_url() {
    let spec = parse_repo_spec("https://github.com/user/repo.git").unwrap();
    assert_eq!(spec.provider, Provider::GitHub);
    assert_eq!(spec.owner, "user");
    assert_eq!(spec.repo, "repo");
}

#[test]
fn test_parse_ssh_url() {
    let spec = parse_repo_spec("git@github.com:user/repo.git").unwrap();
    assert_eq!(spec.provider, Provider::GitHub);
    assert_eq!(spec.owner, "user");
    assert_eq!(spec.repo, "repo");
}

#[test]
fn test_invalid_shorthand() {
    let result = parse_repo_spec("invalid");
    assert!(result.is_err());
}

#[test]
fn test_empty_spec() {
    let result = parse_repo_spec("");
    assert!(result.is_err());
}

#[test]
fn test_cache_key_generation() {
    let spec = RepoSpec {
        provider: Provider::GitHub,
        owner: "user".to_string(),
        repo: "repo".to_string(),
        branch: None,
    };
    assert_eq!(spec.cache_key(), "github.com/user/repo");
}

#[test]
fn test_clone_url_generation() {
    let spec = RepoSpec {
        provider: Provider::GitHub,
        owner: "user".to_string(),
        repo: "repo".to_string(),
        branch: None,
    };
    assert_eq!(spec.to_clone_url(), "https://github.com/user/repo.git");
}

#[test]
fn test_parse_gitlab_https_url() {
    let spec = parse_repo_spec("https://gitlab.com/team/tools").unwrap();
    assert_eq!(spec.provider, Provider::GitLab);
    assert_eq!(spec.owner, "team");
    assert_eq!(spec.repo, "tools");
}

#[test]
fn test_parse_generic_host() {
    let spec = parse_repo_spec("git@codeberg.org:someone/dots.git").unwrap();
    assert_eq!(spec.provider, Provider::GenericGit);
    assert_eq!(spec.owner, "someone");
    assert_eq!(spec.repo, "dots");
}

#[test]
fn test_unsupported_scheme() {
    let result = parse_repo_spec("ftp://example.com/user/repo");
    // `ftp://` is not a recognized URL prefix, so it is read as shorthand
    // and fails on the owner check instead.
    assert!(result.is_err());
}

#[test]
fn test_generic_cache_key_replaces_colons() {
    let spec = RepoSpec {
        provider: Provider::GenericGit,
        owner: "ssh://host.example".to_string(),
        repo: "dots".to_string(),
        branch: None,
    };
    assert_eq!(spec.cache_key(), "git/ssh/host.example/dots");
}

#[test]
fn test_clone_url_gitlab() {
    let spec = RepoSpec {
        provider: Provider::GitLab,
        owner: "team".to_string(),
        repo: "tools".to_string(),
        branch: None,
    };
    assert_eq!(spec.to_clone_url(), "https://gitlab.com/team/tools.git");
}
