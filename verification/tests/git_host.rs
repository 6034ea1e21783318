//! Provider detection.

use kanban_core::git_host::detection::{
    classify_host, detect_provider, detect_provider_from_url, extract_host, extract_path, UrlParts,
};
use kanban_core::git_host::types::ProviderKind;

#[test]
fn test_github_com_https() {
    assert_eq!(
        detect_provider_from_url("https://github.com/owner/repo"),
        ProviderKind::GitHub
    );
    assert_eq!(
        detect_provider_from_url("https://github.com/owner/repo.git"),
        ProviderKind::GitHub
    );
}

#[test]
fn test_github_com_ssh() {
    assert_eq!(
        detect_provider_from_url("git@github.com:owner/repo.git"),
        ProviderKind::GitHub
    );
    assert_eq!(
        detect_provider_from_url("ssh://git@github.com/owner/repo.git"),
        ProviderKind::GitHub
    );
}

#[test]
fn test_gitee_urls() {
    for url in [
        "https://gitee.com/owner/repo.git",
        "git@gitee.com:owner/repo.git",
        "ssh://git@gitee.com/owner/repo.git",
        "https://gitee.com/owner/repo/pulls/123",
    ] {
        assert_eq!(detect_provider_from_url(url), ProviderKind::Gitee);
    }
}

#[test]
fn test_gitee_host_must_match_exactly() {
    for url in [
        "https://gitee.com.evil.example/owner/repo",
        "https://example.com/gitee.com/owner/repo",
        "git@gitee.com.evil.example:owner/repo.git",
    ] {
        assert_eq!(detect_provider_from_url(url), ProviderKind::Unknown);
    }
}

#[test]
fn test_github_enterprise() {
    assert_eq!(
        detect_provider_from_url("https://github.company.com/owner/repo"),
        ProviderKind::GitHub
    );
    assert_eq!(
        detect_provider_from_url("https://github.acme.corp/team/project"),
        ProviderKind::GitHub
    );
    assert_eq!(
        detect_provider_from_url("git@github.internal.io:org/repo.git"),
        ProviderKind::GitHub
    );
}

#[test]
fn test_azure_devops_https() {
    assert_eq!(
        detect_provider_from_url("https://dev.azure.com/org/project/_git/repo"),
        ProviderKind::AzureDevOps
    );
}

#[test]
fn test_azure_devops_ssh() {
    assert_eq!(
        detect_provider_from_url("git@ssh.dev.azure.com:v3/org/project/repo"),
        ProviderKind::AzureDevOps
    );
}

#[test]
fn test_azure_devops_legacy_visualstudio() {
    assert_eq!(
        detect_provider_from_url("https://org.visualstudio.com/project/_git/repo"),
        ProviderKind::AzureDevOps
    );
}

#[test]
fn test_azure_devops_git_path() {
    // Any URL with /_git/ is Azure DevOps
    assert_eq!(
        detect_provider_from_url("https://custom.domain.com/org/project/_git/repo"),
        ProviderKind::AzureDevOps
    );
}

#[test]
fn test_unknown_provider() {
    assert_eq!(
        detect_provider_from_url("https://gitlab.com/owner/repo"),
        ProviderKind::Unknown
    );
    assert_eq!(
        detect_provider_from_url("https://bitbucket.org/owner/repo"),
        ProviderKind::Unknown
    );
}

#[test]
fn test_pr_urls() {
    assert_eq!(
        detect_provider_from_url("https://github.com/owner/repo/pull/123"),
        ProviderKind::GitHub
    );
    assert_eq!(
        detect_provider_from_url("https://github.company.com/owner/repo/pull/456"),
        ProviderKind::GitHub
    );
    assert_eq!(
        detect_provider_from_url("https://dev.azure.com/org/project/_git/repo/pullrequest/123"),
        ProviderKind::AzureDevOps
    );
    assert_eq!(
        detect_provider_from_url(
            "https://org.visualstudio.com/project/_git/repo/pullrequest/456"
        ),
        ProviderKind::AzureDevOps
    );
}

#[test]
fn hosts_are_compared_without_case() {
    assert_eq!(
        detect_provider_from_url("https://GITEE.com/owner/repo"),
        ProviderKind::Gitee
    );
    assert_eq!(
        detect_provider_from_url("git@GitHub.com:owner/repo.git"),
        ProviderKind::GitHub
    );
    assert_eq!(detect_provider_from_url("not a remote"), ProviderKind::Unknown);
    assert_eq!(detect_provider_from_url("C:\\repo"), ProviderKind::Unknown);
}

#[test]
fn parsed_urls_and_remotes_are_told_apart() {
    let parsed = Some(UrlParts {
        host: Some("Example.COM".into()),
        path: "/Org/_git/R".into(),
    });
    assert_eq!(extract_host("ignored", &parsed).as_deref(), Some("example.com"));
    assert_eq!(extract_path("ignored", &parsed), "/org/_git/r");
    assert_eq!(detect_provider("ignored", &parsed), ProviderKind::AzureDevOps);
    assert_eq!(extract_host("a@b@host:x", &None).as_deref(), Some("host"));
    assert_eq!(extract_host("dir/x:y", &None), None);
    assert_eq!(extract_path("host:A/B", &None), "a/b");
    assert_eq!(classify_host("github.example", ""), ProviderKind::GitHub);
    assert_eq!(classify_host("notgithub.com", ""), ProviderKind::Unknown);
}
