use ach::locator::{parse_azure_git_url, AzureRepoComponents};

fn components(org: &str, project: &str, repo: &str) -> Option<AzureRepoComponents> {
    Some(AzureRepoComponents {
        org: org.to_string(),
        project: project.to_string(),
        repo: repo.to_string(),
    })
}

#[test]
fn parses_valid_ssh_url() {
    let url = "git@ssh.dev.azure.com:v3/MyOrg/MyProject/MyRepo";
    let result = parse_azure_git_url(url);
    assert_eq!(
        result,
        Some(AzureRepoComponents {
            org: "MyOrg".to_string(),
            project: "MyProject".to_string(),
            repo: "MyRepo".to_string()
        })
    );
}

#[test]
fn parses_valid_https_url() {
    let url = "https://MyOrg@dev.azure.com/MyOrg/MyProject/_git/MyRepo";
    let result = parse_azure_git_url(url);
    assert_eq!(
        result,
        Some(AzureRepoComponents {
            org: "MyOrg".to_string(),
            project: "MyProject".to_string(),
            repo: "MyRepo".to_string()
        })
    );
}

#[test]
fn fails_on_malformed_ssh_url() {
    let url = "git@ssh.dev.azure.com:MyOrg/MyProject/MyRepo";
    assert_eq!(parse_azure_git_url(url), None);
}

#[test]
fn fails_on_malformed_https_url() {
    let url = "https://dev.azure.com/MyOrg/MyProject/_git/MyRepo";
    assert_eq!(parse_azure_git_url(url), None);
}

#[test]
fn fails_on_unrelated_url() {
    let url = "https://github.com/user/repo.git";
    assert_eq!(parse_azure_git_url(url), None);
}

#[test]
fn handles_underscore_in_names() {
    let url = "git@ssh.dev.azure.com:v3/Org_Name/Project_Name/Repo_Name";
    let result = parse_azure_git_url(url);
    assert_eq!(
        result,
        Some(AzureRepoComponents {
            org: "Org_Name".to_string(),
            project: "Project_Name".to_string(),
            repo: "Repo_Name".to_string()
        })
    );
}

#[test]
fn handles_dash_in_names() {
    let url = "https://org-name@dev.azure.com/org-name/proj-name/_git/repo-name";
    let result = parse_azure_git_url(url);
    assert_eq!(
        result,
        Some(AzureRepoComponents {
            org: "org-name".to_string(),
            project: "proj-name".to_string(),
            repo: "repo-name".to_string()
        })
    );
}

#[test]
fn mismatched_org_in_https_still_parses() {
    // The principal before the host may differ from the organization segment.
    let url = "https://user@dev.azure.com/SomeOrg/SomeProject/_git/SomeRepo";
    let result = parse_azure_git_url(url);
    assert_eq!(
        result,
        Some(AzureRepoComponents {
            org: "SomeOrg".to_string(),
            project: "SomeProject".to_string(),
            repo: "SomeRepo".to_string()
        })
    );
}

#[test]
fn extra_slashes_fail() {
    let url = "https://org@dev.azure.com/org/project/_git/repo/";
    assert_eq!(parse_azure_git_url(url), None);
}

#[test]
fn empty_string_fails() {
    assert_eq!(parse_azure_git_url(""), None);
}

#[test]
fn segments_are_trimmed() {
    let url = "git@ssh.dev.azure.com:v3/ MyOrg\t/MyProject /\u{3000}MyRepo";
    assert_eq!(parse_azure_git_url(url), components("MyOrg", "MyProject", "MyRepo"));
}

#[test]
fn https_segments_are_trimmed() {
    let url = "https://me@dev.azure.com/ Org / Proj /_git/ Repo ";
    assert_eq!(parse_azure_git_url(url), components("Org", "Proj", "Repo"));
}

#[test]
fn blank_segment_trims_to_empty() {
    let url = "git@ssh.dev.azure.com:v3/ /P/R";
    assert_eq!(parse_azure_git_url(url), components("", "P", "R"));
}

#[test]
fn ssh_trailing_slash_fails() {
    assert_eq!(parse_azure_git_url("git@ssh.dev.azure.com:v3/O/P/R/"), None);
}

#[test]
fn ssh_extra_segment_fails() {
    assert_eq!(parse_azure_git_url("git@ssh.dev.azure.com:v3/O/P/R/X"), None);
}

#[test]
fn ssh_empty_segment_fails() {
    assert_eq!(parse_azure_git_url("git@ssh.dev.azure.com:v3/O//R"), None);
    assert_eq!(parse_azure_git_url("git@ssh.dev.azure.com:v3//P/R"), None);
    assert_eq!(parse_azure_git_url("git@ssh.dev.azure.com:v3/O/P/"), None);
}

#[test]
fn ssh_other_host_fails() {
    assert_eq!(parse_azure_git_url("git@ssh.example.com:v3/O/P/R"), None);
}

#[test]
fn prefix_must_start_the_text() {
    assert_eq!(parse_azure_git_url(" git@ssh.dev.azure.com:v3/O/P/R"), None);
    assert_eq!(parse_azure_git_url("xhttps://a@dev.azure.com/O/P/_git/R"), None);
}

#[test]
fn https_without_git_marker_fails() {
    assert_eq!(parse_azure_git_url("https://a@dev.azure.com/O/P/git/R"), None);
    assert_eq!(parse_azure_git_url("https://a@dev.azure.com/O/P/R"), None);
}

#[test]
fn https_extra_segment_fails() {
    assert_eq!(parse_azure_git_url("https://a@dev.azure.com/O/P/_git/R/X"), None);
    assert_eq!(parse_azure_git_url("https://a@dev.azure.com/X/O/P/_git/R"), None);
}

#[test]
fn https_principal_may_hold_a_slash() {
    let url = "https://a/b@dev.azure.com/O/P/_git/R";
    assert_eq!(parse_azure_git_url(url), components("O", "P", "R"));
}

#[test]
fn https_segments_may_hold_an_at() {
    let url = "https://a@dev.azure.com/O@x/P/_git/R@y";
    assert_eq!(parse_azure_git_url(url), components("O@x", "P", "R@y"));
}

#[test]
fn https_second_at_is_not_the_host() {
    assert_eq!(parse_azure_git_url("https://a@b@dev.azure.com/O/P/_git/R"), None);
}

#[test]
fn https_empty_principal_fails() {
    assert_eq!(parse_azure_git_url("https://@dev.azure.com/O/P/_git/R"), None);
}

#[test]
fn non_ascii_segments_are_kept() {
    let url = "git@ssh.dev.azure.com:v3/Órg/Prøject/Repö";
    assert_eq!(parse_azure_git_url(url), components("Órg", "Prøject", "Repö"));
}
